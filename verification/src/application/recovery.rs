//! Recovery of an interrupted operation from its recorded facts.

use vstd::prelude::*;
use crate::domain::actual::{ActualResource, CopyTargetObservation, TargetObservation};
use crate::domain::effects::EffectView;
use crate::domain::file_copy::ContentFingerprint;
use crate::domain::file_link::LinkTarget;
use crate::domain::known::KnownResource;
use crate::domain::paths::ResolvedPath;
use crate::domain::plan::{condition_views, ActionKind, ConditionView, TargetCondition};
use crate::state::operation::{FactsView, RecordedAction, RecordedFacts, RecordedView};

verus! {

/// One look at a target.
#[derive(Debug, PartialEq, Eq)]
pub enum TargetInspection {
    Link { target_path: ResolvedPath, expected: LinkTarget },
    Copy { target_path: ResolvedPath, expected: ContentFingerprint },
}

/// The look that settles a condition.
///
/// A missing entry is looked for as a link that nothing could hold: one to itself.
pub fn inspection_for(condition: &TargetCondition) -> (inspection: TargetInspection)
    ensures
        match condition@ {
            ConditionView::ExpectedCopy { target_path, content_fingerprint } => inspection matches
                TargetInspection::Copy { target_path: path, expected } && path@ == target_path
                && expected@ == content_fingerprint,
            ConditionView::ExpectedLink { target_path, link_target } => inspection matches
                TargetInspection::Link { target_path: path, expected } && path@ == target_path
                && expected@ == link_target,
            ConditionView::Missing { target_path } => inspection matches TargetInspection::Link {
                target_path: path,
                expected,
            } && path@ == target_path && expected@ == target_path,
        },
{
    match condition {
        TargetCondition::ExpectedCopy { target_path, content_fingerprint } =>
            TargetInspection::Copy {
            target_path: target_path.clone(),
            expected: content_fingerprint.clone(),
        },
        TargetCondition::ExpectedLink { target_path, link_target } => TargetInspection::Link {
            target_path: target_path.clone(),
            expected: link_target.clone(),
        },
        TargetCondition::Missing { target_path } => TargetInspection::Link {
            target_path: target_path.clone(),
            expected: LinkTarget::new(target_path.clone()),
        },
    }
}

/// Whether an observation shows that a condition holds.
pub open spec fn shows(condition: ConditionView, actual: ActualResource) -> bool {
    match condition {
        ConditionView::ExpectedCopy { .. } => actual matches ActualResource::FileCopy(copy)
            && copy.observation is ExpectedCopy,
        ConditionView::ExpectedLink { .. } => actual matches ActualResource::FileLink(link)
            && link.observation is ExpectedLink,
        ConditionView::Missing { .. } => actual matches ActualResource::FileLink(link)
            && link.observation is Missing,
    }
}

/// Whether the look that `inspection_for` asks for shows that a condition holds.
pub fn condition_holds(condition: &TargetCondition, actual: &ActualResource) -> (holds: bool)
    ensures
        holds == shows(condition@, *actual),
{
    match condition {
        TargetCondition::ExpectedCopy { .. } => match actual {
            ActualResource::FileCopy(copy) => match copy.observation {
                CopyTargetObservation::ExpectedCopy { .. } => true,
                _ => false,
            },
            _ => false,
        },
        TargetCondition::ExpectedLink { .. } => match actual {
            ActualResource::FileLink(link) => match link.observation {
                TargetObservation::ExpectedLink { .. } => true,
                _ => false,
            },
            _ => false,
        },
        TargetCondition::Missing { .. } => match actual {
            ActualResource::FileLink(link) => match link.observation {
                TargetObservation::Missing => true,
                _ => false,
            },
            _ => false,
        },
    }
}

/// What is known of an interrupted action.
#[derive(Clone, Copy, Debug, PartialEq, Eq, Structural)]
pub enum RecoveryDecision {
    Succeeded,
    Failed,
    Uncertain,
}

/// Where a decision stands: a condition to look at, or the decision.
#[derive(Debug, PartialEq, Eq)]
pub enum RecoveryStep {
    Inspect { condition: TargetCondition },
    Decided { decision: RecoveryDecision },
}

/// Where a decision stands, as texts.
pub enum RecoveryStepView {
    Inspect { condition: ConditionView },
    Decided { decision: RecoveryDecision },
}

impl View for RecoveryStep {
    type V = RecoveryStepView;

    open spec fn view(&self) -> RecoveryStepView {
        match self {
            RecoveryStep::Inspect { condition } => RecoveryStepView::Inspect {
                condition: condition@,
            },
            RecoveryStep::Decided { decision } => RecoveryStepView::Decided {
                decision: *decision,
            },
        }
    }
}

/// The condition on the recorded temporary, if there is one: that it is gone.
pub open spec fn temporary_conditions(action: RecordedView) -> Seq<ConditionView> {
    match action.temporary_path {
        Some(path) => seq![ConditionView::Missing { target_path: path }],
        None => seq![],
    }
}

/// The conditions that together prove success.
///
/// Nothing proves that a create succeeded: a matching effect does not show who made it. A copy
/// that moves away from anything but a recorded copy cannot be proven either way.
pub open spec fn success_conditions(action: RecordedView) -> Option<Seq<ConditionView>> {
    if action.kind is CreateLink || action.kind is CreateCopy {
        None
    } else if action.kind is RelocateLink {
        Some(
            seq![
                ConditionView::Missing { target_path: action.facts->old_target_path },
                ConditionView::ExpectedLink {
                    target_path: action.facts->new_target_path,
                    link_target: action.facts->new_link_target,
                },
            ],
        )
    } else if action.kind is RelocateCopy {
        match action.facts->old_effect {
            Some(EffectView::Copy(old)) => Some(
                seq![ConditionView::Missing { target_path: old.target_path }, action.postcondition],
            ),
            _ => None,
        }
    } else {
        Some(seq![action.postcondition])
    }
}

/// The conditions that together prove that nothing was changed.
pub open spec fn failure_conditions(action: RecordedView) -> Option<Seq<ConditionView>> {
    if action.kind is RelocateLink {
        Some(
            seq![
                ConditionView::ExpectedLink {
                    target_path: action.facts->old_target_path,
                    link_target: action.facts->old_link_target,
                },
                ConditionView::Missing { target_path: action.facts->new_target_path },
            ],
        )
    } else if action.kind is RelocateCopy {
        match action.facts->old_effect {
            Some(EffectView::Copy(old)) => Some(
                seq![
                    ConditionView::ExpectedCopy {
                        target_path: old.target_path,
                        content_fingerprint: old.content_fingerprint,
                    },
                    ConditionView::Missing { target_path: action.facts->Copy_target_path },
                ],
            ),
            _ => None,
        }
    } else {
        Some(seq![action.precondition])
    }
}

/// The conditions inside an optional list.
pub open spec fn listed(conditions: Option<Seq<ConditionView>>) -> Seq<ConditionView> {
    match conditions {
        Some(list) => list,
        None => seq![],
    }
}

/// Every condition that a decision may look at, in order.
pub open spec fn recovery_questions(action: RecordedView) -> Seq<ConditionView> {
    temporary_conditions(action) + listed(success_conditions(action)) + listed(
        failure_conditions(action),
    )
}

/// Whether the answers from `start` up to `end` are all yes.
pub open spec fn all_yes(answers: Seq<bool>, start: int, end: int) -> bool {
    forall|i: int| start <= i < end ==> #[trigger] answers[i]
}

/// Where a decision stands once its first questions have been answered.
///
/// The questions on success come before those on failure, which are asked only if success is not
/// proven. A temporary that is still there proves nothing either way.
pub open spec fn recovery_step(action: RecordedView, answers: Seq<bool>) -> RecoveryStepView {
    let questions = recovery_questions(action);
    let temporaries = temporary_conditions(action).len() as int;
    let first = temporaries + listed(success_conditions(action)).len();
    let last = questions.len() as int;
    let clear = temporaries == 0 || answers[0];
    if answers.len() < first {
        RecoveryStepView::Inspect { condition: questions[answers.len() as int] }
    } else if success_conditions(action) is Some && clear && all_yes(answers, temporaries, first) {
        RecoveryStepView::Decided { decision: RecoveryDecision::Succeeded }
    } else if answers.len() < last {
        RecoveryStepView::Inspect { condition: questions[answers.len() as int] }
    } else if failure_conditions(action) is Some && clear && all_yes(answers, first, last) {
        RecoveryStepView::Decided { decision: RecoveryDecision::Failed }
    } else {
        RecoveryStepView::Decided { decision: RecoveryDecision::Uncertain }
    }
}

fn to_success_conditions(action: &RecordedAction) -> (conditions: Option<Vec<TargetCondition>>)
    ensures
        match conditions {
            Some(list) => success_conditions(action@) == Some(condition_views(list@)) && list@.len()
                <= 2,
            None => success_conditions(action@) is None,
        },
{
    let kind = action.kind();
    let mut list: Vec<TargetCondition> = Vec::new();
    match kind {
        ActionKind::CreateLink => return None,
        ActionKind::CreateCopy => return None,
        ActionKind::RelocateLink => {
            if let RecordedFacts::Relocation {
                old_target_path,
                old_link_target,
                new_target_path,
                new_link_target,
            } = action.facts() {
                list.push(TargetCondition::Missing { target_path: old_target_path.clone() });
                list.push(
                    TargetCondition::ExpectedLink {
                        target_path: new_target_path.clone(),
                        link_target: new_link_target.clone(),
                    },
                );
            }
        },
        ActionKind::RelocateCopy => {
            if let RecordedFacts::Copy { old_effect, target_path } = action.facts() {
                match old_effect {
                    Some(KnownResource::FileCopy(old)) => {
                        list.push(
                            TargetCondition::Missing { target_path: old.target_path().clone() },
                        );
                        list.push(action.postcondition().clone());
                    },
                    _ => return None,
                }
            }
        },
        _ => {
            list.push(action.postcondition().clone());
        },
    }
    proof {
        assert(success_conditions(action@) is Some);
        assert(condition_views(list@) =~= success_conditions(action@)->0);
    }
    Some(list)
}

fn to_failure_conditions(action: &RecordedAction) -> (conditions: Option<Vec<TargetCondition>>)
    ensures
        match conditions {
            Some(list) => failure_conditions(action@) == Some(condition_views(list@)) && list@.len()
                <= 2,
            None => failure_conditions(action@) is None,
        },
{
    let kind = action.kind();
    let mut list: Vec<TargetCondition> = Vec::new();
    match kind {
        ActionKind::RelocateLink => {
            if let RecordedFacts::Relocation {
                old_target_path,
                old_link_target,
                new_target_path,
                new_link_target,
            } = action.facts() {
                list.push(
                    TargetCondition::ExpectedLink {
                        target_path: old_target_path.clone(),
                        link_target: old_link_target.clone(),
                    },
                );
                list.push(TargetCondition::Missing { target_path: new_target_path.clone() });
            }
        },
        ActionKind::RelocateCopy => {
            if let RecordedFacts::Copy { old_effect, target_path } = action.facts() {
                match old_effect {
                    Some(KnownResource::FileCopy(old)) => {
                        list.push(
                            TargetCondition::ExpectedCopy {
                                target_path: old.target_path().clone(),
                                content_fingerprint: old.content_fingerprint().clone(),
                            },
                        );
                        list.push(TargetCondition::Missing { target_path: target_path.clone() });
                    },
                    _ => return None,
                }
            }
        },
        _ => {
            list.push(action.precondition().clone());
        },
    }
    proof {
        assert(failure_conditions(action@) is Some);
        assert(condition_views(list@) =~= failure_conditions(action@)->0);
    }
    Some(list)
}

fn are_all_yes(answers: &Vec<bool>, start: usize, end: usize) -> (yes: bool)
    requires
        start <= end <= answers@.len(),
    ensures
        yes == all_yes(answers@, start as int, end as int),
{
    let mut i: usize = start;
    while i < end
        invariant
            start <= i <= end <= answers@.len(),
            forall|k: int| start <= k < i ==> #[trigger] answers@[k],
        decreases end - i,
    {
        if !answers[i] {
            return false;
        }
        i += 1;
    }
    true
}

/// Decides an interrupted action from what the recorded conditions show, one look at a time.
///
/// `answers` are the answers to the conditions that earlier calls asked about, in order. A look
/// that fails ends the decision without one.
pub fn recovery_decision(action: &RecordedAction, answers: &Vec<bool>) -> (step: RecoveryStep)
    ensures
        step@ == recovery_step(action@, answers@),
{
    let ghost questions = recovery_questions(action@);
    let given = answers.len();
    let mut asked: usize = 0;
    let mut clear = true;
    if let Some(path) = action.temporary_path() {
        if given == 0 {
            return RecoveryStep::Inspect {
                condition: TargetCondition::Missing { target_path: path.clone() },
            };
        }
        clear = answers[0];
        asked = 1;
    }
    let temporaries = asked;
    if let Some(conditions) = to_success_conditions(action) {
        let end = temporaries + conditions.len();
        if given < end {
            proof {
                assert(questions[given as int] == condition_views(conditions@)[given
                    - temporaries]);
            }
            return RecoveryStep::Inspect { condition: conditions[given - temporaries].clone() };
        }
        if clear && are_all_yes(answers, temporaries, end) {
            return RecoveryStep::Decided { decision: RecoveryDecision::Succeeded };
        }
        asked = end;
    }
    if let Some(conditions) = to_failure_conditions(action) {
        let end = asked + conditions.len();
        if given < end {
            proof {
                assert(questions[given as int] == condition_views(conditions@)[given - asked]);
            }
            return RecoveryStep::Inspect { condition: conditions[given - asked].clone() };
        }
        if clear && are_all_yes(answers, asked, end) {
            return RecoveryStep::Decided { decision: RecoveryDecision::Failed };
        }
    }
    RecoveryStep::Decided { decision: RecoveryDecision::Uncertain }
}

/// What is known of an interrupted action in a world where `holds` tells what holds.
pub open spec fn verdict(action: RecordedView, holds: spec_fn(ConditionView) -> bool) -> RecoveryDecision {
    let temporaries = temporary_conditions(action);
    let clear = forall|i: int| 0 <= i < temporaries.len() ==> holds(#[trigger] temporaries[i]);
    if clear && success_conditions(action) is Some && forall|i: int|
        0 <= i < success_conditions(action)->0.len() ==> holds(
            #[trigger] success_conditions(action)->0[i],
        ) {
        RecoveryDecision::Succeeded
    } else if clear && failure_conditions(action) is Some && forall|i: int|
        0 <= i < failure_conditions(action)->0.len() ==> holds(
            #[trigger] failure_conditions(action)->0[i],
        ) {
        RecoveryDecision::Failed
    } else {
        RecoveryDecision::Uncertain
    }
}

/// Truthful answers lead to the decision that the facts allow, whatever the facts are.
pub proof fn recovery_follows_the_facts(
    action: RecordedView,
    holds: spec_fn(ConditionView) -> bool,
    answers: Seq<bool>,
    decision: RecoveryDecision,
)
    requires
        forall|i: int|
            0 <= i < answers.len() && i < recovery_questions(action).len()
                ==> #[trigger] answers[i] == holds(recovery_questions(action)[i]),
        recovery_step(action, answers) == (RecoveryStepView::Decided { decision }),
    ensures
        decision == verdict(action, holds),
{
    let questions = recovery_questions(action);
    let temporary = temporary_conditions(action);
    let success = listed(success_conditions(action));
    let failure = listed(failure_conditions(action));
    let temporaries = temporary.len() as int;
    let first = temporaries + success.len();
    let last = questions.len() as int;
    assert forall|i: int| 0 <= i < temporaries implies questions[i] == temporary[i] by {}
    assert forall|i: int| temporaries <= i < first implies questions[i] == success[i
        - temporaries] by {}
    assert forall|i: int| first <= i < last implies questions[i] == failure[i - first] by {}
    assert(success.len() <= 2);
    assert(failure.len() <= 2);
    let clear = forall|i: int| 0 <= i < temporary.len() ==> holds(#[trigger] temporary[i]);
    assert(clear == (temporaries == 0 || answers[0])) by {
        if temporaries > 0 {
            assert(answers[0] == holds(questions[0]));
            assert(questions[0] == temporary[0]);
        }
    }
    let proven = forall|i: int| 0 <= i < success.len() ==> holds(#[trigger] success[i]);
    assert(proven == all_yes(answers, temporaries, first)) by {
        if proven {
            assert forall|i: int| temporaries <= i < first implies #[trigger] answers[i] by {
                assert(holds(success[i - temporaries]));
            }
        }
        if all_yes(answers, temporaries, first) {
            assert forall|i: int| 0 <= i < success.len() implies holds(#[trigger] success[i]) by {
                assert(answers[i + temporaries]);
                assert(questions[i + temporaries] == success[i]);
            }
        }
    }
    if answers.len() >= last {
        let unchanged = forall|i: int| 0 <= i < failure.len() ==> holds(#[trigger] failure[i]);
        assert(unchanged == all_yes(answers, first, last)) by {
            if unchanged {
                assert forall|i: int| first <= i < last implies #[trigger] answers[i] by {
                    assert(holds(failure[i - first]));
                }
            }
            if all_yes(answers, first, last) {
                assert forall|i: int| 0 <= i < failure.len() implies holds(#[trigger] failure[i]) by {
                    assert(answers[i + first]);
                    assert(questions[i + first] == failure[i]);
                }
            }
        }
    }
}

/// A decision comes after at most as many looks as there are recorded conditions.
pub proof fn recovery_decides(action: RecordedView, answers: Seq<bool>)
    requires
        answers.len() >= recovery_questions(action).len(),
    ensures
        recovery_step(action, answers) is Decided,
{
}

/// Recovery never adopts an effect for a create: whatever is observed, it is not a success.
pub proof fn create_is_never_recovered_as_success(action: RecordedView, answers: Seq<bool>)
    requires
        action.kind is CreateLink || action.kind is CreateCopy,
    ensures
        recovery_step(action, answers) != (RecoveryStepView::Decided {
            decision: RecoveryDecision::Succeeded,
        }),
{
}

/// While the recorded temporary is there, nothing is decided either way.
pub proof fn temporary_keeps_an_action_uncertain(
    action: RecordedView,
    answers: Seq<bool>,
    decision: RecoveryDecision,
)
    requires
        action.temporary_path is Some,
        answers.len() > 0,
        !answers[0],
        recovery_step(action, answers) == (RecoveryStepView::Decided { decision }),
    ensures
        decision is Uncertain,
{
}

/// Whether every answer is true of the condition that was asked about when it was given.
pub open spec fn answered_truthfully(
    action: RecordedView,
    answers: Seq<bool>,
    holds: spec_fn(ConditionView) -> bool,
) -> bool {
    forall|i: int|
        0 <= i < answers.len() ==> (#[trigger] recovery_step(action, answers.take(i)) matches
            RecoveryStepView::Inspect { condition } ==> answers[i] == holds(condition))
}

/// Whether no temporary is left of an action.
pub open spec fn temporary_is_gone(
    action: RecordedView,
    holds: spec_fn(ConditionView) -> bool,
) -> bool {
    action.temporary_path matches Some(path) ==> holds(ConditionView::Missing { target_path: path })
}

proof fn lemma_truthful_questions(
    action: RecordedView,
    holds: spec_fn(ConditionView) -> bool,
    answers: Seq<bool>,
    end: int,
)
    requires
        answered_truthfully(action, answers, holds),
        0 <= end <= answers.len(),
        end <= recovery_questions(action).len(),
        forall|i: int| 0 <= i < end ==> #[trigger] recovery_step(action, answers.take(i)) is Inspect,
    ensures
        forall|i: int|
            0 <= i < end ==> #[trigger] answers[i] == holds(recovery_questions(action)[i]),
{
    assert forall|i: int| 0 <= i < end implies #[trigger] answers[i] == holds(
        recovery_questions(action)[i],
    ) by {
        let given = answers.take(i);
        assert(given.len() == i);
        assert(recovery_step(action, given) is Inspect);
    }
}

proof fn lemma_truthful_verdict(
    action: RecordedView,
    holds: spec_fn(ConditionView) -> bool,
    answers: Seq<bool>,
    decision: RecoveryDecision,
)
    requires
        answered_truthfully(action, answers, holds),
        recovery_step(action, answers) == (RecoveryStepView::Decided { decision }),
    ensures
        decision == verdict(action, holds),
{
    let questions = recovery_questions(action);
    let temporaries = temporary_conditions(action).len() as int;
    let first = temporaries + listed(success_conditions(action)).len();
    let last = questions.len() as int;
    assert(temporaries <= 1);
    assert(answers.len() >= first);
    let early = answers.take(first);
    if recovery_step(action, early) is Decided {
        assert forall|i: int| 0 <= i < first implies #[trigger] recovery_step(
            action,
            answers.take(i),
        ) is Inspect by {
            assert(answers.take(i).len() == i);
        }
        lemma_truthful_questions(action, holds, answers, first);
        assert(forall|i: int| 0 <= i < first ==> early[i] == answers[i]);
        if first < last {
            assert(all_yes(early, temporaries, first));
            assert(all_yes(answers, temporaries, first)) by {
                assert forall|i: int| temporaries <= i < first implies #[trigger] answers[i] by {
                    assert(early[i]);
                }
            }
            recovery_follows_the_facts(action, holds, early, RecoveryDecision::Succeeded);
        } else {
            assert(all_yes(early, temporaries, first) == all_yes(answers, temporaries, first)) by {
                if all_yes(early, temporaries, first) {
                    assert forall|i: int| temporaries <= i < first implies #[trigger] answers[i] by {
                        assert(early[i]);
                    }
                }
                if all_yes(answers, temporaries, first) {
                    assert forall|i: int| temporaries <= i < first implies #[trigger] early[i] by {
                        assert(answers[i]);
                    }
                }
            }
            recovery_follows_the_facts(action, holds, answers, decision);
        }
    } else {
        let proven = success_conditions(action) is Some && (temporaries == 0 || answers[0])
            && all_yes(answers, temporaries, first);
        assert(!proven) by {
            if proven {
                assert forall|i: int| temporaries <= i < first implies #[trigger] early[i] by {
                    assert(answers[i]);
                }
                assert(temporaries > 0 ==> first > 0 && early[0] == answers[0]);
                assert(all_yes(early, temporaries, first));
            }
        }
        assert(answers.len() >= last);
        assert forall|i: int| 0 <= i < last implies #[trigger] recovery_step(
            action,
            answers.take(i),
        ) is Inspect by {
            let given = answers.take(i);
            assert(given.len() == i);
            if i >= first {
                assert(temporaries > 0 ==> i > 0 && given[0] == answers[0]);
                if all_yes(given, temporaries, first) {
                    assert forall|k: int| temporaries <= k < first implies #[trigger] answers[k] by {
                        assert(given[k]);
                    }
                    assert(all_yes(answers, temporaries, first));
                }
            }
        }
        lemma_truthful_questions(action, holds, answers, last);
        recovery_follows_the_facts(action, holds, answers, decision);
    }
}

/// An action that neither creates nor moves anything is recovered by its two recorded conditions.
///
/// With its temporary gone it succeeded exactly if its postcondition holds. Otherwise it failed
/// exactly if its precondition holds. In every other case nothing is known of it.
pub proof fn action_is_recovered_by_its_two_conditions(
    action: RecordedView,
    holds: spec_fn(ConditionView) -> bool,
    answers: Seq<bool>,
    decision: RecoveryDecision,
)
    requires
        action.kind !is CreateLink,
        action.kind !is CreateCopy,
        action.kind !is RelocateLink,
        action.kind !is RelocateCopy,
        answered_truthfully(action, answers, holds),
        recovery_step(action, answers) == (RecoveryStepView::Decided { decision }),
    ensures
        decision is Succeeded <==> temporary_is_gone(action, holds) && holds(action.postcondition),
        decision is Failed <==> temporary_is_gone(action, holds) && !holds(action.postcondition)
            && holds(action.precondition),
{
    lemma_truthful_verdict(action, holds, answers, decision);
    lemma_temporary(action, holds);
    let success = success_conditions(action)->0;
    let failure = failure_conditions(action)->0;
    assert(holds(success[0]) == holds(action.postcondition));
    assert(holds(failure[0]) == holds(action.precondition));
}

/// A create failed exactly if its temporary is gone and its precondition still holds. Otherwise
/// nothing is known of it, and whatever is found at its target is not taken for its work.
pub proof fn create_is_recovered_by_its_precondition(
    action: RecordedView,
    holds: spec_fn(ConditionView) -> bool,
    answers: Seq<bool>,
    decision: RecoveryDecision,
)
    requires
        action.kind is CreateLink || action.kind is CreateCopy,
        answered_truthfully(action, answers, holds),
        recovery_step(action, answers) == (RecoveryStepView::Decided { decision }),
    ensures
        decision !is Succeeded,
        decision is Failed <==> temporary_is_gone(action, holds) && holds(action.precondition),
{
    lemma_truthful_verdict(action, holds, answers, decision);
    lemma_temporary(action, holds);
    let failure = failure_conditions(action)->0;
    assert(holds(failure[0]) == holds(action.precondition));
}

/// A moved link succeeded exactly if it stands at its new target and nothing is at the old one. It
/// failed exactly if that is not so and it still stands at the old target with nothing at the new
/// one.
pub proof fn moved_link_is_recovered_by_both_targets(
    action: RecordedView,
    holds: spec_fn(ConditionView) -> bool,
    answers: Seq<bool>,
    decision: RecoveryDecision,
    old_target_path: Seq<char>,
    old_link_target: Seq<char>,
    new_target_path: Seq<char>,
    new_link_target: Seq<char>,
)
    requires
        action.kind is RelocateLink,
        action.facts == (FactsView::Relocation {
            old_target_path,
            old_link_target,
            new_target_path,
            new_link_target,
        }),
        answered_truthfully(action, answers, holds),
        recovery_step(action, answers) == (RecoveryStepView::Decided { decision }),
    ensures
        ({
            let arrived = holds(ConditionView::Missing { target_path: old_target_path }) && holds(
                ConditionView::ExpectedLink {
                    target_path: new_target_path,
                    link_target: new_link_target,
                },
            );
            let stayed = holds(
                ConditionView::ExpectedLink {
                    target_path: old_target_path,
                    link_target: old_link_target,
                },
            ) && holds(ConditionView::Missing { target_path: new_target_path });
            &&& decision is Succeeded <==> temporary_is_gone(action, holds) && arrived
            &&& decision is Failed <==> temporary_is_gone(action, holds) && !arrived && stayed
        }),
{
    lemma_truthful_verdict(action, holds, answers, decision);
    lemma_temporary(action, holds);
    lemma_pair(success_conditions(action)->0, holds);
    lemma_pair(failure_conditions(action)->0, holds);
}

/// A moved copy succeeded exactly if its postcondition holds and nothing is at the old target. It
/// failed exactly if that is not so and the old copy still stands with nothing at the new target.
/// Of a copy that moved away from anything but a recorded copy nothing is known.
pub proof fn moved_copy_is_recovered_by_both_targets(
    action: RecordedView,
    holds: spec_fn(ConditionView) -> bool,
    answers: Seq<bool>,
    decision: RecoveryDecision,
    old_effect: Option<EffectView>,
    target_path: Seq<char>,
)
    requires
        action.kind is RelocateCopy,
        action.facts == (FactsView::Copy { old_effect, target_path }),
        answered_truthfully(action, answers, holds),
        recovery_step(action, answers) == (RecoveryStepView::Decided { decision }),
    ensures
        match old_effect {
            Some(EffectView::Copy(old)) => {
                let arrived = holds(ConditionView::Missing { target_path: old.target_path })
                    && holds(action.postcondition);
                let stayed = holds(
                    ConditionView::ExpectedCopy {
                        target_path: old.target_path,
                        content_fingerprint: old.content_fingerprint,
                    },
                ) && holds(ConditionView::Missing { target_path });
                &&& decision is Succeeded <==> temporary_is_gone(action, holds) && arrived
                &&& decision is Failed <==> temporary_is_gone(action, holds) && !arrived && stayed
            },
            _ => decision is Uncertain,
        },
{
    lemma_truthful_verdict(action, holds, answers, decision);
    lemma_temporary(action, holds);
    if old_effect matches Some(EffectView::Copy(_)) {
        lemma_pair(success_conditions(action)->0, holds);
        lemma_pair(failure_conditions(action)->0, holds);
    }
}

/// A decision comes after at most five looks: one at the temporary, and one at each of two targets
/// for success and for failure.
pub proof fn recovery_decides_after_five_looks(action: RecordedView, answers: Seq<bool>)
    requires
        answers.len() >= 5,
    ensures
        recovery_step(action, answers) is Decided,
{
}

proof fn lemma_temporary(action: RecordedView, holds: spec_fn(ConditionView) -> bool)
    ensures
        temporary_is_gone(action, holds) == (forall|i: int|
            0 <= i < temporary_conditions(action).len() ==> holds(
                #[trigger] temporary_conditions(action)[i],
            )),
{
    let temporaries = temporary_conditions(action);
    if let Some(path) = action.temporary_path {
        assert(temporaries[0] == ConditionView::Missing { target_path: path });
        assert(holds(temporaries[0]) == temporary_is_gone(action, holds));
    }
}

proof fn lemma_pair(list: Seq<ConditionView>, holds: spec_fn(ConditionView) -> bool)
    requires
        list.len() == 2,
    ensures
        (forall|i: int| 0 <= i < list.len() ==> holds(#[trigger] list[i])) == (holds(list[0])
            && holds(list[1])),
{
}

/// What settles a condition: a copy is looked for with the recorded content, a link with the
/// recorded target, and nothing but the expected effect, or nothing at all, shows that it holds.
pub proof fn condition_is_shown_by_its_own_effect_alone(
    condition: TargetCondition,
    actual: ActualResource,
    holds: bool,
)
    requires
        call_ensures(condition_holds, (&condition, &actual), holds),
    ensures
        holds && condition@ is ExpectedLink ==> (actual matches ActualResource::FileLink(link)
            && link.observation is ExpectedLink),
        holds && condition@ is ExpectedCopy ==> (actual matches ActualResource::FileCopy(copy)
            && copy.observation is ExpectedCopy),
        holds && condition@ is Missing ==> (actual matches ActualResource::FileLink(link)
            && link.observation is Missing),
        condition@ is ExpectedLink && (actual matches ActualResource::FileLink(link)
            && link.observation is ExpectedLink) ==> holds,
        condition@ is ExpectedCopy && (actual matches ActualResource::FileCopy(copy)
            && copy.observation is ExpectedCopy) ==> holds,
        condition@ is Missing && (actual matches ActualResource::FileLink(link) && link.observation
            is Missing) ==> holds,
{
}

} // verus!
