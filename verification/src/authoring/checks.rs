//! What each check of the file system comes to: when it passes, and what is to blame when it does
//! not.

use vstd::prelude::*;
use vstd::string::*;
use crate::authoring::config_set;
use crate::authoring::config_set::{
    parent_steps, publication_steps, temporary_steps, ConfigSetError, PublishingView,
    ReplaceFailure, SetErrorView, SetRequest, SetStep, TEMPORARY_ATTEMPTS,
};
use crate::authoring::config_use;
use crate::authoring::config_use::{
    ConfigUseError, PublishFailure, SelectingView, UseErrorView, UsePhase, UseReply, UseRequest,
    UseStep, UsingView, Written,
};
use crate::authoring::files::{read_path, CanonicalPath, EntryFacts, FileError};
use crate::authoring::init;
use crate::authoring::init::{
    following, Bundle, InitError, InitErrorView, InitFile, InitStep, BASE_YAML, CONFIG_YAML,
};
use crate::domain::paths::{same_path, Platform, ResolvedPath};
use crate::text::{closes, opens};

verus! {

/// A directory and a file are taken as such only themselves, never through a symbolic link.
pub proof fn link_is_never_taken_for_what_it_leads_to(
    facts: EntryFacts,
    directory: bool,
    file: bool,
)
    requires
        call_ensures(EntryFacts::is_plain_directory, (&facts,), directory),
        call_ensures(EntryFacts::is_plain_file, (&facts,), file),
    ensures
        directory <==> facts.directory && !facts.symlink,
        file <==> facts.file && !facts.symlink,
        facts.symlink ==> !directory && !file,
{
}

/// A parent of the configuration passes exactly if it is a directory itself and its path can be
/// read. What the file system refused is its own fault, and everything else that of the input.
pub proof fn parent_passes_exactly_as_a_directory(
    path: &str,
    look: Result<EntryFacts, FileError>,
    platform: Platform,
    read: Result<ResolvedPath, String>,
    outcome: Result<(), ConfigSetError>,
)
    requires
        call_ensures(config_set::verify_parent, (path, look, platform), outcome),
        call_ensures(read_path, (path, platform), read),
    ensures
        outcome is Ok <==> read is Ok && (look matches Ok(facts) && facts.directory
            && !facts.symlink),
        (outcome matches Err(error) ==> (error@ is Io <==> look is Err) && (error@ is Input
            <==> look is Ok)),
        (outcome matches Err(error) ==> (look matches Err(source) ==> (error@ matches
            SetErrorView::Io { action, path: at, source: given } && at == path@ && given
            == source@ && action == "inspect configuration parent"@))),
{
}

/// A parent of the configuration leads where it says exactly if its canonical path and its declared
/// path are the same.
pub proof fn parent_is_associated_exactly_with_its_own_path(
    path: &str,
    canonical: CanonicalPath,
    platform: Platform,
    declared: Result<ResolvedPath, String>,
    observed: Result<ResolvedPath, String>,
    set: Result<(), ConfigSetError>,
    used: Result<(), ConfigUseError>,
)
    requires
        call_ensures(
            config_set::verify_parent_association,
            (path, Ok::<CanonicalPath, FileError>(canonical), platform),
            set,
        ),
        call_ensures(
            config_use::validate_association,
            (path, Ok::<CanonicalPath, FileError>(canonical), platform),
            used,
        ),
        call_ensures(read_path, (path, platform), declared),
        call_ensures(CanonicalPath::read, (&canonical, platform), observed),
    ensures
        set is Ok <==> declared is Ok && observed is Ok && same_path(
            declared->Ok_0@,
            observed->Ok_0@,
        ),
        used is Ok <==> set is Ok,
        (set matches Err(error) ==> error@ is Input),
        (used matches Err(error) ==> error@ is Invalid),
{
}

/// What could not be canonicalized is the fault of the file system.
pub proof fn parent_that_cannot_be_followed_is_no_fault_of_the_input(
    path: &str,
    source: FileError,
    platform: Platform,
    set: Result<(), ConfigSetError>,
    used: Result<(), ConfigUseError>,
)
    requires
        call_ensures(
            config_set::verify_parent_association,
            (path, Err::<CanonicalPath, FileError>(source), platform),
            set,
        ),
        call_ensures(
            config_use::validate_association,
            (path, Err::<CanonicalPath, FileError>(source), platform),
            used,
        ),
    ensures
        set matches Err(error) && (error@ matches SetErrorView::Io { path: at, source: given, .. }
            && at == path@ && given == source@),
        used matches Err(error) && (error@ matches UseErrorView::Io { path: at, source: given, .. }
            && at == path@ && given == source@),
{
}

/// The configuration file passes exactly if it is a regular file itself. One that is absent is the
/// fault of the input, as is anything else in its place.
pub proof fn configuration_passes_exactly_as_a_regular_file(
    path: &str,
    look: Result<EntryFacts, FileError>,
    outcome: Result<(), ConfigSetError>,
)
    requires
        call_ensures(config_set::verify_regular, (path, look), outcome),
    ensures
        outcome is Ok <==> (look matches Ok(facts) && facts.file && !facts.symlink),
        (outcome matches Err(error) ==> (error@ is Io <==> (look matches Err(source) && !(
        source.kind is NotFound)))),
        (outcome matches Err(error) ==> error@ is Io || error@ is Input),
        (outcome matches Err(error) ==> (error@ matches SetErrorView::Input { message, .. } ==> (
        message == "configuration file is absent"@ <==> look is Err))),
{
    reveal_strlit("configuration file is absent");
    reveal_strlit("expected a regular non-symlink file");
    assert("configuration file is absent"@.len() != "expected a regular non-symlink file"@.len());
}

/// An edit goes on exactly if the file still holds the document that was edited, and is done exactly
/// if the file then holds the candidate. Before the replacement a difference is the fault of the
/// input, and after it that of the publication.
pub proof fn edit_goes_on_exactly_with_the_document_it_was_made_of(
    path: &str,
    original: &str,
    candidate: &str,
    read: Result<String, FileError>,
    before: Result<(), ConfigSetError>,
    after: Result<(), ConfigSetError>,
)
    requires
        call_ensures(config_set::verify_original, (path, original, read), before),
        call_ensures(config_set::verify_published, (path, candidate, &read), after),
    ensures
        before is Ok <==> (read matches Ok(text) && text@ == original@),
        after is Ok <==> (read matches Ok(text) && text@ == candidate@),
        (before matches Err(error) ==> (error@ is Io <==> read is Err) && (error@ is Input
            <==> read is Ok)),
        (after matches Err(error) ==> (error@ is Io <==> read is Err) && (error@ is Published
            <==> read is Ok)),
{
}

/// A written document passes exactly if it can be parsed.
pub proof fn written_document_passes_exactly_if_it_parses(
    path: &str,
    parsed: Result<Vec<String>, String>,
    outcome: Result<(), ConfigSetError>,
)
    requires
        call_ensures(config_set::verify_meaning, (path, parsed), outcome),
    ensures
        outcome is Ok <==> parsed is Ok,
        (outcome matches Err(error) ==> (error@ matches SetErrorView::Published { path: at, message }
            && at == path@ && message == parsed->Err_0@)),
{
}

/// A replacement that the platform does not have is the fault of the input, and one that failed that of
/// the file system.
pub proof fn failed_replacement_is_told_from_one_that_cannot_be(
    destination: &str,
    replaced: Result<(), ReplaceFailure>,
    outcome: Result<(), ConfigSetError>,
)
    requires
        call_ensures(config_set::replace, (destination, replaced), outcome),
    ensures
        outcome is Ok <==> replaced is Ok,
        (outcome matches Err(error) ==> (error@ is Input <==> replaced == Err::<(), ReplaceFailure>(
            ReplaceFailure::Unsupported,
        ))),
        (outcome matches Err(error) ==> (replaced matches Err(ReplaceFailure::Failed(source)) ==> (
        error@ matches SetErrorView::Io { path, source: given, .. } && path == destination@ && given
            == source@))),
{
}

/// What an edit that failed says names the path, each fault in its own words.
pub proof fn failed_edit_says_what_is_to_blame(error: ConfigSetError, text: String)
    requires
        call_ensures(ConfigSetError::to_text, (&error,), text),
    ensures
        match error@ {
            SetErrorView::Input { path, message } => opens(
                text@,
                "cannot edit configuration "@ + path + ": "@,
            ) && closes(text@, message),
            SetErrorView::Io { action, path, source } => opens(
                text@,
                "cannot "@ + action + " "@ + path + ": "@,
            ) && closes(text@, source.message),
            SetErrorView::Published { path, message } => opens(
                text@,
                "published configuration is invalid at "@ + path + ": "@,
            ) && closes(text@, message),
        },
{
}

/// The temporary file of an edit is named, made, written, flushed, read and parsed, in this order, and
/// nothing else happens in between.
pub proof fn temporary_is_made_in_order(i: int)
    requires
        0 <= i < temporary_steps().len(),
    ensures
        temporary_steps()[0] is Number,
        temporary_steps().last() is TemporaryMeaning,
        i > 0 ==> (temporary_steps()[i] is Create <==> temporary_steps()[i - 1] is Number),
        i > 0 ==> (temporary_steps()[i] is Write <==> temporary_steps()[i - 1] is Create),
        i > 0 ==> (temporary_steps()[i] is FlushTemporary <==> temporary_steps()[i - 1] is Write),
        i > 0 ==> (temporary_steps()[i] is Reread <==> temporary_steps()[i - 1] is FlushTemporary),
        i > 0 ==> (temporary_steps()[i] is TemporaryMeaning <==> temporary_steps()[i - 1]
            is Reread),
        temporary_steps()[i] is Number <==> i == 0,
{
}

/// Every parent is looked at and then followed, from the outermost on.
pub proof fn every_parent_is_looked_at_and_followed(n: nat, i: int)
    requires
        n <= usize::MAX,
        0 <= i < n,
    ensures
        parent_steps(n).len() == 2 * n,
        parent_steps(n)[2 * i] == SetStep::Directory(i as usize),
        parent_steps(n)[2 * i + 1] == SetStep::Association(i as usize),
    decreases n,
{
    let before = parent_steps((n - 1) as nat);
    if n > 1 {
        every_parent_is_looked_at_and_followed((n - 1) as nat, 0);
    }
    if i < n - 1 {
        every_parent_is_looked_at_and_followed((n - 1) as nat, i);
    }
}

/// A publication checks the parents, the file and the document both before and after it makes its
/// temporary, and the published file both before and after the parent is flushed.
pub proof fn publication_checks_before_and_after(n: nat, platform: Platform)
    ensures
        publication_steps(n, platform) == parent_steps(n) + seq![
            SetStep::Regular,
            SetStep::Original,
        ] + temporary_steps() + parent_steps(n) + seq![
            SetStep::Regular,
            SetStep::Original,
            SetStep::Replace,
        ] + parent_steps(n) + seq![SetStep::Regular, SetStep::Published, SetStep::Meaning] + (
        if platform is Unix {
            seq![SetStep::FlushParent]
        } else {
            Seq::empty()
        }) + parent_steps(n) + seq![SetStep::Regular, SetStep::Published, SetStep::Meaning],
{
    reveal(publication_steps);
    assert(publication_steps(n, platform) =~= parent_steps(n) + seq![
        SetStep::Regular,
        SetStep::Original,
    ] + temporary_steps() + parent_steps(n) + seq![
        SetStep::Regular,
        SetStep::Original,
        SetStep::Replace,
    ] + parent_steps(n) + seq![SetStep::Regular, SetStep::Published, SetStep::Meaning] + (
    if platform is Unix {
        seq![SetStep::FlushParent]
    } else {
        Seq::empty()
    }) + parent_steps(n) + seq![SetStep::Regular, SetStep::Published, SetStep::Meaning]);
}

/// What an edit writes is the candidate, to its temporary, and what it replaces is its destination, by
/// its temporary.
pub proof fn edit_writes_the_candidate_to_its_temporary(
    publishing: PublishingView,
    request: SetRequest,
)
    requires
        publishing.sound(),
        publishing.requests(request),
    ensures
        request is Finished <==> publishing.ended is Some,
        (request matches SetRequest::Write { path, contents } ==> path@ == publishing.temporary
            && contents@ == publishing.preparation.candidate),
        (request matches SetRequest::Replace { temporary, destination } ==> temporary@
            == publishing.temporary && destination@ == publishing.preparation.destination),
        (request matches SetRequest::Create { path } ==> path@ == publishing.temporary),
        (request matches SetRequest::Flush { path } ==> path@ == publishing.temporary),
        (request matches SetRequest::FlushDirectory { path } ==> path@ == publishing.parent),
        (request matches SetRequest::Parse { document } ==> document@ == publishing.text),
        publishing.ended is None ==> (request is Write <==> publishing.steps[publishing.at]
            is Write) && (request is Replace <==> publishing.steps[publishing.at] is Replace) && (
        request is Create <==> publishing.steps[publishing.at] is Create) && (request is Flush
            <==> publishing.steps[publishing.at] is FlushTemporary) && (request is FlushDirectory
            <==> publishing.steps[publishing.at] is FlushParent) && (request is Number
            <==> publishing.steps[publishing.at] is Number),
        publishing.ended is None ==> (request matches SetRequest::Read { path } ==> path@ == if
            publishing.steps[publishing.at] is Reread {
            publishing.temporary
        } else {
            publishing.preparation.destination
        }),
{
}

/// A parent of the runtime configuration passes exactly if it is a directory itself.
pub proof fn runtime_parent_passes_exactly_as_a_directory(
    path: &str,
    facts: EntryFacts,
    look: Result<EntryFacts, FileError>,
    before: Result<(), ConfigUseError>,
    after: Result<(), ConfigUseError>,
)
    requires
        call_ensures(config_use::validate_directory, (path, facts), before),
        call_ensures(config_use::verify_existing_safe_parent, (path, look), after),
    ensures
        before is Ok <==> facts.directory && !facts.symlink,
        (before matches Err(error) ==> (error@ matches UseErrorView::Invalid { path: at, .. } && at
            == path@)),
        after is Ok <==> (look matches Ok(found) && found.directory && !found.symlink),
        (after matches Err(error) ==> (error@ is Io <==> (look matches Err(source) && !(source.kind
            is NotFound))) && (error@ is Io || error@ is InvalidPublished)),
{
}

/// A runtime configuration is there exactly if it is a regular file itself, and absent exactly if
/// nothing was found. Anything else is refused.
pub proof fn runtime_configuration_is_there_or_absent(
    path: &str,
    look: Result<EntryFacts, FileError>,
    outcome: Result<bool, ConfigUseError>,
)
    requires
        call_ensures(config_use::inspect_destination, (path, look), outcome),
    ensures
        outcome == Ok::<bool, ConfigUseError>(true) <==> (look matches Ok(facts) && facts.file
            && !facts.symlink),
        outcome == Ok::<bool, ConfigUseError>(false) <==> (look matches Err(source) && source.kind
            is NotFound),
        (outcome matches Err(error) ==> (error@ is Invalid <==> look is Ok) && (error@ is Io
            <==> look is Err)),
{
}

/// What is published where something is already is a collision, and every other failure is that of the
/// file system. Where the platform can publish nothing at once, that is said.
pub proof fn failed_publication_is_told_from_a_collision(
    path: &str,
    source: FileError,
    published: Result<(), PublishFailure>,
    platform: Platform,
    failed: ConfigUseError,
    anew: Result<(), ConfigUseError>,
    over: Result<(), ConfigUseError>,
)
    requires
        call_ensures(config_use::publication_error, (path, source), failed),
        call_ensures(config_use::publish_without_replacement, (path, published), anew),
        call_ensures(config_use::publish_replacement, (path, published, platform), over),
    ensures
        failed@ is Collision <==> source.kind is AlreadyExists,
        failed@ is Io <==> !(source.kind is AlreadyExists),
        (failed@ matches UseErrorView::Io { path: at, source: given, .. } ==> at == path@ && given
            == source@),
        anew is Ok <==> published is Ok,
        over is Ok <==> published is Ok,
        (anew matches Err(error) ==> (error@ is UnsupportedPlatform <==> published == Err::<
            (),
            PublishFailure,
        >(PublishFailure::Unsupported))),
        (over matches Err(error) ==> (error@ is UnsupportedPlatform <==> published == Err::<
            (),
            PublishFailure,
        >(PublishFailure::Unsupported))),
        (anew matches Err(error) ==> (error@ is Collision <==> (published matches Err(
            PublishFailure::Failed(given),
        ) && given.kind is AlreadyExists))),
        (over matches Err(error) ==> (error@ is Collision <==> platform is Windows && (
        published matches Err(PublishFailure::Failed(given)) && given.kind is AlreadyExists))),
{
}

/// What is wrong with a temporary that was read again is the fault of the file system: nothing was
/// published yet.
pub proof fn wrong_temporary_is_no_fault_of_a_publication(
    error: ConfigUseError,
    changed: ConfigUseError,
)
    requires
        call_ensures(config_use::verify_temporary, (error,), changed),
    ensures
        changed@ !is InvalidPublished,
        error@ !is InvalidPublished ==> changed@ == error@,
        (error@ matches UseErrorView::InvalidPublished { path, message } ==> (changed@ matches
            UseErrorView::Io { path: at, source, .. } && at == path && source.message == message)),
{
}

/// Nothing may stand where a bundle is made: it is absent exactly if nothing was found, and what was
/// found, or could not be looked at, is told apart.
pub proof fn bundle_is_made_only_where_nothing_is(
    path: &str,
    look: Result<EntryFacts, FileError>,
    source: FileError,
    outcome: Result<(), InitError>,
    failed: InitError,
    published: Result<(), InitError>,
)
    requires
        call_ensures(init::ensure_absent, (path, look), outcome),
        call_ensures(init::publication_error, (path, source), failed),
        call_ensures(
            init::publish_without_replacement,
            (path, Err::<(), FileError>(source)),
            published,
        ),
    ensures
        outcome is Ok <==> (look matches Err(source) && source.kind is NotFound),
        (outcome matches Err(error) ==> (error@ is AlreadyExists <==> look is Ok) && (error@ is Io
            <==> look is Err)),
        failed@ is AlreadyExists <==> source.kind is AlreadyExists,
        published matches Err(error) && error@ == failed@,
{
}

/// A file of a new bundle passes exactly if it holds what was meant for it.
pub proof fn bundle_passes_exactly_with_what_was_meant(
    path: &str,
    file: InitFile,
    read: Result<String, FileError>,
    parsed: Result<(), String>,
    outcome: Result<(), InitError>,
    meaning: Result<(), InitError>,
)
    requires
        call_ensures(init::validate_generated_bundle, (path, file, read), outcome),
        call_ensures(init::validate_meaning, (path, parsed), meaning),
    ensures
        outcome is Ok <==> (read matches Ok(text) && text@ == if file is Config {
            CONFIG_YAML@
        } else {
            BASE_YAML@
        }),
        (outcome matches Err(error) ==> (error@ is Io <==> read is Err) && (error@
            is InvalidGeneratedBundle <==> read is Ok)),
        meaning is Ok <==> parsed is Ok,
        (meaning matches Err(error) ==> error@ is InvalidGeneratedBundle),
{
}

/// What an initialization does next is told by what it did: every file is made, then written, then
/// flushed, the staged bundle is read and parsed before anything is published, and the published one
/// after it.
pub proof fn bundle_is_made_in_order(step: InitStep, platform: Platform, file: InitFile)
    ensures
        following(step, platform) == Some(InitStep::Number) <==> step is Absent,
        following(step, platform) == Some(InitStep::Staging) <==> step is Number,
        following(step, platform) == Some(InitStep::Profiles) <==> step is Staging,
        following(step, platform) == Some(InitStep::Create(InitFile::Config)) <==> step is Profiles,
        following(step, platform) == Some(InitStep::Create(InitFile::Base)) <==> step
            == InitStep::Flush(InitFile::Config),
        following(step, platform) == Some(InitStep::Write(file)) <==> step == InitStep::Create(file),
        following(step, platform) == Some(InitStep::Flush(file)) <==> step == InitStep::Write(file),
        following(step, platform) == Some(InitStep::FlushProfiles) <==> platform is Unix && step
            == InitStep::Flush(InitFile::Base),
        following(step, platform) == Some(InitStep::FlushStaging) <==> step is FlushProfiles,
        following(step, platform) == Some(InitStep::Read(Bundle::Staging, InitFile::Config))
            <==> step is FlushStaging || platform is Windows && step == InitStep::Flush(
            InitFile::Base,
        ),
        following(step, platform) == Some(InitStep::Read(Bundle::Staging, InitFile::Base))
            <==> step == InitStep::Parse(Bundle::Staging, InitFile::Config),
        following(step, platform) == Some(InitStep::AbsentAgain) <==> step == InitStep::Parse(
            Bundle::Staging,
            InitFile::Base,
        ),
        following(step, platform) == Some(InitStep::Publish) <==> step is AbsentAgain,
        following(step, platform) == Some(InitStep::Read(Bundle::Published, InitFile::Config))
            <==> step is Publish,
        following(step, platform) == Some(InitStep::Read(Bundle::Published, InitFile::Base))
            <==> step == InitStep::Parse(Bundle::Published, InitFile::Config),
        following(step, platform) == Some(InitStep::Parse(Bundle::Staging, file)) <==> step
            == InitStep::Read(Bundle::Staging, file),
        following(step, platform) == Some(InitStep::Parse(Bundle::Published, file)) <==> step
            == InitStep::Read(Bundle::Published, file),
        following(step, platform) == Some(InitStep::FlushCurrent) <==> platform is Unix && step
            == InitStep::Parse(Bundle::Published, InitFile::Base),
        following(step, platform) is None <==> step is FlushCurrent || platform is Windows && step
            == InitStep::Parse(Bundle::Published, InitFile::Base),
{
}

/// What an initialization that failed says names the path, each fault in its own words.
pub proof fn failed_initialization_says_what_is_to_blame(error: InitError, text: String)
    requires
        call_ensures(InitError::to_text, (&error,), text),
    ensures
        match error@ {
            InitErrorView::AlreadyExists { path } => opens(text@, "refusing to initialize"@)
                && closes(text@, "already exists: "@ + path),
            InitErrorView::UnsupportedPlatform => opens(text@, "init requires a platform"@),
            InitErrorView::Io { action, path, source } => opens(
                text@,
                "cannot "@ + action + " "@ + path + ": "@,
            ) && closes(text@, source.message),
            InitErrorView::InvalidGeneratedBundle { path, message } => opens(
                text@,
                "generated bundle is invalid at "@ + path + ": "@,
            ) && closes(text@, message),
        },
{
    reveal_strlit("refusing to initialize");
    reveal_strlit("already exists: ");
    reveal_strlit("refusing to initialize because control directory already exists: ");
    reveal_strlit("init requires a platform");
    reveal_strlit(
        "init requires a platform primitive that publishes a directory without replacing an existing entry",
    );
}

/// What a selection that failed says names the path, each fault in its own words.
pub proof fn failed_selection_says_what_is_to_blame(error: ConfigUseError, text: String)
    requires
        call_ensures(ConfigUseError::to_text, (&error,), text),
    ensures
        match error@ {
            UseErrorView::Invalid { path, message } => opens(
                text@,
                "invalid runtime configuration path "@ + path + ": "@,
            ) && closes(text@, message),
            UseErrorView::Collision { path } => opens(text@, "runtime configuration appeared"@)
                && closes(text@, ": "@ + path),
            UseErrorView::UnsupportedPlatform => opens(text@, "config use requires an atomic"@),
            UseErrorView::Io { action, path, source } => opens(
                text@,
                "cannot "@ + action + " "@ + path + ": "@,
            ) && closes(text@, source.message),
            UseErrorView::InvalidPublished { path, message } => opens(
                text@,
                "published runtime configuration is invalid at "@ + path + ": "@,
            ) && closes(text@, message),
        },
{
    reveal_strlit("runtime configuration appeared");
    reveal_strlit("runtime configuration appeared during publication: ");
    reveal_strlit(": ");
    reveal_strlit("config use requires an atomic");
    reveal_strlit(
        "config use requires an atomic runtime-configuration publication primitive on this platform",
    );
}

/// A selection looks at every parent that is there and follows it, and no further than the first that
/// is not. What was selected before is read only where a file is.
pub proof fn selection_looks_as_far_as_the_parents_go(selecting: SelectingView, reply: UseReply)
    requires
        selecting.sound(),
        selecting.ended is None,
    ensures
        ({
            let next = selecting.answered(reply);
            &&& selecting.phase matches UsePhase::Inspect(i) ==> (reply matches UseReply::Looked(
                Ok(facts),
            ) ==> if facts.directory && !facts.symlink {
                next.phase == UsePhase::Associate(i) && next.ended is None
            } else {
                next.ended matches Some(Err(error)) && error is Invalid
            })
            &&& selecting.phase matches UsePhase::Inspect(i) ==> (reply matches UseReply::Looked(
                Err(source),
            ) ==> if source.kind is NotFound {
                next.phase is Destination && next.ended is None
            } else {
                next.ended matches Some(Err(error)) && error is Io
            })
            &&& selecting.phase is Destination ==> (reply matches UseReply::Looked(Ok(facts)) ==> if
                facts.file && !facts.symlink {
                next.phase is Document && next.ended is None
            } else {
                next.ended matches Some(Err(error)) && error is Invalid
            })
            &&& selecting.phase is Document ==> (reply matches UseReply::Read(Err(_)) ==> (
            next.ended matches Some(Err(error)) && error is Io))
            &&& next.ended matches Some(Ok(selection)) ==> selection.selected == selecting.selected
                && selection.destination == selecting.destination && match selection.prior_document {
                None => selection.prior is None && selecting.phase is Destination && (
                reply matches UseReply::Looked(Err(source)) && source.kind is NotFound),
                Some(document) => selecting.phase is Document && (reply matches UseReply::Read(
                    Ok(text),
                ) && text@ == document),
            }
        }),
{
}

/// A publication comes to the directory that it finds at once, and makes the one that it does not
/// find. One that another made in the meantime will do.
pub proof fn publication_makes_only_the_parents_that_are_absent(using: UsingView, reply: UseReply)
    requires
        using.sound(),
        using.ended is None,
        using.at + 3 < using.steps.len(),
    ensures
        ({
            let next = using.answered(reply);
            let step = using.steps[using.at];
            &&& step is Ensure ==> (reply matches UseReply::Looked(Ok(facts)) ==> if facts.directory
                && !facts.symlink {
                next.ended is None && next.at == using.at + 3
            } else {
                next.ended matches Some(Err(error)) && error is Invalid
            })
            &&& step is Ensure ==> (reply matches UseReply::Looked(Err(source)) ==> if source.kind
                is NotFound {
                next.ended is None && next.at == using.at + 1
            } else {
                next.ended matches Some(Err(error)) && error is Io
            })
            &&& step is Make ==> (reply matches UseReply::Done(outcome) ==> if outcome is Ok
                || outcome->Err_0.kind is AlreadyExists {
                next.ended is None && next.at == using.at + 1
            } else {
                next.ended matches Some(Err(error)) && error is Io
            })
            &&& step is Remade ==> (reply matches UseReply::Looked(look) ==> (next.ended is None
                <==> (look matches Ok(facts) && facts.directory && !facts.symlink)))
        }),
{
}

/// A publication goes on only while the runtime configuration is what it was when it was prepared: as
/// absent, or as there with the same text.
pub proof fn publication_goes_on_only_over_what_was_prepared(using: UsingView, reply: UseReply)
    requires
        using.sound(),
        using.ended is None,
        using.at + 2 < using.steps.len(),
    ensures
        ({
            let next = using.answered(reply);
            let step = using.steps[using.at];
            let prior = using.selection.prior_document;
            &&& step is Destination ==> (reply matches UseReply::Looked(look) ==> (next.ended
                is None <==> (prior is Some && (look matches Ok(facts) && facts.file
                && !facts.symlink)) || (prior is None && (look matches Err(source) && source.kind
                is NotFound))))
            &&& step is Destination && next.ended is None && next.at != using.at ==> (next.at
                == using.at + 1 <==> prior is Some) && (next.at == using.at + 2 <==> prior is None)
            &&& step is Document ==> (reply matches UseReply::Read(read) ==> (next.ended is None
                <==> (read matches Ok(text) && prior == Some(text@))))
        }),
{
}

/// A temporary name that is taken is given up for another exactly while the temporary is being made and
/// names are left. Every other failure ends the publication with what failed.
pub proof fn taken_name_is_given_up_for_another(using: UsingView, outcome: Result<(), FileError>)
    requires
        using.sound(),
        using.ended is None,
        using.steps[using.at] is Create || using.steps[using.at] is Write || using.steps[using.at]
            is Flush,
        using.at + 1 < using.steps.len(),
    ensures
        ({
            let next = using.answered(UseReply::Done(outcome));
            &&& outcome is Ok ==> next.ended is None && next.at == using.at + 1 && next.attempts
                == using.attempts
            &&& outcome matches Err(source) ==> (source.kind is AlreadyExists && using.attempts + 1
                < TEMPORARY_ATTEMPTS <==> next.ended is None)
            &&& outcome is Err && next.ended is None ==> next.attempts == using.attempts + 1
                && next.at == 4 * using.prefixes.len() + 2
            &&& outcome matches Err(source) ==> (next.ended is Some ==> (next.ended matches Some(
                Err(UseErrorView::Io { source: given, .. }),
            ) && (source.kind is AlreadyExists <==> given.kind is AlreadyExists) && (!(source.kind
                is AlreadyExists) ==> given == source@)))
        }),
{
}

/// The steps of a publication start with the parents, then the check that the file is what it was, and
/// then the number of a temporary: that is where a new name is drawn.
pub proof fn new_name_is_drawn_where_the_number_is(n: nat, platform: Platform)
    requires
        n <= usize::MAX,
    ensures
        config_use::publication_steps(n, platform).len() > 4 * n + 5,
        config_use::publication_steps(n, platform)[4 * n as int] is Destination,
        config_use::publication_steps(n, platform)[4 * n as int + 1] is Document,
        config_use::publication_steps(n, platform)[4 * n as int + 2] is Number,
        config_use::publication_steps(n, platform)[4 * n as int + 3] is Create,
        config_use::publication_steps(n, platform)[4 * n as int + 4] is Write,
        config_use::publication_steps(n, platform)[4 * n as int + 5] is Flush,
{
    reveal(config_use::publication_steps);
    lemma_ensured(n);
}

proof fn lemma_ensured(n: nat)
    ensures
        config_use::ensure_steps(n).len() == 4 * n,
    decreases n,
{
    if n > 0 {
        lemma_ensured((n - 1) as nat);
    }
}

/// Every parent is looked at, made where it is absent, looked at again and followed, from the outermost
/// on.
pub proof fn every_parent_is_made_in_order(n: nat, i: int)
    requires
        n <= usize::MAX,
        0 <= i < n,
    ensures
        config_use::ensure_steps(n).len() == 4 * n,
        config_use::ensure_steps(n)[4 * i] == UseStep::Ensure(i as usize),
        config_use::ensure_steps(n)[4 * i + 1] == UseStep::Make(i as usize),
        config_use::ensure_steps(n)[4 * i + 2] == UseStep::Remade(i as usize),
        config_use::ensure_steps(n)[4 * i + 3] == UseStep::Associate(i as usize),
    decreases n,
{
    lemma_ensured((n - 1) as nat);
    if i < n - 1 {
        every_parent_is_made_in_order((n - 1) as nat, i);
    }
}

/// A written file is checked with all of its parents, then itself, then for what it selects.
pub proof fn written_file_is_checked_with_its_parents(file: Written, n: nat, i: int)
    requires
        n <= usize::MAX,
        0 <= i < n,
    ensures
        config_use::written_steps(file, n).len() == 2 * n + 2,
        config_use::written_steps(file, n)[2 * i] == UseStep::Standing(file, i as usize),
        config_use::written_steps(file, n)[2 * i + 1] == UseStep::StandingAssociation(
            file,
            i as usize,
        ),
        config_use::written_steps(file, n)[2 * n as int] == UseStep::Entry(file),
        config_use::written_steps(file, n)[2 * n as int + 1] == UseStep::Contents(file),
{
    lemma_standing(file, n, i);
}

proof fn lemma_standing_len(file: Written, n: nat)
    ensures
        config_use::standing_steps(file, n).len() == 2 * n,
    decreases n,
{
    if n > 0 {
        lemma_standing_len(file, (n - 1) as nat);
    }
}

proof fn lemma_standing(file: Written, n: nat, i: int)
    requires
        n <= usize::MAX,
        0 <= i < n,
    ensures
        config_use::standing_steps(file, n).len() == 2 * n,
        config_use::standing_steps(file, n)[2 * i] == UseStep::Standing(file, i as usize),
        config_use::standing_steps(file, n)[2 * i + 1] == UseStep::StandingAssociation(
            file,
            i as usize,
        ),
    decreases n,
{
    lemma_standing_len(file, (n - 1) as nat);
    if i < n - 1 {
        lemma_standing(file, (n - 1) as nat, i);
    }
}

/// A publication of a selection checks everything both before and after it makes its temporary, and the
/// published file both before and after the parent is flushed.
pub proof fn selection_checks_before_and_after(n: nat, platform: Platform)
    ensures
        config_use::publication_steps(n, platform) == config_use::ensure_steps(n) + seq![
            UseStep::Destination,
            UseStep::Document,
            UseStep::Number,
            UseStep::Create,
            UseStep::Write,
            UseStep::Flush,
        ] + config_use::written_steps(Written::Fresh, n) + config_use::ensure_steps(n)
            + config_use::written_steps(Written::Temporary, n) + seq![
            UseStep::Destination,
            UseStep::Document,
            UseStep::Publish,
        ] + config_use::written_steps(Written::Published, n) + (if platform is Unix {
            seq![UseStep::FlushParent]
        } else {
            Seq::empty()
        }) + config_use::written_steps(Written::Published, n),
{
    reveal(config_use::publication_steps);
    assert(config_use::publication_steps(n, platform) =~= config_use::ensure_steps(n) + seq![
        UseStep::Destination,
        UseStep::Document,
        UseStep::Number,
        UseStep::Create,
        UseStep::Write,
        UseStep::Flush,
    ] + config_use::written_steps(Written::Fresh, n) + config_use::ensure_steps(n)
        + config_use::written_steps(Written::Temporary, n) + seq![
        UseStep::Destination,
        UseStep::Document,
        UseStep::Publish,
    ] + config_use::written_steps(Written::Published, n) + (if platform is Unix {
        seq![UseStep::FlushParent]
    } else {
        Seq::empty()
    }) + config_use::written_steps(Written::Published, n));
}

/// What a selection writes is its contents, to its temporary. It is put in the place of a file exactly
/// if there was one.
pub proof fn selection_writes_its_contents_to_its_temporary(using: UsingView, request: UseRequest)
    requires
        using.sound(),
        using.requests(request),
    ensures
        request is Finished <==> using.ended is Some,
        (request matches UseRequest::Write { path, contents } ==> path@ == using.temporary
            && contents@ == using.contents),
        (request matches UseRequest::Create { path } ==> path@ == using.temporary),
        (request matches UseRequest::Flush { path } ==> path@ == using.temporary),
        (request matches UseRequest::FlushDirectory { path } ==> path@ == using.parent),
        (request matches UseRequest::PublishNew { temporary, destination } ==> temporary@
            == using.temporary && destination@ == using.selection.destination
            && using.selection.prior_document is None),
        (request matches UseRequest::PublishOver { temporary, destination } ==> temporary@
            == using.temporary && destination@ == using.selection.destination
            && using.selection.prior_document is Some),
        using.ended is None ==> (request is PublishNew || request is PublishOver
            <==> using.steps[using.at] is Publish) && (request is Write
            <==> using.steps[using.at] is Write) && (request is Create
            <==> using.steps[using.at] is Create) && (request is CreateDirectory
            <==> using.steps[using.at] is Make) && (request is Number
            <==> using.steps[using.at] is Number) && (request is FlushDirectory
            <==> using.steps[using.at] is FlushParent),
        using.ended is None ==> (request matches UseRequest::Read { path } ==> match
            using.steps[using.at] {
            UseStep::Contents(Written::Published) => path@ == using.selection.destination,
            UseStep::Contents(_) => path@ == using.temporary,
            UseStep::Document => path@ == using.selection.destination,
            _ => false,
        }),
{
}

/// What failed while the temporary was checked again is the fault of the file system, and what failed
/// after the publication is that of the publication. Before that it is kept as it is.
pub proof fn failure_is_blamed_by_where_it_happened(using: UsingView, reply: UseReply)
    requires
        using.sound(),
        using.ended is None,
        using.answered(reply).ended is Some,
        using.answered(reply).ended->0 is Err,
    ensures
        ({
            let error = using.answered(reply).ended->0->Err_0;
            &&& using.steps[using.at] == UseStep::Entry(Written::Temporary) || using.steps[using.at]
                == UseStep::Contents(Written::Temporary) ==> error !is InvalidPublished
            &&& using.steps[using.at] == UseStep::Contents(Written::Published) ==> error is Io
                || error is InvalidPublished
            &&& using.steps[using.at] is Ensure || using.steps[using.at] is Associate ==> error
                is Invalid || error is Io
            &&& using.steps[using.at] is FlushParent || using.steps[using.at] is Make ==> error is Io
        }),
{
}

} // verus!
