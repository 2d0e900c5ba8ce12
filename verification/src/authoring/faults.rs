//! What a check that does not pass says: its own words for each fault, and the path that it is about.

use vstd::prelude::*;
use vstd::string::*;
use crate::authoring::config_set;
use crate::authoring::config_set::{
    ConfigSetError, PublishingView, ReplaceFailure, SetErrorView, SetReply,
};
use crate::authoring::config_use;
use crate::authoring::config_use::{
    selection_start, selects, ConfigUseError, PublishFailure, UseErrorView, UseReply, UseStep,
    UsingView, Written,
};
use crate::authoring::files::{directory_of, read_path, CanonicalPath, EntryFacts, FileError};
use crate::authoring::init;
use crate::authoring::init::{InitError, InitErrorView, InitFile};
use crate::domain::paths::{Platform, ResolvedPath};

verus! {

/// Whether an edit is refused for what was put in, with a message on a path.
pub open spec fn refuses_input(error: ConfigSetError, path: Seq<char>, message: Seq<char>) -> bool {
    error@ matches SetErrorView::Input { path: at, message: said } && at == path && said == message
}

/// Whether an edit failed in a call of the file system on a path.
pub open spec fn fails_in(
    error: ConfigSetError,
    action: Seq<char>,
    path: Seq<char>,
    source: FileError,
) -> bool {
    error@ matches SetErrorView::Io { action: of, path: at, source: given } && of == action && at
        == path && given == source@
}

/// What is wrong with a parent, the file or the document of an edit is said in words of its own.
pub proof fn refused_edit_says_what_was_found(
    path: &str,
    look: Result<EntryFacts, FileError>,
    canonical: Result<CanonicalPath, FileError>,
    platform: Platform,
    document: &str,
    read: Result<String, FileError>,
    parent: Result<(), ConfigSetError>,
    association: Result<(), ConfigSetError>,
    regular: Result<(), ConfigSetError>,
    original: Result<(), ConfigSetError>,
    published: Result<(), ConfigSetError>,
)
    requires
        call_ensures(config_set::verify_parent, (path, look, platform), parent),
        call_ensures(
            config_set::verify_parent_association,
            (path, canonical, platform),
            association,
        ),
        call_ensures(config_set::verify_regular, (path, look), regular),
        call_ensures(config_set::verify_original, (path, document, read), original),
        call_ensures(config_set::verify_published, (path, document, &read), published),
    ensures
        (look matches Ok(facts) ==> (parent matches Err(error) ==> (!facts.directory
            || facts.symlink ==> refuses_input(
            error,
            path@,
            "expected a non-symlink directory"@,
        )))),
        (look matches Ok(facts) ==> (regular matches Err(error) ==> refuses_input(
            error,
            path@,
            "expected a regular non-symlink file"@,
        ))),
        (look matches Err(source) ==> (regular matches Err(error) && if source.kind is NotFound {
            refuses_input(error, path@, "configuration file is absent"@)
        } else {
            fails_in(error, "inspect configuration"@, path@, source)
        })),
        (canonical matches Err(source) ==> (association matches Err(error) && fails_in(
            error,
            "verify configuration parent association"@,
            path@,
            source,
        ))),
        (read matches Err(source) ==> (original matches Err(error) && fails_in(
            error,
            "re-read configuration before publication"@,
            path@,
            source,
        ))),
        (read matches Err(source) ==> (published matches Err(error) && fails_in(
            error,
            "re-open published configuration"@,
            path@,
            source,
        ))),
        read is Ok ==> (original matches Err(error) ==> refuses_input(
            error,
            path@,
            "configuration changed before publication"@,
        )),
        read is Ok ==> (published matches Err(error) ==> (error@ matches SetErrorView::Published {
            path: at,
            message,
        } && at == path@ && message == "contents differ from the candidate document"@)),
{
}

/// A parent that leads elsewhere than it says is refused for that, once both paths can be read.
pub proof fn parent_that_leads_elsewhere_is_refused_for_that(
    path: &str,
    canonical: CanonicalPath,
    platform: Platform,
    declared: Result<ResolvedPath, String>,
    observed: Result<ResolvedPath, String>,
    set: Result<(), ConfigSetError>,
    used: Result<(), ConfigUseError>,
)
    requires
        call_ensures(
            config_set::verify_parent_association,
            (path, Ok::<CanonicalPath, FileError>(canonical), platform),
            set,
        ),
        call_ensures(
            config_use::validate_association,
            (path, Ok::<CanonicalPath, FileError>(canonical), platform),
            used,
        ),
        call_ensures(read_path, (path, platform), declared),
        call_ensures(CanonicalPath::read, (&canonical, platform), observed),
    ensures
        declared is Ok && observed is Ok ==> (set matches Err(error) ==> refuses_input(
            error,
            path@,
            "parent is not associated with its declared path"@,
        )),
        declared is Ok && observed is Ok ==> (used matches Err(error) ==> refuses_selection(
            error,
            path@,
            "parent is not associated with its declared path"@,
        )),
        (observed matches Err(said) ==> (set matches Err(error) && refuses_input(
            error,
            path@,
            said@,
        ))),
        (declared matches Err(said) ==> (used matches Err(error) && refuses_selection(
            error,
            path@,
            said@,
        ))),
{
}

/// A replacement that cannot be is said to be unsupported, and one that failed is named.
pub proof fn failed_replacement_is_named(
    destination: &str,
    source: FileError,
    unsupported: Result<(), ConfigSetError>,
    failed: Result<(), ConfigSetError>,
)
    requires
        call_ensures(
            config_set::replace,
            (destination, Err::<(), ReplaceFailure>(ReplaceFailure::Unsupported)),
            unsupported,
        ),
        call_ensures(
            config_set::replace,
            (destination, Err::<(), ReplaceFailure>(ReplaceFailure::Failed(source))),
            failed,
        ),
    ensures
        unsupported matches Err(error) && refuses_input(
            error,
            destination@,
            "atomic replacement is unsupported on this platform"@,
        ),
        failed matches Err(error) && fails_in(
            error,
            "replace configuration"@,
            destination@,
            source,
        ),
{
}

/// Whether a selection is refused, with a message on a path.
pub open spec fn refuses_selection(
    error: ConfigUseError,
    path: Seq<char>,
    message: Seq<char>,
) -> bool {
    error@ matches UseErrorView::Invalid { path: at, message: said } && at == path && said
        == message
}

/// Whether a selection failed in a call of the file system on a path.
pub open spec fn selection_fails_in(
    error: ConfigUseError,
    action: Seq<char>,
    path: Seq<char>,
    source: FileError,
) -> bool {
    error@ matches UseErrorView::Io { action: of, path: at, source: given } && of == action && at
        == path && given == source@
}

/// Whether a selection found what is published to be wrong.
pub open spec fn finds_published_wrong(
    error: ConfigUseError,
    path: Seq<char>,
    message: Seq<char>,
) -> bool {
    error@ matches UseErrorView::InvalidPublished { path: at, message: said } && at == path && said
        == message
}

/// What is wrong with a parent or the file of a selection is said in words of its own, and what is wrong
/// once nothing may be made any more is a fault of what is published.
pub proof fn refused_selection_says_what_was_found(
    path: &str,
    facts: EntryFacts,
    look: Result<EntryFacts, FileError>,
    source: FileError,
    platform: Platform,
    directory: Result<(), ConfigUseError>,
    standing: Result<(), ConfigUseError>,
    file: Result<bool, ConfigUseError>,
    association: Result<(), ConfigUseError>,
)
    requires
        call_ensures(config_use::validate_directory, (path, facts), directory),
        call_ensures(config_use::verify_existing_safe_parent, (path, look), standing),
        call_ensures(config_use::inspect_destination, (path, look), file),
        call_ensures(
            config_use::validate_association,
            (path, Err::<CanonicalPath, FileError>(source), platform),
            association,
        ),
    ensures
        (directory matches Err(error) ==> refuses_selection(
            error,
            path@,
            "expected a non-symlink directory"@,
        )),
        (look matches Ok(_) ==> (standing matches Err(error) ==> finds_published_wrong(
            error,
            path@,
            "expected a non-symlink directory"@,
        ))),
        (look matches Err(given) ==> (standing matches Err(error) && if given.kind is NotFound {
            finds_published_wrong(
                error,
                path@,
                "runtime configuration parent disappeared during publication"@,
            )
        } else {
            selection_fails_in(
                error,
                "re-inspect runtime configuration parent after publication"@,
                path@,
                given,
            )
        })),
        (file matches Err(error) ==> match look {
            Ok(_) => refuses_selection(
                error,
                path@,
                "expected an absent or regular non-symlink file"@,
            ),
            Err(given) => selection_fails_in(error, "inspect runtime configuration"@, path@, given),
        }),
        association matches Err(error) && selection_fails_in(
            error,
            "verify runtime configuration parent association"@,
            path@,
            source,
        ),
{
}

/// A written selection passes exactly if it can be read and selects what was asked for. Anything else
/// that it holds is a fault of what is published.
pub proof fn written_selection_passes_exactly_with_what_was_asked_for(
    path: &str,
    selected: &str,
    read: Result<String, FileError>,
    outcome: Result<(), ConfigUseError>,
)
    requires
        call_ensures(config_use::validate_published, (path, selected, read), outcome),
    ensures
        outcome is Ok <==> (read matches Ok(text) && (selects(text@) matches Ok(found) && found
            == Some(selected@))),
        (read matches Err(source) ==> (outcome matches Err(error) && selection_fails_in(
            error,
            "re-open runtime configuration"@,
            path@,
            source,
        ))),
        (read matches Ok(text) ==> (outcome matches Err(error) ==> match selects(text@) {
            Ok(_) => finds_published_wrong(
                error,
                path@,
                "config_path differs from the selected portable configuration"@,
            ),
            Err(said) => finds_published_wrong(error, path@, said),
        })),
{
}

/// A publication of a selection that failed is named: as a replacement on Unix where there was a file,
/// and as a publication elsewhere.
pub proof fn failed_publication_is_named(
    path: &str,
    source: FileError,
    platform: Platform,
    anew: Result<(), ConfigUseError>,
    over: Result<(), ConfigUseError>,
)
    requires
        call_ensures(
            config_use::publish_without_replacement,
            (path, Err::<(), PublishFailure>(PublishFailure::Failed(source))),
            anew,
        ),
        call_ensures(
            config_use::publish_replacement,
            (path, Err::<(), PublishFailure>(PublishFailure::Failed(source)), platform),
            over,
        ),
    ensures
        anew matches Err(error) && if source.kind is AlreadyExists {
            error@ matches UseErrorView::Collision { path: at } && at == path@
        } else {
            selection_fails_in(error, "publish runtime configuration"@, path@, source)
        },
        platform is Unix ==> (over matches Err(error) && selection_fails_in(
            error,
            "replace runtime configuration"@,
            path@,
            source,
        )),
        platform is Windows ==> over->Err_0@ == anew->Err_0@,
{
}

/// What a selection that has to go on says of a file that is not what it was, and of one that is gone.
/// A published file that is gone is a fault of what is published, and a temporary that is gone one of
/// the file system.
pub proof fn changed_file_stops_a_selection(using: UsingView, absent: FileError, text: String)
    requires
        using.sound(),
        using.ended is None,
        absent.kind is NotFound,
    ensures
        ({
            let step = using.steps[using.at];
            let gone = using.answered(UseReply::Looked(Err(absent))).ended;
            let read = using.answered(UseReply::Read(Ok(text))).ended;
            &&& step is Document && using.selection.prior_document != Some(text@) ==> (read matches
                Some(Err(UseErrorView::Invalid { path, message })) && path
                == using.selection.destination && message
                == "runtime configuration changed before publication"@)
            &&& step is Destination && using.selection.prior_document is Some ==> (gone matches Some(
                Err(UseErrorView::Invalid { path, message }),
            ) && path == using.selection.destination && message
                == "runtime configuration changed before publication"@)
            &&& step == UseStep::Entry(Written::Published) ==> (gone matches Some(
                Err(UseErrorView::InvalidPublished { path, message }),
            ) && path == using.selection.destination && message
                == "runtime configuration is absent"@)
            &&& step == UseStep::Entry(Written::Temporary) ==> (gone matches Some(
                Err(UseErrorView::Io { path, source, .. }),
            ) && path == using.temporary && source.message == "runtime configuration is absent"@)
            &&& step == UseStep::Contents(Written::Published) && (selects(text@) matches Err(_))
                ==> (read matches Some(Err(UseErrorView::InvalidPublished { path, .. })) && path
                == using.selection.destination)
            &&& (step matches UseStep::Standing(file, i) && file is Published) ==> (gone matches Some(
                Err(error),
            ) && error is InvalidPublished)
        }),
{
}

/// What an answer to another question, or one after the end, says is passed over.
pub proof fn answer_after_the_end_changes_nothing(
    publishing: PublishingView,
    using: UsingView,
    preparing: config_set::PreparingView,
    selecting: config_use::SelectingView,
    init: init::InitView,
    set: SetReply,
    used: UseReply,
    made: init::InitReply,
)
    ensures
        publishing.ended is Some ==> publishing.answered(set) == publishing,
        preparing.ended is Some ==> preparing.answered(set) == preparing,
        using.ended is Some ==> using.answered(used) == using,
        selecting.ended is Some ==> selecting.answered(used) == selecting,
        init.ended is Some ==> init.answered(made) == init,
        publishing.ended is None && publishing.steps[publishing.at] is Number && !(set is Number)
            ==> publishing.answered(set) == publishing,
        using.ended is None && using.steps[using.at] is Number && !(used is Number)
            ==> using.answered(used) == using,
        init.ended is None && init.step is Number && !(made is Number) ==> init.answered(made)
            == init,
{
}

/// A runtime configuration without a directory is refused for that.
pub proof fn configuration_without_a_directory_is_refused_for_that(
    destination: Seq<char>,
    selected: Seq<char>,
    platform: Platform,
)
    requires
        directory_of(destination, platform) is None,
    ensures
        selection_start(destination, selected, platform).ended matches Some(
            Err(UseErrorView::Invalid { path, message }),
        ) && path == destination && message == "runtime configuration has no parent directory"@,
{
}

/// A file of a new bundle that cannot be read or holds something else is named as what it was meant to
/// be.
pub proof fn refused_bundle_says_which_file_it_is(
    path: &str,
    file: InitFile,
    read: Result<String, FileError>,
    outcome: Result<(), InitError>,
)
    requires
        call_ensures(init::validate_generated_bundle, (path, file, read), outcome),
    ensures
        (read matches Err(source) ==> (outcome matches Err(error) && (error@ matches
            InitErrorView::Io { action, path: at, source: given } && at == path@ && given == source@
            && action == if file is Config {
            "re-open generated configuration"@
        } else {
            "re-open generated profile"@
        }))),
        read is Ok ==> (outcome matches Err(error) ==> (error@ matches
            InitErrorView::InvalidGeneratedBundle { path: at, message } && at == path@ && message
            == if file is Config {
            "contents differ from the initial environment configuration"@
        } else {
            "contents differ from the initial base profile"@
        })),
{
}

} // verus!
