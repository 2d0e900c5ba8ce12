//! What each answer of the file system does to an edit, a selection or an initialization under way.

use vstd::prelude::*;
use vstd::string::*;
use crate::authoring::config_set;
use crate::authoring::config_set::{
    preparation_start, PreparingView, PublishingView, SetErrorView, SetReply, SetRequest,
    TEMPORARY_ATTEMPTS,
};
use crate::authoring::config_use;
use crate::authoring::config_use::{
    selection_start, SelectingView, UseErrorView, UsePhase, UseReply, UseRequest, UseStep,
    UsingView,
};
use crate::authoring::files::{
    directory_of, name_temporary, path_in, prefixes_of, EntryFacts, FileError, FileErrorView,
};
use crate::authoring::init::{
    init_start, Bundle, InitErrorView, InitFile, InitReply, InitRequest, InitStep, InitView,
    STAGING_ATTEMPTS,
};
use crate::domain::paths::Platform;
use crate::text::{closes, opens};

verus! {

/// Whether a publication of an edit ended because a call of the file system failed.
pub open spec fn set_failed(
    ended: Option<Result<(), SetErrorView>>,
    action: Seq<char>,
    path: Seq<char>,
    source: FileErrorView,
) -> bool {
    ended matches Some(Err(SetErrorView::Io { action: of, path: at, source: given })) && of
        == action && at == path && given == source
}

/// A call that fails ends the publication of an edit, and is named with the path that it was about.
pub proof fn failed_call_ends_an_edit(publishing: PublishingView, source: FileError)
    requires
        publishing.sound(),
        publishing.ended is None,
    ensures
        ({
            let step = publishing.steps[publishing.at];
            let done = publishing.answered(SetReply::Done(Err(source))).ended;
            let read = publishing.answered(SetReply::Read(Err(source))).ended;
            &&& step is Write ==> set_failed(
                done,
                "write configuration temporary"@,
                publishing.temporary,
                source@,
            )
            &&& step is FlushTemporary ==> set_failed(
                done,
                "flush configuration temporary"@,
                publishing.temporary,
                source@,
            )
            &&& step is FlushParent ==> set_failed(
                done,
                "flush configuration parent"@,
                publishing.parent,
                source@,
            )
            &&& step is Create && !(source.kind is AlreadyExists) ==> set_failed(
                done,
                "create configuration temporary"@,
                publishing.temporary,
                source@,
            )
            &&& step is Reread ==> set_failed(
                read,
                "re-open configuration temporary"@,
                publishing.temporary,
                source@,
            )
            &&& step is Original || step is Published ==> (read matches Some(Err(SetErrorView::Io {
                path,
                source: given,
                ..
            })) && path == publishing.preparation.destination && given == source@)
        }),
{
}

/// A temporary name that is taken sends the publication of an edit back to the number before it, while
/// names are left, and ends it where none is. Nothing else is tried again.
pub proof fn edit_tries_another_name_while_names_are_left(
    publishing: PublishingView,
    source: FileError,
)
    requires
        publishing.sound(),
        publishing.ended is None,
        publishing.steps[publishing.at] is Create,
    ensures
        ({
            let next = publishing.answered(SetReply::Done(Err(source)));
            &&& next.ended is None <==> source.kind is AlreadyExists && publishing.attempts + 1
                < TEMPORARY_ATTEMPTS
            &&& next.ended is None ==> next.at == publishing.at - 1 && next.attempts
                == publishing.attempts + 1
            &&& source.kind is AlreadyExists && next.ended is Some ==> (next.ended matches Some(
                Err(SetErrorView::Io { action, path, source: given }),
            ) && action == "allocate configuration temporary"@ && path == publishing.parent
                && given.kind is AlreadyExists)
        }),
{
}

/// A step of an edit that is answered well is left for the one after it, and the last one ends it well.
/// What was read is kept, and nothing else changes.
pub proof fn edit_goes_on_by_one_step(publishing: PublishingView, text: String, number: usize)
    requires
        publishing.sound(),
        publishing.ended is None,
    ensures
        ({
            let step = publishing.steps[publishing.at];
            let last = publishing.at + 1 == publishing.steps.len();
            let done = publishing.answered(SetReply::Done(Ok(())));
            let read = publishing.answered(SetReply::Read(Ok(text)));
            let named = publishing.answered(SetReply::Number(number));
            &&& step is Write || step is Create || step is FlushTemporary || step is FlushParent
                ==> if last {
                done.ended == Some(Ok::<(), SetErrorView>(()))
            } else {
                done == PublishingView { at: publishing.at + 1, ..publishing }
            }
            &&& step is Reread && !last ==> read == PublishingView {
                at: publishing.at + 1,
                text: text@,
                ..publishing
            }
            &&& step is Published ==> read.text == text@
            &&& step is Number ==> named.preparation == publishing.preparation && named.attempts
                == publishing.attempts && named.parent == publishing.parent
        }),
{
}

/// An edit and a selection name their temporary after the process and the number drawn, in the
/// directory of the file.
pub proof fn temporary_is_named_after_the_number(
    publishing: PublishingView,
    using: UsingView,
    init: InitView,
    number: usize,
    parent: &str,
    process: usize,
    platform: Platform,
    names: (String, String, String),
    paths: (String, String, String),
)
    requires
        publishing.sound(),
        publishing.ended is None,
        publishing.steps[publishing.at] is Number,
        publishing.parent == parent@ && publishing.process == process && publishing.platform
            == platform,
        using.sound(),
        using.ended is None,
        using.steps[using.at] is Number,
        using.parent == parent@ && using.process == process && using.platform == platform,
        init.sound(),
        init.ended is None,
        init.step is Number,
        init.current == parent@ && init.process == process && init.platform == platform,
        call_ensures(name_temporary, (".loadout-set-", process, number), names.0),
        call_ensures(name_temporary, (".loadout-use-", process, number), names.1),
        call_ensures(name_temporary, (".loadout-init-", process, number), names.2),
        exists|set: &str|
            set@ == names.0@ && call_ensures(path_in, (parent, set, platform), paths.0),
        exists|used: &str|
            used@ == names.1@ && call_ensures(path_in, (parent, used, platform), paths.1),
        exists|made: &str|
            made@ == names.2@ && call_ensures(path_in, (parent, made, platform), paths.2),
    ensures
        publishing.answered(SetReply::Number(number)).temporary == paths.0@,
        using.answered(UseReply::Number(number)).temporary == paths.1@,
        init.answered(InitReply::Number(number)).staging == paths.2@,
{
}

/// A preparation of an edit edits the document that it read, and nothing comes of it that was not asked
/// for.
pub proof fn preparation_keeps_what_was_asked_for(
    preparing: PreparingView,
    reply: SetReply,
    request: SetRequest,
)
    requires
        preparing.sound(),
        preparing.ended is None,
        preparing.requests(request),
    ensures
        ({
            let step = preparing.steps[preparing.at];
            let next = preparing.answered(reply);
            &&& next.destination == preparing.destination && next.field == preparing.field
                && next.value == preparing.value && next.platform == preparing.platform
            &&& next.document != preparing.document ==> step is Document && (reply matches
                SetReply::Read(Ok(text)) && text@ == next.document)
            &&& step is Document ==> (reply matches SetReply::Read(Ok(text)) ==> next.document
                == text@ && next.ended is None && next.at == preparing.at + 1)
            &&& step is Document ==> (reply matches SetReply::Read(Err(source)) ==> (next.ended
                matches Some(Err(SetErrorView::Io { action, path, source: given })) && action
                == "read configuration"@ && path == preparing.destination && given == source@))
            &&& next.ended matches Some(Ok(preparation)) ==> preparation.destination
                == preparing.destination && preparation.original == preparing.document
                && preparation.field == preparing.field && preparation.result == preparing.value
                && step is Edit && (reply matches SetReply::Parsed(Ok(_)))
            &&& step is Edit ==> (reply matches SetReply::Parsed(Err(message)) ==> (next.ended
                matches Some(Err(SetErrorView::Input { path, message: given })) && path
                == preparing.destination && given == message@))
            &&& step is Edit ==> (request matches SetRequest::Parse { document } && document@
                == preparing.document)
            &&& step is Document ==> (request matches SetRequest::Read { path } && path@
                == preparing.destination)
            &&& step is Regular ==> (request matches SetRequest::Look { path } && path@
                == preparing.destination)
        }),
{
}

/// A preparation starts at its first step with the parents of its directory, and is refused at once
/// exactly if the directory is not absolute.
pub proof fn preparation_starts_with_its_parents(
    destination: Seq<char>,
    field: Seq<char>,
    value: Seq<char>,
    directory: Seq<char>,
    platform: Platform,
)
    ensures
        ({
            let start = preparation_start(destination, field, value, directory, platform);
            &&& start.destination == destination && start.field == field && start.value == value
                && start.platform == platform && start.at == 0
            &&& prefixes_of(directory, platform) matches Some(list) ==> start.ended is None
                && start.prefixes == list
            &&& prefixes_of(directory, platform) is None ==> (start.ended matches Some(
                Err(SetErrorView::Input { path, message }),
            ) && path == directory && message == "configuration parent is not absolute"@)
        }),
{
}

/// A selection starts with the parents of the runtime configuration, from the outermost on, and is
/// refused at once exactly if it has none.
pub proof fn selection_starts_with_its_parents(
    destination: Seq<char>,
    selected: Seq<char>,
    platform: Platform,
)
    ensures
        ({
            let start = selection_start(destination, selected, platform);
            &&& start.destination == destination && start.selected == selected && start.platform
                == platform
            &&& directory_of(destination, platform) is None ==> (start.ended matches Some(
                Err(UseErrorView::Invalid { path, .. }),
            ) && path == destination)
            &&& directory_of(destination, platform) matches Some(parent) ==> match prefixes_of(
                parent,
                platform,
            ) {
                None => start.ended matches Some(Err(UseErrorView::Invalid { path, message })) && path
                    == parent && message == "runtime configuration parent is not absolute"@,
                Some(list) => start.ended is None && start.prefixes == list && start.phase == if
                    list.len() > 0 {
                    UsePhase::Inspect(0)
                } else {
                    UsePhase::Destination
                },
            }
        }),
{
}

/// A selection that has followed a parent comes to the next one, and past the last one to the file
/// itself. What it looks at is what its phase is about.
pub proof fn selection_comes_to_the_next_parent(
    selecting: SelectingView,
    reply: UseReply,
    request: UseRequest,
)
    requires
        selecting.sound(),
        selecting.ended is None,
        selecting.requests(request),
    ensures
        ({
            let next = selecting.answered(reply);
            &&& selecting.phase matches UsePhase::Associate(i) ==> (next.phase != selecting.phase
                ==> if i + 1 < selecting.prefixes.len() {
                next.phase matches UsePhase::Inspect(j) && j == i + 1
            } else {
                next.phase is Destination
            })
            &&& selecting.phase matches UsePhase::Inspect(i) ==> (request matches UseRequest::Look {
                path,
            } && path@ == selecting.prefixes[i as int])
            &&& selecting.phase matches UsePhase::Associate(i) ==> (request matches
                UseRequest::Canonicalize { path } && path@ == selecting.prefixes[i as int])
            &&& selecting.phase is Destination ==> (request matches UseRequest::Look { path }
                && path@ == selecting.destination)
            &&& selecting.phase is Document ==> (request matches UseRequest::Read { path } && path@
                == selecting.destination)
            &&& selecting.phase is Document ==> (reply matches UseReply::Read(Err(source)) ==> (
            next.ended matches Some(Err(UseErrorView::Io { action, path, source: given }))
                && action == "read existing runtime configuration"@ && path
                == selecting.destination && given == source@))
        }),
{
}

/// Whether the publication of a selection ended because a call of the file system failed.
pub open spec fn use_failed(
    ended: Option<Result<(), UseErrorView>>,
    action: Seq<char>,
    path: Seq<char>,
    source: FileErrorView,
) -> bool {
    ended matches Some(Err(UseErrorView::Io { action: of, path: at, source: given })) && of
        == action && at == path && given == source
}

/// A call that fails ends the publication of a selection, and is named with the path that it was about,
/// unless it met what another made in the meantime.
pub proof fn failed_call_ends_a_selection(using: UsingView, source: FileError)
    requires
        using.sound(),
        using.ended is None,
        source.kind is Other,
    ensures
        ({
            let step = using.steps[using.at];
            let done = using.answered(UseReply::Done(Err(source))).ended;
            let looked = using.answered(UseReply::Looked(Err(source))).ended;
            let read = using.answered(UseReply::Read(Err(source))).ended;
            &&& step is Create ==> use_failed(
                done,
                "create runtime configuration temporary"@,
                using.temporary,
                source@,
            )
            &&& step is Write ==> use_failed(
                done,
                "write runtime configuration temporary"@,
                using.temporary,
                source@,
            )
            &&& step is Flush ==> use_failed(
                done,
                "flush runtime configuration temporary"@,
                using.temporary,
                source@,
            )
            &&& step is FlushParent ==> use_failed(
                done,
                "flush runtime configuration parent"@,
                using.parent,
                source@,
            )
            &&& step matches UseStep::Make(i) ==> use_failed(
                done,
                "create runtime configuration parent"@,
                using.prefixes[i as int],
                source@,
            )
            &&& step matches UseStep::Ensure(i) ==> use_failed(
                looked,
                "inspect runtime configuration parent"@,
                using.prefixes[i as int],
                source@,
            )
            &&& step matches UseStep::Remade(i) ==> use_failed(
                looked,
                "re-inspect created runtime configuration parent"@,
                using.prefixes[i as int],
                source@,
            )
            &&& step is Document ==> use_failed(
                read,
                "re-read runtime configuration before publication"@,
                using.selection.destination,
                source@,
            )
        }),
{
}

/// A selection keeps what it is about, and draws its contents from nowhere else.
#[verifier::spinoff_prover]
#[verifier::rlimit(60)]
pub proof fn selection_keeps_what_was_asked_for(using: UsingView, reply: UseReply)
    requires
        using.sound(),
    ensures
        using.answered(reply).selection == using.selection,
        using.answered(reply).contents == using.contents,
        using.answered(reply).parent == using.parent,
        using.answered(reply).prefixes == using.prefixes,
        using.answered(reply).temporary != using.temporary ==> using.ended is None
            && using.steps[using.at] is Number,
        using.ended is Some ==> using.answered(reply) == using,
{
    match reply {
        UseReply::Looked(_) => {},
        UseReply::Canonicalized(_) => {},
        UseReply::Read(_) => {},
        UseReply::Done(_) => {},
        _ => {},
    }
}

/// A published selection was there before exactly as it was prepared: what was absent is made, and what
/// was there is replaced.
pub proof fn published_selection_starts_as_it_was_prepared(
    selection: config_use::SelectionView,
    contents: Seq<char>,
    parent: Seq<char>,
    process: nat,
    platform: Platform,
    preparation: config_set::PreparationView,
)
    ensures
        ({
            let used = config_use::publication_start(selection, contents, parent, process, platform);
            let set = config_set::publication_start(preparation, parent, process, platform);
            &&& used.selection == selection && used.contents == contents && used.parent == parent
                && used.process == process && used.platform == platform && used.at == 0
                && used.attempts == 0
            &&& set.preparation == preparation && set.parent == parent && set.process == process
                && set.platform == platform && set.at == 0 && set.attempts == 0
            &&& prefixes_of(parent, platform) matches Some(list) ==> used.ended is None
                && used.prefixes == list && set.ended is None && set.prefixes == list
            &&& prefixes_of(parent, platform) is None ==> (used.ended matches Some(
                Err(UseErrorView::Invalid { path, message }),
            ) && path == parent && message == "runtime configuration parent is not absolute"@) && (
            set.ended matches Some(Err(SetErrorView::Input { path, message })) && path == parent
                && message == "configuration parent is not absolute"@)
        }),
{
}

/// What an initialization reads back is what it wrote: the files that it staged, at the paths that they
/// were written to.
pub proof fn staged_files_are_read_where_they_were_written(init: InitView, file: InitFile)
    requires
        init.platform is Unix,
    ensures
        init.reread(Bundle::Staging, file) == init.written(file),
        init.written(InitFile::Config) != init.written(InitFile::Base),
{
    reveal_strlit("profiles");
    reveal_strlit("base.yaml");
    reveal_strlit("profiles/base.yaml");
    reveal_strlit("config.yaml");
    assert("profiles/base.yaml"@ =~= "profiles"@ + seq!['/'] + "base.yaml"@);
    assert(init.profiles().last() == 's');
    if file is Base {
        assert(init.reread(Bundle::Staging, file) =~= init.written(file));
    }
    assert(init.written(InitFile::Config).len() < init.written(InitFile::Base).len());
}

/// The published files are those of the control directory, named as the staged ones are.
pub proof fn published_files_stand_in_the_control_directory(init: InitView, file: InitFile)
    requires
        init.platform is Unix,
    ensures
        opens(init.root(), init.current),
        closes(init.root(), ".loadout"@),
        opens(init.reread(Bundle::Published, file), init.root()),
        closes(
            init.reread(Bundle::Published, file),
            if file is Config {
                "/config.yaml"@
            } else {
                "/profiles/base.yaml"@
            },
        ),
        closes(
            init.written(file),
            if file is Config {
                "config.yaml"@
            } else {
                "/base.yaml"@
            },
        ),
{
    reveal_strlit(".loadout");
    reveal_strlit("profiles");
    reveal_strlit("base.yaml");
    reveal_strlit("/base.yaml");
    reveal_strlit("profiles/base.yaml");
    reveal_strlit("/profiles/base.yaml");
    reveal_strlit("config.yaml");
    reveal_strlit("/config.yaml");
    assert(init.root().last() == 't');
    assert(init.profiles().last() == 's');
}

/// Whether an initialization ended because a call of the file system failed.
pub open spec fn init_failed(
    init: InitView,
    action: Seq<char>,
    path: Seq<char>,
    source: FileErrorView,
) -> bool {
    init.ended matches Some(Err(InitErrorView::Io { action: of, path: at, source: given })) && of
        == action && at == path && given == source
}

/// A call that fails ends an initialization, and is named with the path that it was about.
pub proof fn failed_call_ends_an_initialization(init: InitView, source: FileError)
    requires
        init.sound(),
        init.ended is None,
        source.kind is Other,
    ensures
        ({
            let done = init.answered(InitReply::Done(Err(source)));
            let looked = init.answered(InitReply::Looked(Err(source)));
            &&& init.step is Absent || init.step is AbsentAgain ==> init_failed(
                looked,
                "inspect control directory"@,
                init.root(),
                source@,
            )
            &&& init.step is Staging ==> init_failed(
                done,
                "create staging directory"@,
                init.staging,
                source@,
            )
            &&& init.step is Profiles ==> init_failed(
                done,
                "create profiles directory"@,
                init.profiles(),
                source@,
            )
            &&& init.step matches InitStep::Create(file) ==> init_failed(
                done,
                "create generated file"@,
                init.written(file),
                source@,
            )
            &&& init.step matches InitStep::Write(file) ==> init_failed(
                done,
                "write generated file"@,
                init.written(file),
                source@,
            )
            &&& init.step matches InitStep::Flush(file) ==> init_failed(
                done,
                "flush generated file"@,
                init.written(file),
                source@,
            )
            &&& init.step is FlushProfiles ==> init_failed(
                done,
                "flush directory"@,
                init.profiles(),
                source@,
            )
            &&& init.step is FlushStaging ==> init_failed(
                done,
                "flush directory"@,
                init.staging,
                source@,
            )
            &&& init.step is FlushCurrent ==> init_failed(
                done,
                "flush directory"@,
                init.current,
                source@,
            )
            &&& init.step is Publish ==> init_failed(
                done,
                "publish control directory"@,
                init.root(),
                source@,
            )
        }),
{
}

/// What an initialization asks for is about what its step is: it writes what was meant for each file,
/// and publishes what it staged.
pub proof fn initialization_asks_for_what_its_step_is_about(init: InitView, request: InitRequest)
    requires
        init.sound(),
        init.requests(request),
    ensures
        request is Finished <==> init.ended is Some,
        (request matches InitRequest::Look { path } ==> path@ == init.root()),
        (request matches InitRequest::Publish { staging, root } ==> staging@ == init.staging && root@
            == init.root() && init.step is Publish),
        (request matches InitRequest::CreateDirectory { path } ==> (init.step is Staging && path@
            == init.staging) || (init.step is Profiles && path@ == init.profiles())),
        (request matches InitRequest::Create { path } ==> (init.step matches InitStep::Create(file)
            && path@ == init.written(file))),
        (request matches InitRequest::Write { path, .. } ==> (init.step matches InitStep::Write(file)
            && path@ == init.written(file))),
        (request matches InitRequest::Write { contents, .. } ==> contents@ == if init.step
            == InitStep::Write(InitFile::Config) {
            crate::authoring::init::CONFIG_YAML@
        } else {
            crate::authoring::init::BASE_YAML@
        }),
        (request matches InitRequest::Flush { path } ==> (init.step matches InitStep::Flush(file)
            && path@ == init.written(file))),
        (request matches InitRequest::Read { path } ==> (init.step matches InitStep::Read(
            bundle,
            file,
        ) && path@ == init.reread(bundle, file))),
        (request matches InitRequest::FlushDirectory { path } ==> (init.step is FlushProfiles
            && path@ == init.profiles()) || (init.step is FlushStaging && path@ == init.staging) || (
        init.step is FlushCurrent && path@ == init.current)),
        init.ended is None ==> (request is ParseProfile <==> (init.step matches InitStep::Parse(
            _,
            file,
        ) && file is Base)) && (request is ParseConfiguration <==> (init.step matches
            InitStep::Parse(_, file) && file is Config)),
{
}

/// An initialization that only looks ends well exactly where nothing is. One that a taken name stopped
/// draws another number while names are left. One that cannot be published is refused exactly when the
/// staged bundle has passed.
pub proof fn initialization_ends_by_what_it_finds(
    init: InitView,
    look: Result<EntryFacts, FileError>,
    outcome: Result<(), FileError>,
    parsed: Result<(), String>,
)
    requires
        init.sound(),
        init.ended is None,
    ensures
        ({
            let looked = init.answered(InitReply::Looked(look));
            let done = init.answered(InitReply::Done(outcome));
            let meant = init.answered(InitReply::Parsed(parsed));
            &&& init.dry_run ==> (looked.ended matches Some(Ok(report)) <==> (look matches Err(source)
                && source.kind is NotFound))
            &&& init.step is Absent && !init.dry_run ==> (looked.ended is None <==> (look matches
                Err(source) && source.kind is NotFound))
            &&& init.step is Absent && !init.dry_run && looked.ended is None ==> looked.step
                is Number
            &&& init.step is Staging ==> (done.step is Number <==> (outcome matches Err(source)
                && source.kind is AlreadyExists && init.attempts + 1 < STAGING_ATTEMPTS))
            &&& init.step is Staging && done.step is Number ==> done.attempts == init.attempts + 1
                && done.ended is None
            &&& init.step is Staging && outcome is Ok ==> done.step is Profiles
            &&& meant.ended == Some(
                Err::<crate::authoring::init::InitReportView, InitErrorView>(
                    InitErrorView::UnsupportedPlatform,
                ),
            ) <==> init.step == InitStep::Parse(Bundle::Staging, InitFile::Base) && parsed is Ok
                && !init.supported
        }),
{
}

/// An initialization starts with a look at where its bundle will be.
pub proof fn initialization_starts_with_a_look(
    current: Seq<char>,
    dry_run: bool,
    process: nat,
    platform: Platform,
    supported: bool,
    request: InitRequest,
)
    requires
        init_start(current, dry_run, process, platform, supported).requests(request),
    ensures
        ({
            let start = init_start(current, dry_run, process, platform, supported);
            &&& request is Look
            &&& start.ended is None && start.attempts == 0 && start.current == current
                && start.dry_run == dry_run && start.process == process && start.platform
                == platform && start.supported == supported
        }),
{
}

} // verus!
