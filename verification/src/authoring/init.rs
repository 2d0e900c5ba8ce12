//! The creation of the initial portable environment bundle: built aside, checked, and put in place
//! as a whole, one call of the file system at a time.

use vstd::prelude::*;
use vstd::string::*;
use crate::authoring::files::{
    entry_path, name_temporary, path_in, temporary_name, EntryFacts, FileError, FileErrorKind,
    FileErrorView,
};
use crate::domain::paths::Platform;
use crate::text::{copy_of, text_equal};

verus! {

/// The name of the directory that holds the bundle.
pub const CONTROL_DIRECTORY: &'static str = ".loadout";

/// The initial environment configuration.
pub const CONFIG_YAML: &'static str =
    "schema_version: 1\ndefault_profile: base\n\nprofile_discovery:\n  paths:\n    - ./profiles\n\nstores:\n  native:\n    type: local\n    path: ..\n";

/// The initial base profile.
pub const BASE_YAML: &'static str = "schema_version: 1\nid: base\nresources: {}\n";

/// How often a name for the staging directory is tried.
pub const STAGING_ATTEMPTS: usize = 128;

/// What an initialization came to.
#[derive(Debug, PartialEq, Eq)]
pub struct InitReport {
    root: String,
    dry_run: bool,
}

/// What an initialization came to.
pub struct InitReportView {
    pub root: Seq<char>,
    pub dry_run: bool,
}

impl View for InitReport {
    type V = InitReportView;

    closed spec fn view(&self) -> InitReportView {
        InitReportView { root: self.root@, dry_run: self.dry_run }
    }
}

impl InitReport {
    /// The directory of the bundle.
    pub fn root(&self) -> (root: &str)
        ensures
            root@ == self@.root,
    {
        self.root.as_str()
    }

    /// Whether nothing was created.
    pub fn dry_run(&self) -> (dry_run: bool)
        ensures
            dry_run == self@.dry_run,
    {
        self.dry_run
    }
}

/// Why no bundle was created.
#[derive(Debug, PartialEq, Eq)]
pub enum InitError {
    AlreadyExists { path: String },
    /// The platform cannot publish a directory without replacing an entry.
    UnsupportedPlatform,
    Io { action: &'static str, path: String, source: FileError },
    InvalidGeneratedBundle { path: String, message: String },
}

/// Why no bundle was created.
pub enum InitErrorView {
    AlreadyExists { path: Seq<char> },
    UnsupportedPlatform,
    Io { action: Seq<char>, path: Seq<char>, source: FileErrorView },
    InvalidGeneratedBundle { path: Seq<char>, message: Seq<char> },
}

impl View for InitError {
    type V = InitErrorView;

    open spec fn view(&self) -> InitErrorView {
        match self {
            InitError::AlreadyExists { path } => InitErrorView::AlreadyExists { path: path@ },
            InitError::UnsupportedPlatform => InitErrorView::UnsupportedPlatform,
            InitError::Io { action, path, source } => InitErrorView::Io {
                action: action@,
                path: path@,
                source: source@,
            },
            InitError::InvalidGeneratedBundle { path, message } =>
                InitErrorView::InvalidGeneratedBundle { path: path@, message: message@ },
        }
    }
}

impl InitError {
    /// The exit code: two for what was refused before anything was published.
    pub fn exit_code(&self) -> (code: u8)
        ensures
            code == if self is AlreadyExists || self is UnsupportedPlatform {
                2u8
            } else {
                1u8
            },
    {
        match self {
            InitError::AlreadyExists { .. } => 2,
            InitError::UnsupportedPlatform => 2,
            InitError::Io { .. } => 1,
            InitError::InvalidGeneratedBundle { .. } => 1,
        }
    }

    /// What the error says.
    pub open spec fn message(self) -> Seq<char> {
        match self {
            InitError::AlreadyExists { path } =>
                "refusing to initialize because control directory already exists: "@ + path@,
            InitError::UnsupportedPlatform =>
                "init requires a platform primitive that publishes a directory without replacing an existing entry"@,
            InitError::Io { action, path, source } => "cannot "@ + action@ + " "@ + path@ + ": "@
                + source.message@,
            InitError::InvalidGeneratedBundle { path, message } =>
                "generated bundle is invalid at "@ + path@ + ": "@ + message@,
        }
    }

    /// What the error says.
    pub fn to_text(&self) -> (text: String)
        ensures
            text@ == self.message(),
    {
        match self {
            InitError::AlreadyExists { path } => {
                copy_of(
                    "refusing to initialize because control directory already exists: ",
                ).concat(path.as_str())
            },
            InitError::UnsupportedPlatform => {
                copy_of(
                    "init requires a platform primitive that publishes a directory without replacing an existing entry",
                )
            },
            InitError::Io { action, path, source } => {
                copy_of("cannot ").concat(action).concat(" ").concat(path.as_str()).concat(
                    ": ",
                ).concat(source.message.as_str())
            },
            InitError::InvalidGeneratedBundle { path, message } => {
                copy_of("generated bundle is invalid at ").concat(path.as_str()).concat(
                    ": ",
                ).concat(message.as_str())
            },
        }
    }
}

/// An error that the file system gave.
pub fn io_error(action: &'static str, path: &str, source: FileError) -> (error: InitError)
    ensures
        error@ == (InitErrorView::Io { action: action@, path: path@, source: source@ }),
{
    InitError::Io { action, path: copy_of(path), source }
}

/// What is said of a publication that failed: an entry that appeared is one that exists already.
pub open spec fn publication_failed(path: Seq<char>, source: FileErrorView) -> InitErrorView {
    if source.kind is AlreadyExists {
        InitErrorView::AlreadyExists { path }
    } else {
        InitErrorView::Io { action: "publish control directory"@, path, source }
    }
}

/// The error of a publication that failed.
pub fn publication_error(path: &str, source: FileError) -> (error: InitError)
    ensures
        error@ == publication_failed(path@, source@),
{
    match source.kind {
        FileErrorKind::AlreadyExists => InitError::AlreadyExists { path: copy_of(path) },
        _ => io_error("publish control directory", path, source),
    }
}

/// The error in an outcome.
pub open spec fn init_outcome(outcome: Result<(), InitError>) -> Result<(), InitErrorView> {
    match outcome {
        Ok(_) => Ok(()),
        Err(error) => Err(error@),
    }
}

/// What a look at the control directory says: it may not be there, whatever it is.
pub open spec fn absent_look(path: Seq<char>, look: Result<EntryFacts, FileError>) -> Result<
    (),
    InitErrorView,
> {
    match look {
        Ok(_) => Err(InitErrorView::AlreadyExists { path }),
        Err(source) => if source.kind is NotFound {
            Ok(())
        } else {
            Err(
                InitErrorView::Io {
                    action: "inspect control directory"@,
                    path,
                    source: source@,
                },
            )
        },
    }
}

/// Checks that the control directory is not there.
pub fn ensure_absent(path: &str, look: Result<EntryFacts, FileError>) -> (outcome: Result<
    (),
    InitError,
>)
    ensures
        init_outcome(outcome) == absent_look(path@, look),
{
    match look {
        Ok(_) => Err(InitError::AlreadyExists { path: copy_of(path) }),
        Err(source) => match source.kind {
            FileErrorKind::NotFound => Ok(()),
            _ => Err(io_error("inspect control directory", path, source)),
        },
    }
}

/// What became of a call that only succeeds or fails.
pub open spec fn done(action: Seq<char>, path: Seq<char>, outcome: Result<(), FileError>) -> Result<
    (),
    InitErrorView,
> {
    match outcome {
        Ok(_) => Ok(()),
        Err(source) => Err(InitErrorView::Io { action, path, source: source@ }),
    }
}

fn take_done(action: &'static str, path: &str, outcome: Result<(), FileError>) -> (taken: Result<
    (),
    InitError,
>)
    ensures
        init_outcome(taken) == done(action@, path@, outcome),
{
    match outcome {
        Ok(_) => Ok(()),
        Err(source) => Err(io_error(action, path, source)),
    }
}

/// Takes what became of the flush of a directory.
pub fn sync_directory(path: &str, flushed: Result<(), FileError>) -> (outcome: Result<
    (),
    InitError,
>)
    ensures
        init_outcome(outcome) == done("flush directory"@, path@, flushed),
{
    take_done("flush directory", path, flushed)
}

/// What became of the publication of the bundle.
pub open spec fn published(root: Seq<char>, outcome: Result<(), FileError>) -> Result<
    (),
    InitErrorView,
> {
    match outcome {
        Ok(_) => Ok(()),
        Err(source) => Err(publication_failed(root, source@)),
    }
}

/// Takes what became of the publication of the bundle.
pub fn publish_without_replacement(root: &str, outcome: Result<(), FileError>) -> (taken: Result<
    (),
    InitError,
>)
    ensures
        init_outcome(taken) == published(root@, outcome),
{
    match outcome {
        Ok(_) => Ok(()),
        Err(source) => Err(publication_error(root, source)),
    }
}

/// A file of the bundle.
#[derive(Clone, Copy, Debug, PartialEq, Eq, Structural)]
pub enum InitFile {
    Config,
    Base,
}

/// Where a bundle is.
#[derive(Clone, Copy, Debug, PartialEq, Eq, Structural)]
pub enum Bundle {
    Staging,
    Published,
}

/// What a file of the bundle holds.
pub open spec fn contents_of(file: InitFile) -> Seq<char> {
    match file {
        InitFile::Config => CONFIG_YAML@,
        InitFile::Base => BASE_YAML@,
    }
}

fn contents(file: InitFile) -> (text: &'static str)
    ensures
        text@ == contents_of(file),
{
    match file {
        InitFile::Config => CONFIG_YAML,
        InitFile::Base => BASE_YAML,
    }
}

/// What a read of a file of the bundle says of it.
pub open spec fn bundle_read(path: Seq<char>, file: InitFile, read: Result<String, FileError>) -> Result<
    (),
    InitErrorView,
> {
    match read {
        Err(source) => Err(
            InitErrorView::Io {
                action: match file {
                    InitFile::Config => "re-open generated configuration"@,
                    InitFile::Base => "re-open generated profile"@,
                },
                path,
                source: source@,
            },
        ),
        Ok(text) => if text@ == contents_of(file) {
            Ok(())
        } else {
            Err(
                InitErrorView::InvalidGeneratedBundle {
                    path,
                    message: match file {
                        InitFile::Config =>
                            "contents differ from the initial environment configuration"@,
                        InitFile::Base => "contents differ from the initial base profile"@,
                    },
                },
            )
        },
    }
}

/// Checks that a file of the bundle holds what it should.
pub fn validate_generated_bundle(path: &str, file: InitFile, read: Result<String, FileError>) -> (outcome:
    Result<(), InitError>)
    ensures
        init_outcome(outcome) == bundle_read(path@, file, read),
{
    match read {
        Err(source) => {
            let action = match file {
                InitFile::Config => "re-open generated configuration",
                InitFile::Base => "re-open generated profile",
            };
            Err(io_error(action, path, source))
        },
        Ok(text) => {
            if text_equal(text.as_str(), contents(file)) {
                return Ok(());
            }
            let message = match file {
                InitFile::Config => "contents differ from the initial environment configuration",
                InitFile::Base => "contents differ from the initial base profile",
            };
            Err(
                InitError::InvalidGeneratedBundle {
                    path: copy_of(path),
                    message: copy_of(message),
                },
            )
        },
    }
}

/// What a parse of a file of the bundle says of it.
pub open spec fn bundle_meaning(path: Seq<char>, parsed: Result<(), String>) -> Result<
    (),
    InitErrorView,
> {
    match parsed {
        Ok(_) => Ok(()),
        Err(message) => Err(InitErrorView::InvalidGeneratedBundle { path, message: message@ }),
    }
}

/// Checks that a file of the bundle means something.
pub fn validate_meaning(path: &str, parsed: Result<(), String>) -> (outcome: Result<(), InitError>)
    ensures
        init_outcome(outcome) == bundle_meaning(path@, parsed),
{
    match parsed {
        Ok(_) => Ok(()),
        Err(message) => Err(InitError::InvalidGeneratedBundle { path: copy_of(path), message }),
    }
}

/// One step of an initialization.
#[derive(Clone, Copy, Debug, PartialEq, Eq, Structural)]
pub enum InitStep {
    Absent,
    Number,
    Staging,
    Profiles,
    Create(InitFile),
    Write(InitFile),
    Flush(InitFile),
    FlushProfiles,
    FlushStaging,
    Read(Bundle, InitFile),
    Parse(Bundle, InitFile),
    AbsentAgain,
    Publish,
    FlushCurrent,
}

/// The step that follows another, or none after the last one. Directories are flushed on Unix only.
pub open spec fn following(step: InitStep, platform: Platform) -> Option<InitStep> {
    match step {
        InitStep::Absent => Some(InitStep::Number),
        InitStep::Number => Some(InitStep::Staging),
        InitStep::Staging => Some(InitStep::Profiles),
        InitStep::Profiles => Some(InitStep::Create(InitFile::Config)),
        InitStep::Create(file) => Some(InitStep::Write(file)),
        InitStep::Write(file) => Some(InitStep::Flush(file)),
        InitStep::Flush(InitFile::Config) => Some(InitStep::Create(InitFile::Base)),
        InitStep::Flush(InitFile::Base) => match platform {
            Platform::Unix => Some(InitStep::FlushProfiles),
            Platform::Windows => Some(InitStep::Read(Bundle::Staging, InitFile::Config)),
        },
        InitStep::FlushProfiles => Some(InitStep::FlushStaging),
        InitStep::FlushStaging => Some(InitStep::Read(Bundle::Staging, InitFile::Config)),
        InitStep::Read(bundle, file) => Some(InitStep::Parse(bundle, file)),
        InitStep::Parse(bundle, InitFile::Config) => Some(InitStep::Read(bundle, InitFile::Base)),
        InitStep::Parse(Bundle::Staging, InitFile::Base) => Some(InitStep::AbsentAgain),
        InitStep::AbsentAgain => Some(InitStep::Publish),
        InitStep::Publish => Some(InitStep::Read(Bundle::Published, InitFile::Config)),
        InitStep::Parse(Bundle::Published, InitFile::Base) => match platform {
            Platform::Unix => Some(InitStep::FlushCurrent),
            Platform::Windows => None,
        },
        InitStep::FlushCurrent => None,
    }
}

fn follow(step: InitStep, platform: Platform) -> (next: Option<InitStep>)
    ensures
        next == following(step, platform),
{
    match step {
        InitStep::Absent => Some(InitStep::Number),
        InitStep::Number => Some(InitStep::Staging),
        InitStep::Staging => Some(InitStep::Profiles),
        InitStep::Profiles => Some(InitStep::Create(InitFile::Config)),
        InitStep::Create(file) => Some(InitStep::Write(file)),
        InitStep::Write(file) => Some(InitStep::Flush(file)),
        InitStep::Flush(InitFile::Config) => Some(InitStep::Create(InitFile::Base)),
        InitStep::Flush(InitFile::Base) => match platform {
            Platform::Unix => Some(InitStep::FlushProfiles),
            Platform::Windows => Some(InitStep::Read(Bundle::Staging, InitFile::Config)),
        },
        InitStep::FlushProfiles => Some(InitStep::FlushStaging),
        InitStep::FlushStaging => Some(InitStep::Read(Bundle::Staging, InitFile::Config)),
        InitStep::Read(bundle, file) => Some(InitStep::Parse(bundle, file)),
        InitStep::Parse(bundle, InitFile::Config) => Some(InitStep::Read(bundle, InitFile::Base)),
        InitStep::Parse(Bundle::Staging, InitFile::Base) => Some(InitStep::AbsentAgain),
        InitStep::AbsentAgain => Some(InitStep::Publish),
        InitStep::Publish => Some(InitStep::Read(Bundle::Published, InitFile::Config)),
        InitStep::Parse(Bundle::Published, InitFile::Base) => match platform {
            Platform::Unix => Some(InitStep::FlushCurrent),
            Platform::Windows => None,
        },
        InitStep::FlushCurrent => None,
    }
}

/// What an initialization needs next from outside.
#[derive(Debug, PartialEq, Eq)]
pub enum InitRequest {
    /// What the entry at a path itself is.
    Look { path: String },
    /// A number that this process has not drawn before.
    Number,
    /// A new directory.
    CreateDirectory { path: String },
    /// A new empty file.
    Create { path: String },
    /// The contents of the new file.
    Write { path: String, contents: String },
    /// The new file flushed.
    Flush { path: String },
    /// A directory flushed.
    FlushDirectory { path: String },
    /// The text of a file.
    Read { path: String },
    /// Whether a document is an environment configuration.
    ParseConfiguration { document: String },
    /// Whether a document is a profile.
    ParseProfile { document: String },
    /// A directory moved at once to where nothing is.
    Publish { staging: String, root: String },
    /// Nothing more.
    Finished,
}

/// The answer to a request.
#[derive(Debug, PartialEq, Eq)]
pub enum InitReply {
    Looked(Result<EntryFacts, FileError>),
    Number(usize),
    Done(Result<(), FileError>),
    Read(Result<String, FileError>),
    Parsed(Result<(), String>),
}

/// An initialization under way.
pub struct InitView {
    pub current: Seq<char>,
    pub dry_run: bool,
    pub process: nat,
    pub platform: Platform,
    /// Whether the platform can publish a directory without replacing an entry.
    pub supported: bool,
    pub staging: Seq<char>,
    pub step: InitStep,
    pub attempts: nat,
    pub ended: Option<Result<InitReportView, InitErrorView>>,
}

impl InitView {
    /// The control directory.
    pub open spec fn root(self) -> Seq<char> {
        entry_path(self.current, CONTROL_DIRECTORY@, self.platform)
    }

    /// The directory of the profiles, before the bundle is published.
    pub open spec fn profiles(self) -> Seq<char> {
        entry_path(self.staging, "profiles"@, self.platform)
    }

    /// A file that is written.
    pub open spec fn written(self, file: InitFile) -> Seq<char> {
        match file {
            InitFile::Config => entry_path(self.staging, "config.yaml"@, self.platform),
            InitFile::Base => entry_path(self.profiles(), "base.yaml"@, self.platform),
        }
    }

    /// A file that is read back.
    pub open spec fn reread(self, bundle: Bundle, file: InitFile) -> Seq<char> {
        let directory = match bundle {
            Bundle::Staging => self.staging,
            Bundle::Published => self.root(),
        };
        match file {
            InitFile::Config => entry_path(directory, "config.yaml"@, self.platform),
            InitFile::Base => entry_path(directory, "profiles/base.yaml"@, self.platform),
        }
    }

    /// The initialization that failed.
    pub open spec fn failed(self, error: InitErrorView) -> InitView {
        InitView { ended: Some(Err(error)), ..self }
    }

    /// The initialization come to a step. What the platform does not support ends it before the
    /// publication.
    pub open spec fn come_to(self, step: Option<InitStep>) -> InitView {
        match step {
            None => InitView {
                ended: Some(Ok(InitReportView { root: self.root(), dry_run: false })),
                ..self
            },
            Some(step) => if step is AbsentAgain && !self.supported {
                self.failed(InitErrorView::UnsupportedPlatform)
            } else {
                InitView { step, ..self }
            },
        }
    }

    /// The initialization after a check.
    pub open spec fn checked(self, outcome: Result<(), InitErrorView>) -> InitView {
        match outcome {
            Ok(_) => self.come_to(following(self.step, self.platform)),
            Err(error) => self.failed(error),
        }
    }

    /// The initialization after the staging directory was made, or not. A name that is taken is
    /// given up for another one, as often as names are tried.
    pub open spec fn staged(self, outcome: Result<(), FileError>) -> InitView {
        match outcome {
            Err(source) => if source.kind is AlreadyExists {
                if self.attempts + 1 < STAGING_ATTEMPTS {
                    InitView { step: InitStep::Number, attempts: self.attempts + 1, ..self }
                } else {
                    self.failed(
                        InitErrorView::Io {
                            action: "allocate a unique staging directory below"@,
                            path: self.current,
                            source: FileErrorView {
                                kind: FileErrorKind::AlreadyExists,
                                message: "staging name collision limit reached"@,
                            },
                        },
                    )
                }
            } else {
                self.checked(done("create staging directory"@, self.staging, outcome))
            },
            Ok(_) => self.checked(Ok(())),
        }
    }

    /// The initialization after an answer. An answer to another question changes nothing.
    pub open spec fn answered(self, reply: InitReply) -> InitView {
        if self.ended is Some {
            self
        } else {
            match (self.step, reply) {
                (InitStep::Absent, InitReply::Looked(look)) => match absent_look(
                    self.root(),
                    look,
                ) {
                    Err(error) => self.failed(error),
                    Ok(_) => if self.dry_run {
                        InitView {
                            ended: Some(
                                Ok(InitReportView { root: self.root(), dry_run: true }),
                            ),
                            ..self
                        }
                    } else {
                        self.checked(Ok(()))
                    },
                },
                (InitStep::Number, InitReply::Number(number)) => InitView {
                    staging: entry_path(
                        self.current,
                        temporary_name(".loadout-init-"@, self.process, number as nat),
                        self.platform,
                    ),
                    ..self
                }.checked(Ok(())),
                (InitStep::Staging, InitReply::Done(outcome)) => self.staged(outcome),
                (InitStep::Profiles, InitReply::Done(outcome)) => self.checked(
                    done("create profiles directory"@, self.profiles(), outcome),
                ),
                (InitStep::Create(file), InitReply::Done(outcome)) => self.checked(
                    done("create generated file"@, self.written(file), outcome),
                ),
                (InitStep::Write(file), InitReply::Done(outcome)) => self.checked(
                    done("write generated file"@, self.written(file), outcome),
                ),
                (InitStep::Flush(file), InitReply::Done(outcome)) => self.checked(
                    done("flush generated file"@, self.written(file), outcome),
                ),
                (InitStep::FlushProfiles, InitReply::Done(outcome)) => self.checked(
                    done("flush directory"@, self.profiles(), outcome),
                ),
                (InitStep::FlushStaging, InitReply::Done(outcome)) => self.checked(
                    done("flush directory"@, self.staging, outcome),
                ),
                (InitStep::FlushCurrent, InitReply::Done(outcome)) => self.checked(
                    done("flush directory"@, self.current, outcome),
                ),
                (InitStep::Read(bundle, file), InitReply::Read(read)) => self.checked(
                    bundle_read(self.reread(bundle, file), file, read),
                ),
                (InitStep::Parse(bundle, file), InitReply::Parsed(parsed)) => self.checked(
                    bundle_meaning(self.reread(bundle, file), parsed),
                ),
                (InitStep::AbsentAgain, InitReply::Looked(look)) => self.checked(
                    absent_look(self.root(), look),
                ),
                (InitStep::Publish, InitReply::Done(outcome)) => self.checked(
                    published(self.root(), outcome),
                ),
                _ => self,
            }
        }
    }

    /// Whether a request is what the initialization needs next.
    pub open spec fn requests(self, request: InitRequest) -> bool {
        if self.ended is Some {
            request is Finished
        } else {
            match self.step {
                InitStep::Absent => request matches InitRequest::Look { path } && path@
                    == self.root(),
                InitStep::Number => request is Number,
                InitStep::Staging => request matches InitRequest::CreateDirectory { path } && path@
                    == self.staging,
                InitStep::Profiles => request matches InitRequest::CreateDirectory { path }
                    && path@ == self.profiles(),
                InitStep::Create(file) => request matches InitRequest::Create { path } && path@
                    == self.written(file),
                InitStep::Write(file) => request matches InitRequest::Write { path, contents }
                    && path@ == self.written(file) && contents@ == contents_of(file),
                InitStep::Flush(file) => request matches InitRequest::Flush { path } && path@
                    == self.written(file),
                InitStep::FlushProfiles => request matches InitRequest::FlushDirectory { path }
                    && path@ == self.profiles(),
                InitStep::FlushStaging => request matches InitRequest::FlushDirectory { path }
                    && path@ == self.staging,
                InitStep::FlushCurrent => request matches InitRequest::FlushDirectory { path }
                    && path@ == self.current,
                InitStep::Read(bundle, file) => request matches InitRequest::Read { path } && path@
                    == self.reread(bundle, file),
                InitStep::Parse(_, InitFile::Config) => request matches
                    InitRequest::ParseConfiguration { document } && document@ == CONFIG_YAML@,
                InitStep::Parse(_, InitFile::Base) => request matches InitRequest::ParseProfile {
                    document,
                } && document@ == BASE_YAML@,
                InitStep::AbsentAgain => request matches InitRequest::Look { path } && path@
                    == self.root(),
                InitStep::Publish => request matches InitRequest::Publish { staging, root }
                    && staging@ == self.staging && root@ == self.root(),
            }
        }
    }

    /// What every initialization keeps: a dry run never comes past its first look, and nothing is
    /// published where the platform cannot do it without replacing an entry.
    pub open spec fn sound(self) -> bool {
        &&& self.attempts < STAGING_ATTEMPTS
        &&& self.dry_run ==> self.step is Absent
        &&& !self.supported ==> !(self.step is AbsentAgain || self.step is Publish)
        &&& self.ended matches Some(Ok(report)) ==> report.root == self.root() && report.dry_run
            == self.dry_run
    }
}

/// The start of an initialization.
pub open spec fn init_start(
    current: Seq<char>,
    dry_run: bool,
    process: nat,
    platform: Platform,
    supported: bool,
) -> InitView {
    InitView {
        current,
        dry_run,
        process,
        platform,
        supported,
        staging: Seq::empty(),
        step: InitStep::Absent,
        attempts: 0,
        ended: None,
    }
}

/// Every initialization starts as it goes on.
pub proof fn init_starts_sound(
    current: Seq<char>,
    dry_run: bool,
    process: nat,
    platform: Platform,
    supported: bool,
)
    ensures
        init_start(current, dry_run, process, platform, supported).sound(),
{
}

/// Every initialization keeps what it promises, whatever it is answered.
pub proof fn init_stays_sound(init: InitView, reply: InitReply)
    requires
        init.sound(),
    ensures
        init.answered(reply).sound(),
{
}

/// A dry run asks for nothing but a look at the control directory.
pub proof fn dry_run_only_looks(init: InitView, request: InitRequest)
    requires
        init.sound(),
        init.dry_run,
        init.requests(request),
    ensures
        request is Look || request is Finished,
{
}

/// An entry that is at the control directory is never replaced: whatever the first look finds ends
/// the initialization, and a publication is asked for only right after another look found nothing.
pub proof fn existing_entry_is_never_replaced(init: InitView, reply: InitReply)
    requires
        init.sound(),
        init.ended is None,
    ensures
        init.step is Absent && (reply matches InitReply::Looked(Ok(_))) ==> init.answered(
            reply,
        ).ended == Some(
            Err::<InitReportView, InitErrorView>(
                InitErrorView::AlreadyExists { path: init.root() },
            ),
        ),
        init.step !is Publish && init.answered(reply).step is Publish ==> {
            &&& init.step is AbsentAgain
            &&& reply matches InitReply::Looked(Err(source)) && source.kind is NotFound
        },
{
}

/// Whether an answer is one that a step asks for and is content with.
pub open spec fn satisfies(init: InitView, reply: InitReply) -> bool {
    match init.step {
        InitStep::Absent => reply matches InitReply::Looked(Err(source)) && source.kind
            is NotFound,
        InitStep::AbsentAgain => reply matches InitReply::Looked(Err(source)) && source.kind
            is NotFound,
        InitStep::Number => reply is Number,
        InitStep::Read(_, file) => reply matches InitReply::Read(Ok(text)) && text@ == contents_of(
            file,
        ),
        InitStep::Parse(_, _) => reply matches InitReply::Parsed(Ok(_)),
        _ => reply matches InitReply::Done(Ok(_)),
    }
}

/// An initialization comes to another step, or ends well, only by an answer that satisfies the step
/// before, but for a staging name that is taken. So the bundle is published only when it was
/// written, flushed, read back and parsed, and it ends well only when it was read back and parsed
/// where it was published.
pub proof fn no_step_is_passed_over(init: InitView, reply: InitReply)
    requires
        init.sound(),
        init.ended is None,
    ensures
        ({
            let next = init.answered(reply);
            &&& next.step != init.step ==> {
                ||| next.step is Number && init.step is Staging
                ||| satisfies(init, reply) && following(init.step, init.platform) == Some(next.step)
            }
            &&& next.ended matches Some(Ok(_)) ==> {
                &&& satisfies(init, reply)
                &&& init.dry_run || following(init.step, init.platform) is None
            }
        }),
{
}

/// An initialization under way.
#[derive(Debug)]
pub struct InitSession {
    current: String,
    dry_run: bool,
    process: usize,
    platform: Platform,
    supported: bool,
    staging: String,
    step: InitStep,
    attempts: usize,
    ended: Option<Result<InitReport, InitError>>,
}

/// What an initialization that has ended came to.
pub open spec fn initialized_view(ended: Option<Result<InitReport, InitError>>) -> Option<
    Result<InitReportView, InitErrorView>,
> {
    match ended {
        None => None,
        Some(Ok(report)) => Some(Ok(report@)),
        Some(Err(error)) => Some(Err(error@)),
    }
}

impl View for InitSession {
    type V = InitView;

    closed spec fn view(&self) -> InitView {
        InitView {
            current: self.current@,
            dry_run: self.dry_run,
            process: self.process as nat,
            platform: self.platform,
            supported: self.supported,
            staging: self.staging@,
            step: self.step,
            attempts: self.attempts as nat,
            ended: initialized_view(self.ended),
        }
    }
}

/// Starts to create the bundle below a directory, or to say where it would be.
pub fn initialize(
    current_directory: &str,
    dry_run: bool,
    process: usize,
    platform: Platform,
    supported: bool,
) -> (session: InitSession)
    ensures
        session@ == init_start(current_directory@, dry_run, process as nat, platform, supported),
{
    let staging = String::new();
    assert(staging@ =~= Seq::<char>::empty());
    InitSession {
        current: copy_of(current_directory),
        dry_run,
        process,
        platform,
        supported,
        staging,
        step: InitStep::Absent,
        attempts: 0,
        ended: None,
    }
}

impl InitSession {
    #[verifier::type_invariant]
    spec fn keeps(self) -> bool {
        self@.sound()
    }

    fn root(&self) -> (root: String)
        ensures
            root@ == self@.root(),
    {
        path_in(self.current.as_str(), CONTROL_DIRECTORY, self.platform)
    }

    fn profiles(&self) -> (path: String)
        ensures
            path@ == self@.profiles(),
    {
        path_in(self.staging.as_str(), "profiles", self.platform)
    }

    fn written(&self, file: InitFile) -> (path: String)
        ensures
            path@ == self@.written(file),
    {
        match file {
            InitFile::Config => path_in(self.staging.as_str(), "config.yaml", self.platform),
            InitFile::Base => path_in(self.profiles().as_str(), "base.yaml", self.platform),
        }
    }

    fn reread(&self, bundle: Bundle, file: InitFile) -> (path: String)
        ensures
            path@ == self@.reread(bundle, file),
    {
        let directory = match bundle {
            Bundle::Staging => copy_of(self.staging.as_str()),
            Bundle::Published => self.root(),
        };
        match file {
            InitFile::Config => path_in(directory.as_str(), "config.yaml", self.platform),
            InitFile::Base => path_in(directory.as_str(), "profiles/base.yaml", self.platform),
        }
    }

    /// What the initialization needs next.
    pub fn request(&self) -> (request: InitRequest)
        ensures
            self@.requests(request),
            self@.sound(),
    {
        proof {
            use_type_invariant(self);
        }
        if self.ended.is_some() {
            return InitRequest::Finished;
        }
        match self.step {
            InitStep::Absent => InitRequest::Look { path: self.root() },
            InitStep::Number => InitRequest::Number,
            InitStep::Staging => InitRequest::CreateDirectory {
                path: copy_of(self.staging.as_str()),
            },
            InitStep::Profiles => InitRequest::CreateDirectory { path: self.profiles() },
            InitStep::Create(file) => InitRequest::Create { path: self.written(file) },
            InitStep::Write(file) => InitRequest::Write {
                path: self.written(file),
                contents: copy_of(contents(file)),
            },
            InitStep::Flush(file) => InitRequest::Flush { path: self.written(file) },
            InitStep::FlushProfiles => InitRequest::FlushDirectory { path: self.profiles() },
            InitStep::FlushStaging => InitRequest::FlushDirectory {
                path: copy_of(self.staging.as_str()),
            },
            InitStep::FlushCurrent => InitRequest::FlushDirectory {
                path: copy_of(self.current.as_str()),
            },
            InitStep::Read(bundle, file) => InitRequest::Read { path: self.reread(bundle, file) },
            InitStep::Parse(_, file) => match file {
                InitFile::Config => InitRequest::ParseConfiguration {
                    document: copy_of(CONFIG_YAML),
                },
                InitFile::Base => InitRequest::ParseProfile { document: copy_of(BASE_YAML) },
            },
            InitStep::AbsentAgain => InitRequest::Look { path: self.root() },
            InitStep::Publish => InitRequest::Publish {
                staging: copy_of(self.staging.as_str()),
                root: self.root(),
            },
        }
    }

    fn failed(self, error: InitError) -> (next: Self)
        requires
            self@.sound(),
        ensures
            next@ == self@.failed(error@),
    {
        InitSession { ended: Some(Err(error)), ..self }
    }

    fn checked(self, outcome: Result<(), InitError>) -> (next: Self)
        requires
            self@.sound(),
            !self@.dry_run,
        ensures
            next@ == self@.checked(init_outcome(outcome)),
    {
        match outcome {
            Err(error) => self.failed(error),
            Ok(_) => match follow(self.step, self.platform) {
                None => {
                    let report = InitReport { root: self.root(), dry_run: false };
                    InitSession { ended: Some(Ok(report)), ..self }
                },
                Some(step) => {
                    let again = match step {
                        InitStep::AbsentAgain => true,
                        _ => false,
                    };
                    if again && !self.supported {
                        self.failed(InitError::UnsupportedPlatform)
                    } else {
                        InitSession { step, ..self }
                    }
                },
            },
        }
    }

    fn staged(self, outcome: Result<(), FileError>) -> (next: Self)
        requires
            self@.sound(),
            !self@.dry_run,
        ensures
            next@ == self@.staged(outcome),
    {
        match outcome {
            Err(source) => match source.kind {
                FileErrorKind::AlreadyExists => {
                    if self.attempts < STAGING_ATTEMPTS - 1 {
                        InitSession {
                            step: InitStep::Number,
                            attempts: self.attempts + 1,
                            ..self
                        }
                    } else {
                        let error = io_error(
                            "allocate a unique staging directory below",
                            self.current.as_str(),
                            FileError {
                                kind: FileErrorKind::AlreadyExists,
                                message: copy_of("staging name collision limit reached"),
                            },
                        );
                        self.failed(error)
                    }
                },
                _ => {
                    let error = io_error(
                        "create staging directory",
                        self.staging.as_str(),
                        source,
                    );
                    self.failed(error)
                },
            },
            Ok(_) => self.checked(Ok(())),
        }
    }
}

/// Takes the answer to the last request of an initialization.
pub fn initialize_with(session: InitSession, reply: InitReply) -> (next: InitSession)
    ensures
        next@ == session@.answered(reply),
{
    proof {
        use_type_invariant(&session);
        init_stays_sound(session@, reply);
    }
    if session.ended.is_some() {
        return session;
    }
    match (session.step, reply) {
        (InitStep::Absent, InitReply::Looked(look)) => {
            match ensure_absent(session.root().as_str(), look) {
                Err(error) => session.failed(error),
                Ok(_) => {
                    if session.dry_run {
                        let report = InitReport { root: session.root(), dry_run: true };
                        InitSession { ended: Some(Ok(report)), ..session }
                    } else {
                        session.checked(Ok(()))
                    }
                },
            }
        },
        (InitStep::Number, InitReply::Number(number)) => {
            let name = name_temporary(".loadout-init-", session.process, number);
            let staging = path_in(session.current.as_str(), name.as_str(), session.platform);
            let named = InitSession { staging, ..session };
            named.checked(Ok(()))
        },
        (InitStep::Staging, InitReply::Done(outcome)) => session.staged(outcome),
        (InitStep::Profiles, InitReply::Done(outcome)) => {
            let path = session.profiles();
            session.checked(take_done("create profiles directory", path.as_str(), outcome))
        },
        (InitStep::Create(file), InitReply::Done(outcome)) => {
            let path = session.written(file);
            session.checked(take_done("create generated file", path.as_str(), outcome))
        },
        (InitStep::Write(file), InitReply::Done(outcome)) => {
            let path = session.written(file);
            session.checked(take_done("write generated file", path.as_str(), outcome))
        },
        (InitStep::Flush(file), InitReply::Done(outcome)) => {
            let path = session.written(file);
            session.checked(take_done("flush generated file", path.as_str(), outcome))
        },
        (InitStep::FlushProfiles, InitReply::Done(outcome)) => {
            let path = session.profiles();
            session.checked(sync_directory(path.as_str(), outcome))
        },
        (InitStep::FlushStaging, InitReply::Done(outcome)) => {
            let path = copy_of(session.staging.as_str());
            session.checked(sync_directory(path.as_str(), outcome))
        },
        (InitStep::FlushCurrent, InitReply::Done(outcome)) => {
            let path = copy_of(session.current.as_str());
            session.checked(sync_directory(path.as_str(), outcome))
        },
        (InitStep::Read(bundle, file), InitReply::Read(read)) => {
            let path = session.reread(bundle, file);
            session.checked(validate_generated_bundle(path.as_str(), file, read))
        },
        (InitStep::Parse(bundle, file), InitReply::Parsed(parsed)) => {
            let path = session.reread(bundle, file);
            session.checked(validate_meaning(path.as_str(), parsed))
        },
        (InitStep::AbsentAgain, InitReply::Looked(look)) => {
            let root = session.root();
            session.checked(ensure_absent(root.as_str(), look))
        },
        (InitStep::Publish, InitReply::Done(outcome)) => {
            let root = session.root();
            session.checked(publish_without_replacement(root.as_str(), outcome))
        },
        _ => session,
    }
}

impl InitSession {
    /// What the initialization came to, once it has ended.
    pub fn finish(self) -> (ended: Option<Result<InitReport, InitError>>)
        ensures
            initialized_view(ended) == self@.ended,
    {
        self.ended
    }
}

} // verus!
