//! The selection of a portable configuration for this machine: prepared, checked, and put in place
//! as a whole, one call of the file system at a time.

use vstd::prelude::*;
use vstd::string::*;
use crate::authoring::files::{
    absolute_prefixes_of, directory_of, entry_path, name_temporary, parent_directory, path_in,
    prefixes_of, read_path, reading, temporary_name, CanonicalPath, EntryFacts, FileError,
    FileErrorKind, FileErrorView,
};
use crate::declaration::runtime_config::{
    configured, selected_fields, yaml_fields, yaml_text, RuntimeConfig, TEXT_LIMIT,
};
use crate::domain::paths::{same_path, Platform, ResolvedPath};
use crate::text::{copy_of, text_equal, texts};

verus! {

/// Why a portable configuration was not selected.
#[derive(Debug, PartialEq, Eq)]
pub enum ConfigUseError {
    Invalid { path: String, message: String },
    Collision { path: String },
    /// The platform cannot publish a file at once.
    UnsupportedPlatform,
    Io { action: &'static str, path: String, source: FileError },
    InvalidPublished { path: String, message: String },
}

/// Why a portable configuration was not selected.
pub enum UseErrorView {
    Invalid { path: Seq<char>, message: Seq<char> },
    Collision { path: Seq<char> },
    UnsupportedPlatform,
    Io { action: Seq<char>, path: Seq<char>, source: FileErrorView },
    InvalidPublished { path: Seq<char>, message: Seq<char> },
}

impl View for ConfigUseError {
    type V = UseErrorView;

    open spec fn view(&self) -> UseErrorView {
        match self {
            ConfigUseError::Invalid { path, message } => UseErrorView::Invalid {
                path: path@,
                message: message@,
            },
            ConfigUseError::Collision { path } => UseErrorView::Collision { path: path@ },
            ConfigUseError::UnsupportedPlatform => UseErrorView::UnsupportedPlatform,
            ConfigUseError::Io { action, path, source } => UseErrorView::Io {
                action: action@,
                path: path@,
                source: source@,
            },
            ConfigUseError::InvalidPublished { path, message } => UseErrorView::InvalidPublished {
                path: path@,
                message: message@,
            },
        }
    }
}

impl ConfigUseError {
    /// The exit code: two for what was refused before anything was published.
    pub fn exit_code(&self) -> (code: u8)
        ensures
            code == if self is Io || self is InvalidPublished {
                1u8
            } else {
                2u8
            },
    {
        match self {
            ConfigUseError::Invalid { .. } => 2,
            ConfigUseError::Collision { .. } => 2,
            ConfigUseError::UnsupportedPlatform => 2,
            ConfigUseError::Io { .. } => 1,
            ConfigUseError::InvalidPublished { .. } => 1,
        }
    }

    /// What the error says.
    pub open spec fn message(self) -> Seq<char> {
        match self {
            ConfigUseError::Invalid { path, message } => "invalid runtime configuration path "@
                + path@ + ": "@ + message@,
            ConfigUseError::Collision { path } =>
                "runtime configuration appeared during publication: "@ + path@,
            ConfigUseError::UnsupportedPlatform =>
                "config use requires an atomic runtime-configuration publication primitive on this platform"@,
            ConfigUseError::Io { action, path, source } => "cannot "@ + action@ + " "@ + path@
                + ": "@ + source.message@,
            ConfigUseError::InvalidPublished { path, message } =>
                "published runtime configuration is invalid at "@ + path@ + ": "@ + message@,
        }
    }

    /// What the error says.
    pub fn to_text(&self) -> (text: String)
        ensures
            text@ == self.message(),
    {
        match self {
            ConfigUseError::Invalid { path, message } => {
                copy_of("invalid runtime configuration path ").concat(path.as_str()).concat(
                    ": ",
                ).concat(message.as_str())
            },
            ConfigUseError::Collision { path } => {
                copy_of("runtime configuration appeared during publication: ").concat(
                    path.as_str(),
                )
            },
            ConfigUseError::UnsupportedPlatform => {
                copy_of(
                    "config use requires an atomic runtime-configuration publication primitive on this platform",
                )
            },
            ConfigUseError::Io { action, path, source } => {
                copy_of("cannot ").concat(action).concat(" ").concat(path.as_str()).concat(
                    ": ",
                ).concat(source.message.as_str())
            },
            ConfigUseError::InvalidPublished { path, message } => {
                copy_of("published runtime configuration is invalid at ").concat(
                    path.as_str(),
                ).concat(": ").concat(message.as_str())
            },
        }
    }
}

/// An error in what was found before anything was published.
pub fn invalid(path: &str, message: &str) -> (error: ConfigUseError)
    ensures
        error@ == (UseErrorView::Invalid { path: path@, message: message@ }),
{
    ConfigUseError::Invalid { path: copy_of(path), message: copy_of(message) }
}

/// An error that the file system gave.
pub fn io_error(action: &'static str, path: &str, source: FileError) -> (error: ConfigUseError)
    ensures
        error@ == (UseErrorView::Io { action: action@, path: path@, source: source@ }),
{
    ConfigUseError::Io { action, path: copy_of(path), source }
}

fn invalid_published(path: &str, message: &str) -> (error: ConfigUseError)
    ensures
        error@ == (UseErrorView::InvalidPublished { path: path@, message: message@ }),
{
    ConfigUseError::InvalidPublished { path: copy_of(path), message: copy_of(message) }
}

/// The error in an outcome.
pub open spec fn use_outcome(outcome: Result<(), ConfigUseError>) -> Result<(), UseErrorView> {
    match outcome {
        Ok(_) => Ok(()),
        Err(error) => Err(error@),
    }
}

/// What became of a publication that failed: a file that appeared is a collision.
pub open spec fn publication_failed(path: Seq<char>, source: FileErrorView) -> UseErrorView {
    if source.kind is AlreadyExists {
        UseErrorView::Collision { path }
    } else {
        UseErrorView::Io { action: "publish runtime configuration"@, path, source }
    }
}

/// The error of a publication that failed.
pub fn publication_error(path: &str, source: FileError) -> (error: ConfigUseError)
    ensures
        error@ == publication_failed(path@, source@),
{
    match source.kind {
        FileErrorKind::AlreadyExists => ConfigUseError::Collision { path: copy_of(path) },
        _ => io_error("publish runtime configuration", path, source),
    }
}

/// The absolute prefixes of a directory, from the shortest on.
pub fn absolute_prefixes(path: &str, platform: Platform) -> (outcome: Result<
    Vec<String>,
    ConfigUseError,
>)
    ensures
        match prefixes_of(path@, platform) {
            Some(list) => outcome matches Ok(found) && texts(found@) == list,
            None => outcome matches Err(error) && error@ == (UseErrorView::Invalid {
                path: path@,
                message: "runtime configuration parent is not absolute"@,
            }),
        },
{
    match absolute_prefixes_of(path, platform) {
        Some(list) => Ok(list),
        None => Err(invalid(path, "runtime configuration parent is not absolute")),
    }
}

/// What is said of an entry that is to be a directory.
pub open spec fn directory_found(path: Seq<char>, facts: EntryFacts) -> Result<(), UseErrorView> {
    if facts.plain_directory() {
        Ok(())
    } else {
        Err(UseErrorView::Invalid { path, message: "expected a non-symlink directory"@ })
    }
}

/// Checks that an entry is a directory itself.
pub fn validate_directory(path: &str, facts: EntryFacts) -> (outcome: Result<(), ConfigUseError>)
    ensures
        use_outcome(outcome) == directory_found(path@, facts),
{
    if facts.is_plain_directory() {
        Ok(())
    } else {
        Err(invalid(path, "expected a non-symlink directory"))
    }
}

/// What the canonical form of a directory says of it.
pub open spec fn directory_association(
    path: Seq<char>,
    canonical: Result<CanonicalPath, FileError>,
    platform: Platform,
) -> Result<(), UseErrorView> {
    match canonical {
        Err(source) => Err(
            UseErrorView::Io {
                action: "verify runtime configuration parent association"@,
                path,
                source: source@,
            },
        ),
        Ok(canonical) => match reading(path, platform) {
            Err(message) => Err(UseErrorView::Invalid { path, message }),
            Ok(declared) => match reading(canonical.spelling(platform), platform) {
                Err(message) => Err(UseErrorView::Invalid { path, message }),
                Ok(observed) => if same_path(observed, declared) {
                    Ok(())
                } else {
                    Err(
                        UseErrorView::Invalid {
                            path,
                            message: "parent is not associated with its declared path"@,
                        },
                    )
                },
            },
        },
    }
}

/// Checks that a directory leads where it says.
pub fn validate_association(
    path: &str,
    canonical: Result<CanonicalPath, FileError>,
    platform: Platform,
) -> (outcome: Result<(), ConfigUseError>)
    ensures
        use_outcome(outcome) == directory_association(path@, canonical, platform),
{
    match canonical {
        Err(source) => Err(
            io_error("verify runtime configuration parent association", path, source),
        ),
        Ok(canonical) => match read_path(path, platform) {
            Err(message) => Err(invalid(path, message.as_str())),
            Ok(declared) => match canonical.read(platform) {
                Err(message) => Err(invalid(path, message.as_str())),
                Ok(observed) => {
                    if observed.same(&declared) {
                        Ok(())
                    } else {
                        Err(invalid(path, "parent is not associated with its declared path"))
                    }
                },
            },
        },
    }
}

/// What a look at a file says of it: whether it is there, if it may be.
pub open spec fn file_found(path: Seq<char>, look: Result<EntryFacts, FileError>) -> Result<
    bool,
    UseErrorView,
> {
    match look {
        Ok(facts) => if facts.plain_file() {
            Ok(true)
        } else {
            Err(
                UseErrorView::Invalid {
                    path,
                    message: "expected an absent or regular non-symlink file"@,
                },
            )
        },
        Err(source) => if source.kind is NotFound {
            Ok(false)
        } else {
            Err(
                UseErrorView::Io {
                    action: "inspect runtime configuration"@,
                    path,
                    source: source@,
                },
            )
        },
    }
}

/// Whether a file is there, if it may be.
pub fn inspect_destination(path: &str, look: Result<EntryFacts, FileError>) -> (outcome: Result<
    bool,
    ConfigUseError,
>)
    ensures
        match file_found(path@, look) {
            Ok(there) => outcome == Ok::<bool, ConfigUseError>(there),
            Err(error) => outcome matches Err(found) && found@ == error,
        },
{
    match look {
        Ok(facts) => {
            if facts.is_plain_file() {
                Ok(true)
            } else {
                Err(invalid(path, "expected an absent or regular non-symlink file"))
            }
        },
        Err(source) => match source.kind {
            FileErrorKind::NotFound => Ok(false),
            _ => Err(io_error("inspect runtime configuration", path, source)),
        },
    }
}

/// What the text of a runtime configuration selects, or what is wrong with it.
pub open spec fn selects(text: Seq<char>) -> Result<Option<Seq<char>>, Seq<char>> {
    match yaml_fields(text) {
        Err(message) => Err(message),
        Ok(fields) => match configured(fields) {
            Ok(path) => Ok(path),
            Err(error) => Err(error.message()),
        },
    }
}

fn read_selection(text: &str) -> (outcome: Result<Option<String>, String>)
    ensures
        match selects(text@) {
            Ok(Some(path)) => outcome matches Ok(Some(found)) && found@ == path,
            Ok(None) => outcome matches Ok(None),
            Err(message) => outcome matches Err(found) && found@ == message,
        },
{
    match RuntimeConfig::parse(text) {
        Ok(config) => match config.config_path() {
            Some(path) => Ok(Some(copy_of(path))),
            None => Ok(None),
        },
        Err(error) => Err(error.to_text()),
    }
}

/// What a read of a written file says of it: it has to select what was asked for.
pub open spec fn written_read(
    path: Seq<char>,
    selected: Seq<char>,
    read: Result<String, FileError>,
) -> Result<(), UseErrorView> {
    match read {
        Err(source) => Err(
            UseErrorView::Io { action: "re-open runtime configuration"@, path, source: source@ },
        ),
        Ok(text) => match selects(text@) {
            Err(message) => Err(UseErrorView::InvalidPublished { path, message }),
            Ok(found) => if found == Some(selected) {
                Ok(())
            } else {
                Err(
                    UseErrorView::InvalidPublished {
                        path,
                        message:
                            "config_path differs from the selected portable configuration"@,
                    },
                )
            },
        },
    }
}

/// Checks that a written file selects what was asked for.
pub fn validate_published(path: &str, selected: &str, read: Result<String, FileError>) -> (outcome:
    Result<(), ConfigUseError>)
    ensures
        use_outcome(outcome) == written_read(path@, selected@, read),
{
    match read {
        Err(source) => Err(io_error("re-open runtime configuration", path, source)),
        Ok(text) => match read_selection(text.as_str()) {
            Err(message) => Err(invalid_published(path, message.as_str())),
            Ok(found) => {
                let same = match found {
                    Some(found) => text_equal(found.as_str(), selected),
                    None => false,
                };
                if same {
                    Ok(())
                } else {
                    Err(
                        invalid_published(
                            path,
                            "config_path differs from the selected portable configuration",
                        ),
                    )
                }
            },
        },
    }
}

/// What is said of a directory when nothing may be made any more: what would be refused before a
/// publication makes the published file invalid.
pub open spec fn standing(outcome: Result<(), UseErrorView>) -> Result<(), UseErrorView> {
    match outcome {
        Err(UseErrorView::Invalid { path, message }) => Err(
            UseErrorView::InvalidPublished { path, message },
        ),
        other => other,
    }
}

fn stand(outcome: Result<(), ConfigUseError>) -> (changed: Result<(), ConfigUseError>)
    ensures
        use_outcome(changed) == standing(use_outcome(outcome)),
{
    match outcome {
        Err(ConfigUseError::Invalid { path, message }) => Err(
            ConfigUseError::InvalidPublished { path, message },
        ),
        other => other,
    }
}

/// What a look at a prefix of the parent directory says when nothing may be made any more.
pub open spec fn standing_look(path: Seq<char>, look: Result<EntryFacts, FileError>) -> Result<
    (),
    UseErrorView,
> {
    match look {
        Ok(facts) => standing(directory_found(path, facts)),
        Err(source) => if source.kind is NotFound {
            Err(
                UseErrorView::InvalidPublished {
                    path,
                    message: "runtime configuration parent disappeared during publication"@,
                },
            )
        } else {
            Err(
                UseErrorView::Io {
                    action: "re-inspect runtime configuration parent after publication"@,
                    path,
                    source: source@,
                },
            )
        },
    }
}

/// Checks that a prefix of the parent directory still stands.
pub fn verify_existing_safe_parent(path: &str, look: Result<EntryFacts, FileError>) -> (outcome:
    Result<(), ConfigUseError>)
    ensures
        use_outcome(outcome) == standing_look(path@, look),
{
    match look {
        Ok(facts) => stand(validate_directory(path, facts)),
        Err(source) => match source.kind {
            FileErrorKind::NotFound => Err(
                invalid_published(
                    path,
                    "runtime configuration parent disappeared during publication",
                ),
            ),
            _ => Err(
                io_error(
                    "re-inspect runtime configuration parent after publication",
                    path,
                    source,
                ),
            ),
        },
    }
}

/// Why a file was not put where it belongs.
#[derive(Debug, PartialEq, Eq)]
pub enum PublishFailure {
    /// The platform cannot publish a file at once.
    Unsupported,
    Failed(FileError),
}

/// What became of the publication of a file that may not replace another.
pub open spec fn published_new(path: Seq<char>, outcome: Result<(), PublishFailure>) -> Result<
    (),
    UseErrorView,
> {
    match outcome {
        Ok(_) => Ok(()),
        Err(PublishFailure::Unsupported) => Err(UseErrorView::UnsupportedPlatform),
        Err(PublishFailure::Failed(source)) => Err(publication_failed(path, source@)),
    }
}

/// Takes what became of the publication of a file that may not replace another.
pub fn publish_without_replacement(destination: &str, published: Result<(), PublishFailure>) -> (outcome:
    Result<(), ConfigUseError>)
    ensures
        use_outcome(outcome) == published_new(destination@, published),
{
    match published {
        Ok(_) => Ok(()),
        Err(PublishFailure::Unsupported) => Err(ConfigUseError::UnsupportedPlatform),
        Err(PublishFailure::Failed(source)) => Err(publication_error(destination, source)),
    }
}

/// What became of the publication of a file in the place of another.
pub open spec fn published_over(
    path: Seq<char>,
    outcome: Result<(), PublishFailure>,
    platform: Platform,
) -> Result<(), UseErrorView> {
    match (outcome, platform) {
        (Err(PublishFailure::Failed(source)), Platform::Unix) => Err(
            UseErrorView::Io { action: "replace runtime configuration"@, path, source: source@ },
        ),
        _ => published_new(path, outcome),
    }
}

/// Takes what became of the publication of a file in the place of another.
pub fn publish_replacement(
    destination: &str,
    published: Result<(), PublishFailure>,
    platform: Platform,
) -> (outcome: Result<(), ConfigUseError>)
    ensures
        use_outcome(outcome) == published_over(destination@, published, platform),
{
    match (published, platform) {
        (Err(PublishFailure::Failed(source)), Platform::Unix) => Err(
            io_error("replace runtime configuration", destination, source),
        ),
        (published, _) => publish_without_replacement(destination, published),
    }
}

/// What is said of a temporary file that is checked once more: what would make a published file
/// invalid is a failure of the file system here.
pub open spec fn temporary_failed(error: UseErrorView) -> UseErrorView {
    match error {
        UseErrorView::InvalidPublished { path, message } => UseErrorView::Io {
            action: "recheck runtime configuration temporary"@,
            path,
            source: FileErrorView { kind: FileErrorKind::Other, message },
        },
        other => other,
    }
}

/// The error of a temporary file that is checked once more.
pub fn verify_temporary(error: ConfigUseError) -> (changed: ConfigUseError)
    ensures
        changed@ == temporary_failed(error@),
{
    match error {
        ConfigUseError::InvalidPublished { path, message } => ConfigUseError::Io {
            action: "recheck runtime configuration temporary",
            path,
            source: FileError { kind: FileErrorKind::Other, message },
        },
        other => other,
    }
}

/// What became of a call that only succeeds or fails.
pub open spec fn done(action: Seq<char>, path: Seq<char>, outcome: Result<(), FileError>) -> Result<
    (),
    UseErrorView,
> {
    match outcome {
        Ok(_) => Ok(()),
        Err(source) => Err(UseErrorView::Io { action, path, source: source@ }),
    }
}

fn take_done(action: &'static str, path: &str, outcome: Result<(), FileError>) -> (taken: Result<
    (),
    ConfigUseError,
>)
    ensures
        use_outcome(taken) == done(action@, path@, outcome),
{
    match outcome {
        Ok(_) => Ok(()),
        Err(source) => Err(io_error(action, path, source)),
    }
}

/// Takes what became of the flush of the parent directory.
pub fn sync_parent(path: &str, flushed: Result<(), FileError>) -> (outcome: Result<
    (),
    ConfigUseError,
>)
    ensures
        use_outcome(outcome) == done("flush runtime configuration parent"@, path@, flushed),
{
    take_done("flush runtime configuration parent", path, flushed)
}

/// A checked selection that is not published yet.
#[derive(Debug, PartialEq, Eq)]
pub struct UsePreparation {
    destination: ResolvedPath,
    prior: Option<String>,
    prior_document: Option<String>,
    candidate: String,
}

/// A checked selection that is not published yet.
pub struct SelectionView {
    pub destination: Seq<char>,
    pub prior: Option<Seq<char>>,
    pub prior_document: Option<Seq<char>>,
    pub selected: Seq<char>,
}

/// The text in an option.
pub open spec fn optional(text: Option<String>) -> Option<Seq<char>> {
    match text {
        Some(text) => Some(text@),
        None => None,
    }
}

impl View for UsePreparation {
    type V = SelectionView;

    closed spec fn view(&self) -> SelectionView {
        SelectionView {
            destination: self.destination@,
            prior: optional(self.prior),
            prior_document: optional(self.prior_document),
            selected: self.candidate@,
        }
    }
}

impl UsePreparation {
    #[verifier::type_invariant]
    spec fn keeps(self) -> bool {
        &&& yaml_text(selected_fields(self.candidate@)) is Ok
        &&& self.candidate@.len() < TEXT_LIMIT
    }

    /// The runtime configuration file.
    pub fn destination(&self) -> (path: &str)
        ensures
            path@ == self@.destination,
    {
        self.destination.as_path()
    }

    /// What was selected before.
    pub fn prior(&self) -> (prior: Option<&str>)
        ensures
            match prior {
                Some(prior) => self@.prior == Some(prior@),
                None => self@.prior is None,
            },
    {
        match &self.prior {
            Some(prior) => Some(prior.as_str()),
            None => None,
        }
    }

    /// What is selected.
    pub fn selected_path(&self) -> (path: &str)
        ensures
            path@ == self@.selected,
    {
        self.candidate.as_str()
    }
}

/// What a selection needs next from outside.
#[derive(Debug, PartialEq, Eq)]
pub enum UseRequest {
    /// What the entry at a path itself is.
    Look { path: String },
    /// The canonical form of a path.
    Canonicalize { path: String },
    /// The text of a file.
    Read { path: String },
    /// A new directory.
    CreateDirectory { path: String },
    /// A number that this process has not drawn before.
    Number,
    /// A new empty file.
    Create { path: String },
    /// The contents of the new file.
    Write { path: String, contents: String },
    /// The new file flushed.
    Flush { path: String },
    /// A file moved at once to where none is.
    PublishNew { temporary: String, destination: String },
    /// A file put in the place of another at once.
    PublishOver { temporary: String, destination: String },
    /// A directory flushed.
    FlushDirectory { path: String },
    /// Nothing more.
    Finished,
}

/// The answer to a request.
#[derive(Debug, PartialEq, Eq)]
pub enum UseReply {
    Looked(Result<EntryFacts, FileError>),
    Canonicalized(Result<CanonicalPath, FileError>),
    Read(Result<String, FileError>),
    Number(usize),
    Done(Result<(), FileError>),
    Published(Result<(), PublishFailure>),
}

/// Where a preparation stands. A number is that of a prefix of the parent directory.
#[derive(Clone, Copy, Debug, PartialEq, Eq, Structural)]
pub enum UsePhase {
    Inspect(usize),
    Associate(usize),
    Destination,
    Document,
}

/// A preparation under way.
pub struct SelectingView {
    pub destination: Seq<char>,
    pub selected: Seq<char>,
    pub platform: Platform,
    pub prefixes: Seq<Seq<char>>,
    pub phase: UsePhase,
    pub ended: Option<Result<SelectionView, UseErrorView>>,
}

impl SelectingView {
    /// The preparation that failed.
    pub open spec fn failed(self, error: UseErrorView) -> SelectingView {
        SelectingView { ended: Some(Err(error)), ..self }
    }

    /// The preparation come to a prefix, or past the last one.
    pub open spec fn come_to(self, i: int) -> SelectingView {
        SelectingView {
            phase: if i < self.prefixes.len() {
                UsePhase::Inspect(i as usize)
            } else {
                UsePhase::Destination
            },
            ..self
        }
    }

    /// The preparation that found what was selected before, or that nothing was.
    pub open spec fn found(self, prior: Option<Seq<char>>, document: Option<Seq<char>>) -> SelectingView {
        match yaml_text(selected_fields(self.selected)) {
            Err(message) => self.failed(
                UseErrorView::Invalid { path: self.destination, message },
            ),
            Ok(_) => SelectingView {
                ended: Some(
                    Ok(
                        SelectionView {
                            destination: self.destination,
                            prior,
                            prior_document: document,
                            selected: self.selected,
                        },
                    ),
                ),
                ..self
            },
        }
    }

    /// The preparation after an answer. An answer to another question changes nothing.
    pub open spec fn answered(self, reply: UseReply) -> SelectingView {
        if self.ended is Some {
            self
        } else {
            match (self.phase, reply) {
                (UsePhase::Inspect(i), UseReply::Looked(look)) => match look {
                    Ok(facts) => match directory_found(self.prefixes[i as int], facts) {
                        Ok(_) => SelectingView { phase: UsePhase::Associate(i), ..self },
                        Err(error) => self.failed(error),
                    },
                    Err(source) => if source.kind is NotFound {
                        SelectingView { phase: UsePhase::Destination, ..self }
                    } else {
                        self.failed(
                            UseErrorView::Io {
                                action: "inspect runtime configuration parent"@,
                                path: self.prefixes[i as int],
                                source: source@,
                            },
                        )
                    },
                },
                (UsePhase::Associate(i), UseReply::Canonicalized(canonical)) =>
                    match directory_association(
                    self.prefixes[i as int],
                    canonical,
                    self.platform,
                ) {
                    Ok(_) => self.come_to(i + 1),
                    Err(error) => self.failed(error),
                },
                (UsePhase::Destination, UseReply::Looked(look)) => match file_found(
                    self.destination,
                    look,
                ) {
                    Err(error) => self.failed(error),
                    Ok(true) => SelectingView { phase: UsePhase::Document, ..self },
                    Ok(false) => self.found(None, None),
                },
                (UsePhase::Document, UseReply::Read(read)) => match read {
                    Err(source) => self.failed(
                        UseErrorView::Io {
                            action: "read existing runtime configuration"@,
                            path: self.destination,
                            source: source@,
                        },
                    ),
                    Ok(document) => match selects(document@) {
                        Err(message) => self.failed(
                            UseErrorView::Invalid { path: self.destination, message },
                        ),
                        Ok(prior) => self.found(prior, Some(document@)),
                    },
                },
                _ => self,
            }
        }
    }

    /// Whether a request is what the preparation needs next.
    pub open spec fn requests(self, request: UseRequest) -> bool {
        if self.ended is Some {
            request is Finished
        } else {
            match self.phase {
                UsePhase::Inspect(i) => request matches UseRequest::Look { path } && path@
                    == self.prefixes[i as int],
                UsePhase::Associate(i) => request matches UseRequest::Canonicalize { path }
                    && path@ == self.prefixes[i as int],
                UsePhase::Destination => request matches UseRequest::Look { path } && path@
                    == self.destination,
                UsePhase::Document => request matches UseRequest::Read { path } && path@
                    == self.destination,
            }
        }
    }

    /// What every preparation keeps.
    pub open spec fn sound(self) -> bool {
        &&& self.prefixes.len() <= usize::MAX
        &&& self.selected.len() < TEXT_LIMIT
        &&& match self.phase {
            UsePhase::Inspect(i) => i < self.prefixes.len(),
            UsePhase::Associate(i) => i < self.prefixes.len(),
            _ => true,
        }
        &&& self.ended matches Some(Ok(selection)) ==> {
            &&& selection.destination == self.destination
            &&& selection.selected == self.selected
            &&& selection.prior_document is None ==> selection.prior is None
            &&& selection.prior_document matches Some(document) ==> selects(document) == Ok::<
                Option<Seq<char>>,
                Seq<char>,
            >(selection.prior)
        }
    }
}

/// The start of a preparation.
pub open spec fn selection_start(
    destination: Seq<char>,
    selected: Seq<char>,
    platform: Platform,
) -> SelectingView {
    let start = SelectingView {
        destination,
        selected,
        platform,
        prefixes: Seq::empty(),
        phase: UsePhase::Destination,
        ended: None,
    };
    match directory_of(destination, platform) {
        None => start.failed(
            UseErrorView::Invalid {
                path: destination,
                message: "runtime configuration has no parent directory"@,
            },
        ),
        Some(parent) => match prefixes_of(parent, platform) {
            None => start.failed(
                UseErrorView::Invalid {
                    path: parent,
                    message: "runtime configuration parent is not absolute"@,
                },
            ),
            Some(list) => SelectingView { prefixes: list, ..start }.come_to(0),
        },
    }
}

/// Every preparation starts as it goes on.
pub proof fn selection_starts_sound(
    destination: Seq<char>,
    selected: Seq<char>,
    platform: Platform,
)
    requires
        selected.len() < TEXT_LIMIT,
        directory_of(destination, platform) matches Some(parent) ==> (prefixes_of(parent, platform)
            matches Some(list) ==> list.len() <= usize::MAX),
    ensures
        selection_start(destination, selected, platform).sound(),
{
}

/// Every preparation keeps what it promises, whatever it is answered: the prior selection is the
/// one that the file held.
pub proof fn selection_stays_sound(selecting: SelectingView, reply: UseReply)
    requires
        selecting.sound(),
    ensures
        selecting.answered(reply).sound(),
{
}

/// A preparation under way.
#[derive(Debug)]
pub struct SelectionSession {
    destination: ResolvedPath,
    selected: String,
    platform: Platform,
    prefixes: Vec<String>,
    phase: UsePhase,
    ended: Option<Result<UsePreparation, ConfigUseError>>,
}

/// What a preparation that has ended came to.
pub open spec fn selected_view(ended: Option<Result<UsePreparation, ConfigUseError>>) -> Option<
    Result<SelectionView, UseErrorView>,
> {
    match ended {
        None => None,
        Some(Ok(preparation)) => Some(Ok(preparation@)),
        Some(Err(error)) => Some(Err(error@)),
    }
}

impl View for SelectionSession {
    type V = SelectingView;

    closed spec fn view(&self) -> SelectingView {
        SelectingView {
            destination: self.destination@,
            selected: self.selected@,
            platform: self.platform,
            prefixes: texts(self.prefixes@),
            phase: self.phase,
            ended: selected_view(self.ended),
        }
    }
}

/// Starts to check the runtime configuration file and the selection of a portable configuration.
///
/// The path of the selected configuration is short enough to be written.
pub fn prepare(destination: ResolvedPath, selected: &ResolvedPath, platform: Platform) -> (session:
    SelectionSession)
    requires
        selected@.len() < TEXT_LIMIT,
    ensures
        session@ == selection_start(destination@, selected@, platform),
{
    let (prefixes, error) = match parent_directory(&destination, platform) {
        None => {
            let none: Vec<String> = Vec::new();
            (
                none,
                Some(
                    invalid(
                        destination.as_path(),
                        "runtime configuration has no parent directory",
                    ),
                ),
            )
        },
        Some(parent) => match absolute_prefixes(parent.as_str(), platform) {
            Ok(list) => (list, None),
            Err(error) => {
                let none: Vec<String> = Vec::new();
                (none, Some(error))
            },
        },
    };
    proof {
        assert(texts(prefixes@).len() == prefixes@.len());
        if error is Some {
            assert(texts(prefixes@) =~= Seq::<Seq<char>>::empty());
        }
    }
    let phase = if prefixes.len() > 0 {
        UsePhase::Inspect(0)
    } else {
        UsePhase::Destination
    };
    let ended = match error {
        Some(error) => Some(Err(error)),
        None => None,
    };
    SelectionSession {
        destination,
        selected: copy_of(selected.as_path()),
        platform,
        prefixes,
        phase,
        ended,
    }
}

impl SelectionSession {
    #[verifier::type_invariant]
    spec fn keeps(self) -> bool {
        self@.sound()
    }

    /// What the preparation needs next.
    pub fn request(&self) -> (request: UseRequest)
        ensures
            self@.requests(request),
            self@.sound(),
    {
        proof {
            use_type_invariant(self);
            assert(texts(self.prefixes@).len() == self.prefixes@.len());
        }
        if self.ended.is_some() {
            return UseRequest::Finished;
        }
        match self.phase {
            UsePhase::Inspect(i) => UseRequest::Look { path: copy_of(self.prefixes[i].as_str()) },
            UsePhase::Associate(i) => UseRequest::Canonicalize {
                path: copy_of(self.prefixes[i].as_str()),
            },
            UsePhase::Destination => UseRequest::Look {
                path: copy_of(self.destination.as_path()),
            },
            UsePhase::Document => UseRequest::Read { path: copy_of(self.destination.as_path()) },
        }
    }

    fn failed(self, error: ConfigUseError) -> (next: Self)
        requires
            self@.sound(),
        ensures
            next@ == self@.failed(error@),
    {
        SelectionSession { ended: Some(Err(error)), ..self }
    }

    fn found(self, prior: Option<String>, document: Option<String>) -> (next: Self)
        requires
            self@.found(optional(prior), optional(document)).sound(),
        ensures
            next@ == self@.found(optional(prior), optional(document)),
    {
        match RuntimeConfig::selected_config(self.selected.as_str()) {
            Err(message) => {
                let error = invalid(self.destination.as_path(), message.as_str());
                SelectionSession { ended: Some(Err(error)), ..self }
            },
            Ok(_) => {
                let preparation = UsePreparation {
                    destination: self.destination.clone(),
                    prior,
                    prior_document: document,
                    candidate: copy_of(self.selected.as_str()),
                };
                SelectionSession { ended: Some(Ok(preparation)), ..self }
            },
        }
    }

    /// Takes the answer to the last request.
    pub fn answer(self, reply: UseReply) -> (next: Self)
        ensures
            next@ == self@.answered(reply),
    {
        proof {
            use_type_invariant(&self);
            selection_stays_sound(self@, reply);
            assert(texts(self.prefixes@).len() == self.prefixes@.len());
        }
        if self.ended.is_some() {
            return self;
        }
        match (self.phase, reply) {
            (UsePhase::Inspect(i), UseReply::Looked(look)) => match look {
                Ok(facts) => match validate_directory(self.prefixes[i].as_str(), facts) {
                    Ok(_) => SelectionSession { phase: UsePhase::Associate(i), ..self },
                    Err(error) => self.failed(error),
                },
                Err(source) => match source.kind {
                    FileErrorKind::NotFound => SelectionSession {
                        phase: UsePhase::Destination,
                        ..self
                    },
                    _ => {
                        let error = io_error(
                            "inspect runtime configuration parent",
                            self.prefixes[i].as_str(),
                            source,
                        );
                        self.failed(error)
                    },
                },
            },
            (UsePhase::Associate(i), UseReply::Canonicalized(canonical)) => {
                match validate_association(self.prefixes[i].as_str(), canonical, self.platform) {
                    Ok(_) => {
                        let count: usize = self.prefixes.len();
                        if i < count - 1 {
                            SelectionSession { phase: UsePhase::Inspect(i + 1), ..self }
                        } else {
                            SelectionSession { phase: UsePhase::Destination, ..self }
                        }
                    },
                    Err(error) => self.failed(error),
                }
            },
            (UsePhase::Destination, UseReply::Looked(look)) => {
                match inspect_destination(self.destination.as_path(), look) {
                    Err(error) => self.failed(error),
                    Ok(there) => {
                        if there {
                            SelectionSession { phase: UsePhase::Document, ..self }
                        } else {
                            self.found(None, None)
                        }
                    },
                }
            },
            (UsePhase::Document, UseReply::Read(read)) => match read {
                Err(source) => {
                    let error = io_error(
                        "read existing runtime configuration",
                        self.destination.as_path(),
                        source,
                    );
                    self.failed(error)
                },
                Ok(document) => match read_selection(document.as_str()) {
                    Err(message) => {
                        let error = invalid(self.destination.as_path(), message.as_str());
                        self.failed(error)
                    },
                    Ok(prior) => self.found(prior, Some(document)),
                },
            },
            _ => self,
        }
    }

    /// What the preparation came to, once it has ended.
    pub fn finish(self) -> (ended: Option<Result<UsePreparation, ConfigUseError>>)
        ensures
            selected_view(ended) == self@.ended,
    {
        self.ended
    }
}

/// How often a temporary name is tried.
pub const TEMPORARY_ATTEMPTS: usize = 128;

/// Which written file a check is about.
#[derive(Clone, Copy, Debug, PartialEq, Eq, Structural)]
pub enum Written {
    /// The temporary file, just made.
    Fresh,
    /// The temporary file, right before it is published.
    Temporary,
    /// The published file.
    Published,
}

/// One step of a publication. A number is that of a prefix of the parent directory.
#[derive(Clone, Copy, Debug, PartialEq, Eq, Structural)]
pub enum UseStep {
    Ensure(usize),
    Make(usize),
    Remade(usize),
    Associate(usize),
    Destination,
    Document,
    Number,
    Create,
    Write,
    Flush,
    Standing(Written, usize),
    StandingAssociation(Written, usize),
    Entry(Written),
    Contents(Written),
    Publish,
    FlushParent,
}

/// The steps that check the first prefixes of a directory and make those that are absent.
pub open spec fn ensure_steps(n: nat) -> Seq<UseStep>
    decreases n,
{
    if n == 0 {
        Seq::empty()
    } else {
        ensure_steps((n - 1) as nat) + seq![
            UseStep::Ensure((n - 1) as usize),
            UseStep::Make((n - 1) as usize),
            UseStep::Remade((n - 1) as usize),
            UseStep::Associate((n - 1) as usize),
        ]
    }
}

/// The steps that check the first prefixes of a directory and make none.
pub open spec fn standing_steps(file: Written, n: nat) -> Seq<UseStep>
    decreases n,
{
    if n == 0 {
        Seq::empty()
    } else {
        standing_steps(file, (n - 1) as nat) + seq![
            UseStep::Standing(file, (n - 1) as usize),
            UseStep::StandingAssociation(file, (n - 1) as usize),
        ]
    }
}

/// The check that a file is there, in its directory, and selects what was asked for.
pub open spec fn written_steps(file: Written, n: nat) -> Seq<UseStep> {
    standing_steps(file, n) + seq![UseStep::Entry(file), UseStep::Contents(file)]
}

/// The check that the runtime configuration file is what it was.
pub open spec fn unchanged_steps() -> Seq<UseStep> {
    seq![UseStep::Destination, UseStep::Document]
}

/// The making of the temporary file.
pub open spec fn temporary_steps(n: nat) -> Seq<UseStep> {
    seq![UseStep::Number, UseStep::Create, UseStep::Write, UseStep::Flush] + written_steps(
        Written::Fresh,
        n,
    )
}

/// The flush of the parent directory, where the platform has one.
pub open spec fn flush_steps(platform: Platform) -> Seq<UseStep> {
    match platform {
        Platform::Unix => seq![UseStep::FlushParent],
        Platform::Windows => Seq::empty(),
    }
}

/// The steps before the file is put where it belongs.
pub open spec fn steps_before_publication(n: nat) -> Seq<UseStep> {
    ensure_steps(n) + unchanged_steps() + temporary_steps(n) + ensure_steps(n) + written_steps(
        Written::Temporary,
        n,
    ) + unchanged_steps()
}

/// The steps of a publication.
#[verifier::opaque]
pub open spec fn publication_steps(n: nat, platform: Platform) -> Seq<UseStep> {
    steps_before_publication(n) + seq![UseStep::Publish] + written_steps(Written::Published, n)
        + flush_steps(platform) + written_steps(Written::Published, n)
}

proof fn lemma_ensure_steps(n: nat)
    requires
        n <= usize::MAX,
    ensures
        ensure_steps(n).len() == 4 * n,
        forall|k: int|
            0 <= k < 4 * n ==> match #[trigger] ensure_steps(n)[k] {
                UseStep::Ensure(i) => i < n && k + 3 < 4 * n && ensure_steps(n)[k + 3]
                    is Associate,
                UseStep::Make(i) => i < n && k > 0 && k + 1 < 4 * n && ensure_steps(n)[k - 1]
                    is Ensure,
                UseStep::Remade(i) => i < n,
                UseStep::Associate(i) => i < n,
                _ => false,
            },
    decreases n,
{
    if n > 0 {
        let shorter = ensure_steps((n - 1) as nat);
        lemma_ensure_steps((n - 1) as nat);
        assert forall|k: int| 0 <= k < 4 * n implies match #[trigger] ensure_steps(n)[k] {
            UseStep::Ensure(i) => i < n && k + 3 < 4 * n && ensure_steps(n)[k + 3] is Associate,
            UseStep::Make(i) => i < n && k > 0 && k + 1 < 4 * n && ensure_steps(n)[k - 1]
                is Ensure,
            UseStep::Remade(i) => i < n,
            UseStep::Associate(i) => i < n,
            _ => false,
        } by {
            if k < 4 * (n - 1) {
                assert(ensure_steps(n)[k] == shorter[k]);
            }
        }
    }
}

proof fn lemma_standing_steps(file: Written, n: nat)
    requires
        n <= usize::MAX,
    ensures
        standing_steps(file, n).len() == 2 * n,
        forall|k: int|
            0 <= k < 2 * n ==> match #[trigger] standing_steps(file, n)[k] {
                UseStep::Standing(which, i) => which == file && i < n,
                UseStep::StandingAssociation(which, i) => which == file && i < n,
                _ => false,
            },
    decreases n,
{
    if n > 0 {
        lemma_standing_steps(file, (n - 1) as nat);
    }
}

/// What holds of the step at a place of a publication.
spec fn well_placed(steps: Seq<UseStep>, k: int, n: nat) -> bool {
    match steps[k] {
        UseStep::Ensure(i) => i < n && k + 3 < steps.len() && steps[k + 3] is Associate,
        UseStep::Make(i) => i < n && k > 0 && k + 1 < steps.len() && steps[k - 1] is Ensure,
        UseStep::Remade(i) => i < n && k + 1 < steps.len(),
        UseStep::Associate(i) => i < n && k + 1 < steps.len(),
        UseStep::Destination => k + 2 < steps.len() && steps[k + 2] !is Make,
        UseStep::Standing(_, i) => i < n && k + 1 < steps.len(),
        UseStep::StandingAssociation(_, i) => i < n && k + 1 < steps.len(),
        UseStep::Contents(file) => file is Published || k + 1 < steps.len(),
        UseStep::Publish => k == steps_before_publication(n).len() && k + 1 < steps.len(),
        _ => k + 1 < steps.len(),
    }
}

proof fn lemma_part(before: Seq<UseStep>, part: Seq<UseStep>, after: Seq<UseStep>)
    ensures
        (before + part + after).len() == before.len() + part.len() + after.len(),
        forall|k: int|
            before.len() <= k < before.len() + part.len() ==> #[trigger] (before + part + after)[k]
                == part[k - before.len()],
{
}

/// The parts of a publication, each with what stands before and behind it.
spec fn parts_around(n: nat, platform: Platform, part: int) -> (
    Seq<UseStep>,
    Seq<UseStep>,
    Seq<UseStep>,
) {
    let ensure = ensure_steps(n);
    let published = written_steps(Written::Published, n);
    let tail = seq![UseStep::Publish] + published + flush_steps(platform) + published;
    let recheck = written_steps(Written::Temporary, n);
    if part == 0 {
        (
            Seq::empty(),
            ensure,
            unchanged_steps() + temporary_steps(n) + ensure + recheck + unchanged_steps() + tail,
        )
    } else if part == 1 {
        (
            ensure,
            unchanged_steps() + temporary_steps(n),
            ensure + recheck + unchanged_steps() + tail,
        )
    } else if part == 2 {
        (
            ensure + unchanged_steps() + temporary_steps(n),
            ensure,
            recheck + unchanged_steps() + tail,
        )
    } else if part == 3 {
        (
            ensure + unchanged_steps() + temporary_steps(n) + ensure,
            recheck + unchanged_steps() + seq![UseStep::Publish],
            published + flush_steps(platform) + published,
        )
    } else {
        (
            steps_before_publication(n) + seq![UseStep::Publish],
            published + flush_steps(platform) + published,
            Seq::empty(),
        )
    }
}

proof fn lemma_lengths(n: nat)
    requires
        n <= usize::MAX,
    ensures
        ensure_steps(n).len() == 4 * n,
        unchanged_steps().len() == 2,
        temporary_steps(n).len() == 2 * n + 6,
        written_steps(Written::Fresh, n).len() == 2 * n + 2,
        written_steps(Written::Temporary, n).len() == 2 * n + 2,
        written_steps(Written::Published, n).len() == 2 * n + 2,
        steps_before_publication(n).len() == 12 * n + 12,
{
    lemma_ensure_steps(n);
    lemma_standing_steps(Written::Fresh, n);
    lemma_standing_steps(Written::Temporary, n);
    lemma_standing_steps(Written::Published, n);
}

proof fn lemma_grouped(first: Seq<UseStep>, second: Seq<UseStep>, third: Seq<UseStep>)
    ensures
        first + second + third == first + (second + third),
{
    assert(first + second + third =~= first + (second + third));
}

proof fn lemma_parts_around(n: nat, platform: Platform, part: int)
    requires
        n <= usize::MAX,
        0 <= part <= 4,
    ensures
        ({
            let (before, middle, after) = parts_around(n, platform, part);
            publication_steps(n, platform) == before + middle + after
        }),
{
    reveal(publication_steps);
    let e = ensure_steps(n);
    let u = unchanged_steps();
    let t = temporary_steps(n);
    let r = written_steps(Written::Temporary, n);
    let p = seq![UseStep::Publish];
    let w = written_steps(Written::Published, n);
    let f = flush_steps(platform);
    let tail = p + w + f + w;
    assert(publication_steps(n, platform) == e + u + t + e + r + u + tail) by {
        lemma_grouped(e + u + t + e + r + u + p, w, f);
        lemma_grouped(e + u + t + e + r + u + p, w + f, w);
        lemma_grouped(e + u + t + e + r + u, p, w + f + w);
        lemma_grouped(p, w, f);
        lemma_grouped(p, w + f, w);
    }
    if part == 0 {
        lemma_grouped(e, u, t);
        lemma_grouped(e, u + t, e);
        lemma_grouped(e, u + t + e, r);
        lemma_grouped(e, u + t + e + r, u);
        lemma_grouped(e, u + t + e + r + u, tail);
        assert(Seq::<UseStep>::empty() + e =~= e);
    } else if part == 1 {
        lemma_grouped(e, u, t);
        lemma_grouped(e + (u + t), e, r);
        lemma_grouped(e + (u + t), e + r, u);
        lemma_grouped(e + (u + t), e + r + u, tail);
    } else if part == 2 {
        lemma_grouped(e + u + t + e, r, u);
        lemma_grouped(e + u + t + e, r + u, tail);
    } else if part == 3 {
        lemma_grouped(e + u + t + e, r, u);
        lemma_grouped(e + u + t + e, r + u, p);
        lemma_grouped(e + u + t + e + r + u + p, w, f);
        lemma_grouped(e + u + t + e + r + u + p, w + f, w);
    } else {
        lemma_grouped(e + u + t + e + r + u + p, w, f);
        lemma_grouped(e + u + t + e + r + u + p, w + f, w);
        let whole = e + u + t + e + r + u + p + (w + f + w);
        assert(whole + Seq::<UseStep>::empty() =~= whole);
    }
}

proof fn lemma_ensure_placed(n: nat, platform: Platform, part: int, k: int)
    requires
        n <= usize::MAX,
        part == 0 || part == 2,
        ({
            let start = parts_around(n, platform, part).0.len();
            start <= k < start + 4 * n
        }),
    ensures
        well_placed(publication_steps(n, platform), k, n),
{
    let steps = publication_steps(n, platform);
    let (before, middle, after) = parts_around(n, platform, part);
    let start = before.len();
    let j = k - start;
    lemma_lengths(n);
    lemma_ensure_steps(n);
    lemma_parts_around(n, platform, part);
    lemma_part(before, middle, after);
    assert(after.len() > 0);
    assert(steps[k] == middle[j]);
    match middle[j] {
        UseStep::Ensure(_) => {
            assert(steps[k + 3] == middle[j + 3]);
        },
        UseStep::Make(_) => {
            assert(steps[k - 1] == middle[j - 1]);
        },
        _ => {},
    }
}

proof fn lemma_making_placed(n: nat, platform: Platform, k: int)
    requires
        n <= usize::MAX,
        4 * n <= k < 6 * n + 8,
    ensures
        well_placed(publication_steps(n, platform), k, n),
        publication_steps(n, platform)[4 * n + 2int] is Number,
{
    let steps = publication_steps(n, platform);
    let (before, middle, after) = parts_around(n, platform, 1);
    lemma_lengths(n);
    lemma_standing_steps(Written::Fresh, n);
    lemma_parts_around(n, platform, 1);
    lemma_part(before, middle, after);
    let j = k - 4 * n;
    assert(after.len() > 0);
    assert(steps[k] == middle[j]);
    assert(middle[2] is Number);
    assert(steps[4 * n + 2int] == middle[2]);
    if 6 <= j < 6 + 2 * n {
        assert(middle[j] == standing_steps(Written::Fresh, n)[j - 6]);
    }
}

proof fn lemma_recheck_placed(n: nat, platform: Platform, k: int)
    requires
        n <= usize::MAX,
        10 * n + 8 <= k < 12 * n + 13,
    ensures
        well_placed(publication_steps(n, platform), k, n),
        publication_steps(n, platform)[12 * n + 12int] is Publish,
{
    let steps = publication_steps(n, platform);
    let (before, middle, after) = parts_around(n, platform, 3);
    lemma_lengths(n);
    lemma_standing_steps(Written::Temporary, n);
    lemma_parts_around(n, platform, 3);
    lemma_part(before, middle, after);
    let j = k - (10 * n + 8);
    assert(before.len() == 10 * n + 8);
    assert(middle.len() == 2 * n + 5);
    assert(after.len() > 0);
    assert(steps[k] == middle[j]);
    assert(steps[12 * n + 12int] == middle[2 * n + 4int]);
    if j < 2 * n {
        assert(middle[j] == standing_steps(Written::Temporary, n)[j]);
    } else if j == 2 * n + 2 {
        assert(steps[k + 2] == middle[j + 2]);
    }
}

proof fn lemma_published_placed(n: nat, platform: Platform, k: int)
    requires
        n <= usize::MAX,
        12 * n + 13 <= k < publication_steps(n, platform).len(),
    ensures
        well_placed(publication_steps(n, platform), k, n),
        publication_steps(n, platform).last() == UseStep::Contents(Written::Published),
{
    let steps = publication_steps(n, platform);
    let (before, middle, after) = parts_around(n, platform, 4);
    let flush = flush_steps(platform).len();
    lemma_lengths(n);
    lemma_standing_steps(Written::Published, n);
    lemma_parts_around(n, platform, 4);
    lemma_part(before, middle, after);
    let j = k - (12 * n + 13);
    let again = 2 * n + 2 + flush;
    assert(before.len() == 12 * n + 13);
    assert(middle.len() == again + 2 * n + 2);
    assert(steps[k] == middle[j]);
    assert(steps[steps.len() - 1] == middle[middle.len() - 1]);
    if j < 2 * n {
        assert(middle[j] == standing_steps(Written::Published, n)[j]);
    } else if again <= j < again + 2 * n {
        assert(middle[j] == standing_steps(Written::Published, n)[j - again]);
    }
}

/// Where the steps of a publication stand, and what holds of the one at a place.
proof fn lemma_publication_steps(n: nat, platform: Platform, k: int)
    requires
        n <= usize::MAX,
    ensures
        ({
            let steps = publication_steps(n, platform);
            &&& steps.len() > 12 * n + 13
            &&& steps.last() == UseStep::Contents(Written::Published)
            &&& steps_before_publication(n).len() == 12 * n + 12
            &&& 0 <= k < steps.len() ==> well_placed(steps, k, n)
        }),
{
    let steps = publication_steps(n, platform);
    lemma_lengths(n);
    assert(steps.len() > 12 * n + 13) by {
        reveal(publication_steps);
    }
    lemma_published_placed(n, platform, steps.len() - 1);
    if 0 <= k < 4 * n {
        lemma_ensure_placed(n, platform, 0, k);
    } else if 4 * n <= k < 6 * n + 8 {
        lemma_making_placed(n, platform, k);
    } else if 6 * n + 8 <= k < 10 * n + 8 {
        lemma_ensure_placed(n, platform, 2, k);
    } else if 10 * n + 8 <= k < 12 * n + 13 {
        lemma_recheck_placed(n, platform, k);
    } else if 12 * n + 13 <= k < steps.len() {
        lemma_published_placed(n, platform, k);
    }
}

/// A publication under way.
pub struct UsingView {
    pub selection: SelectionView,
    pub contents: Seq<char>,
    pub parent: Seq<char>,
    pub process: nat,
    pub platform: Platform,
    pub prefixes: Seq<Seq<char>>,
    pub steps: Seq<UseStep>,
    pub at: int,
    pub attempts: nat,
    pub temporary: Seq<char>,
    pub ended: Option<Result<(), UseErrorView>>,
}

/// Whether a step belongs to the making of the temporary file.
pub open spec fn in_the_making(step: UseStep) -> bool {
    match step {
        UseStep::Create => true,
        UseStep::Write => true,
        UseStep::Flush => true,
        UseStep::Standing(file, _) => file is Fresh,
        UseStep::StandingAssociation(file, _) => file is Fresh,
        UseStep::Entry(file) => file is Fresh,
        UseStep::Contents(file) => file is Fresh,
        _ => false,
    }
}

/// Whether a step checks the temporary file once more.
pub open spec fn in_the_recheck(step: UseStep) -> bool {
    match step {
        UseStep::Standing(file, _) => file is Temporary,
        UseStep::StandingAssociation(file, _) => file is Temporary,
        UseStep::Entry(file) => file is Temporary,
        UseStep::Contents(file) => file is Temporary,
        _ => false,
    }
}

impl UsingView {
    /// The file that a check is about.
    pub open spec fn file(self, which: Written) -> Seq<char> {
        if which is Published {
            self.selection.destination
        } else {
            self.temporary
        }
    }

    /// The publication some steps further. The last one that succeeds ends it.
    pub open spec fn moved(self, steps: int) -> UsingView {
        if self.at + steps < self.steps.len() {
            UsingView { at: self.at + steps, ..self }
        } else {
            UsingView { ended: Some(Ok(())), ..self }
        }
    }

    /// The publication after a failure. A temporary name that turns out to be taken is given up
    /// for another one, as often as names are tried.
    pub open spec fn failed(self, error: UseErrorView) -> UsingView {
        let step = self.steps[self.at];
        if in_the_making(step) && error is Io && error->Io_source.kind is AlreadyExists {
            if self.attempts + 1 < TEMPORARY_ATTEMPTS {
                UsingView {
                    at: 4 * self.prefixes.len() + 2int,
                    attempts: self.attempts + 1,
                    ..self
                }
            } else {
                UsingView {
                    ended: Some(
                        Err(
                            UseErrorView::Io {
                                action: "allocate a unique runtime configuration temporary below"@,
                                path: self.parent,
                                source: FileErrorView {
                                    kind: FileErrorKind::AlreadyExists,
                                    message: "temporary name collision limit reached"@,
                                },
                            },
                        ),
                    ),
                    ..self
                }
            }
        } else if in_the_recheck(step) {
            UsingView { ended: Some(Err(temporary_failed(error))), ..self }
        } else {
            UsingView { ended: Some(Err(error)), ..self }
        }
    }

    /// The publication after a check.
    pub open spec fn checked(self, outcome: Result<(), UseErrorView>) -> UsingView {
        match outcome {
            Ok(_) => self.moved(1),
            Err(error) => self.failed(error),
        }
    }

    /// The failure of a runtime configuration file that is not what it was.
    pub open spec fn changed(self) -> UseErrorView {
        UseErrorView::Invalid {
            path: self.selection.destination,
            message: "runtime configuration changed before publication"@,
        }
    }

    /// The publication after an answer. An answer to another question changes nothing.
    pub open spec fn answered(self, reply: UseReply) -> UsingView {
        if self.ended is Some {
            self
        } else {
            match (self.steps[self.at], reply) {
                (UseStep::Ensure(i), UseReply::Looked(look)) => match look {
                    Ok(facts) => match directory_found(self.prefixes[i as int], facts) {
                        Ok(_) => self.moved(3),
                        Err(error) => self.failed(error),
                    },
                    Err(source) => if source.kind is NotFound {
                        self.moved(1)
                    } else {
                        self.failed(
                            UseErrorView::Io {
                                action: "inspect runtime configuration parent"@,
                                path: self.prefixes[i as int],
                                source: source@,
                            },
                        )
                    },
                },
                (UseStep::Make(i), UseReply::Done(outcome)) => match outcome {
                    Err(source) => if source.kind is AlreadyExists {
                        self.moved(1)
                    } else {
                        self.failed(
                            UseErrorView::Io {
                                action: "create runtime configuration parent"@,
                                path: self.prefixes[i as int],
                                source: source@,
                            },
                        )
                    },
                    Ok(_) => self.moved(1),
                },
                (UseStep::Remade(i), UseReply::Looked(look)) => match look {
                    Ok(facts) => self.checked(directory_found(self.prefixes[i as int], facts)),
                    Err(source) => self.failed(
                        UseErrorView::Io {
                            action: "re-inspect created runtime configuration parent"@,
                            path: self.prefixes[i as int],
                            source: source@,
                        },
                    ),
                },
                (UseStep::Associate(i), UseReply::Canonicalized(canonical)) => self.checked(
                    directory_association(self.prefixes[i as int], canonical, self.platform),
                ),
                (UseStep::Destination, UseReply::Looked(look)) => match file_found(
                    self.selection.destination,
                    look,
                ) {
                    Err(error) => self.failed(error),
                    Ok(there) => if there != self.selection.prior_document is Some {
                        self.failed(self.changed())
                    } else if there {
                        self.moved(1)
                    } else {
                        self.moved(2)
                    },
                },
                (UseStep::Document, UseReply::Read(read)) => match read {
                    Err(source) => self.failed(
                        UseErrorView::Io {
                            action: "re-read runtime configuration before publication"@,
                            path: self.selection.destination,
                            source: source@,
                        },
                    ),
                    Ok(text) => if self.selection.prior_document == Some(text@) {
                        self.moved(1)
                    } else {
                        self.failed(self.changed())
                    },
                },
                (UseStep::Number, UseReply::Number(number)) => UsingView {
                    temporary: entry_path(
                        self.parent,
                        temporary_name(".loadout-use-"@, self.process, number as nat),
                        self.platform,
                    ),
                    ..self
                }.moved(1),
                (UseStep::Create, UseReply::Done(outcome)) => self.checked(
                    done("create runtime configuration temporary"@, self.temporary, outcome),
                ),
                (UseStep::Write, UseReply::Done(outcome)) => self.checked(
                    done("write runtime configuration temporary"@, self.temporary, outcome),
                ),
                (UseStep::Flush, UseReply::Done(outcome)) => self.checked(
                    done("flush runtime configuration temporary"@, self.temporary, outcome),
                ),
                (UseStep::Standing(_, i), UseReply::Looked(look)) => self.checked(
                    standing_look(self.prefixes[i as int], look),
                ),
                (UseStep::StandingAssociation(_, i), UseReply::Canonicalized(canonical)) =>
                    self.checked(
                    standing(
                        directory_association(self.prefixes[i as int], canonical, self.platform),
                    ),
                ),
                (UseStep::Entry(which), UseReply::Looked(look)) => match file_found(
                    self.file(which),
                    look,
                ) {
                    Err(error) => self.failed(error),
                    Ok(true) => self.moved(1),
                    Ok(false) => self.failed(
                        UseErrorView::InvalidPublished {
                            path: self.file(which),
                            message: "runtime configuration is absent"@,
                        },
                    ),
                },
                (UseStep::Contents(which), UseReply::Read(read)) => self.checked(
                    written_read(self.file(which), self.selection.selected, read),
                ),
                (UseStep::Publish, UseReply::Published(outcome)) => self.checked(
                    if self.selection.prior_document is Some {
                        published_over(self.selection.destination, outcome, self.platform)
                    } else {
                        published_new(self.selection.destination, outcome)
                    },
                ),
                (UseStep::FlushParent, UseReply::Done(outcome)) => self.checked(
                    done("flush runtime configuration parent"@, self.parent, outcome),
                ),
                _ => self,
            }
        }
    }

    /// Whether a request is what the publication needs next.
    pub open spec fn requests(self, request: UseRequest) -> bool {
        if self.ended is Some {
            request is Finished
        } else {
            match self.steps[self.at] {
                UseStep::Ensure(i) => request matches UseRequest::Look { path } && path@
                    == self.prefixes[i as int],
                UseStep::Make(i) => request matches UseRequest::CreateDirectory { path } && path@
                    == self.prefixes[i as int],
                UseStep::Remade(i) => request matches UseRequest::Look { path } && path@
                    == self.prefixes[i as int],
                UseStep::Associate(i) => request matches UseRequest::Canonicalize { path }
                    && path@ == self.prefixes[i as int],
                UseStep::Destination => request matches UseRequest::Look { path } && path@
                    == self.selection.destination,
                UseStep::Document => request matches UseRequest::Read { path } && path@
                    == self.selection.destination,
                UseStep::Number => request is Number,
                UseStep::Create => request matches UseRequest::Create { path } && path@
                    == self.temporary,
                UseStep::Write => request matches UseRequest::Write { path, contents } && path@
                    == self.temporary && contents@ == self.contents,
                UseStep::Flush => request matches UseRequest::Flush { path } && path@
                    == self.temporary,
                UseStep::Standing(_, i) => request matches UseRequest::Look { path } && path@
                    == self.prefixes[i as int],
                UseStep::StandingAssociation(_, i) => request matches UseRequest::Canonicalize {
                    path,
                } && path@ == self.prefixes[i as int],
                UseStep::Entry(which) => request matches UseRequest::Look { path } && path@
                    == self.file(which),
                UseStep::Contents(which) => request matches UseRequest::Read { path } && path@
                    == self.file(which),
                UseStep::Publish => match request {
                    UseRequest::PublishNew { temporary, destination } => {
                        &&& self.selection.prior_document is None
                        &&& temporary@ == self.temporary
                        &&& destination@ == self.selection.destination
                    },
                    UseRequest::PublishOver { temporary, destination } => {
                        &&& self.selection.prior_document is Some
                        &&& temporary@ == self.temporary
                        &&& destination@ == self.selection.destination
                    },
                    _ => false,
                },
                UseStep::FlushParent => request matches UseRequest::FlushDirectory { path }
                    && path@ == self.parent,
            }
        }
    }

    /// What every publication keeps.
    pub open spec fn sound(self) -> bool {
        &&& self.prefixes.len() <= usize::MAX
        &&& self.attempts < TEMPORARY_ATTEMPTS
        &&& self.ended is None ==> {
            &&& self.steps == publication_steps(self.prefixes.len(), self.platform)
            &&& 0 <= self.at < self.steps.len()
        }
    }
}

/// The start of a publication in a directory, with the contents of the file.
pub open spec fn publication_start(
    selection: SelectionView,
    contents: Seq<char>,
    parent: Seq<char>,
    process: nat,
    platform: Platform,
) -> UsingView {
    let list = match prefixes_of(parent, platform) {
        Some(list) => list,
        None => Seq::empty(),
    };
    UsingView {
        selection,
        contents,
        parent,
        process,
        platform,
        prefixes: list,
        steps: publication_steps(list.len(), platform),
        at: 0,
        attempts: 0,
        temporary: Seq::empty(),
        ended: if prefixes_of(parent, platform) is None {
            Some(
                Err(
                    UseErrorView::Invalid {
                        path: parent,
                        message: "runtime configuration parent is not absolute"@,
                    },
                ),
            )
        } else {
            None
        },
    }
}

proof fn lemma_moves(using: UsingView)
    requires
        using.sound(),
        using.ended is None,
    ensures
        using.moved(1).sound(),
        using.moved(2).sound(),
        using.moved(3).sound(),
        forall|error: UseErrorView| (#[trigger] using.failed(error)).sound(),
{
    lemma_publication_steps(using.prefixes.len(), using.platform, using.at);
}

/// Every publication starts as it goes on.
pub proof fn use_starts_sound(
    selection: SelectionView,
    contents: Seq<char>,
    parent: Seq<char>,
    process: nat,
    platform: Platform,
)
    requires
        prefixes_of(parent, platform) matches Some(list) ==> list.len() <= usize::MAX,
    ensures
        publication_start(selection, contents, parent, process, platform).sound(),
{
    let start = publication_start(selection, contents, parent, process, platform);
    lemma_publication_steps(start.prefixes.len(), platform, 0);
}

/// Every publication keeps what it promises, whatever it is answered.
#[verifier::spinoff_prover]
#[verifier::rlimit(60)]
pub proof fn use_stays_sound(using: UsingView, reply: UseReply)
    requires
        using.sound(),
    ensures
        using.answered(reply).sound(),
{
    if using.ended is None {
        lemma_moves(using);
    }
}

/// The file is put where it belongs only after the temporary file was made and checked, and then
/// the directory, the temporary file and the runtime configuration were checked once more: what
/// comes before the publication is exactly this.
pub proof fn publication_follows_every_check(using: UsingView)
    requires
        using.sound(),
        using.ended is None,
        using.steps[using.at] is Publish,
    ensures
        using.steps.take(using.at) == ensure_steps(using.prefixes.len()) + unchanged_steps()
            + temporary_steps(using.prefixes.len()) + ensure_steps(using.prefixes.len())
            + written_steps(Written::Temporary, using.prefixes.len()) + unchanged_steps(),
{
    let n = using.prefixes.len();
    lemma_publication_steps(n, using.platform, using.at);
    assert(using.steps.take(using.at) =~= steps_before_publication(n)) by {
        reveal(publication_steps);
    }
}

/// A file that was absent is never replaced, and one that was there is never published as new.
pub proof fn absent_file_is_never_replaced(using: UsingView, request: UseRequest)
    requires
        using.sound(),
        using.requests(request),
    ensures
        request is PublishOver ==> using.selection.prior_document is Some,
        request is PublishNew ==> using.selection.prior_document is None,
{
}

/// A publication ends well only when the published file was read last, and selects what was asked
/// for.
#[verifier::spinoff_prover]
#[verifier::rlimit(60)]
pub proof fn success_is_read_back(using: UsingView, reply: UseReply)
    requires
        using.sound(),
        using.ended is None,
        using.answered(reply).ended == Some(Ok::<(), UseErrorView>(())),
    ensures
        using.at == using.steps.len() - 1,
        reply matches UseReply::Read(Ok(text)) && selects(text@) == Ok::<
            Option<Seq<char>>,
            Seq<char>,
        >(Some(using.selection.selected)),
{
    lemma_publication_steps(using.prefixes.len(), using.platform, using.at);
}

/// A directory is made only where the look just before found none.
#[verifier::spinoff_prover]
#[verifier::rlimit(60)]
pub proof fn directory_is_made_only_where_none_was(using: UsingView, reply: UseReply)
    requires
        using.sound(),
        using.answered(reply).ended is None,
        using.answered(reply) != using,
        using.answered(reply).steps[using.answered(reply).at] is Make,
    ensures
        reply matches UseReply::Looked(Err(source)) && source.kind is NotFound,
{
    let n = using.prefixes.len();
    lemma_publication_steps(n, using.platform, using.at);
    lemma_publication_steps(n, using.platform, using.answered(reply).at);
    lemma_making_placed(n, using.platform, 4 * n + 2int);
}

/// A publication under way.
#[derive(Debug)]
pub struct UseSession {
    preparation: UsePreparation,
    contents: String,
    parent: String,
    process: usize,
    platform: Platform,
    prefixes: Vec<String>,
    steps: Vec<UseStep>,
    at: usize,
    attempts: usize,
    temporary: String,
    ended: Option<Result<(), ConfigUseError>>,
}

/// What a publication that has ended came to.
pub open spec fn used_view(ended: Option<Result<(), ConfigUseError>>) -> Option<
    Result<(), UseErrorView>,
> {
    match ended {
        None => None,
        Some(outcome) => Some(use_outcome(outcome)),
    }
}

impl View for UseSession {
    type V = UsingView;

    closed spec fn view(&self) -> UsingView {
        UsingView {
            selection: self.preparation@,
            contents: self.contents@,
            parent: self.parent@,
            process: self.process as nat,
            platform: self.platform,
            prefixes: texts(self.prefixes@),
            steps: self.steps@,
            at: self.at as int,
            attempts: self.attempts as nat,
            temporary: self.temporary@,
            ended: used_view(self.ended),
        }
    }
}

fn push_ensure_steps(steps: &mut Vec<UseStep>, n: usize)
    ensures
        final(steps)@ == old(steps)@ + ensure_steps(n as nat),
{
    let ghost start = steps@;
    let mut i: usize = 0;
    assert(steps@ =~= start + ensure_steps(0));
    while i < n
        invariant
            i <= n,
            steps@ == start + ensure_steps(i as nat),
        decreases n - i,
    {
        steps.push(UseStep::Ensure(i));
        steps.push(UseStep::Make(i));
        steps.push(UseStep::Remade(i));
        steps.push(UseStep::Associate(i));
        i += 1;
        assert(steps@ =~= start + ensure_steps(i as nat));
    }
}

fn push_written_steps(steps: &mut Vec<UseStep>, file: Written, n: usize)
    ensures
        final(steps)@ == old(steps)@ + written_steps(file, n as nat),
{
    let ghost start = steps@;
    let mut i: usize = 0;
    assert(steps@ =~= start + standing_steps(file, 0));
    while i < n
        invariant
            i <= n,
            steps@ == start + standing_steps(file, i as nat),
        decreases n - i,
    {
        steps.push(UseStep::Standing(file, i));
        steps.push(UseStep::StandingAssociation(file, i));
        i += 1;
        assert(steps@ =~= start + standing_steps(file, i as nat));
    }
    steps.push(UseStep::Entry(file));
    steps.push(UseStep::Contents(file));
    assert(steps@ =~= start + written_steps(file, n as nat));
}

fn list_publication_steps(n: usize, platform: Platform) -> (steps: Vec<UseStep>)
    ensures
        steps@ == publication_steps(n as nat, platform),
{
    let mut steps: Vec<UseStep> = Vec::new();
    push_ensure_steps(&mut steps, n);
    steps.push(UseStep::Destination);
    steps.push(UseStep::Document);
    assert(steps@ =~= ensure_steps(n as nat) + unchanged_steps());
    let ghost start = steps@;
    steps.push(UseStep::Number);
    steps.push(UseStep::Create);
    steps.push(UseStep::Write);
    steps.push(UseStep::Flush);
    push_written_steps(&mut steps, Written::Fresh, n);
    assert(steps@ =~= start + temporary_steps(n as nat));
    push_ensure_steps(&mut steps, n);
    push_written_steps(&mut steps, Written::Temporary, n);
    steps.push(UseStep::Destination);
    steps.push(UseStep::Document);
    assert(steps@ =~= steps_before_publication(n as nat));
    steps.push(UseStep::Publish);
    push_written_steps(&mut steps, Written::Published, n);
    match platform {
        Platform::Unix => {
            steps.push(UseStep::FlushParent);
        },
        Platform::Windows => {},
    }
    assert(steps@ =~= steps_before_publication(n as nat) + seq![UseStep::Publish]
        + written_steps(Written::Published, n as nat) + flush_steps(platform));
    push_written_steps(&mut steps, Written::Published, n);
    reveal(publication_steps);
    steps
}

/// Starts to publish a prepared selection.
pub fn publish(preparation: UsePreparation, process: usize, platform: Platform) -> (session:
    UseSession)
    requires
        directory_of(preparation@.destination, platform) is Some,
    ensures
        yaml_text(selected_fields(preparation@.selected)) matches Ok(contents) && session@
            == publication_start(
            preparation@,
            contents,
            directory_of(preparation@.destination, platform)->0,
            process as nat,
            platform,
        ),
{
    proof {
        use_type_invariant(&preparation);
    }
    let parent = match parent_directory(&preparation.destination, platform) {
        Some(parent) => parent,
        None => String::new(),
    };
    let contents = match RuntimeConfig::selected_config(preparation.candidate.as_str()) {
        Ok(contents) => contents,
        Err(_) => {
            assert(false);
            String::new()
        },
    };
    let (list, ended) = match absolute_prefixes(parent.as_str(), platform) {
        Ok(list) => (list, None),
        Err(error) => {
            let list: Vec<String> = Vec::new();
            assert(texts(list@) =~= Seq::<Seq<char>>::empty());
            (list, Some(Err(error)))
        },
    };
    let steps = list_publication_steps(list.len(), platform);
    let temporary = String::new();
    proof {
        assert(texts(list@).len() == list@.len());
        assert(temporary@ =~= Seq::<char>::empty());
        lemma_publication_steps(list@.len(), platform, 0);
    }
    UseSession {
        preparation,
        contents,
        parent,
        process,
        platform,
        prefixes: list,
        steps,
        at: 0,
        attempts: 0,
        temporary,
        ended,
    }
}

impl UseSession {
    #[verifier::type_invariant]
    spec fn keeps(self) -> bool {
        self@.sound()
    }

    proof fn lemma_at(self)
        requires
            self@.sound(),
            self.ended is None,
        ensures
            self.at < self.steps@.len(),
            well_placed(self.steps@, self.at as int, self.prefixes@.len()),
            4 * self.prefixes@.len() + 2 < self.steps@.len(),
    {
        assert(texts(self.prefixes@).len() == self.prefixes@.len());
        lemma_publication_steps(self.prefixes@.len(), self.platform, self.at as int);
    }

    fn file(&self, which: Written) -> (path: &str)
        ensures
            path@ == self@.file(which),
    {
        match which {
            Written::Published => self.preparation.destination(),
            _ => self.temporary.as_str(),
        }
    }

    /// What the publication needs next.
    pub fn request(&self) -> (request: UseRequest)
        ensures
            self@.requests(request),
            self@.sound(),
    {
        proof {
            use_type_invariant(self);
        }
        if self.ended.is_some() {
            return UseRequest::Finished;
        }
        proof {
            self.lemma_at();
        }
        match self.steps[self.at] {
            UseStep::Ensure(i) => UseRequest::Look { path: copy_of(self.prefixes[i].as_str()) },
            UseStep::Make(i) => UseRequest::CreateDirectory {
                path: copy_of(self.prefixes[i].as_str()),
            },
            UseStep::Remade(i) => UseRequest::Look { path: copy_of(self.prefixes[i].as_str()) },
            UseStep::Associate(i) => UseRequest::Canonicalize {
                path: copy_of(self.prefixes[i].as_str()),
            },
            UseStep::Destination => UseRequest::Look {
                path: copy_of(self.preparation.destination()),
            },
            UseStep::Document => UseRequest::Read { path: copy_of(self.preparation.destination()) },
            UseStep::Number => UseRequest::Number,
            UseStep::Create => UseRequest::Create { path: copy_of(self.temporary.as_str()) },
            UseStep::Write => UseRequest::Write {
                path: copy_of(self.temporary.as_str()),
                contents: copy_of(self.contents.as_str()),
            },
            UseStep::Flush => UseRequest::Flush { path: copy_of(self.temporary.as_str()) },
            UseStep::Standing(_, i) => UseRequest::Look { path: copy_of(self.prefixes[i].as_str()) },
            UseStep::StandingAssociation(_, i) => UseRequest::Canonicalize {
                path: copy_of(self.prefixes[i].as_str()),
            },
            UseStep::Entry(which) => UseRequest::Look { path: copy_of(self.file(which)) },
            UseStep::Contents(which) => UseRequest::Read { path: copy_of(self.file(which)) },
            UseStep::Publish => {
                let temporary = copy_of(self.temporary.as_str());
                let destination = copy_of(self.preparation.destination());
                match &self.preparation.prior_document {
                    Some(_) => UseRequest::PublishOver { temporary, destination },
                    None => UseRequest::PublishNew { temporary, destination },
                }
            },
            UseStep::FlushParent => UseRequest::FlushDirectory {
                path: copy_of(self.parent.as_str()),
            },
        }
    }

    fn moved(self, steps: usize) -> (next: Self)
        requires
            self@.sound(),
            self.ended is None,
            steps <= 3,
        ensures
            next@ == self@.moved(steps as int),
    {
        let count: usize = self.steps.len();
        if steps < count && self.at < count - steps {
            UseSession { at: self.at + steps, ..self }
        } else {
            UseSession { ended: Some(Ok(())), ..self }
        }
    }

    fn failed(self, error: ConfigUseError) -> (next: Self)
        requires
            self@.sound(),
            self.ended is None,
        ensures
            next@ == self@.failed(error@),
    {
        proof {
            self.lemma_at();
        }
        let step = self.steps[self.at];
        let making = match step {
            UseStep::Create => true,
            UseStep::Write => true,
            UseStep::Flush => true,
            UseStep::Standing(Written::Fresh, _) => true,
            UseStep::StandingAssociation(Written::Fresh, _) => true,
            UseStep::Entry(Written::Fresh) => true,
            UseStep::Contents(Written::Fresh) => true,
            _ => false,
        };
        let recheck = match step {
            UseStep::Standing(Written::Temporary, _) => true,
            UseStep::StandingAssociation(Written::Temporary, _) => true,
            UseStep::Entry(Written::Temporary) => true,
            UseStep::Contents(Written::Temporary) => true,
            _ => false,
        };
        let taken = match &error {
            ConfigUseError::Io { source, .. } => match source.kind {
                FileErrorKind::AlreadyExists => true,
                _ => false,
            },
            _ => false,
        };
        if making && taken {
            if self.attempts < TEMPORARY_ATTEMPTS - 1 {
                let total: usize = self.steps.len();
                let count: usize = self.prefixes.len();
                assert(texts(self.prefixes@).len() == count);
                assert(4 * count + 2 < total);
                UseSession { at: 4 * count + 2, attempts: self.attempts + 1, ..self }
            } else {
                let error = io_error(
                    "allocate a unique runtime configuration temporary below",
                    self.parent.as_str(),
                    FileError {
                        kind: FileErrorKind::AlreadyExists,
                        message: copy_of("temporary name collision limit reached"),
                    },
                );
                UseSession { ended: Some(Err(error)), ..self }
            }
        } else if recheck {
            UseSession { ended: Some(Err(verify_temporary(error))), ..self }
        } else {
            UseSession { ended: Some(Err(error)), ..self }
        }
    }

    fn checked(self, outcome: Result<(), ConfigUseError>) -> (next: Self)
        requires
            self@.sound(),
            self.ended is None,
        ensures
            next@ == self@.checked(use_outcome(outcome)),
    {
        match outcome {
            Ok(_) => self.moved(1),
            Err(error) => self.failed(error),
        }
    }

    fn changed(&self) -> (error: ConfigUseError)
        ensures
            error@ == self@.changed(),
    {
        invalid(self.preparation.destination(), "runtime configuration changed before publication")
    }

    fn is_prior(&self, text: &str) -> (same: bool)
        ensures
            same == (self@.selection.prior_document == Some(text@)),
    {
        match &self.preparation.prior_document {
            Some(prior) => text_equal(text, prior.as_str()),
            None => false,
        }
    }
}

/// Takes the answer to the last request of a publication.
#[verifier::rlimit(40)]
pub fn publish_with(session: UseSession, reply: UseReply) -> (next: UseSession)
    ensures
        next@ == session@.answered(reply),
{
    proof {
        use_type_invariant(&session);
        use_stays_sound(session@, reply);
    }
    if session.ended.is_some() {
        return session;
    }
    proof {
        session.lemma_at();
    }
    match (session.steps[session.at], reply) {
        (UseStep::Ensure(i), UseReply::Looked(look)) => match look {
            Ok(facts) => match validate_directory(session.prefixes[i].as_str(), facts) {
                Ok(_) => session.moved(3),
                Err(error) => session.failed(error),
            },
            Err(source) => match source.kind {
                FileErrorKind::NotFound => session.moved(1),
                _ => {
                    let error = io_error(
                        "inspect runtime configuration parent",
                        session.prefixes[i].as_str(),
                        source,
                    );
                    session.failed(error)
                },
            },
        },
        (UseStep::Make(i), UseReply::Done(outcome)) => match outcome {
            Err(source) => match source.kind {
                FileErrorKind::AlreadyExists => session.moved(1),
                _ => {
                    let error = io_error(
                        "create runtime configuration parent",
                        session.prefixes[i].as_str(),
                        source,
                    );
                    session.failed(error)
                },
            },
            Ok(_) => session.moved(1),
        },
        (UseStep::Remade(i), UseReply::Looked(look)) => match look {
            Ok(facts) => {
                let outcome = validate_directory(session.prefixes[i].as_str(), facts);
                session.checked(outcome)
            },
            Err(source) => {
                let error = io_error(
                    "re-inspect created runtime configuration parent",
                    session.prefixes[i].as_str(),
                    source,
                );
                session.failed(error)
            },
        },
        (UseStep::Associate(i), UseReply::Canonicalized(canonical)) => {
            let outcome = validate_association(
                session.prefixes[i].as_str(),
                canonical,
                session.platform,
            );
            session.checked(outcome)
        },
        (UseStep::Destination, UseReply::Looked(look)) => {
            match inspect_destination(session.preparation.destination(), look) {
                Err(error) => session.failed(error),
                Ok(there) => {
                    if there != session.preparation.prior_document.is_some() {
                        let error = session.changed();
                        session.failed(error)
                    } else if there {
                        session.moved(1)
                    } else {
                        session.moved(2)
                    }
                },
            }
        },
        (UseStep::Document, UseReply::Read(read)) => match read {
            Err(source) => {
                let error = io_error(
                    "re-read runtime configuration before publication",
                    session.preparation.destination(),
                    source,
                );
                session.failed(error)
            },
            Ok(text) => {
                if session.is_prior(text.as_str()) {
                    session.moved(1)
                } else {
                    let error = session.changed();
                    session.failed(error)
                }
            },
        },
        (UseStep::Number, UseReply::Number(number)) => {
            let name = name_temporary(".loadout-use-", session.process, number);
            let temporary = path_in(session.parent.as_str(), name.as_str(), session.platform);
            let named = UseSession { temporary, ..session };
            named.moved(1)
        },
        (UseStep::Create, UseReply::Done(outcome)) => {
            let taken = take_done(
                "create runtime configuration temporary",
                session.temporary.as_str(),
                outcome,
            );
            session.checked(taken)
        },
        (UseStep::Write, UseReply::Done(outcome)) => {
            let taken = take_done(
                "write runtime configuration temporary",
                session.temporary.as_str(),
                outcome,
            );
            session.checked(taken)
        },
        (UseStep::Flush, UseReply::Done(outcome)) => {
            let taken = take_done(
                "flush runtime configuration temporary",
                session.temporary.as_str(),
                outcome,
            );
            session.checked(taken)
        },
        (UseStep::Standing(_, i), UseReply::Looked(look)) => {
            let outcome = verify_existing_safe_parent(session.prefixes[i].as_str(), look);
            session.checked(outcome)
        },
        (UseStep::StandingAssociation(_, i), UseReply::Canonicalized(canonical)) => {
            let outcome = stand(
                validate_association(session.prefixes[i].as_str(), canonical, session.platform),
            );
            session.checked(outcome)
        },
        (UseStep::Entry(which), UseReply::Looked(look)) => {
            match inspect_destination(session.file(which), look) {
                Err(error) => session.failed(error),
                Ok(there) => {
                    if there {
                        session.moved(1)
                    } else {
                        let error = invalid_published(
                            session.file(which),
                            "runtime configuration is absent",
                        );
                        session.failed(error)
                    }
                },
            }
        },
        (UseStep::Contents(which), UseReply::Read(read)) => {
            let outcome = validate_published(
                session.file(which),
                session.preparation.selected_path(),
                read,
            );
            session.checked(outcome)
        },
        (UseStep::Publish, UseReply::Published(published)) => {
            let outcome = if session.preparation.prior_document.is_some() {
                publish_replacement(session.preparation.destination(), published, session.platform)
            } else {
                publish_without_replacement(session.preparation.destination(), published)
            };
            session.checked(outcome)
        },
        (UseStep::FlushParent, UseReply::Done(flushed)) => {
            let outcome = sync_parent(session.parent.as_str(), flushed);
            session.checked(outcome)
        },
        _ => session,
    }
}

impl UseSession {
    /// What the publication came to, once it has ended.
    pub fn finish(self) -> (ended: Option<Result<(), ConfigUseError>>)
        ensures
            used_view(ended) == self@.ended,
    {
        self.ended
    }
}

} // verus!
