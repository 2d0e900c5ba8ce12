//! Edits to an existing portable configuration file: prepared, checked, and put in place as a
//! whole, one call of the file system at a time.

use vstd::prelude::*;
use vstd::string::*;
use crate::authoring::editing::{edit, field_edited, json_string, Edited};
use crate::authoring::files::{
    absolute_prefixes_of, directory_of, entry_path, name_temporary, parent_directory, path_in,
    prefixes_of, read_path, reading, temporary_name, CanonicalPath, EntryFacts, FileError,
    FileErrorKind, FileErrorView,
};
use crate::domain::paths::{same_path, Platform, ResolvedPath};
use crate::text::{copy_of, text_equal, texts};

verus! {

/// Why a configuration file was not edited.
#[derive(Debug, PartialEq, Eq)]
pub enum ConfigSetError {
    Input { path: String, message: String },
    Io { action: &'static str, path: String, source: FileError },
    Published { path: String, message: String },
}

/// Why a configuration file was not edited.
pub enum SetErrorView {
    Input { path: Seq<char>, message: Seq<char> },
    Io { action: Seq<char>, path: Seq<char>, source: FileErrorView },
    Published { path: Seq<char>, message: Seq<char> },
}

impl View for ConfigSetError {
    type V = SetErrorView;

    open spec fn view(&self) -> SetErrorView {
        match self {
            ConfigSetError::Input { path, message } => SetErrorView::Input {
                path: path@,
                message: message@,
            },
            ConfigSetError::Io { action, path, source } => SetErrorView::Io {
                action: action@,
                path: path@,
                source: source@,
            },
            ConfigSetError::Published { path, message } => SetErrorView::Published {
                path: path@,
                message: message@,
            },
        }
    }
}

impl ConfigSetError {
    /// The exit code: two for what the input is to blame for.
    pub fn exit_code(&self) -> (code: u8)
        ensures
            code == if self is Input {
                2u8
            } else {
                1u8
            },
    {
        match self {
            ConfigSetError::Input { .. } => 2,
            ConfigSetError::Io { .. } => 1,
            ConfigSetError::Published { .. } => 1,
        }
    }

    /// What the error says.
    pub open spec fn message(self) -> Seq<char> {
        match self {
            ConfigSetError::Input { path, message } => "cannot edit configuration "@ + path@
                + ": "@ + message@,
            ConfigSetError::Io { action, path, source } => "cannot "@ + action@ + " "@ + path@
                + ": "@ + source.message@,
            ConfigSetError::Published { path, message } =>
                "published configuration is invalid at "@ + path@ + ": "@ + message@,
        }
    }

    /// What the error says.
    pub fn to_text(&self) -> (text: String)
        ensures
            text@ == self.message(),
    {
        match self {
            ConfigSetError::Input { path, message } => {
                copy_of("cannot edit configuration ").concat(path.as_str()).concat(": ").concat(
                    message.as_str(),
                )
            },
            ConfigSetError::Io { action, path, source } => {
                copy_of("cannot ").concat(action).concat(" ").concat(path.as_str()).concat(
                    ": ",
                ).concat(source.message.as_str())
            },
            ConfigSetError::Published { path, message } => {
                copy_of("published configuration is invalid at ").concat(path.as_str()).concat(
                    ": ",
                ).concat(message.as_str())
            },
        }
    }
}

/// An error that the input is to blame for.
pub fn input(path: &str, message: &str) -> (error: ConfigSetError)
    ensures
        error@ == (SetErrorView::Input { path: path@, message: message@ }),
{
    ConfigSetError::Input { path: copy_of(path), message: copy_of(message) }
}

/// An error that the file system gave.
pub fn io_error(action: &'static str, path: &str, source: FileError) -> (error: ConfigSetError)
    ensures
        error@ == (SetErrorView::Io { action: action@, path: path@, source: source@ }),
{
    ConfigSetError::Io { action, path: copy_of(path), source }
}

/// The error in an outcome.
pub open spec fn set_outcome(outcome: Result<(), ConfigSetError>) -> Result<(), SetErrorView> {
    match outcome {
        Ok(_) => Ok(()),
        Err(error) => Err(error@),
    }
}

/// The absolute prefixes of a directory, from the shortest on.
pub fn prefixes(path: &str, platform: Platform) -> (outcome: Result<Vec<String>, ConfigSetError>)
    ensures
        match prefixes_of(path@, platform) {
            Some(list) => outcome matches Ok(found) && texts(found@) == list,
            None => outcome matches Err(error) && error@ == (SetErrorView::Input {
                path: path@,
                message: "configuration parent is not absolute"@,
            }),
        },
{
    match absolute_prefixes_of(path, platform) {
        Some(list) => Ok(list),
        None => Err(input(path, "configuration parent is not absolute")),
    }
}

/// What a look at a prefix of the parent directory says of it.
pub open spec fn parent_look(
    path: Seq<char>,
    look: Result<EntryFacts, FileError>,
    platform: Platform,
) -> Result<(), SetErrorView> {
    match look {
        Err(source) => Err(
            SetErrorView::Io { action: "inspect configuration parent"@, path, source: source@ },
        ),
        Ok(facts) => if !facts.plain_directory() {
            Err(SetErrorView::Input { path, message: "expected a non-symlink directory"@ })
        } else {
            match reading(path, platform) {
                Ok(_) => Ok(()),
                Err(message) => Err(SetErrorView::Input { path, message }),
            }
        },
    }
}

/// Checks that a prefix of the parent directory is a directory itself.
pub fn verify_parent(path: &str, look: Result<EntryFacts, FileError>, platform: Platform) -> (outcome:
    Result<(), ConfigSetError>)
    ensures
        set_outcome(outcome) == parent_look(path@, look, platform),
{
    match look {
        Err(source) => Err(io_error("inspect configuration parent", path, source)),
        Ok(facts) => {
            if !facts.is_plain_directory() {
                return Err(input(path, "expected a non-symlink directory"));
            }
            match read_path(path, platform) {
                Ok(_) => Ok(()),
                Err(message) => Err(input(path, message.as_str())),
            }
        },
    }
}

/// What the canonical form of a prefix of the parent directory says of it.
pub open spec fn parent_association(
    path: Seq<char>,
    canonical: Result<CanonicalPath, FileError>,
    platform: Platform,
) -> Result<(), SetErrorView> {
    match canonical {
        Err(source) => Err(
            SetErrorView::Io {
                action: "verify configuration parent association"@,
                path,
                source: source@,
            },
        ),
        Ok(canonical) => match reading(canonical.spelling(platform), platform) {
            Err(message) => Err(SetErrorView::Input { path, message }),
            Ok(observed) => if reading(path, platform) matches Ok(declared) && same_path(
                declared,
                observed,
            ) {
                Ok(())
            } else {
                Err(
                    SetErrorView::Input {
                        path,
                        message: "parent is not associated with its declared path"@,
                    },
                )
            },
        },
    }
}

/// Checks that a prefix of the parent directory leads where it says.
pub fn verify_parent_association(
    path: &str,
    canonical: Result<CanonicalPath, FileError>,
    platform: Platform,
) -> (outcome: Result<(), ConfigSetError>)
    ensures
        set_outcome(outcome) == parent_association(path@, canonical, platform),
{
    match canonical {
        Err(source) => Err(io_error("verify configuration parent association", path, source)),
        Ok(canonical) => match canonical.read(platform) {
            Err(message) => Err(input(path, message.as_str())),
            Ok(observed) => {
                let same = match read_path(path, platform) {
                    Ok(declared) => declared.same(&observed),
                    Err(_) => false,
                };
                if same {
                    Ok(())
                } else {
                    Err(input(path, "parent is not associated with its declared path"))
                }
            },
        },
    }
}

/// What a look at the configuration file says of it.
pub open spec fn regular_look(path: Seq<char>, look: Result<EntryFacts, FileError>) -> Result<
    (),
    SetErrorView,
> {
    match look {
        Ok(facts) => if facts.plain_file() {
            Ok(())
        } else {
            Err(SetErrorView::Input { path, message: "expected a regular non-symlink file"@ })
        },
        Err(source) => if source.kind is NotFound {
            Err(SetErrorView::Input { path, message: "configuration file is absent"@ })
        } else {
            Err(SetErrorView::Io { action: "inspect configuration"@, path, source: source@ })
        },
    }
}

/// Checks that the configuration file is a regular file itself.
pub fn verify_regular(path: &str, look: Result<EntryFacts, FileError>) -> (outcome: Result<
    (),
    ConfigSetError,
>)
    ensures
        set_outcome(outcome) == regular_look(path@, look),
{
    match look {
        Ok(facts) => {
            if facts.is_plain_file() {
                Ok(())
            } else {
                Err(input(path, "expected a regular non-symlink file"))
            }
        },
        Err(source) => match source.kind {
            FileErrorKind::NotFound => Err(input(path, "configuration file is absent")),
            _ => Err(io_error("inspect configuration", path, source)),
        },
    }
}

/// What a read of the configuration file says before anything is put in its place.
pub open spec fn original_read(
    path: Seq<char>,
    original: Seq<char>,
    read: Result<String, FileError>,
) -> Result<(), SetErrorView> {
    match read {
        Err(source) => Err(
            SetErrorView::Io {
                action: "re-read configuration before publication"@,
                path,
                source: source@,
            },
        ),
        Ok(observed) => if observed@ == original {
            Ok(())
        } else {
            Err(
                SetErrorView::Input { path, message: "configuration changed before publication"@ },
            )
        },
    }
}

/// Checks that the configuration file still holds the document that was edited.
pub fn verify_original(path: &str, original: &str, read: Result<String, FileError>) -> (outcome:
    Result<(), ConfigSetError>)
    ensures
        set_outcome(outcome) == original_read(path@, original@, read),
{
    match read {
        Err(source) => Err(io_error("re-read configuration before publication", path, source)),
        Ok(observed) => {
            if text_equal(observed.as_str(), original) {
                Ok(())
            } else {
                Err(input(path, "configuration changed before publication"))
            }
        },
    }
}

/// What a read of the configuration file says after the candidate was put in its place.
pub open spec fn published_read(
    path: Seq<char>,
    candidate: Seq<char>,
    read: Result<String, FileError>,
) -> Result<(), SetErrorView> {
    match read {
        Err(source) => Err(
            SetErrorView::Io {
                action: "re-open published configuration"@,
                path,
                source: source@,
            },
        ),
        Ok(observed) => if observed@ == candidate {
            Ok(())
        } else {
            Err(
                SetErrorView::Published {
                    path,
                    message: "contents differ from the candidate document"@,
                },
            )
        },
    }
}

/// Checks that the configuration file holds the candidate.
pub fn verify_published(path: &str, candidate: &str, read: &Result<String, FileError>) -> (outcome:
    Result<(), ConfigSetError>)
    ensures
        set_outcome(outcome) == published_read(path@, candidate@, *read),
{
    match read {
        Err(source) => Err(
            io_error("re-open published configuration", path, source.duplicate()),
        ),
        Ok(observed) => {
            if text_equal(observed.as_str(), candidate) {
                Ok(())
            } else {
                Err(
                    ConfigSetError::Published {
                        path: copy_of(path),
                        message: copy_of("contents differ from the candidate document"),
                    },
                )
            }
        },
    }
}

/// What a parse of a written document says of it.
pub open spec fn document_meaning(path: Seq<char>, parsed: Result<Vec<String>, String>) -> Result<
    (),
    SetErrorView,
> {
    match parsed {
        Ok(_) => Ok(()),
        Err(message) => Err(SetErrorView::Published { path, message: message@ }),
    }
}

/// Checks that a written document is a configuration.
pub fn verify_meaning(path: &str, parsed: Result<Vec<String>, String>) -> (outcome: Result<
    (),
    ConfigSetError,
>)
    ensures
        set_outcome(outcome) == document_meaning(path@, parsed),
{
    match parsed {
        Ok(_) => Ok(()),
        Err(message) => Err(ConfigSetError::Published { path: copy_of(path), message }),
    }
}

/// Why a file was not put in the place of another.
#[derive(Debug, PartialEq, Eq)]
pub enum ReplaceFailure {
    /// The platform has no atomic replacement.
    Unsupported,
    Failed(FileError),
}

/// What became of the replacement of a file.
pub open spec fn replacement(path: Seq<char>, outcome: Result<(), ReplaceFailure>) -> Result<
    (),
    SetErrorView,
> {
    match outcome {
        Ok(_) => Ok(()),
        Err(ReplaceFailure::Unsupported) => Err(
            SetErrorView::Input {
                path,
                message: "atomic replacement is unsupported on this platform"@,
            },
        ),
        Err(ReplaceFailure::Failed(source)) => Err(
            SetErrorView::Io { action: "replace configuration"@, path, source: source@ },
        ),
    }
}

/// Takes what became of the replacement of the configuration file.
pub fn replace(destination: &str, replaced: Result<(), ReplaceFailure>) -> (outcome: Result<
    (),
    ConfigSetError,
>)
    ensures
        set_outcome(outcome) == replacement(destination@, replaced),
{
    match replaced {
        Ok(_) => Ok(()),
        Err(ReplaceFailure::Unsupported) => Err(
            input(destination, "atomic replacement is unsupported on this platform"),
        ),
        Err(ReplaceFailure::Failed(source)) => Err(
            io_error("replace configuration", destination, source),
        ),
    }
}

/// What became of a call that only succeeds or fails.
pub open spec fn done(action: Seq<char>, path: Seq<char>, outcome: Result<(), FileError>) -> Result<
    (),
    SetErrorView,
> {
    match outcome {
        Ok(_) => Ok(()),
        Err(source) => Err(SetErrorView::Io { action, path, source: source@ }),
    }
}

fn take_done(action: &'static str, path: &str, outcome: Result<(), FileError>) -> (taken: Result<
    (),
    ConfigSetError,
>)
    ensures
        set_outcome(taken) == done(action@, path@, outcome),
{
    match outcome {
        Ok(_) => Ok(()),
        Err(source) => Err(io_error(action, path, source)),
    }
}

/// Takes what became of the flush of the parent directory.
pub fn sync_parent(parent: &str, flushed: Result<(), FileError>) -> (outcome: Result<
    (),
    ConfigSetError,
>)
    ensures
        set_outcome(outcome) == done("flush configuration parent"@, parent@, flushed),
{
    take_done("flush configuration parent", parent, flushed)
}

/// What the edit of a configuration file needs next from outside.
#[derive(Debug, PartialEq, Eq)]
pub enum SetRequest {
    /// What the entry at a path itself is.
    Look { path: String },
    /// The canonical form of a path.
    Canonicalize { path: String },
    /// The text of a file.
    Read { path: String },
    /// The names of the stores of a configuration document.
    Parse { document: String },
    /// A number that this process has not drawn before.
    Number,
    /// A new empty file.
    Create { path: String },
    /// The contents of the new file.
    Write { path: String, contents: String },
    /// The new file flushed.
    Flush { path: String },
    /// A file put in the place of another at once.
    Replace { temporary: String, destination: String },
    /// A directory flushed.
    FlushDirectory { path: String },
    /// Nothing more.
    Finished,
}

/// The answer to a request.
#[derive(Debug, PartialEq, Eq)]
pub enum SetReply {
    Looked(Result<EntryFacts, FileError>),
    Canonicalized(Result<CanonicalPath, FileError>),
    Read(Result<String, FileError>),
    Parsed(Result<Vec<String>, String>),
    Number(usize),
    Done(Result<(), FileError>),
    Replaced(Result<(), ReplaceFailure>),
}

/// One step of an edit. A number is that of a prefix of the parent directory.
#[derive(Clone, Copy, Debug, PartialEq, Eq, Structural)]
pub enum SetStep {
    Directory(usize),
    Association(usize),
    Regular,
    /// The document that will be edited.
    Document,
    /// The edit of the document.
    Edit,
    /// The document that was edited is still there.
    Original,
    Number,
    Create,
    Write,
    FlushTemporary,
    Reread,
    TemporaryMeaning,
    Replace,
    /// The candidate is there.
    Published,
    Meaning,
    FlushParent,
}

/// The checks of the first prefixes of a directory.
pub open spec fn parent_steps(n: nat) -> Seq<SetStep>
    decreases n,
{
    if n == 0 {
        Seq::empty()
    } else {
        parent_steps((n - 1) as nat).push(SetStep::Directory((n - 1) as usize)).push(
            SetStep::Association((n - 1) as usize),
        )
    }
}

/// The steps of a preparation.
pub open spec fn preparation_steps(n: nat) -> Seq<SetStep> {
    parent_steps(n) + seq![SetStep::Regular, SetStep::Document, SetStep::Edit]
}

/// The check that the parent directory is what it was and the document that was edited is there.
pub open spec fn unchanged_steps(n: nat) -> Seq<SetStep> {
    parent_steps(n) + seq![SetStep::Regular, SetStep::Original]
}

/// The making of the temporary file.
pub open spec fn temporary_steps() -> Seq<SetStep> {
    seq![
        SetStep::Number,
        SetStep::Create,
        SetStep::Write,
        SetStep::FlushTemporary,
        SetStep::Reread,
        SetStep::TemporaryMeaning,
    ]
}

/// The check that the candidate is there.
pub open spec fn published_steps(n: nat) -> Seq<SetStep> {
    parent_steps(n) + seq![SetStep::Regular, SetStep::Published, SetStep::Meaning]
}

/// The flush of the parent directory, where the platform has one.
pub open spec fn flush_steps(platform: Platform) -> Seq<SetStep> {
    match platform {
        Platform::Unix => seq![SetStep::FlushParent],
        Platform::Windows => Seq::empty(),
    }
}

/// The steps of a publication before the replacement.
pub open spec fn steps_before_replacement(n: nat) -> Seq<SetStep> {
    unchanged_steps(n) + temporary_steps() + unchanged_steps(n)
}

/// The steps of a publication.
#[verifier::opaque]
pub open spec fn publication_steps(n: nat, platform: Platform) -> Seq<SetStep> {
    steps_before_replacement(n) + seq![SetStep::Replace] + published_steps(n) + flush_steps(
        platform,
    ) + published_steps(n)
}

proof fn lemma_parent_steps(n: nat)
    requires
        n <= usize::MAX,
    ensures
        parent_steps(n).len() == 2 * n,
        forall|k: int|
            0 <= k < 2 * n ==> match #[trigger] parent_steps(n)[k] {
                SetStep::Directory(i) => i < n,
                SetStep::Association(i) => i < n,
                _ => false,
            },
    decreases n,
{
    if n > 0 {
        lemma_parent_steps((n - 1) as nat);
    }
}

fn push_parent_steps(steps: &mut Vec<SetStep>, n: usize)
    ensures
        final(steps)@ == old(steps)@ + parent_steps(n as nat),
{
    let ghost start = steps@;
    let mut i: usize = 0;
    assert(steps@ =~= start + parent_steps(0));
    while i < n
        invariant
            i <= n,
            steps@ == start + parent_steps(i as nat),
        decreases n - i,
    {
        steps.push(SetStep::Directory(i));
        steps.push(SetStep::Association(i));
        i += 1;
        assert(steps@ =~= start + parent_steps(i as nat));
    }
}

fn list_preparation_steps(n: usize) -> (steps: Vec<SetStep>)
    ensures
        steps@ == preparation_steps(n as nat),
{
    let mut steps: Vec<SetStep> = Vec::new();
    push_parent_steps(&mut steps, n);
    steps.push(SetStep::Regular);
    steps.push(SetStep::Document);
    steps.push(SetStep::Edit);
    assert(steps@ =~= preparation_steps(n as nat));
    steps
}

fn push_published_steps(steps: &mut Vec<SetStep>, n: usize)
    ensures
        final(steps)@ == old(steps)@ + published_steps(n as nat),
{
    let ghost start = steps@;
    push_parent_steps(steps, n);
    steps.push(SetStep::Regular);
    steps.push(SetStep::Published);
    steps.push(SetStep::Meaning);
    assert(steps@ =~= start + published_steps(n as nat));
}

fn list_publication_steps(n: usize, platform: Platform) -> (steps: Vec<SetStep>)
    ensures
        steps@ == publication_steps(n as nat, platform),
{
    let mut steps: Vec<SetStep> = Vec::new();
    push_parent_steps(&mut steps, n);
    steps.push(SetStep::Regular);
    steps.push(SetStep::Original);
    assert(steps@ =~= unchanged_steps(n as nat));
    steps.push(SetStep::Number);
    steps.push(SetStep::Create);
    steps.push(SetStep::Write);
    steps.push(SetStep::FlushTemporary);
    steps.push(SetStep::Reread);
    steps.push(SetStep::TemporaryMeaning);
    assert(steps@ =~= unchanged_steps(n as nat) + temporary_steps());
    push_parent_steps(&mut steps, n);
    steps.push(SetStep::Regular);
    steps.push(SetStep::Original);
    assert(steps@ =~= steps_before_replacement(n as nat));
    steps.push(SetStep::Replace);
    push_published_steps(&mut steps, n);
    match platform {
        Platform::Unix => {
            steps.push(SetStep::FlushParent);
        },
        Platform::Windows => {},
    }
    assert(steps@ =~= steps_before_replacement(n as nat) + seq![SetStep::Replace]
        + published_steps(n as nat) + flush_steps(platform));
    push_published_steps(&mut steps, n);
    reveal(publication_steps);
    steps
}

/// A prepared edit.
#[derive(Debug, PartialEq, Eq)]
pub struct SetPreparation {
    destination: ResolvedPath,
    original: String,
    candidate: String,
    field: String,
    prior: String,
    result: String,
}

/// A prepared edit.
pub struct PreparationView {
    pub destination: Seq<char>,
    pub original: Seq<char>,
    pub candidate: Seq<char>,
    pub field: Seq<char>,
    pub prior: Seq<char>,
    pub result: Seq<char>,
}

impl View for SetPreparation {
    type V = PreparationView;

    closed spec fn view(&self) -> PreparationView {
        PreparationView {
            destination: self.destination@,
            original: self.original@,
            candidate: self.candidate@,
            field: self.field@,
            prior: self.prior@,
            result: self.result@,
        }
    }
}

impl SetPreparation {
    /// The configuration file.
    pub fn destination(&self) -> (path: &str)
        ensures
            path@ == self@.destination,
    {
        self.destination.as_path()
    }

    /// The field that is edited.
    pub fn field(&self) -> (field: &str)
        ensures
            field@ == self@.field,
    {
        self.field.as_str()
    }

    /// What the field held, as it was written.
    pub fn prior(&self) -> (prior: &str)
        ensures
            prior@ == self@.prior,
    {
        self.prior.as_str()
    }

    /// What the field will hold.
    pub fn result(&self) -> (result: &str)
        ensures
            result@ == self@.result,
    {
        self.result.as_str()
    }

    /// The edited document.
    pub fn candidate(&self) -> (candidate: &str)
        ensures
            candidate@ == self@.candidate,
    {
        self.candidate.as_str()
    }
}

/// A preparation under way.
pub struct PreparingView {
    pub destination: Seq<char>,
    pub field: Seq<char>,
    pub value: Seq<char>,
    pub platform: Platform,
    pub prefixes: Seq<Seq<char>>,
    pub steps: Seq<SetStep>,
    pub at: int,
    pub document: Seq<char>,
    pub ended: Option<Result<PreparationView, SetErrorView>>,
}

impl PreparingView {
    /// The preparation after a check.
    pub open spec fn checked(self, outcome: Result<(), SetErrorView>) -> PreparingView {
        match outcome {
            Ok(_) => PreparingView { at: self.at + 1, ..self },
            Err(error) => PreparingView { ended: Some(Err(error)), ..self },
        }
    }

    /// The preparation after an answer. An answer to another question changes nothing.
    pub open spec fn answered(self, reply: SetReply) -> PreparingView {
        if self.ended is Some {
            self
        } else {
            match (self.steps[self.at], reply) {
                (SetStep::Directory(i), SetReply::Looked(look)) => self.checked(
                    parent_look(self.prefixes[i as int], look, self.platform),
                ),
                (SetStep::Association(i), SetReply::Canonicalized(canonical)) => self.checked(
                    parent_association(self.prefixes[i as int], canonical, self.platform),
                ),
                (SetStep::Regular, SetReply::Looked(look)) => self.checked(
                    regular_look(self.destination, look),
                ),
                (SetStep::Document, SetReply::Read(read)) => match read {
                    Ok(document) => PreparingView {
                        document: document@,
                        at: self.at + 1,
                        ..self
                    },
                    Err(source) => PreparingView {
                        ended: Some(
                            Err(
                                SetErrorView::Io {
                                    action: "read configuration"@,
                                    path: self.destination,
                                    source: source@,
                                },
                            ),
                        ),
                        ..self
                    },
                },
                (SetStep::Edit, SetReply::Parsed(parsed)) => PreparingView {
                    ended: Some(self.edited(parsed)),
                    ..self
                },
                _ => self,
            }
        }
    }

    /// The prepared edit of the document, once it was parsed.
    pub open spec fn edited(self, parsed: Result<Vec<String>, String>) -> Result<
        PreparationView,
        SetErrorView,
    > {
        match parsed {
            Err(message) => Err(
                SetErrorView::Input { path: self.destination, message: message@ },
            ),
            Ok(stores) => match field_edited(
                self.document,
                texts(stores@),
                self.field,
                json_string(self.value),
            ) {
                Err(message) => Err(SetErrorView::Input { path: self.destination, message }),
                Ok((candidate, prior)) => Ok(
                    PreparationView {
                        destination: self.destination,
                        original: self.document,
                        candidate,
                        field: self.field,
                        prior,
                        result: self.value,
                    },
                ),
            },
        }
    }

    /// Whether a request is what the preparation needs next.
    pub open spec fn requests(self, request: SetRequest) -> bool {
        if self.ended is Some {
            request is Finished
        } else {
            match self.steps[self.at] {
                SetStep::Directory(i) => request matches SetRequest::Look { path } && path@
                    == self.prefixes[i as int],
                SetStep::Association(i) => request matches SetRequest::Canonicalize { path }
                    && path@ == self.prefixes[i as int],
                SetStep::Regular => request matches SetRequest::Look { path } && path@
                    == self.destination,
                SetStep::Document => request matches SetRequest::Read { path } && path@
                    == self.destination,
                _ => request matches SetRequest::Parse { document } && document@ == self.document,
            }
        }
    }

    /// What every preparation keeps.
    pub open spec fn sound(self) -> bool {
        &&& self.prefixes.len() <= usize::MAX
        &&& self.ended is None ==> {
            &&& self.steps == preparation_steps(self.prefixes.len())
            &&& 0 <= self.at < self.steps.len()
        }
    }
}

/// The start of a preparation in a directory.
pub open spec fn preparation_start(
    destination: Seq<char>,
    field: Seq<char>,
    value: Seq<char>,
    directory: Seq<char>,
    platform: Platform,
) -> PreparingView {
    let list = match prefixes_of(directory, platform) {
        Some(list) => list,
        None => Seq::empty(),
    };
    PreparingView {
        destination,
        field,
        value,
        platform,
        prefixes: list,
        steps: preparation_steps(list.len()),
        at: 0,
        document: Seq::empty(),
        ended: if prefixes_of(directory, platform) is None {
            Some(
                Err(
                    SetErrorView::Input {
                        path: directory,
                        message: "configuration parent is not absolute"@,
                    },
                ),
            )
        } else {
            None
        },
    }
}

/// Every preparation starts as it goes on.
pub proof fn preparation_starts_sound(
    destination: Seq<char>,
    field: Seq<char>,
    value: Seq<char>,
    directory: Seq<char>,
    platform: Platform,
)
    requires
        prefixes_of(directory, platform) matches Some(list) ==> list.len() <= usize::MAX,
    ensures
        preparation_start(destination, field, value, directory, platform).sound(),
{
    let start = preparation_start(destination, field, value, directory, platform);
    lemma_parent_steps(start.prefixes.len());
}

/// Every preparation keeps what it promises, whatever it is answered.
pub proof fn preparation_stays_sound(preparing: PreparingView, reply: SetReply)
    requires
        preparing.sound(),
    ensures
        preparing.answered(reply).sound(),
{
    lemma_parent_steps(preparing.prefixes.len());
}

/// A prepared edit is that of the document that was read, with the stores that it declares, and it
/// changes the field that was asked for. No preparation ends well before the parent directory was
/// checked and the file was read.
pub proof fn preparation_edits_what_was_read(preparing: PreparingView, reply: SetReply)
    requires
        preparing.sound(),
        preparing.ended is None,
        preparing.answered(reply).ended matches Some(Ok(_)),
    ensures
        preparing.at == preparing.steps.len() - 1,
        ({
            let prepared = preparing.answered(reply).ended->0->Ok_0;
            &&& prepared.destination == preparing.destination
            &&& prepared.original == preparing.document
            &&& prepared.field == preparing.field
            &&& prepared.result == preparing.value
            &&& reply matches SetReply::Parsed(Ok(stores)) && field_edited(
                preparing.document,
                texts(stores@),
                preparing.field,
                json_string(preparing.value),
            ) == Ok::<(Seq<char>, Seq<char>), Seq<char>>((prepared.candidate, prepared.prior))
        }),
{
    lemma_parent_steps(preparing.prefixes.len());
    let n = preparing.prefixes.len();
    assert(preparing.steps[preparing.at] is Edit);
    if preparing.at < 2 * n {
        assert(preparing.steps[preparing.at] == parent_steps(n)[preparing.at]);
    }
}

/// A preparation under way.
#[derive(Debug)]
pub struct PreparationSession {
    destination: ResolvedPath,
    field: String,
    value: String,
    platform: Platform,
    prefixes: Vec<String>,
    steps: Vec<SetStep>,
    at: usize,
    document: String,
    ended: Option<Result<SetPreparation, ConfigSetError>>,
}

/// What a preparation that has ended came to.
pub open spec fn prepared_view(ended: Option<Result<SetPreparation, ConfigSetError>>) -> Option<
    Result<PreparationView, SetErrorView>,
> {
    match ended {
        None => None,
        Some(Ok(preparation)) => Some(Ok(preparation@)),
        Some(Err(error)) => Some(Err(error@)),
    }
}

impl View for PreparationSession {
    type V = PreparingView;

    closed spec fn view(&self) -> PreparingView {
        PreparingView {
            destination: self.destination@,
            field: self.field@,
            value: self.value@,
            platform: self.platform,
            prefixes: texts(self.prefixes@),
            steps: self.steps@,
            at: self.at as int,
            document: self.document@,
            ended: prepared_view(self.ended),
        }
    }
}

/// Starts to read and edit a supported field of a configuration file.
pub fn prepare(destination: ResolvedPath, field: &str, value: &str, platform: Platform) -> (session:
    PreparationSession)
    requires
        directory_of(destination@, platform) is Some,
    ensures
        session@ == preparation_start(
            destination@,
            field@,
            value@,
            directory_of(destination@, platform)->0,
            platform,
        ),
{
    let directory = match parent_directory(&destination, platform) {
        Some(directory) => directory,
        None => String::new(),
    };
    let (list, ended) = match prefixes(directory.as_str(), platform) {
        Ok(list) => (list, None),
        Err(error) => {
            let list: Vec<String> = Vec::new();
            assert(texts(list@) =~= Seq::<Seq<char>>::empty());
            (list, Some(Err(error)))
        },
    };
    let steps = list_preparation_steps(list.len());
    assert(texts(list@).len() == list@.len());
    let document = String::new();
    assert(document@ =~= Seq::<char>::empty());
    PreparationSession {
        destination,
        field: copy_of(field),
        value: copy_of(value),
        platform,
        prefixes: list,
        steps,
        at: 0,
        document,
        ended,
    }
}

impl PreparationSession {
    #[verifier::type_invariant]
    spec fn keeps(self) -> bool {
        self@.sound()
    }

    proof fn lemma_at(self)
        requires
            self@.sound(),
            self.ended is None,
        ensures
            self.at < self.steps@.len(),
            match self.steps@[self.at as int] {
                SetStep::Directory(i) => i < self.prefixes@.len(),
                SetStep::Association(i) => i < self.prefixes@.len(),
                SetStep::Regular => true,
                SetStep::Document => true,
                SetStep::Edit => true,
                _ => false,
            },
    {
        let n = self.prefixes@.len();
        assert(texts(self.prefixes@).len() == n);
        lemma_parent_steps(n);
        if self.at < 2 * n {
            assert(self.steps@[self.at as int] == parent_steps(n)[self.at as int]);
        }
    }

    /// What the preparation needs next.
    pub fn request(&self) -> (request: SetRequest)
        ensures
            self@.requests(request),
            self@.sound(),
    {
        proof {
            use_type_invariant(self);
        }
        if self.ended.is_some() {
            return SetRequest::Finished;
        }
        proof {
            self.lemma_at();
        }
        match self.steps[self.at] {
            SetStep::Directory(i) => SetRequest::Look { path: copy_of(self.prefixes[i].as_str()) },
            SetStep::Association(i) => SetRequest::Canonicalize {
                path: copy_of(self.prefixes[i].as_str()),
            },
            SetStep::Regular => SetRequest::Look { path: copy_of(self.destination.as_path()) },
            SetStep::Document => SetRequest::Read { path: copy_of(self.destination.as_path()) },
            _ => SetRequest::Parse { document: copy_of(self.document.as_str()) },
        }
    }

    fn checked(self, outcome: Result<(), ConfigSetError>) -> (next: Self)
        requires
            self@.checked(set_outcome(outcome)).sound(),
            self.at < self.steps@.len(),
        ensures
            next@ == self@.checked(set_outcome(outcome)),
    {
        let count: usize = self.steps.len();
        assert(self.at < count);
        match outcome {
            Ok(_) => PreparationSession { at: self.at + 1, ..self },
            Err(error) => PreparationSession { ended: Some(Err(error)), ..self },
        }
    }

    fn edited(&self, parsed: Result<Vec<String>, String>) -> (outcome: Result<
        SetPreparation,
        ConfigSetError,
    >)
        ensures
            prepared_view(Some(outcome)) == Some(self@.edited(parsed)),
    {
        match parsed {
            Err(message) => Err(input(self.destination.as_path(), message.as_str())),
            Ok(stores) => match edit(
                self.document.as_str(),
                &stores,
                self.field.as_str(),
                self.value.as_str(),
            ) {
                Err(message) => Err(input(self.destination.as_path(), message.as_str())),
                Ok(Edited { candidate, prior }) => Ok(
                    SetPreparation {
                        destination: self.destination.clone(),
                        original: copy_of(self.document.as_str()),
                        candidate,
                        field: copy_of(self.field.as_str()),
                        prior,
                        result: copy_of(self.value.as_str()),
                    },
                ),
            },
        }
    }

    /// Takes the answer to the last request.
    pub fn answer(self, reply: SetReply) -> (next: Self)
        ensures
            next@ == self@.answered(reply),
    {
        proof {
            use_type_invariant(&self);
            preparation_stays_sound(self@, reply);
        }
        if self.ended.is_some() {
            return self;
        }
        proof {
            self.lemma_at();
        }
        let count: usize = self.steps.len();
        assert(self.at < count);
        match (self.steps[self.at], reply) {
            (SetStep::Directory(i), SetReply::Looked(look)) => {
                let outcome = verify_parent(self.prefixes[i].as_str(), look, self.platform);
                self.checked(outcome)
            },
            (SetStep::Association(i), SetReply::Canonicalized(canonical)) => {
                let outcome = verify_parent_association(
                    self.prefixes[i].as_str(),
                    canonical,
                    self.platform,
                );
                self.checked(outcome)
            },
            (SetStep::Regular, SetReply::Looked(look)) => {
                let outcome = verify_regular(self.destination.as_path(), look);
                self.checked(outcome)
            },
            (SetStep::Document, SetReply::Read(read)) => match read {
                Ok(document) => PreparationSession { document, at: self.at + 1, ..self },
                Err(source) => {
                    let error = io_error("read configuration", self.destination.as_path(), source);
                    PreparationSession { ended: Some(Err(error)), ..self }
                },
            },
            (SetStep::Edit, SetReply::Parsed(parsed)) => {
                let outcome = self.edited(parsed);
                PreparationSession { ended: Some(outcome), ..self }
            },
            _ => self,
        }
    }

    /// What the preparation came to, once it has ended.
    pub fn finish(self) -> (ended: Option<Result<SetPreparation, ConfigSetError>>)
        ensures
            prepared_view(ended) == self@.ended,
    {
        self.ended
    }
}

/// How often a temporary name is tried.
pub const TEMPORARY_ATTEMPTS: usize = 128;

/// The failure to find a temporary name that is free.
pub open spec fn names_taken() -> FileErrorView {
    FileErrorView {
        kind: FileErrorKind::AlreadyExists,
        message: "temporary name collision limit reached"@,
    }
}

/// A publication under way.
pub struct PublishingView {
    pub preparation: PreparationView,
    pub parent: Seq<char>,
    pub process: nat,
    pub platform: Platform,
    pub prefixes: Seq<Seq<char>>,
    pub steps: Seq<SetStep>,
    pub at: int,
    pub attempts: nat,
    pub temporary: Seq<char>,
    pub text: Seq<char>,
    pub ended: Option<Result<(), SetErrorView>>,
}

impl PublishingView {
    /// The publication after a check. The last one that succeeds ends it.
    pub open spec fn checked(self, outcome: Result<(), SetErrorView>) -> PublishingView {
        match outcome {
            Ok(_) => if self.at + 1 < self.steps.len() {
                PublishingView { at: self.at + 1, ..self }
            } else {
                PublishingView { ended: Some(Ok(())), ..self }
            },
            Err(error) => PublishingView { ended: Some(Err(error)), ..self },
        }
    }

    /// The publication after the temporary file was made, or not. A name that is taken is given up
    /// for another one, as often as names are tried.
    pub open spec fn created(self, outcome: Result<(), FileError>) -> PublishingView {
        match outcome {
            Err(source) => if source.kind is AlreadyExists {
                if self.attempts + 1 < TEMPORARY_ATTEMPTS {
                    PublishingView { at: self.at - 1, attempts: self.attempts + 1, ..self }
                } else {
                    self.checked(
                        Err(
                            SetErrorView::Io {
                                action: "allocate configuration temporary"@,
                                path: self.parent,
                                source: names_taken(),
                            },
                        ),
                    )
                }
            } else {
                self.checked(done("create configuration temporary"@, self.temporary, outcome))
            },
            Ok(_) => self.checked(Ok(())),
        }
    }

    /// The publication after an answer. An answer to another question changes nothing.
    pub open spec fn answered(self, reply: SetReply) -> PublishingView {
        let destination = self.preparation.destination;
        if self.ended is Some {
            self
        } else {
            match (self.steps[self.at], reply) {
                (SetStep::Directory(i), SetReply::Looked(look)) => self.checked(
                    parent_look(self.prefixes[i as int], look, self.platform),
                ),
                (SetStep::Association(i), SetReply::Canonicalized(canonical)) => self.checked(
                    parent_association(self.prefixes[i as int], canonical, self.platform),
                ),
                (SetStep::Regular, SetReply::Looked(look)) => self.checked(
                    regular_look(destination, look),
                ),
                (SetStep::Original, SetReply::Read(read)) => self.checked(
                    original_read(destination, self.preparation.original, read),
                ),
                (SetStep::Number, SetReply::Number(number)) => PublishingView {
                    temporary: entry_path(
                        self.parent,
                        temporary_name(".loadout-set-"@, self.process, number as nat),
                        self.platform,
                    ),
                    ..self
                }.checked(Ok(())),
                (SetStep::Create, SetReply::Done(outcome)) => self.created(outcome),
                (SetStep::Write, SetReply::Done(outcome)) => self.checked(
                    done("write configuration temporary"@, self.temporary, outcome),
                ),
                (SetStep::FlushTemporary, SetReply::Done(outcome)) => self.checked(
                    done("flush configuration temporary"@, self.temporary, outcome),
                ),
                (SetStep::Reread, SetReply::Read(read)) => match read {
                    Ok(text) => PublishingView { text: text@, ..self }.checked(Ok(())),
                    Err(source) => self.checked(
                        Err(
                            SetErrorView::Io {
                                action: "re-open configuration temporary"@,
                                path: self.temporary,
                                source: source@,
                            },
                        ),
                    ),
                },
                (SetStep::TemporaryMeaning, SetReply::Parsed(parsed)) => self.checked(
                    document_meaning(self.temporary, parsed),
                ),
                (SetStep::Replace, SetReply::Replaced(outcome)) => self.checked(
                    replacement(destination, outcome),
                ),
                (SetStep::Published, SetReply::Read(read)) => match read {
                    Ok(text) => PublishingView { text: text@, ..self },
                    Err(_) => self,
                }.checked(published_read(destination, self.preparation.candidate, read)),
                (SetStep::Meaning, SetReply::Parsed(parsed)) => self.checked(
                    document_meaning(destination, parsed),
                ),
                (SetStep::FlushParent, SetReply::Done(outcome)) => self.checked(
                    done("flush configuration parent"@, self.parent, outcome),
                ),
                _ => self,
            }
        }
    }

    /// Whether a request is what the publication needs next.
    pub open spec fn requests(self, request: SetRequest) -> bool {
        let destination = self.preparation.destination;
        if self.ended is Some {
            request is Finished
        } else {
            match self.steps[self.at] {
                SetStep::Directory(i) => request matches SetRequest::Look { path } && path@
                    == self.prefixes[i as int],
                SetStep::Association(i) => request matches SetRequest::Canonicalize { path }
                    && path@ == self.prefixes[i as int],
                SetStep::Regular => request matches SetRequest::Look { path } && path@
                    == destination,
                SetStep::Original => request matches SetRequest::Read { path } && path@
                    == destination,
                SetStep::Number => request is Number,
                SetStep::Create => request matches SetRequest::Create { path } && path@
                    == self.temporary,
                SetStep::Write => request matches SetRequest::Write { path, contents } && path@
                    == self.temporary && contents@ == self.preparation.candidate,
                SetStep::FlushTemporary => request matches SetRequest::Flush { path } && path@
                    == self.temporary,
                SetStep::Reread => request matches SetRequest::Read { path } && path@
                    == self.temporary,
                SetStep::TemporaryMeaning => request matches SetRequest::Parse { document }
                    && document@ == self.text,
                SetStep::Replace => request matches SetRequest::Replace {
                    temporary,
                    destination: over,
                } && temporary@ == self.temporary && over@ == destination,
                SetStep::Published => request matches SetRequest::Read { path } && path@
                    == destination,
                SetStep::Meaning => request matches SetRequest::Parse { document } && document@
                    == self.text,
                SetStep::FlushParent => request matches SetRequest::FlushDirectory { path }
                    && path@ == self.parent,
                _ => false,
            }
        }
    }

    /// What every publication keeps.
    ///
    /// What is parsed as published is the candidate, and a publication that ended well parsed it.
    pub open spec fn sound(self) -> bool {
        &&& self.prefixes.len() <= usize::MAX
        &&& self.attempts < TEMPORARY_ATTEMPTS
        &&& self.ended is None ==> {
            &&& self.steps == publication_steps(self.prefixes.len(), self.platform)
            &&& 0 <= self.at < self.steps.len()
            &&& self.steps[self.at] is Meaning ==> self.text == self.preparation.candidate
        }
        &&& self.ended == Some(Ok::<(), SetErrorView>(())) ==> {
            &&& self.steps == publication_steps(self.prefixes.len(), self.platform)
            &&& self.at == self.steps.len() - 1
            &&& self.text == self.preparation.candidate
        }
    }
}

/// The start of a publication in a directory.
pub open spec fn publication_start(
    preparation: PreparationView,
    parent: Seq<char>,
    process: nat,
    platform: Platform,
) -> PublishingView {
    let list = match prefixes_of(parent, platform) {
        Some(list) => list,
        None => Seq::empty(),
    };
    PublishingView {
        preparation,
        parent,
        process,
        platform,
        prefixes: list,
        steps: publication_steps(list.len(), platform),
        at: 0,
        attempts: 0,
        temporary: Seq::empty(),
        text: Seq::empty(),
        ended: if prefixes_of(parent, platform) is None {
            Some(
                Err(
                    SetErrorView::Input {
                        path: parent,
                        message: "configuration parent is not absolute"@,
                    },
                ),
            )
        } else {
            None
        },
    }
}

/// Where each kind of step stands in a publication.
#[verifier::spinoff_prover]
#[verifier::rlimit(40)]
proof fn lemma_publication_steps(n: nat, platform: Platform)
    requires
        n <= usize::MAX,
    ensures
        ({
            let steps = publication_steps(n, platform);
            &&& steps.len() > 0
            &&& steps.last() is Meaning
            &&& steps[0] !is Meaning
            &&& steps_before_replacement(n).len() == 4 * n + 10
            &&& steps.len() > 4 * n + 10
            &&& forall|k: int|
                0 <= k < steps.len() ==> match #[trigger] steps[k] {
                    SetStep::Directory(i) => i < n,
                    SetStep::Association(i) => i < n,
                    SetStep::Create => k > 0 && steps[k - 1] is Number,
                    SetStep::Meaning => k > 0 && steps[k - 1] is Published,
                    SetStep::Replace => k == 4 * n + 10,
                    SetStep::Document => false,
                    SetStep::Edit => false,
                    SetStep::Number => k + 1 < steps.len(),
                    SetStep::Published => k + 1 < steps.len(),
                    SetStep::Reread => k + 1 < steps.len(),
                    _ => true,
                }
        }),
{
    let steps = publication_steps(n, platform);
    let parent = parent_steps(n);
    reveal(publication_steps);
    lemma_parent_steps(n);
    let m = 2 * n;
    let flush = flush_steps(platform).len();
    assert(steps.len() == 6 * n + 17 + flush + 2 * n) by {
        assert(unchanged_steps(n).len() == m + 2);
        assert(published_steps(n).len() == m + 3);
    }
    assert forall|k: int| 0 <= k < steps.len() implies match #[trigger] steps[k] {
        SetStep::Directory(i) => i < n,
        SetStep::Association(i) => i < n,
        SetStep::Create => k > 0 && steps[k - 1] is Number,
        SetStep::Meaning => k > 0 && steps[k - 1] is Published,
        SetStep::Replace => k == 4 * n + 10,
        SetStep::Document => false,
        SetStep::Edit => false,
        SetStep::Number => k + 1 < steps.len(),
        SetStep::Published => k + 1 < steps.len(),
        SetStep::Reread => k + 1 < steps.len(),
        _ => true,
    } by {
        let second = m + 8;
        let third = second + m + 3;
        let fourth = third + m + 3 + flush;
        if k < m {
            assert(steps[k] == parent[k]);
        } else if second <= k < second + m {
            assert(steps[k] == parent[k - second]);
        } else if third <= k < third + m {
            assert(steps[k] == parent[k - third]);
        } else if fourth <= k < fourth + m {
            assert(steps[k] == parent[k - fourth]);
        }
    }
}

/// Every publication starts as it goes on.
pub proof fn publication_starts_sound(
    preparation: PreparationView,
    parent: Seq<char>,
    process: nat,
    platform: Platform,
)
    requires
        prefixes_of(parent, platform) matches Some(list) ==> list.len() <= usize::MAX,
    ensures
        publication_start(preparation, parent, process, platform).sound(),
{
    let start = publication_start(preparation, parent, process, platform);
    lemma_publication_steps(start.prefixes.len(), platform);
}

/// Every publication keeps what it promises, whatever it is answered.
#[verifier::spinoff_prover]
#[verifier::rlimit(60)]
pub proof fn publication_stays_sound(publishing: PublishingView, reply: SetReply)
    requires
        publishing.sound(),
    ensures
        publishing.answered(reply).sound(),
{
    lemma_publication_steps(publishing.prefixes.len(), publishing.platform);
}

/// The file is replaced only after the parent directory and the document that was edited were
/// checked a second time, and the candidate was written, flushed and parsed: what comes before the
/// replacement is exactly this.
pub proof fn replacement_follows_every_check(publishing: PublishingView)
    requires
        publishing.sound(),
        publishing.ended is None,
        publishing.steps[publishing.at] is Replace,
    ensures
        publishing.steps.take(publishing.at) == unchanged_steps(publishing.prefixes.len())
            + temporary_steps() + unchanged_steps(publishing.prefixes.len()),
{
    let n = publishing.prefixes.len();
    lemma_publication_steps(n, publishing.platform);
    assert(publishing.steps[publishing.at] is Replace);
    assert(publishing.steps.take(publishing.at) =~= steps_before_replacement(n)) by {
        reveal(publication_steps);
    }
}

/// Whether an answer is one that a step asks for and is content with.
pub open spec fn satisfies(publishing: PublishingView, reply: SetReply) -> bool {
    let destination = publishing.preparation.destination;
    match publishing.steps[publishing.at] {
        SetStep::Directory(_) => reply matches SetReply::Looked(Ok(facts))
            && facts.plain_directory(),
        SetStep::Association(i) => reply matches SetReply::Canonicalized(canonical)
            && parent_association(
            publishing.prefixes[i as int],
            canonical,
            publishing.platform,
        ) is Ok,
        SetStep::Regular => reply matches SetReply::Looked(Ok(facts)) && facts.plain_file(),
        SetStep::Original => reply matches SetReply::Read(Ok(text)) && text@
            == publishing.preparation.original,
        SetStep::Number => reply is Number,
        SetStep::Reread => reply matches SetReply::Read(Ok(_)),
        SetStep::Published => reply matches SetReply::Read(Ok(text)) && text@
            == publishing.preparation.candidate,
        SetStep::TemporaryMeaning => reply matches SetReply::Parsed(Ok(_)),
        SetStep::Meaning => reply matches SetReply::Parsed(Ok(_)),
        SetStep::Replace => reply matches SetReply::Replaced(Ok(_)),
        _ => reply matches SetReply::Done(Ok(_)),
    }
}

/// A publication comes to its next step, or ends well, only by an answer that satisfies the step
/// before.
#[verifier::spinoff_prover]
#[verifier::rlimit(60)]
pub proof fn no_step_is_passed_over(publishing: PublishingView, reply: SetReply)
    requires
        publishing.sound(),
        publishing.ended is None,
    ensures
        publishing.answered(reply).at <= publishing.at + 1,
        publishing.answered(reply).at > publishing.at || publishing.answered(reply).ended == Some(
            Ok::<(), SetErrorView>(()),
        ) ==> satisfies(publishing, reply),
{
    lemma_publication_steps(publishing.prefixes.len(), publishing.platform);
    assert(match publishing.steps[publishing.at] {
        SetStep::Document => false,
        SetStep::Edit => false,
        _ => true,
    });
}

/// A publication under way.
#[derive(Debug)]
pub struct PublicationSession {
    preparation: SetPreparation,
    parent: String,
    process: usize,
    platform: Platform,
    prefixes: Vec<String>,
    steps: Vec<SetStep>,
    at: usize,
    attempts: usize,
    temporary: String,
    text: String,
    ended: Option<Result<(), ConfigSetError>>,
}

/// What a publication that has ended came to.
pub open spec fn published_view(ended: Option<Result<(), ConfigSetError>>) -> Option<
    Result<(), SetErrorView>,
> {
    match ended {
        None => None,
        Some(outcome) => Some(set_outcome(outcome)),
    }
}

impl View for PublicationSession {
    type V = PublishingView;

    closed spec fn view(&self) -> PublishingView {
        PublishingView {
            preparation: self.preparation@,
            parent: self.parent@,
            process: self.process as nat,
            platform: self.platform,
            prefixes: texts(self.prefixes@),
            steps: self.steps@,
            at: self.at as int,
            attempts: self.attempts as nat,
            temporary: self.temporary@,
            text: self.text@,
            ended: published_view(self.ended),
        }
    }
}

/// Starts to put the exact prepared document in the place of the configuration file.
pub fn publish(preparation: SetPreparation, process: usize, platform: Platform) -> (session:
    PublicationSession)
    requires
        directory_of(preparation@.destination, platform) is Some,
    ensures
        session@ == publication_start(
            preparation@,
            directory_of(preparation@.destination, platform)->0,
            process as nat,
            platform,
        ),
{
    let parent = match parent_directory(&preparation.destination, platform) {
        Some(parent) => parent,
        None => String::new(),
    };
    let (list, ended) = match prefixes(parent.as_str(), platform) {
        Ok(list) => (list, None),
        Err(error) => {
            let list: Vec<String> = Vec::new();
            assert(texts(list@) =~= Seq::<Seq<char>>::empty());
            (list, Some(Err(error)))
        },
    };
    let steps = list_publication_steps(list.len(), platform);
    let temporary = String::new();
    let text = String::new();
    proof {
        assert(texts(list@).len() == list@.len());
        assert(temporary@ =~= Seq::<char>::empty());
        publication_starts_sound(preparation@, parent@, process as nat, platform);
    }
    PublicationSession {
        preparation,
        parent,
        process,
        platform,
        prefixes: list,
        steps,
        at: 0,
        attempts: 0,
        temporary,
        text,
        ended,
    }
}

impl PublicationSession {
    #[verifier::type_invariant]
    spec fn keeps(self) -> bool {
        self@.sound()
    }

    proof fn lemma_at(self)
        requires
            self@.sound(),
            self.ended is None,
        ensures
            self.at < self.steps@.len(),
            match self.steps@[self.at as int] {
                SetStep::Directory(i) => i < self.prefixes@.len(),
                SetStep::Association(i) => i < self.prefixes@.len(),
                SetStep::Create => self.at > 0,
                SetStep::Document => false,
                SetStep::Edit => false,
                _ => true,
            },
    {
        assert(texts(self.prefixes@).len() == self.prefixes@.len());
        lemma_publication_steps(self.prefixes@.len(), self.platform);
        assert(match self.steps@[self.at as int] {
            SetStep::Document => false,
            SetStep::Edit => false,
            _ => true,
        });
    }

    /// What the publication needs next.
    pub fn request(&self) -> (request: SetRequest)
        ensures
            self@.requests(request),
            self@.sound(),
    {
        proof {
            use_type_invariant(self);
        }
        if self.ended.is_some() {
            return SetRequest::Finished;
        }
        proof {
            self.lemma_at();
        }
        match self.steps[self.at] {
            SetStep::Directory(i) => SetRequest::Look { path: copy_of(self.prefixes[i].as_str()) },
            SetStep::Association(i) => SetRequest::Canonicalize {
                path: copy_of(self.prefixes[i].as_str()),
            },
            SetStep::Regular => SetRequest::Look { path: copy_of(self.preparation.destination()) },
            SetStep::Original => SetRequest::Read { path: copy_of(self.preparation.destination()) },
            SetStep::Number => SetRequest::Number,
            SetStep::Create => SetRequest::Create { path: copy_of(self.temporary.as_str()) },
            SetStep::Write => SetRequest::Write {
                path: copy_of(self.temporary.as_str()),
                contents: copy_of(self.preparation.candidate()),
            },
            SetStep::FlushTemporary => SetRequest::Flush { path: copy_of(self.temporary.as_str()) },
            SetStep::Reread => SetRequest::Read { path: copy_of(self.temporary.as_str()) },
            SetStep::TemporaryMeaning => SetRequest::Parse { document: copy_of(self.text.as_str()) },
            SetStep::Replace => SetRequest::Replace {
                temporary: copy_of(self.temporary.as_str()),
                destination: copy_of(self.preparation.destination()),
            },
            SetStep::Published => SetRequest::Read {
                path: copy_of(self.preparation.destination()),
            },
            SetStep::Meaning => SetRequest::Parse { document: copy_of(self.text.as_str()) },
            _ => SetRequest::FlushDirectory { path: copy_of(self.parent.as_str()) },
        }
    }

    fn checked(self, outcome: Result<(), ConfigSetError>, text: Option<String>) -> (next: Self)
        requires
            ({
                let before = match text {
                    Some(text) => PublishingView { text: text@, ..self@ },
                    None => self@,
                };
                before.checked(set_outcome(outcome)).sound()
            }),
            self.at < self.steps@.len(),
        ensures
            ({
                let before = match text {
                    Some(text) => PublishingView { text: text@, ..self@ },
                    None => self@,
                };
                next@ == before.checked(set_outcome(outcome))
            }),
    {
        let count: usize = self.steps.len();
        let text = match text {
            Some(text) => text,
            None => copy_of(self.text.as_str()),
        };
        match outcome {
            Ok(_) => {
                if self.at < count - 1 {
                    PublicationSession { at: self.at + 1, text, ..self }
                } else {
                    PublicationSession { ended: Some(Ok(())), text, ..self }
                }
            },
            Err(error) => PublicationSession { ended: Some(Err(error)), text, ..self },
        }
    }

    fn created(self, outcome: Result<(), FileError>) -> (next: Self)
        requires
            self@.created(outcome).sound(),
            0 < self.at < self.steps@.len(),
            self.attempts < TEMPORARY_ATTEMPTS,
        ensures
            next@ == self@.created(outcome),
    {
        match outcome {
            Err(source) => match source.kind {
                FileErrorKind::AlreadyExists => {
                    if self.attempts < TEMPORARY_ATTEMPTS - 1 {
                        PublicationSession {
                            at: self.at - 1,
                            attempts: self.attempts + 1,
                            ..self
                        }
                    } else {
                        let error = io_error(
                            "allocate configuration temporary",
                            self.parent.as_str(),
                            FileError {
                                kind: FileErrorKind::AlreadyExists,
                                message: copy_of("temporary name collision limit reached"),
                            },
                        );
                        self.checked(Err(error), None)
                    }
                },
                _ => {
                    let error = io_error(
                        "create configuration temporary",
                        self.temporary.as_str(),
                        source,
                    );
                    self.checked(Err(error), None)
                },
            },
            Ok(_) => self.checked(Ok(()), None),
        }
    }

    /// Takes the answer to the last request.
    pub fn answer(self, reply: SetReply) -> (next: Self)
        ensures
            next@ == self@.answered(reply),
    {
        proof {
            use_type_invariant(&self);
            publication_stays_sound(self@, reply);
        }
        if self.ended.is_some() {
            return self;
        }
        proof {
            self.lemma_at();
        }
        match (self.steps[self.at], reply) {
            (SetStep::Directory(i), SetReply::Looked(look)) => {
                let outcome = verify_parent(self.prefixes[i].as_str(), look, self.platform);
                self.checked(outcome, None)
            },
            (SetStep::Association(i), SetReply::Canonicalized(canonical)) => {
                let outcome = verify_parent_association(
                    self.prefixes[i].as_str(),
                    canonical,
                    self.platform,
                );
                self.checked(outcome, None)
            },
            (SetStep::Regular, SetReply::Looked(look)) => {
                let outcome = verify_regular(self.preparation.destination(), look);
                self.checked(outcome, None)
            },
            (SetStep::Original, SetReply::Read(read)) => {
                let outcome = verify_original(
                    self.preparation.destination(),
                    self.preparation.original.as_str(),
                    read,
                );
                self.checked(outcome, None)
            },
            (SetStep::Number, SetReply::Number(number)) => {
                let name = name_temporary(".loadout-set-", self.process, number);
                let temporary = path_in(self.parent.as_str(), name.as_str(), self.platform);
                let named = PublicationSession { temporary, ..self };
                named.checked(Ok(()), None)
            },
            (SetStep::Create, SetReply::Done(outcome)) => self.created(outcome),
            (SetStep::Write, SetReply::Done(outcome)) => {
                let taken = take_done(
                    "write configuration temporary",
                    self.temporary.as_str(),
                    outcome,
                );
                self.checked(taken, None)
            },
            (SetStep::FlushTemporary, SetReply::Done(outcome)) => {
                let taken = take_done(
                    "flush configuration temporary",
                    self.temporary.as_str(),
                    outcome,
                );
                self.checked(taken, None)
            },
            (SetStep::Reread, SetReply::Read(read)) => match read {
                Ok(text) => self.checked(Ok(()), Some(text)),
                Err(source) => {
                    let error = io_error(
                        "re-open configuration temporary",
                        self.temporary.as_str(),
                        source,
                    );
                    self.checked(Err(error), None)
                },
            },
            (SetStep::TemporaryMeaning, SetReply::Parsed(parsed)) => {
                let outcome = verify_meaning(self.temporary.as_str(), parsed);
                self.checked(outcome, None)
            },
            (SetStep::Replace, SetReply::Replaced(replaced)) => {
                let outcome = replace(self.preparation.destination(), replaced);
                self.checked(outcome, None)
            },
            (SetStep::Published, SetReply::Read(read)) => {
                let outcome = verify_published(
                    self.preparation.destination(),
                    self.preparation.candidate(),
                    &read,
                );
                let text = match read {
                    Ok(text) => Some(text),
                    Err(_) => None,
                };
                self.checked(outcome, text)
            },
            (SetStep::Meaning, SetReply::Parsed(parsed)) => {
                let outcome = verify_meaning(self.preparation.destination(), parsed);
                self.checked(outcome, None)
            },
            (SetStep::FlushParent, SetReply::Done(flushed)) => {
                let outcome = sync_parent(self.parent.as_str(), flushed);
                self.checked(outcome, None)
            },
            _ => self,
        }
    }

    /// What the publication came to, once it has ended.
    pub fn finish(self) -> (ended: Option<Result<(), ConfigSetError>>)
        ensures
            published_view(ended) == self@.ended,
    {
        self.ended
    }
}

} // verus!
