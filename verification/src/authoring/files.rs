//! What the authoring commands know of the file system: paths taken apart, and the answers that
//! outside calls give.

use vstd::prelude::*;
use vstd::string::*;
use crate::domain::paths::{
    backslashed, begins, begins_with, drive_prefixed, drive_rooted, has_parent,
    in_windows_namespace, is_ascii_letter, is_named, is_windows_absolute, named, share_rooted,
    turn_slashes, unix_absolute, unix_normal, windows_absolute, windows_normal, windows_supported,
    without_verbatim, Platform, ResolvedPath, ResolvedPathError,
};
use crate::text::{
    chars_of, closes, copy_of, decimal, decimal_stands_for_its_number, find_from, join, join_texts,
    lemma_position, lemma_split_pieces, number, opens, position, split, split_chars, split_from,
    text_of, texts, to_decimal,
};

verus! {

/// Whether a failed call of the file system met an absence, a presence, or something else.
#[derive(Clone, Copy, Debug, PartialEq, Eq, Structural)]
pub enum FileErrorKind {
    NotFound,
    AlreadyExists,
    Other,
}

/// Why a call of the file system failed.
#[derive(Debug, PartialEq, Eq)]
pub struct FileError {
    pub kind: FileErrorKind,
    pub message: String,
}

/// Why a call of the file system failed.
pub struct FileErrorView {
    pub kind: FileErrorKind,
    pub message: Seq<char>,
}

impl View for FileError {
    type V = FileErrorView;

    open spec fn view(&self) -> FileErrorView {
        FileErrorView { kind: self.kind, message: self.message@ }
    }
}

impl FileError {
    /// The same error again.
    pub fn duplicate(&self) -> (same: FileError)
        ensures
            same@ == self@,
    {
        FileError { kind: self.kind, message: copy_of(self.message.as_str()) }
    }
}

/// What an entry itself is, not what a link leads to.
#[derive(Clone, Copy, Debug, PartialEq, Eq, Structural)]
pub struct EntryFacts {
    pub directory: bool,
    pub file: bool,
    pub symlink: bool,
}

impl EntryFacts {
    /// Whether the entry is a directory and no symbolic link.
    pub open spec fn plain_directory(self) -> bool {
        self.directory && !self.symlink
    }

    /// Whether the entry is a regular file and no symbolic link.
    pub open spec fn plain_file(self) -> bool {
        self.file && !self.symlink
    }

    /// Whether the entry is a directory and no symbolic link.
    pub fn is_plain_directory(&self) -> (yes: bool)
        ensures
            yes == self.plain_directory(),
    {
        self.directory && !self.symlink
    }

    /// Whether the entry is a regular file and no symbolic link.
    pub fn is_plain_file(&self) -> (yes: bool)
        ensures
            yes == self.plain_file(),
    {
        self.file && !self.symlink
    }
}

/// What the system's canonicalization returned, and on Windows the long spelling of it that the
/// system reports, if it reports one.
#[derive(Debug, PartialEq, Eq)]
pub struct CanonicalPath {
    pub path: String,
    pub long_spelling: Option<String>,
}

impl CanonicalPath {
    /// The spelling that counts.
    pub open spec fn spelling(self, platform: Platform) -> Seq<char> {
        match platform {
            Platform::Unix => self.path@,
            Platform::Windows => match self.long_spelling {
                Some(long) => long@,
                None => without_verbatim(self.path@),
            },
        }
    }

    /// The path as it resolves, or what is wrong with it.
    pub fn read(&self, platform: Platform) -> (outcome: Result<ResolvedPath, String>)
        ensures
            reads_path(outcome, self.spelling(platform), platform),
    {
        let long = match &self.long_spelling {
            Some(long) => Some(long.as_str()),
            None => None,
        };
        match ResolvedPath::from_platform_canonicalized(self.path.as_str(), platform, long) {
            Ok(path) => Ok(path),
            Err(error) => Err(error.to_text()),
        }
    }
}

/// Whether an outcome is what a path resolves to, or what is wrong with it.
pub open spec fn reads_path(
    outcome: Result<ResolvedPath, String>,
    path: Seq<char>,
    platform: Platform,
) -> bool {
    match outcome {
        Ok(resolved) => reading(path, platform) == Ok::<Seq<char>, Seq<char>>(resolved@),
        Err(message) => reading(path, platform) == Err::<Seq<char>, Seq<char>>(message@),
    }
}

/// What a path resolves to, or what is wrong with it.
pub open spec fn reading(path: Seq<char>, platform: Platform) -> Result<Seq<char>, Seq<char>> {
    match platform {
        Platform::Unix => if !unix_absolute(path) {
            Err("resolved paths must be absolute on the current platform: "@ + path)
        } else if has_parent(split(path, '/')) {
            Err("resolved paths must not contain a parent ('..') component: "@ + path)
        } else {
            Ok(unix_normal(path))
        },
        Platform::Windows => if in_windows_namespace(backslashed(path)) {
            Err("resolved path is not a supported normal Windows path: "@ + path)
        } else if !windows_absolute(backslashed(path)) {
            Err("resolved paths must be absolute on the current platform: "@ + backslashed(path))
        } else if !windows_supported(backslashed(path)) {
            Err("resolved path is not a supported normal Windows path: "@ + path)
        } else {
            Ok(windows_normal(backslashed(path)))
        },
    }
}

/// A path as it resolves, or what is wrong with it.
pub fn read_path(path: &str, platform: Platform) -> (outcome: Result<ResolvedPath, String>)
    ensures
        reads_path(outcome, path@, platform),
{
    match ResolvedPath::new(path, platform) {
        Ok(path) => Ok(path),
        Err(error) => Err(error.to_text()),
    }
}

/// A path taken apart: the prefixes that stand before its root, the root, and the entries below it.
pub struct PartsView {
    pub before: Seq<Seq<char>>,
    pub root: Seq<char>,
    pub names: Seq<Seq<char>>,
}

/// The character between the entries of a path.
pub open spec fn separator(platform: Platform) -> char {
    match platform {
        Platform::Unix => '/',
        Platform::Windows => '\\',
    }
}

/// The parts of a path in normal form; a path that is not absolute has none.
///
/// A Windows share without its root stands before the root.
pub open spec fn parts_of(path: Seq<char>, platform: Platform) -> Option<PartsView> {
    match platform {
        Platform::Unix => if unix_absolute(path) {
            Some(
                PartsView {
                    before: Seq::empty(),
                    root: seq!['/'],
                    names: named(split_from(path, '/', 0)),
                },
            )
        } else {
            None
        },
        Platform::Windows => if drive_rooted(path) {
            Some(
                PartsView {
                    before: Seq::empty(),
                    root: path.take(3),
                    names: named(split_from(path, '\\', 3)),
                },
            )
        } else if share_rooted(path) {
            let cut = position(path, '\\', position(path, '\\', 2) + 1);
            Some(
                PartsView {
                    before: seq![path.take(cut)],
                    root: path.take(cut).push('\\'),
                    names: if cut < path.len() {
                        named(split_from(path, '\\', cut + 1))
                    } else {
                        Seq::empty()
                    },
                },
            )
        } else {
            None
        },
    }
}

impl PartsView {
    /// The path of the root and the first entries below it.
    pub open spec fn until(self, n: int, platform: Platform) -> Seq<char> {
        self.root + join(self.names.take(n), seq![separator(platform)])
    }

    /// Every absolute prefix of the path, from the shortest on, the path itself included.
    pub open spec fn prefixes(self, platform: Platform) -> Seq<Seq<char>> {
        self.before + Seq::new(self.names.len() + 1, |n: int| self.until(n, platform))
    }
}

/// The directory that holds a path: the path without its last entry.
pub open spec fn directory_of(path: Seq<char>, platform: Platform) -> Option<Seq<char>> {
    match parts_of(path, platform) {
        Some(parts) => if parts.names.len() == 0 {
            None
        } else {
            Some(parts.until(parts.names.len() - 1, platform))
        },
        None => None,
    }
}

/// Every absolute prefix of a path, from the shortest on; a path that is not absolute has none.
pub open spec fn prefixes_of(path: Seq<char>, platform: Platform) -> Option<Seq<Seq<char>>> {
    match parts_of(path, platform) {
        Some(parts) => Some(parts.prefixes(platform)),
        None => None,
    }
}

/// Whether a Windows path is spelled verbatim: only a backslash separates its components.
pub open spec fn is_verbatim(path: Seq<char>) -> bool {
    begins(path, seq!['\\', '\\', '?', '\\'])
}

/// Whether a verbatim path is one of a share.
pub open spec fn is_verbatim_share(path: Seq<char>) -> bool {
    path.len() >= 8 && path[4] == 'U' && path[5] == 'N' && path[6] == 'C' && (path[7] == '\\'
        || path[7] == '/')
}

/// Where the prefix of a verbatim path ends: a share's after its server and its name, any other after
/// the first component.
pub open spec fn verbatim_prefix(path: Seq<char>) -> int {
    if is_verbatim_share(path) {
        let server = position(path, '\\', 8);
        let share = position(path, '\\', server + 1);
        if server + 1 < path.len() && share > server + 1 {
            share
        } else {
            server
        }
    } else {
        position(path, '\\', 4)
    }
}

/// The components that are not empty, each after a backslash.
pub open spec fn backslash_led(components: Seq<Seq<char>>) -> Seq<char>
    decreases components.len(),
{
    if components.len() == 0 {
        Seq::empty()
    } else if components.last().len() == 0 {
        backslash_led(components.drop_last())
    } else {
        backslash_led(components.drop_last()) + seq!['\\'] + components.last()
    }
}

/// Whether what follows a path comes without a separator between them: the path is empty, or ends in
/// a separator, or is a Windows drive without its root.
pub open spec fn needs_no_separator(path: Seq<char>, platform: Platform) -> bool {
    ||| path.len() == 0
    ||| path.last() == '/'
    ||| platform is Windows && path.last() == '\\'
    ||| platform is Windows && drive_prefixed(path) && path.len() == 2
}

/// The path of an entry of a directory, or of one further below it. The name holds plain components
/// only.
///
/// A verbatim path is written anew, with one backslash before each of its components.
pub open spec fn entry_path(directory: Seq<char>, name: Seq<char>, platform: Platform) -> Seq<
    char,
> {
    if platform is Windows && is_verbatim(directory) {
        let cut = verbatim_prefix(directory);
        directory.take(cut) + backslash_led(split_from(directory, '\\', cut)) + seq!['\\'] + backslashed(name)
    } else if needs_no_separator(directory, platform) {
        directory + name
    } else {
        directory + seq![separator(platform)] + name
    }
}

struct Parts {
    before: Vec<String>,
    root: String,
    names: Vec<String>,
}

impl Parts {
    spec fn is(self, parts: PartsView) -> bool {
        &&& texts(self.before@) == parts.before
        &&& self.root@ == parts.root
        &&& texts(self.names@) == parts.names
    }
}

fn separator_text(platform: Platform) -> (text: &'static str)
    ensures
        text@ == seq![separator(platform)],
{
    proof {
        reveal_strlit("/");
        reveal_strlit("\\");
    }
    match platform {
        Platform::Unix => {
            assert("/"@ =~= seq!['/']);
            "/"
        },
        Platform::Windows => {
            assert("\\"@ =~= seq!['\\']);
            "\\"
        },
    }
}

fn named_from(chars: &Vec<char>, cut: char, start: usize) -> (names: Vec<String>)
    requires
        start <= chars@.len(),
    ensures
        texts(names@) == named(split_from(chars@, cut, start as int)),
{
    let pieces = split_chars(chars, cut, start);
    let ghost all = split_from(chars@, cut, start as int);
    let mut names: Vec<String> = Vec::new();
    let mut i: usize = 0;
    proof {
        assert(all.take(0) =~= Seq::<Seq<char>>::empty());
        assert(texts(names@) =~= named(all.take(0)));
    }
    while i < pieces.len()
        invariant
            i <= pieces@.len(),
            pieces@.len() == all.len(),
            forall|k: int| 0 <= k < pieces@.len() ==> (#[trigger] pieces@[k])@ == all[k],
            texts(names@) == named(all.take(i as int)),
        decreases pieces.len() - i,
    {
        let piece = &pieces[i];
        let ghost after = all.take(i + 1);
        proof {
            assert(after.drop_last() =~= all.take(i as int));
            assert(after.last() == piece@);
            assert(piece@.len() == 1 && piece@[0] == '.' ==> piece@ =~= seq!['.']);
        }
        if piece.len() > 0 && !(piece.len() == 1 && piece[0] == '.') {
            let ghost before = names@;
            let name = text_of(piece, 0, piece.len());
            proof {
                assert(name@ =~= piece@);
                assert(is_named(piece@));
            }
            names.push(name);
            assert(texts(names@) =~= texts(before).push(piece@));
        }
        i += 1;
    }
    assert(all.take(i as int) =~= all);
    names
}

fn take_apart(path: &str, platform: Platform) -> (parts: Option<Parts>)
    ensures
        match parts_of(path@, platform) {
            Some(expected) => parts matches Some(parts) && parts.is(expected),
            None => parts is None,
        },
{
    let chars = chars_of(path);
    match platform {
        Platform::Unix => {
            if chars.len() == 0 || chars[0] != '/' {
                return None;
            }
            let names = named_from(&chars, '/', 0);
            let root = copy_of(separator_text(platform));
            let before: Vec<String> = Vec::new();
            assert(texts(before@) =~= Seq::<Seq<char>>::empty());
            Some(Parts { before, root, names })
        },
        Platform::Windows => {
            if chars.len() >= 3 && is_ascii_letter(chars[0]) && chars[1] == ':' && chars[2]
                == '\\' {
                let names = named_from(&chars, '\\', 3);
                let root = text_of(&chars, 0, 3);
                let before: Vec<String> = Vec::new();
                assert(texts(before@) =~= Seq::<Seq<char>>::empty());
                assert(root@ =~= path@.take(3));
                return Some(Parts { before, root, names });
            }
            if !is_windows_absolute(&chars) {
                return None;
            }
            let server_end = find_from(&chars, '\\', 2);
            let cut = find_from(&chars, '\\', server_end + 1);
            let share = text_of(&chars, 0, cut);
            let mut root = text_of(&chars, 0, cut);
            root.push('\\');
            assert(share@ =~= path@.take(cut as int));
            let mut before: Vec<String> = Vec::new();
            before.push(share);
            assert(texts(before@) =~= seq![path@.take(cut as int)]);
            let names = if cut < chars.len() {
                named_from(&chars, '\\', cut + 1)
            } else {
                let none: Vec<String> = Vec::new();
                assert(texts(none@) =~= Seq::<Seq<char>>::empty());
                none
            };
            Some(Parts { before, root, names })
        },
    }
}

fn path_until(parts: &Parts, n: usize, platform: Platform) -> (path: String)
    requires
        n <= parts.names@.len(),
    ensures
        forall|view: PartsView| parts.is(view) ==> path@ == #[trigger] view.until(
            n as int,
            platform,
        ),
{
    let mut names: Vec<String> = Vec::new();
    let mut i: usize = 0;
    while i < n
        invariant
            i <= n <= parts.names@.len(),
            texts(names@) == texts(parts.names@).take(i as int),
        decreases n - i,
    {
        let ghost before = names@;
        names.push(copy_of(parts.names[i].as_str()));
        proof {
            assert(texts(names@) =~= texts(before).push(parts.names@[i as int]@));
            assert(texts(parts.names@).take(i + 1) =~= texts(parts.names@).take(i as int).push(
                parts.names@[i as int]@,
            ));
        }
        i += 1;
    }
    let mut path = copy_of(parts.root.as_str());
    path.append(join_texts(&names, separator_text(platform)).as_str());
    path
}

/// The directory that holds a path.
pub fn parent_directory(path: &ResolvedPath, platform: Platform) -> (directory: Option<String>)
    ensures
        match directory_of(path@, platform) {
            Some(expected) => directory matches Some(directory) && directory@ == expected,
            None => directory is None,
        },
{
    match take_apart(path.as_path(), platform) {
        Some(parts) => {
            if parts.names.len() == 0 {
                assert(texts(parts.names@).len() == 0);
                None
            } else {
                assert(texts(parts.names@).len() == parts.names@.len());
                Some(path_until(&parts, parts.names.len() - 1, platform))
            }
        },
        None => None,
    }
}

/// Every absolute prefix of a path, from the shortest on.
pub fn absolute_prefixes_of(path: &str, platform: Platform) -> (list: Option<Vec<String>>)
    ensures
        match prefixes_of(path@, platform) {
            Some(expected) => list matches Some(list) && texts(list@) == expected,
            None => list is None,
        },
{
    match take_apart(path, platform) {
        Some(parts) => {
            let ghost view = parts_of(path@, platform)->0;
            let mut list: Vec<String> = Vec::new();
            let mut i: usize = 0;
            let count: usize = parts.before.len();
            while i < count
                invariant
                    i <= count == parts.before@.len(),
                    texts(list@) == texts(parts.before@).take(i as int),
                decreases count - i,
            {
                let ghost before = list@;
                list.push(copy_of(parts.before[i].as_str()));
                proof {
                    assert(texts(list@) =~= texts(before).push(parts.before@[i as int]@));
                    assert(texts(parts.before@).take(i + 1) =~= texts(parts.before@).take(
                        i as int,
                    ).push(parts.before@[i as int]@));
                }
                i += 1;
            }
            let ghost first = view.before;
            assert(texts(parts.before@).take(i as int) =~= first);
            let total: usize = parts.names.len();
            let mut n: usize = 0;
            assert(texts(list@) =~= first + Seq::new(0, |n: int| view.until(n, platform)));
            assert(texts(parts.names@).len() == total);
            while n < total
                invariant
                    n <= total == parts.names@.len(),
                    parts.is(view),
                    texts(list@) == first + Seq::new(n as nat, |n: int| view.until(n, platform)),
                decreases total - n,
            {
                let ghost before = list@;
                let path = path_until(&parts, n, platform);
                list.push(path);
                proof {
                    assert(path@ == view.until(n as int, platform));
                    assert(texts(list@) =~= texts(before).push(path@));
                    assert(texts(list@) =~= first + Seq::new(
                        (n + 1) as nat,
                        |n: int| view.until(n, platform),
                    ));
                }
                n += 1;
            }
            let ghost before = list@;
            let whole = path_until(&parts, n, platform);
            list.push(whole);
            proof {
                assert(whole@ == view.until(n as int, platform));
                assert(texts(list@) =~= texts(before).push(whole@));
                assert(texts(list@) =~= view.prefixes(platform));
            }
            Some(list)
        },
        None => None,
    }
}

fn verbatim_prefix_end(chars: &Vec<char>) -> (end: usize)
    requires
        is_verbatim(chars@),
    ensures
        end == verbatim_prefix(chars@),
        4 <= end <= chars@.len(),
{
    if chars.len() >= 8 && chars[4] == 'U' && chars[5] == 'N' && chars[6] == 'C' && (chars[7]
        == '\\' || chars[7] == '/') {
        let server = find_from(chars, '\\', 8);
        if chars.len() - server <= 1 {
            return server;
        }
        let share = find_from(chars, '\\', server + 1);
        if share > server + 1 {
            share
        } else {
            server
        }
    } else {
        find_from(chars, '\\', 4)
    }
}

fn verbatim_path_in(chars: &Vec<char>, name: &str) -> (path: String)
    requires
        is_verbatim(chars@),
    ensures
        path@ == entry_path(chars@, name@, Platform::Windows),
{
    let cut = verbatim_prefix_end(chars);
    let pieces = split_chars(chars, '\\', cut);
    let ghost all = split_from(chars@, '\\', cut as int);
    let mut path = text_of(chars, 0, cut);
    let mut i: usize = 0;
    proof {
        assert(path@ =~= chars@.take(cut as int) + backslash_led(all.take(0)));
    }
    while i < pieces.len()
        invariant
            i <= pieces@.len(),
            pieces@.len() == all.len(),
            forall|k: int| 0 <= k < pieces@.len() ==> (#[trigger] pieces@[k])@ == all[k],
            cut <= chars@.len(),
            path@ == chars@.take(cut as int) + backslash_led(all.take(i as int)),
        decreases pieces.len() - i,
    {
        let piece = &pieces[i];
        proof {
            assert(all.take(i + 1).drop_last() =~= all.take(i as int));
            assert(all.take(i + 1).last() == piece@);
        }
        if piece.len() > 0 {
            path.push('\\');
            path.append(text_of(piece, 0, piece.len()).as_str());
            proof {
                assert(piece@.subrange(0, piece@.len() as int) =~= piece@);
                assert(path@ =~= chars@.take(cut as int) + backslash_led(all.take(i + 1)));
            }
        }
        i += 1;
    }
    let turned = turn_slashes(name);
    path.push('\\');
    path.append(text_of(&turned, 0, turned.len()).as_str());
    proof {
        assert(all.take(i as int) =~= all);
        assert(turned@.subrange(0, turned@.len() as int) =~= turned@);
        assert(path@ =~= chars@.take(cut as int) + backslash_led(all) + seq!['\\'] + backslashed(name@));
    }
    path
}

/// The path of an entry of a directory, or of one further below it.
pub fn path_in(directory: &str, name: &str, platform: Platform) -> (path: String)
    ensures
        path@ == entry_path(directory@, name@, platform),
{
    let chars = chars_of(directory);
    let length = chars.len();
    let windows = match platform {
        Platform::Unix => false,
        Platform::Windows => true,
    };
    if windows && begins_with(&chars, &vec!['\\', '\\', '?', '\\']) {
        return verbatim_path_in(&chars, name);
    }
    let joined = length == 0 || chars[length - 1] == '/' || (windows && chars[length - 1] == '\\') || (
    windows && length == 2 && is_ascii_letter(chars[0]) && chars[1] == ':');
    let mut path = copy_of(directory);
    if !joined {
        path.append(separator_text(platform));
    }
    path.append(name);
    path
}

/// The name of a temporary entry, told apart by the process and a number drawn in it.
pub open spec fn temporary_name(prefix: Seq<char>, process: nat, number: nat) -> Seq<char> {
    prefix + decimal(process) + "-"@ + decimal(number)
}

/// The name of a temporary entry, told apart by the process and a number drawn in it.
pub fn name_temporary(prefix: &str, process: usize, number: usize) -> (name: String)
    ensures
        name@ == temporary_name(prefix@, process as nat, number as nat),
{
    let mut name = copy_of(prefix);
    name.append(to_decimal(process).as_str());
    name.append("-");
    name.append(to_decimal(number).as_str());
    name
}

/// An entry stands in its directory: the path starts with the directory and ends with the name, with at
/// most one separator between them, and with none exactly where the directory brings its own.
pub proof fn entry_stands_in_its_directory(
    directory: &str,
    name: &str,
    platform: Platform,
    path: String,
)
    requires
        call_ensures(path_in, (directory, name, platform), path),
        !(platform is Windows && opens(directory@, "\\\\?\\"@)),
    ensures
        opens(path@, directory@),
        closes(path@, name@),
        path@.len() == directory@.len() + name@.len() <==> {
            ||| directory@.len() == 0
            ||| directory@.last() == '/'
            ||| platform is Windows && directory@.last() == '\\'
            ||| platform is Windows && directory@.len() == 2 && directory@[1] == ':' && ('a'
                <= directory@[0] <= 'z' || 'A' <= directory@[0] <= 'Z')
        },
        path@.len() != directory@.len() + name@.len() ==> path@.len() == directory@.len() + 1
            + name@.len() && path@[directory@.len() as int] == if platform is Unix {
            '/'
        } else {
            '\\'
        },
{
    reveal_strlit("\\\\?\\");
    let verbatim = seq!['\\', '\\', '?', '\\'];
    if is_verbatim(directory@) {
        assert(directory@[0] == directory@.subrange(0, 4)[0]);
        assert(directory@[1] == directory@.subrange(0, 4)[1]);
        assert(directory@[2] == directory@.subrange(0, 4)[2]);
        assert(directory@[3] == directory@.subrange(0, 4)[3]);
        assert(opens(directory@, "\\\\?\\"@));
    }
}

/// An entry of a directory that is spelled verbatim is spelled so too, and its name comes after a
/// backslash, with backslashes alone.
pub proof fn entry_of_a_verbatim_directory_is_verbatim(directory: &str, name: &str, path: String)
    requires
        call_ensures(path_in, (directory, name, Platform::Windows), path),
        opens(directory@, "\\\\?\\"@),
    ensures
        opens(path@, "\\\\?\\"@),
        path@.len() > name@.len(),
        path@[path@.len() - name@.len() - 1] == '\\',
        forall|i: int|
            0 <= i < name@.len() ==> #[trigger] path@[path@.len() - name@.len() + i] == if name@[i]
                == '/' {
                '\\'
            } else {
                name@[i]
            },
{
    reveal_strlit("\\\\?\\");
    assert(directory@.subrange(0, 4) =~= seq!['\\', '\\', '?', '\\']);
    let cut = verbatim_prefix(directory@);
    if is_verbatim_share(directory@) {
        lemma_position(directory@, '\\', 8);
        let server = position(directory@, '\\', 8);
        if server + 1 < directory@.len() {
            lemma_position(directory@, '\\', server + 1);
        }
    } else {
        lemma_position(directory@, '\\', 4);
    }
    assert(4 <= cut <= directory@.len());
    assert(path@.len() - name@.len() - 1 >= cut);
}

proof fn lemma_join_one_more(names: Seq<Seq<char>>, n: int, between: Seq<char>)
    requires
        0 <= n < names.len(),
    ensures
        n == 0 ==> join(names.take(n + 1), between) == names[0],
        n > 0 ==> join(names.take(n + 1), between) == join(names.take(n), between) + between
            + names[n],
{
    assert(names.take(n + 1).drop_last() =~= names.take(n));
}

proof fn lemma_named_pieces(pieces: Seq<Seq<char>>)
    ensures
        forall|i: int|
            0 <= i < named(pieces).len() ==> is_named(#[trigger] named(pieces)[i])
                && pieces.contains(named(pieces)[i]),
    decreases pieces.len(),
{
    if pieces.len() > 0 {
        lemma_named_pieces(pieces.drop_last());
        let before = pieces.drop_last();
        assert forall|i: int| 0 <= i < named(pieces).len() implies is_named(
            #[trigger] named(pieces)[i],
        ) && pieces.contains(named(pieces)[i]) by {
            if i < named(before).len() {
                assert(named(pieces)[i] == named(before)[i]);
                let k = choose|k: int| 0 <= k < before.len() && before[k] == named(before)[i];
                assert(pieces[k] == named(pieces)[i]);
            } else {
                assert(pieces[pieces.len() - 1] == named(pieces)[i]);
            }
        }
    }
}

/// The prefixes of a Unix path start at the root, and each is the one before it with one more entry, up
/// to the path as it resolves.
pub proof fn prefixes_lead_from_the_root_to_the_path(
    path: &str,
    list: Option<Vec<String>>,
    resolved: Result<ResolvedPath, String>,
    i: int,
)
    requires
        call_ensures(absolute_prefixes_of, (path, Platform::Unix), list),
        call_ensures(read_path, (path, Platform::Unix), resolved),
    ensures
        list is Some <==> path@.len() > 0 && path@[0] == '/',
        (list matches Some(list) ==> list@.len() > 0 && list@[0]@ == seq!['/']),
        (list matches Some(list) ==> (resolved matches Ok(resolved) ==> list@.last()@
            == resolved@)),
        (list matches Some(list) ==> (0 <= i && i + 1 < list@.len() ==> exists|name: Seq<char>|
            {
                &&& name.len() > 0
                &&& !(#[trigger] name.contains('/'))
                &&& list@[i + 1]@ == if i == 0 {
                    list@[i]@ + name
                } else {
                    list@[i]@ + seq!['/'] + name
                }
            })),
{
    if let Some(list) = list {
        let parts = parts_of(path@, Platform::Unix)->0;
        let names = parts.names;
        let all = parts.prefixes(Platform::Unix);
        let between = seq!['/'];
        assert(texts(list@).len() == list@.len());
        assert(list@[0]@ == texts(list@)[0]);
        assert(all[0] == parts.until(0, Platform::Unix));
        assert(names.take(0) =~= Seq::<Seq<char>>::empty());
        assert(list@[0]@ =~= seq!['/']);
        assert(list@.last()@ == texts(list@).last());
        assert(all.last() == parts.until(names.len() as int, Platform::Unix));
        assert(names.take(names.len() as int) =~= names);
        if 0 <= i && i + 1 < list@.len() {
            let name = names[i];
            let pieces = split_from(path@, '/', 0);
            lemma_join_one_more(names, i, between);
            lemma_named_pieces(pieces);
            lemma_split_pieces(path@, '/', 0);
            assert(is_named(name) && pieces.contains(name));
            let k = choose|k: int| 0 <= k < pieces.len() && pieces[k] == name;
            if name.contains('/') {
                let c = choose|c: int| 0 <= c < name.len() && name[c] == '/';
                assert(pieces[k][c] != '/');
            }
            assert(list@[i + 1]@ == texts(list@)[i + 1]);
            assert(list@[i]@ == texts(list@)[i]);
            assert(all[i + 1] == parts.until(i + 1, Platform::Unix));
            assert(all[i] == parts.until(i, Platform::Unix));
            assert(!name.contains('/'));
            assert(list@[i + 1]@ =~= if i == 0 {
                list@[i]@ + name
            } else {
                list@[i]@ + seq!['/'] + name
            });
        }
    }
}

/// The directory that holds a path is the last of its prefixes but one, and only a root has none.
pub proof fn directory_is_the_last_prefix_but_one(
    path: ResolvedPath,
    text: &str,
    platform: Platform,
    directory: Option<String>,
    list: Option<Vec<String>>,
)
    requires
        text@ == path@,
        call_ensures(parent_directory, (&path, platform), directory),
        call_ensures(absolute_prefixes_of, (text, platform), list),
    ensures
        list is None ==> directory is None,
        (directory matches Some(directory) ==> (list matches Some(list) && list@.len() >= 2
            && list@[list@.len() - 2]@ == directory@)),
        platform is Unix ==> (list matches Some(list) ==> (directory is None <==> list@.len()
            == 1)),
{
    if let Some(list) = list {
        let parts = parts_of(path@, platform)->0;
        let all = parts.prefixes(platform);
        assert(texts(list@).len() == list@.len());
        if let Some(directory) = directory {
            let at = list@.len() - 2;
            assert(list@[at]@ == texts(list@)[at]);
            assert(all[at] == parts.until(parts.names.len() - 1, platform));
        }
    }
}

/// The prefixes of a share start with the share, without its root and with it.
pub proof fn prefixes_of_a_share_start_with_it(path: &str, cut: int, list: Vec<String>)
    requires
        call_ensures(absolute_prefixes_of, (path, Platform::Windows), Some(list)),
        share_rooted(path@),
        !drive_rooted(path@),
        cut == position(path@, '\\', position(path@, '\\', 2) + 1),
    ensures
        list@.len() >= 2,
        list@[0]@ == path@.take(cut),
        list@[1]@ == path@.take(cut) + seq!['\\'],
{
    let parts = parts_of(path@, Platform::Windows)->0;
    let all = parts.prefixes(Platform::Windows);
    assert(texts(list@).len() == list@.len());
    assert(list@[0]@ == texts(list@)[0]);
    assert(list@[1]@ == texts(list@)[1]);
    assert(all[0] == parts.before[0]);
    assert(all[1] == parts.until(0, Platform::Windows));
    assert(parts.names.take(0) =~= Seq::<Seq<char>>::empty());
    assert(list@[1]@ =~= path@.take(cut) + seq!['\\']);
}

/// A temporary is told apart by the process and the number: both can be read off its name.
pub proof fn temporary_name_tells_process_and_number(
    prefix: &str,
    process: usize,
    drawn: usize,
    name: String,
) -> (digits: (Seq<char>, Seq<char>))
    requires
        call_ensures(name_temporary, (prefix, process, drawn), name),
    ensures
        name@ == prefix@ + digits.0 + seq!['-'] + digits.1,
        number(digits.0) == process,
        number(digits.1) == drawn,
        forall|i: int| 0 <= i < digits.0.len() ==> '0' <= #[trigger] digits.0[i] <= '9',
        forall|i: int| 0 <= i < digits.1.len() ==> '0' <= #[trigger] digits.1[i] <= '9',
{
    reveal_strlit("-");
    assert("-"@ =~= seq!['-']);
    decimal_stands_for_its_number(process as nat);
    decimal_stands_for_its_number(drawn as nat);
    (decimal(process as nat), decimal(drawn as nat))
}

/// A path is read as it resolves, and a canonicalized one as what it stands for. What is wrong with one
/// that does not resolve is said in words that name it.
pub proof fn path_is_read_as_it_resolves(
    path: &str,
    canonical: CanonicalPath,
    given: &str,
    long: Option<&str>,
    platform: Platform,
    read: Result<ResolvedPath, String>,
    resolved: Result<ResolvedPath, ResolvedPathError>,
    observed: Result<ResolvedPath, String>,
    stood: Result<ResolvedPath, ResolvedPathError>,
)
    requires
        call_ensures(read_path, (path, platform), read),
        call_ensures(ResolvedPath::new, (path, platform), resolved),
        given@ == canonical.path@,
        match canonical.long_spelling {
            Some(spelling) => long matches Some(long) && long@ == spelling@,
            None => long is None,
        },
        call_ensures(CanonicalPath::read, (&canonical, platform), observed),
        call_ensures(ResolvedPath::from_platform_canonicalized, (given, platform, long), stood),
    ensures
        read is Ok <==> resolved is Ok,
        read is Ok ==> read->Ok_0@ == resolved->Ok_0@,
        observed is Ok <==> stood is Ok,
        observed is Ok ==> observed->Ok_0@ == stood->Ok_0@,
        (resolved matches Err(error) ==> match error {
            ResolvedPathError::NotAbsolute { path: at } => opens(
                read->Err_0@,
                "resolved paths must be absolute"@,
            ) && closes(read->Err_0@, ": "@ + at@),
            ResolvedPathError::ContainsParentComponent { path: at } => opens(
                read->Err_0@,
                "resolved paths must not contain a parent ('..') component: "@,
            ) && closes(read->Err_0@, at@),
            ResolvedPathError::UnsupportedWindowsPath { path: at } => opens(
                read->Err_0@,
                "resolved path is not a supported normal Windows path: "@,
            ) && closes(read->Err_0@, at@),
        }),
{
    reveal_strlit("resolved paths must be absolute");
    reveal_strlit(": ");
    reveal_strlit("resolved paths must be absolute on the current platform: ");
}

} // verus!
