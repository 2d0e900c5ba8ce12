//! Lexically validated paths.

use vstd::prelude::*;
use vstd::string::*;
use crate::text::{
    chars_of, copy_of, find_from, join, lemma_join_free, lemma_join_front, lemma_join_two,
    lemma_position, lemma_position_at, lemma_split_characters, lemma_split_join, lemma_split_pieces,
    lemma_split_push, position, split, split_chars, split_from,
    text_equal, text_of, texts,
};

verus! {

/// The family of path rules that a path is read under.
#[derive(Clone, Copy, Debug, PartialEq, Eq, Structural)]
pub enum Platform {
    Unix,
    Windows,
}

/// The reason a path cannot be represented as a `ResolvedPath`.
#[derive(Debug, PartialEq, Eq)]
pub enum ResolvedPathError {
    NotAbsolute { path: String },
    ContainsParentComponent { path: String },
    UnsupportedWindowsPath { path: String },
}

/// An absolute, lexically normalized path.
///
/// Only lexical properties are established here: nothing is known of what the path leads to. The view
/// is the text of the path. Whether two paths are the same is another question: see `same_path`.
#[derive(Debug, Eq)]
pub struct ResolvedPath {
    text: String,
}

impl View for ResolvedPath {
    type V = Seq<char>;

    closed spec fn view(&self) -> Seq<char> {
        self.text@
    }
}

/// What tells a path from others: its text, with the letter of a Windows drive in upper case.
pub open spec fn path_key(path: Seq<char>) -> Seq<char> {
    if drive_prefixed(path) {
        path.update(0, upper(path[0]))
    } else {
        path
    }
}

/// Whether two paths are the same: letter for letter, but for the case of a Windows drive.
pub open spec fn same_path(left: Seq<char>, right: Seq<char>) -> bool {
    path_key(left) == path_key(right)
}

impl PartialEq for ResolvedPath {
    fn eq(&self, other: &Self) -> (equal: bool) {
        self.same(other)
    }
}

impl vstd::std_specs::cmp::PartialEqSpecImpl for ResolvedPath {
    open spec fn obeys_eq_spec() -> bool {
        true
    }

    open spec fn eq_spec(&self, other: &Self) -> bool {
        same_path(self@, other@)
    }
}

impl Clone for ResolvedPath {
    fn clone(&self) -> (copy: Self)
        ensures
            copy@ == self@,
    {
        ResolvedPath { text: self.text.clone() }
    }
}

/// Whether a piece between separators names an entry: neither empty nor the current directory.
pub open spec fn is_named(piece: Seq<char>) -> bool {
    piece.len() > 0 && piece != seq!['.']
}

/// The pieces that name entries, in order.
pub open spec fn named(pieces: Seq<Seq<char>>) -> Seq<Seq<char>>
    decreases pieces.len(),
{
    if pieces.len() == 0 {
        Seq::empty()
    } else if is_named(pieces.last()) {
        named(pieces.drop_last()).push(pieces.last())
    } else {
        named(pieces.drop_last())
    }
}

/// Whether some piece is the parent directory.
pub open spec fn has_parent(pieces: Seq<Seq<char>>) -> bool {
    pieces.contains(seq!['.', '.'])
}

/// Whether a path is absolute under Unix rules.
pub open spec fn unix_absolute(path: Seq<char>) -> bool {
    path.len() > 0 && path[0] == '/'
}

/// The normal form of an absolute Unix path: one separator before every named entry.
pub open spec fn unix_normal(path: Seq<char>) -> Seq<char> {
    seq!['/'] + join(named(split(path, '/')), seq!['/'])
}

/// The path with every slash turned into a backslash.
pub open spec fn backslashed(path: Seq<char>) -> Seq<char> {
    Seq::new(path.len(), |i: int| if path[i] == '/' { '\\' } else { path[i] })
}

/// Whether a text begins with another.
pub open spec fn begins(text: Seq<char>, start: Seq<char>) -> bool {
    text.len() >= start.len() && text.subrange(0, start.len() as int) == start
}

/// Whether a backslashed path lies in a device or verbatim namespace.
pub open spec fn in_windows_namespace(path: Seq<char>) -> bool {
    begins(path, seq!['\\', '\\', '?', '\\']) || begins(path, seq!['\\', '\\', '.', '\\'])
        || begins(path, seq!['\\', '\\', '?', '?', '\\']) || begins(
        path,
        seq!['\\', '?', '?', '\\'],
    )
}

/// Whether a character is an ASCII letter.
pub open spec fn is_letter(character: char) -> bool {
    'a' <= character <= 'z' || 'A' <= character <= 'Z'
}

/// Whether a path begins with a drive letter and a colon.
pub open spec fn drive_prefixed(path: Seq<char>) -> bool {
    path.len() >= 2 && is_letter(path[0]) && path[1] == ':'
}

/// Whether a backslashed path begins with a drive root.
pub open spec fn drive_rooted(path: Seq<char>) -> bool {
    drive_prefixed(path) && path.len() >= 3 && path[2] == '\\'
}

/// Whether a backslashed path begins with two separators.
pub open spec fn doubly_rooted(path: Seq<char>) -> bool {
    path.len() >= 2 && path[0] == '\\' && path[1] == '\\'
}

/// Whether a backslashed path begins with a nonempty server and a nonempty share.
pub open spec fn share_rooted(path: Seq<char>) -> bool {
    &&& doubly_rooted(path)
    &&& position(path, '\\', 2) > 2
    &&& position(path, '\\', 2) + 1 < path.len()
    &&& path[position(path, '\\', 2) + 1] != '\\'
}

/// Whether a backslashed path is absolute under Windows rules.
pub open spec fn windows_absolute(path: Seq<char>) -> bool {
    drive_rooted(path) || share_rooted(path)
}

/// The ASCII upper case form of a character; others stay.
pub open spec fn upper(character: char) -> char {
    if 'a' <= character <= 'z' {
        ((character as u8) - 32) as u8 as char
    } else {
        character
    }
}

/// The ASCII upper case form of a text.
pub open spec fn uppercase(text: Seq<char>) -> Seq<char> {
    Seq::new(text.len(), |i: int| upper(text[i]))
}

/// Whether an upper case stem is the name of a device.
pub open spec fn is_device(stem: Seq<char>) -> bool {
    ||| stem == seq!['C', 'O', 'N']
    ||| stem == seq!['P', 'R', 'N']
    ||| stem == seq!['A', 'U', 'X']
    ||| stem == seq!['N', 'U', 'L']
    ||| {
        &&& stem.len() == 4
        &&& '1' <= stem[3] <= '9'
        &&& (stem.subrange(0, 3) == seq!['C', 'O', 'M'] || stem.subrange(0, 3) == seq![
            'L',
            'P',
            'T',
        ])
    }
}

/// Whether a component is reserved for a device, whatever follows its first dot.
pub open spec fn reserved_windows_name(component: Seq<char>) -> bool {
    is_device(uppercase(component.take(position(component, '.', 0))))
}

/// Whether a character may not stand in a Windows component.
pub open spec fn forbidden_in_windows(character: char) -> bool {
    character == ':' || character == '<' || character == '>' || character == '"' || character == '|'
        || character == '?' || character == '*' || character <= '\u{001F}'
}

/// Whether a nonempty Windows component is supported.
pub open spec fn windows_component_supported(component: Seq<char>) -> bool {
    &&& component.len() > 0
    &&& component.last() != ' '
    &&& component.last() != '.'
    &&& forall|i: int| 0 <= i < component.len() ==> !forbidden_in_windows(#[trigger] component[i])
    &&& !reserved_windows_name(component)
}

/// Where the components of a backslashed path start, after its drive root or its two separators.
pub open spec fn windows_components_start(path: Seq<char>) -> Option<int> {
    if doubly_rooted(path) {
        Some(2)
    } else if path.len() >= 3 && (path[0] as int) < 128 && path[1] == ':' && path[2] == '\\' {
        Some(3)
    } else {
        None
    }
}

/// The components of a backslashed path, without the empty one after a final separator.
pub open spec fn windows_components(path: Seq<char>) -> Seq<Seq<char>> {
    let pieces = split_from(path, '\\', windows_components_start(path)->0);
    if pieces.last().len() == 0 {
        pieces.drop_last()
    } else {
        pieces
    }
}

/// Whether every component of a backslashed path is supported, and a share has its server.
pub open spec fn windows_supported(path: Seq<char>) -> bool {
    &&& windows_components_start(path) is Some
    &&& forall|i: int|
        0 <= i < windows_components(path).len() ==> windows_component_supported(
            #[trigger] windows_components(path)[i],
        )
    &&& doubly_rooted(path) ==> windows_components(path).len() >= 2
}

/// The normal form of a supported absolute Windows path.
pub open spec fn windows_normal(path: Seq<char>) -> Seq<char> {
    let components = windows_components(path);
    if doubly_rooted(path) {
        seq!['\\', '\\'] + components[0] + seq!['\\'] + components[1] + seq!['\\'] + join(
            components.skip(2),
            seq!['\\'],
        )
    } else {
        path.take(3) + join(components, seq!['\\'])
    }
}

/// The outcome of reading `path` as an absolute path: its normal form, or why there is none.
pub open spec fn resolves(
    path: Seq<char>,
    platform: Platform,
    outcome: Result<Seq<char>, ResolvedPathError>,
) -> bool {
    match platform {
        Platform::Unix => if !unix_absolute(path) {
            outcome matches Err(ResolvedPathError::NotAbsolute { path: at }) && at@ == path
        } else if has_parent(split(path, '/')) {
            outcome matches Err(ResolvedPathError::ContainsParentComponent { path: at }) && at@
                == path
        } else {
            outcome == Ok::<Seq<char>, ResolvedPathError>(unix_normal(path))
        },
        Platform::Windows => if in_windows_namespace(backslashed(path)) {
            outcome matches Err(ResolvedPathError::UnsupportedWindowsPath { path: at }) && at@
                == path
        } else if !windows_absolute(backslashed(path)) {
            outcome matches Err(ResolvedPathError::NotAbsolute { path: at }) && at@ == backslashed(
                path,
            )
        } else if !windows_supported(backslashed(path)) {
            outcome matches Err(ResolvedPathError::UnsupportedWindowsPath { path: at }) && at@
                == path
        } else {
            outcome == Ok::<Seq<char>, ResolvedPathError>(windows_normal(backslashed(path)))
        },
    }
}


impl ResolvedPath {
    /// Validates and lexically normalizes an absolute path.
    ///
    /// Relative paths are rejected. A parent component is rejected instead of collapsed, because
    /// collapsing cannot establish where the path leads.
    pub fn new(path: &str, platform: Platform) -> (outcome: Result<Self, ResolvedPathError>)
        ensures
            resolves(path@, platform, path_outcome(outcome)),
    {
        match platform {
            Platform::Unix => normalize_unix_path(path),
            Platform::Windows => {
                match normalize_windows_path(path) {
                    Err(error) => Err(error),
                    Ok(normalized) => {
                        proof {
                            if windows_absolute(backslashed(path@)) {
                                lemma_windows_normal_absolute(backslashed(path@));
                            }
                        }
                        if is_windows_absolute(&chars_of(normalized.as_str())) {
                            Ok(ResolvedPath { text: normalized })
                        } else {
                            Err(ResolvedPathError::NotAbsolute { path: normalized })
                        }
                    },
                }
            },
        }
    }

    /// Reads a path that the system's canonicalization returned.
    ///
    /// On Windows the verbatim spelling is taken back to the normal one, or to the long spelling
    /// that the system reports for it. Declared paths use `new`, which rejects verbatim spellings.
    pub fn from_platform_canonicalized(
        path: &str,
        platform: Platform,
        long_spelling: Option<&str>,
    ) -> (outcome: Result<Self, ResolvedPathError>)
        ensures
            resolves(
                match platform {
                    Platform::Unix => path@,
                    Platform::Windows => match long_spelling {
                        Some(long) => long@,
                        None => without_verbatim(path@),
                    },
                },
                platform,
                path_outcome(outcome),
            ),
    {
        match platform {
            Platform::Unix => Self::new(path, platform),
            Platform::Windows => match long_spelling {
                Some(long) => Self::new(long, platform),
                None => {
                    let normal = normal_windows_path_from_canonicalize(path);
                    Self::new(normal.as_str(), platform)
                },
            },
        }
    }

    /// The normalized path.
    pub fn as_path(&self) -> (path: &str)
        ensures
            path@ == self@,
    {
        self.text.as_str()
    }

    /// The normalized path, owned.
    pub fn into_path_buf(self) -> (path: String)
        ensures
            path@ == self@,
    {
        self.text
    }

    /// Whether two paths are the same.
    pub fn same(&self, other: &Self) -> (equal: bool)
        ensures
            equal == same_path(self@, other@),
    {
        let left = key_of(self.as_path());
        let right = key_of(other.as_path());
        text_equal(left.as_str(), right.as_str())
    }
}

fn raise(character: char) -> (raised: char)
    ensures
        raised == upper(character),
{
    if 'a' <= character && character <= 'z' {
        (character as u8 - 32) as char
    } else {
        character
    }
}

fn key_of(path: &str) -> (key: String)
    ensures
        key@ == path_key(path@),
{
    if !has_windows_drive_prefix(path) {
        return copy_of(path);
    }
    let chars = chars_of(path);
    let mut key = String::new();
    key.push(raise(chars[0]));
    key.append(text_of(&chars, 1, chars.len()).as_str());
    assert(key@ =~= path_key(path@));
    key
}

/// The text of a resolved path, or its error.
pub open spec fn path_outcome(outcome: Result<ResolvedPath, ResolvedPathError>) -> Result<
    Seq<char>,
    ResolvedPathError,
> {
    match outcome {
        Ok(path) => Ok(path@),
        Err(error) => Err(error),
    }
}

fn normalize_unix_path(path: &str) -> (outcome: Result<ResolvedPath, ResolvedPathError>)
    ensures
        resolves(path@, Platform::Unix, path_outcome(outcome)),
{
    let chars = chars_of(path);
    if chars.len() == 0 || chars[0] != '/' {
        return Err(ResolvedPathError::NotAbsolute { path: copy_of(path) });
    }
    let pieces = split_chars(&chars, '/', 0);
    let ghost parts = split(path@, '/');
    let mut text = String::new();
    text.push('/');
    let mut count: usize = 0;
    let mut i: usize = 0;
    proof {
        assert(parts.take(0) =~= Seq::<Seq<char>>::empty());
        assert(text@ =~= seq!['/']);
    }
    while i < pieces.len()
        invariant
            i <= pieces@.len(),
            count <= i,
            parts == split(path@, '/'),
            pieces@.len() == parts.len(),
            unix_absolute(path@),
            forall|k: int| 0 <= k < pieces@.len() ==> (#[trigger] pieces@[k])@ == parts[k],
            !has_parent(parts.take(i as int)),
            count == named(parts.take(i as int)).len(),
            text@ == seq!['/'] + join(named(parts.take(i as int)), seq!['/']),
        decreases pieces.len() - i,
    {
        let piece = &pieces[i];
        let ghost before = parts.take(i as int);
        let ghost after = parts.take(i + 1);
        proof {
            assert(after.drop_last() =~= before);
            assert(after.last() == piece@);
            assert forall|k: int| 0 <= k < after.len() && after[k] == seq!['.', '.'] implies k
                == i by {
                if k < i {
                    assert(before[k] == seq!['.', '.']);
                }
            }
        }
        if piece.len() == 2 && piece[0] == '.' && piece[1] == '.' {
            proof {
                assert(piece@ =~= seq!['.', '.']);
                assert(parts[i as int] == seq!['.', '.']);
            }
            return Err(ResolvedPathError::ContainsParentComponent { path: copy_of(path) });
        }
        assert(piece@ != seq!['.', '.']);
        if piece.len() == 0 || (piece.len() == 1 && piece[0] == '.') {
            proof {
                if piece.len() == 1 {
                    assert(piece@ =~= seq!['.']);
                }
            }
        } else {
            assert(is_named(piece@));
            if count > 0 {
                text.push('/');
            }
            let ghost listed = named(after);
            proof {
                assert(listed.drop_last() =~= named(before));
            }
            text.append(text_of(piece, 0, piece.len()).as_str());
            proof {
                assert(piece@.subrange(0, piece@.len() as int) =~= piece@);
                if count == 0 {
                    assert(text@ =~= seq!['/'] + join(listed, seq!['/']));
                } else {
                    assert(text@ =~= seq!['/'] + (join(named(before), seq!['/']) + seq!['/']
                        + piece@));
                }
            }
            count += 1;
        }
        i += 1;
    }
    proof {
        assert(parts.take(i as int) =~= parts);
    }
    Ok(ResolvedPath { text })
}

/// Whether a backslashed path is absolute under Windows rules.
pub(crate) fn is_windows_absolute(chars: &Vec<char>) -> (absolute: bool)
    ensures
        absolute == windows_absolute(chars@),
{
    if chars.len() >= 3 && is_ascii_letter(chars[0]) && chars[1] == ':' && chars[2] == '\\' {
        return true;
    }
    if chars.len() < 2 || chars[0] != '\\' || chars[1] != '\\' {
        return false;
    }
    let server_end = find_from(chars, '\\', 2);
    server_end > 2 && server_end < chars.len() - 1 && chars[server_end + 1] != '\\'
}

/// Whether a character is an ASCII letter.
pub(crate) fn is_ascii_letter(character: char) -> (letter: bool)
    ensures
        letter == is_letter(character),
{
    ('a' <= character && character <= 'z') || ('A' <= character && character <= 'Z')
}

/// Whether a text begins with another.
pub(crate) fn begins_with(chars: &Vec<char>, start: &Vec<char>) -> (begun: bool)
    ensures
        begun == begins(chars@, start@),
{
    if chars.len() < start.len() {
        return false;
    }
    let mut i: usize = 0;
    while i < start.len()
        invariant
            i <= start@.len() <= chars@.len(),
            forall|k: int| 0 <= k < i ==> chars@[k] == start@[k],
        decreases start.len() - i,
    {
        if chars[i] != start[i] {
            assert(chars@.subrange(0, start@.len() as int)[i as int] != start@[i as int]);
            return false;
        }
        i += 1;
    }
    assert(chars@.subrange(0, start@.len() as int) =~= start@);
    true
}

/// The path with every slash turned into a backslash.
pub(crate) fn turn_slashes(path: &str) -> (chars: Vec<char>)
    ensures
        chars@ == backslashed(path@),
{
    let raw = chars_of(path);
    let mut chars: Vec<char> = Vec::new();
    let mut i: usize = 0;
    while i < raw.len()
        invariant
            i <= raw@.len(),
            raw@ == path@,
            chars@ == backslashed(path@).take(i as int),
        decreases raw.len() - i,
    {
        chars.push(if raw[i] == '/' { '\\' } else { raw[i] });
        i += 1;
    }
    assert(chars@ =~= backslashed(path@));
    chars
}

/// Normalizes the separators and the spelling of a Windows path.
///
/// A path that is not absolute comes back with its separators turned, for the caller to reject.
pub fn normalize_windows_path(original: &str) -> (outcome: Result<String, ResolvedPathError>)
    ensures
        ({
            let path = backslashed(original@);
            if in_windows_namespace(path) || (windows_absolute(path) && !windows_supported(path)) {
                outcome matches Err(ResolvedPathError::UnsupportedWindowsPath { path: at }) && at@
                    == original@
            } else {
                outcome matches Ok(normalized) && normalized@ == if windows_absolute(path) {
                    windows_normal(path)
                } else {
                    path
                }
            }
        }),
{
    let chars = turn_slashes(original);
    let ghost path = backslashed(original@);
    if begins_with(&chars, &vec!['\\', '\\', '?', '\\']) || begins_with(
        &chars,
        &vec!['\\', '\\', '.', '\\'],
    ) || begins_with(&chars, &vec!['\\', '\\', '?', '?', '\\']) || begins_with(
        &chars,
        &vec!['\\', '?', '?', '\\'],
    ) {
        return Err(ResolvedPathError::UnsupportedWindowsPath { path: copy_of(original) });
    }
    let separated = text_of(&chars, 0, chars.len());
    assert(separated@ =~= path);
    if !is_windows_absolute(&chars) {
        return Ok(separated);
    }
    if !windows_components_are_supported(separated.as_str()) {
        return Err(ResolvedPathError::UnsupportedWindowsPath { path: copy_of(original) });
    }
    let doubled = chars[0] == '\\';
    let start: usize = if doubled { 2 } else { 3 };
    let pieces = split_chars(&chars, '\\', start);
    let ghost all = split_from(path, '\\', start as int);
    let ghost components = windows_components(path);
    let ghost separator = seq!['\\'];
    let total: usize = if pieces[pieces.len() - 1].len() == 0 { pieces.len() - 1 } else {
        pieces.len()
    };
    assert(windows_components_start(path) == Some(start as int));
    assert(components =~= all.take(total as int));
    let mut normalized = text_of(&chars, 0, start);
    let mut at: usize = 0;
    if doubled {
        normalized.append(text_of(&pieces[0], 0, pieces[0].len()).as_str());
        normalized.push('\\');
        normalized.append(text_of(&pieces[1], 0, pieces[1].len()).as_str());
        normalized.push('\\');
        at = 2;
    }
    let ghost skipped = at as int;
    let ghost prefix = normalized@;
    proof {
        assert(components.skip(skipped).take(0) =~= Seq::<Seq<char>>::empty());
        assert(normalized@ =~= prefix + Seq::<char>::empty());
        if doubled {
            assert(pieces@[0]@.subrange(0, pieces@[0]@.len() as int) =~= components[0]);
            assert(pieces@[1]@.subrange(0, pieces@[1]@.len() as int) =~= components[1]);
            assert(prefix =~= seq!['\\', '\\'] + components[0] + separator + components[1]
                + separator);
        } else {
            assert(prefix =~= path.take(3));
            assert(components.skip(0) =~= components);
        }
    }
    while at < total
        invariant
            skipped <= at <= total <= pieces@.len(),
            pieces@.len() == all.len(),
            forall|k: int| 0 <= k < pieces@.len() ==> (#[trigger] pieces@[k])@ == all[k],
            components == all.take(total as int),
            components.len() == total,
            skipped == if doubled { 2int } else { 0int },
            separator == seq!['\\'],
            normalized@ == prefix + join(components.skip(skipped).take(at - skipped), separator),
        decreases total - at,
    {
        let ghost before = components.skip(skipped).take(at - skipped);
        let ghost after = components.skip(skipped).take(at - skipped + 1);
        let first = at == if doubled { 2 } else { 0 };
        if !first {
            normalized.push('\\');
        }
        normalized.append(text_of(&pieces[at], 0, pieces[at].len()).as_str());
        proof {
            assert(pieces@[at as int]@.subrange(0, pieces@[at as int]@.len() as int)
                =~= pieces@[at as int]@);
            assert(after.drop_last() =~= before);
            assert(after.last() == pieces@[at as int]@);
            assert(normalized@ =~= prefix + join(after, separator));
        }
        at += 1;
    }
    proof {
        assert(components.skip(skipped).take(at - skipped) =~= components.skip(skipped));
    }
    Ok(normalized)
}

/// The normal spelling of a path that the system's canonicalization returned.
pub open spec fn without_verbatim(path: Seq<char>) -> Seq<char> {
    if begins(path, seq!['\\', '\\', '?', '\\', 'U', 'N', 'C', '\\']) {
        seq!['\\', '\\'] + path.skip(8)
    } else if begins(path, seq!['\\', '\\', '?', '\\']) {
        path.skip(4)
    } else {
        path
    }
}

/// Takes the verbatim prefix off a path that the system's canonicalization returned.
pub fn normal_windows_path_from_canonicalize(canonicalized: &str) -> (normal: String)
    ensures
        normal@ == without_verbatim(canonicalized@),
{
    let chars = chars_of(canonicalized);
    if begins_with(&chars, &vec!['\\', '\\', '?', '\\', 'U', 'N', 'C', '\\']) {
        let mut normal = String::new();
        normal.push('\\');
        normal.push('\\');
        normal.append(text_of(&chars, 8, chars.len()).as_str());
        assert(normal@ =~= seq!['\\', '\\'] + canonicalized@.skip(8));
        normal
    } else if begins_with(&chars, &vec!['\\', '\\', '?', '\\']) {
        assert(chars@.subrange(4, chars@.len() as int) =~= canonicalized@.skip(4));
        text_of(&chars, 4, chars.len())
    } else {
        copy_of(canonicalized)
    }
}

/// Whether every component of a backslashed path is supported, and a share has its server.
pub fn windows_components_are_supported(path: &str) -> (supported: bool)
    ensures
        supported == windows_supported(path@),
{
    let chars = chars_of(path);
    let doubled = chars.len() >= 2 && chars[0] == '\\' && chars[1] == '\\';
    let start: usize = if doubled {
        2
    } else if chars.len() >= 3 && chars[0] <= '\u{7F}' && chars[1] == ':' && chars[2] == '\\' {
        3
    } else {
        return false;
    };
    let pieces = split_chars(&chars, '\\', start);
    let ghost all = split_from(path@, '\\', start as int);
    let ghost components = windows_components(path@);
    let total: usize = if pieces[pieces.len() - 1].len() == 0 { pieces.len() - 1 } else {
        pieces.len()
    };
    assert(windows_components_start(path@) == Some(start as int));
    assert(components =~= all.take(total as int));
    let mut i: usize = 0;
    while i < total
        invariant
            i <= total <= pieces@.len(),
            pieces@.len() == all.len(),
            forall|k: int| 0 <= k < pieces@.len() ==> (#[trigger] pieces@[k])@ == all[k],
            components == all.take(total as int),
            components == windows_components(path@),
            forall|k: int|
                0 <= k < i ==> windows_component_supported(#[trigger] windows_components(path@)[k]),
        decreases total - i,
    {
        if !is_windows_component_supported(&pieces[i]) {
            assert(!windows_component_supported(windows_components(path@)[i as int]));
            return false;
        }
        i += 1;
    }
    total >= if doubled { 2 } else { 0 }
}

fn is_windows_component_supported(component: &Vec<char>) -> (supported: bool)
    ensures
        supported == windows_component_supported(component@),
{
    if component.len() == 0 {
        return false;
    }
    let last = component[component.len() - 1];
    if last == ' ' || last == '.' {
        return false;
    }
    let mut i: usize = 0;
    while i < component.len()
        invariant
            i <= component@.len(),
            forall|k: int| 0 <= k < i ==> !forbidden_in_windows(#[trigger] component@[k]),
        decreases component.len() - i,
    {
        let character = component[i];
        if character == ':' || character == '<' || character == '>' || character == '"' || character
            == '|' || character == '?' || character == '*' || character <= '\u{001F}' {
            assert(forbidden_in_windows(component@[i as int]));
            return false;
        }
        i += 1;
    }
    !is_reserved_windows_name(component)
}

/// Whether a component is reserved for a device, whatever follows its first dot.
pub fn is_reserved_windows_name(component: &Vec<char>) -> (reserved: bool)
    ensures
        reserved == reserved_windows_name(component@),
{
    let end = find_from(component, '.', 0);
    let ghost stem = component@.take(end as int);
    let mut raised: Vec<char> = Vec::new();
    let mut i: usize = 0;
    while i < end
        invariant
            i <= end <= component@.len(),
            stem == component@.take(end as int),
            raised@ == uppercase(stem).take(i as int),
        decreases end - i,
    {
        raised.push(raise(component[i]));
        i += 1;
    }
    assert(raised@ =~= uppercase(stem));
    if raised.len() == 3 {
        let (a, b, c) = (raised[0], raised[1], raised[2]);
        let device = (a == 'C' && b == 'O' && c == 'N') || (a == 'P' && b == 'R' && c == 'N') || (a
            == 'A' && b == 'U' && c == 'X') || (a == 'N' && b == 'U' && c == 'L');
        proof {
            let name = seq![raised@[0], raised@[1], raised@[2]];
            assert(raised@ =~= name);
        }
        return device;
    }
    if raised.len() != 4 {
        return false;
    }
    let ghost head = raised@.subrange(0, 3);
    proof {
        assert(head =~= seq![raised@[0], raised@[1], raised@[2]]);
    }
    '1' <= raised[3] && raised[3] <= '9' && ((raised[0] == 'C' && raised[1] == 'O' && raised[2]
        == 'M') || (raised[0] == 'L' && raised[1] == 'P' && raised[2] == 'T'))
}

proof fn lemma_windows_normal_absolute(path: Seq<char>)
    requires
        windows_absolute(path),
        windows_supported(path),
    ensures
        windows_absolute(windows_normal(path)),
{
    let normal = windows_normal(path);
    if doubly_rooted(path) {
        let components = windows_components(path);
        let pieces = split_from(path, '\\', 2);
        lemma_split_pieces(path, '\\', 2);
        assert(components[0] == pieces[0]);
        assert(components[1] == pieces[1]);
        assert(windows_component_supported(components[0]));
        assert(windows_component_supported(components[1]));
        let end: int = 2 + components[0].len() as int;
        assert forall|i: int| 2 <= i < end implies normal[i] != '\\' by {
            assert(normal[i] == pieces[0][i - 2]);
        }
        assert(normal[end] == '\\');
        lemma_position_at(normal, '\\', 2, end);
        assert(normal[end + 1] == pieces[1][0]);
    } else {
        assert(drive_rooted(normal));
    }
}

/// A portable relative path that is safe to resolve beneath a store root.
#[derive(Debug, PartialEq, Eq)]
pub struct SourceRelativePath {
    components: Vec<String>,
}

impl View for SourceRelativePath {
    type V = Seq<Seq<char>>;

    closed spec fn view(&self) -> Seq<Seq<char>> {
        texts(self.components@)
    }
}

/// The reason a source declaration cannot be represented as a safe relative path.
#[derive(Clone, Copy, Debug, PartialEq, Eq, Structural)]
pub enum SourceRelativePathError {
    InvalidSyntax,
}

/// Whether a component of a source declaration is allowed.
pub open spec fn source_component_allowed(component: Seq<char>) -> bool {
    component.len() > 0 && component != seq!['.'] && component != seq!['.', '.']
        && !drive_prefixed(component)
}

/// Whether a source declaration is a safe relative path.
pub open spec fn source_path_allowed(path: Seq<char>) -> bool {
    &&& path.len() > 0
    &&& path[0] != '/'
    &&& !begins(path, seq!['~', '/'])
    &&& !path.contains('\\')
    &&& !drive_prefixed(path)
    &&& forall|i: int|
        0 <= i < split(path, '/').len() ==> source_component_allowed(#[trigger] split(path, '/')[i])
}

impl SourceRelativePath {
    /// Validates the syntax of a source declaration without looking at any file.
    pub fn parse(raw_path: &str) -> (outcome: Result<Self, SourceRelativePathError>)
        ensures
            outcome is Ok <==> source_path_allowed(raw_path@),
            outcome matches Ok(path) ==> path@ == split(raw_path@, '/'),
    {
        let chars = chars_of(raw_path);
        if chars.len() == 0 || chars[0] == '/' || begins_with(&chars, &vec!['~', '/'])
            || has_windows_drive_prefix(raw_path) {
            return Err(SourceRelativePathError::InvalidSyntax);
        }
        let backslash = find_from(&chars, '\\', 0);
        proof {
            lemma_position(chars@, '\\', 0);
        }
        if backslash < chars.len() {
            return Err(SourceRelativePathError::InvalidSyntax);
        }
        let pieces = split_chars(&chars, '/', 0);
        let ghost parts = split(raw_path@, '/');
        let mut components: Vec<String> = Vec::new();
        let mut i: usize = 0;
        while i < pieces.len()
            invariant
                i <= pieces@.len(),
                parts == split(raw_path@, '/'),
                pieces@.len() == parts.len(),
                forall|k: int| 0 <= k < pieces@.len() ==> (#[trigger] pieces@[k])@ == parts[k],
                forall|k: int|
                    0 <= k < i ==> source_component_allowed(#[trigger] split(raw_path@, '/')[k]),
                components@.len() == i,
                forall|k: int| 0 <= k < i ==> (#[trigger] components@[k])@ == parts[k],
            decreases pieces.len() - i,
        {
            let piece = &pieces[i];
            let dots = (piece.len() == 1 && piece[0] == '.') || (piece.len() == 2 && piece[0] == '.'
                && piece[1] == '.');
            proof {
                if piece.len() == 1 && piece@[0] == '.' {
                    assert(piece@ =~= seq!['.']);
                }
                if piece.len() == 2 && piece@[0] == '.' && piece@[1] == '.' {
                    assert(piece@ =~= seq!['.', '.']);
                }
            }
            let text = text_of(piece, 0, piece.len());
            assert(text@ =~= piece@);
            if piece.len() == 0 || dots || has_windows_drive_prefix(text.as_str()) {
                assert(!source_component_allowed(split(raw_path@, '/')[i as int]));
                return Err(SourceRelativePathError::InvalidSyntax);
            }
            components.push(text);
            i += 1;
        }
        assert(texts(components@) =~= parts);
        Ok(SourceRelativePath { components })
    }

    /// The validated components, outermost first.
    pub fn components(&self) -> (components: &Vec<String>)
        ensures
            texts(components@) == self@,
    {
        &self.components
    }
}

/// Whether a path begins with a Windows drive prefix, on every host.
pub fn has_windows_drive_prefix(path: &str) -> (prefixed: bool)
    ensures
        prefixed == drive_prefixed(path@),
{
    let chars = chars_of(path);
    chars.len() >= 2 && is_ascii_letter(chars[0]) && chars[1] == ':'
}

proof fn lemma_named(pieces: Seq<Seq<char>>)
    ensures
        named(pieces).len() <= pieces.len(),
        forall|i: int|
            0 <= i < named(pieces).len() ==> is_named(#[trigger] named(pieces)[i])
                && pieces.contains(named(pieces)[i]),
    decreases pieces.len(),
{
    if pieces.len() > 0 {
        let front = pieces.drop_last();
        lemma_named(front);
        assert forall|i: int| 0 <= i < named(pieces).len() implies is_named(
            #[trigger] named(pieces)[i],
        ) && pieces.contains(named(pieces)[i]) by {
            if i < named(front).len() {
                assert(named(pieces)[i] == named(front)[i]);
                let k = choose|k: int| 0 <= k < front.len() && front[k] == named(front)[i];
                assert(pieces[k] == named(front)[i]);
            } else {
                assert(pieces[pieces.len() - 1] == pieces.last());
            }
        }
    }
}

proof fn lemma_named_of_named(pieces: Seq<Seq<char>>)
    requires
        forall|i: int| 0 <= i < pieces.len() ==> is_named(#[trigger] pieces[i]),
    ensures
        named(pieces) == pieces,
    decreases pieces.len(),
{
    if pieces.len() > 0 {
        assert(is_named(pieces[pieces.len() - 1]));
        lemma_named_of_named(pieces.drop_last());
        assert(named(pieces) =~= pieces);
    }
}

proof fn lemma_named_behind_empty(pieces: Seq<Seq<char>>)
    ensures
        named(seq![Seq::<char>::empty()] + pieces) == named(pieces),
    decreases pieces.len(),
{
    let longer = seq![Seq::<char>::empty()] + pieces;
    if pieces.len() > 0 {
        lemma_named_behind_empty(pieces.drop_last());
        assert(longer.drop_last() =~= seq![Seq::<char>::empty()] + pieces.drop_last());
        assert(longer.last() == pieces.last());
    } else {
        assert(longer.drop_last() =~= Seq::<Seq<char>>::empty());
        assert(named(longer.drop_last()) =~= Seq::<Seq<char>>::empty());
        assert(longer.last().len() == 0);
        assert(named(pieces) =~= Seq::<Seq<char>>::empty());
    }
}

proof fn lemma_unix_normal_form(path: Seq<char>)
    requires
        unix_absolute(path),
        !has_parent(split(path, '/')),
    ensures
        unix_absolute(unix_normal(path)),
        !has_parent(split(unix_normal(path), '/')),
        unix_normal(unix_normal(path)) == unix_normal(path),
{
    let pieces = split(path, '/');
    let parts = named(pieces);
    let normal = unix_normal(path);
    lemma_split_pieces(path, '/', 0);
    lemma_named(pieces);
    let cut = split(normal, '/');
    let empty = Seq::<char>::empty();
    assert(split_from(normal, '/', 0) =~= seq![empty] + split_from(normal, '/', 1)) by {
        assert(position(normal, '/', 0) == 0);
        assert(normal.subrange(0, 0) =~= empty);
    }
    if parts.len() == 0 {
        assert(normal =~= seq!['/']);
        assert(normal.skip(1) =~= empty);
        assert(split_from(normal, '/', 1) =~= seq![empty]);
        assert(cut =~= seq![empty, empty]);
        assert(cut.drop_last() =~= seq![empty]);
        assert(cut.drop_last().drop_last() =~= Seq::<Seq<char>>::empty());
        lemma_named_behind_empty(seq![empty]);
        lemma_named_behind_empty(Seq::<Seq<char>>::empty());
        assert(seq![empty] + Seq::<Seq<char>>::empty() =~= seq![empty]);
        assert(seq![empty] + seq![empty] =~= cut);
        assert(named(Seq::<Seq<char>>::empty()) =~= Seq::<Seq<char>>::empty());
        assert(parts =~= Seq::<Seq<char>>::empty());
    } else {
        assert forall|i: int| 0 <= i < parts.len() implies !(#[trigger] parts[i]).contains('/') by {
            let k = choose|k: int| 0 <= k < pieces.len() && pieces[k] == parts[i];
            if parts[i].contains('/') {
                let m = choose|m: int| 0 <= m < parts[i].len() && parts[i][m] == '/';
                assert(pieces[k][m] == '/');
            }
        }
        lemma_split_join(seq!['/'], parts, '/');
        assert(cut =~= seq![empty] + parts);
        lemma_named_behind_empty(parts);
        lemma_named_of_named(parts);
    }
    assert(!has_parent(cut)) by {
        if has_parent(cut) {
            let k = choose|k: int| 0 <= k < cut.len() && cut[k] == seq!['.', '.'];
            if parts.len() == 0 {
                assert(cut[k].len() == 0);
            } else if k > 0 {
                assert(parts[k - 1] == seq!['.', '.']);
                assert(pieces.contains(parts[k - 1]));
            } else {
                assert(cut[0].len() == 0);
            }
        }
    }
}

proof fn lemma_windows_components_clean(path: Seq<char>)
    requires
        path == backslashed(path),
        windows_supported(path),
    ensures
        !path.contains('/'),
        forall|i: int|
            0 <= i < windows_components(path).len() ==> !(#[trigger] windows_components(
                path,
            )[i]).contains('\\') && !windows_components(path)[i].contains('/'),
{
    let start = windows_components_start(path)->0;
    let components = windows_components(path);
    let pieces = split_from(path, '\\', start);
    lemma_split_pieces(path, '\\', start);
    if path.contains('/') {
        let n = choose|n: int| 0 <= n < path.len() && path[n] == '/';
        assert(backslashed(path)[n] == '\\');
    }
    assert forall|i: int| 0 <= i < components.len() implies !(#[trigger] components[i]).contains(
        '\\',
    ) && !components[i].contains('/') by {
        assert(components[i] == pieces[i]);
        if pieces[i].contains('\\') {
            let m = choose|m: int| 0 <= m < pieces[i].len() && pieces[i][m] == '\\';
            assert(pieces[i][m] == '\\');
        }
        if pieces[i].contains('/') {
            let m = choose|m: int| 0 <= m < pieces[i].len() && pieces[i][m] == '/';
            lemma_split_characters(path, '\\', start, i, m);
        }
    }
}

proof fn lemma_share_normal_form(path: Seq<char>)
    requires
        path == backslashed(path),
        doubly_rooted(path),
        windows_supported(path),
    ensures
        !in_windows_namespace(windows_normal(path)),
        doubly_rooted(windows_normal(path)),
        windows_components(windows_normal(path)) == windows_components(path),
{
    lemma_windows_components_clean(path);
    let components = windows_components(path);
    let normal = windows_normal(path);
    let separator = seq!['\\'];
    let empty = Seq::<char>::empty();
    let head = seq!['\\', '\\'];
    let listed = join(components, separator);
    let tail = components.skip(2);
    assert(windows_component_supported(components[components.len() - 1]));
    lemma_split_join(head, components, '\\');
    if tail.len() == 0 {
        assert(components =~= seq![components[0], components[1]]);
        lemma_join_two(components[0], components[1], separator);
        assert(join(tail, separator) =~= empty);
        assert(normal =~= (head + listed) + separator + empty);
        assert(!empty.contains('\\'));
        lemma_split_push(head + listed, '\\', 2, empty);
        assert(split_from(normal, '\\', 2) == components.push(empty));
        assert(components.push(empty).drop_last() =~= components);
    } else {
        lemma_join_front(components, separator);
        assert(normal =~= head + listed);
        assert(split_from(normal, '\\', 2) == components);
    }
    assert(doubly_rooted(normal));
    assert(windows_components_start(normal) == Some(2int));
    assert(windows_component_supported(components[0]));
    lemma_server_outside_namespace(components[0], normal.skip(2 + components[0].len() as int));
    assert(normal =~= head + components[0] + normal.skip(2 + components[0].len() as int));
}

proof fn lemma_server_outside_namespace(server: Seq<char>, rest: Seq<char>)
    requires
        windows_component_supported(server),
        !server.contains('\\'),
    ensures
        !in_windows_namespace(seq!['\\', '\\'] + server + rest),
{
    let path = seq!['\\', '\\'] + server + rest;
    assert(path[0] == '\\' && path[1] == '\\' && path[2] == server[0]);
    assert(!forbidden_in_windows(server[0]));
    if begins(path, seq!['\\', '\\', '?', '\\']) {
        assert(path.subrange(0, 4)[2] == '?');
    }
    if begins(path, seq!['\\', '\\', '.', '\\']) {
        assert(path.subrange(0, 4)[2] == '.');
        assert(path.subrange(0, 4)[3] == '\\');
        if server.len() > 1 {
            assert(path[3] == server[1]);
            assert(server.contains('\\'));
        } else {
            assert(server.last() == '.');
        }
    }
    if begins(path, seq!['\\', '\\', '?', '?', '\\']) {
        assert(path.subrange(0, 5)[2] == '?');
    }
    if begins(path, seq!['\\', '?', '?', '\\']) {
        assert(path.subrange(0, 4)[1] == '?');
    }
}

proof fn lemma_drive_normal_form(path: Seq<char>)
    requires
        path == backslashed(path),
        drive_rooted(path),
        windows_supported(path),
    ensures
        !in_windows_namespace(windows_normal(path)),
        drive_rooted(windows_normal(path)),
        windows_normal(path).take(3) == path.take(3),
        windows_components(windows_normal(path)) == windows_components(path),
{
    lemma_windows_components_clean(path);
    let components = windows_components(path);
    let normal = windows_normal(path);
    let separator = seq!['\\'];
    let empty = Seq::<char>::empty();
    let head = path.take(3);
    assert(normal == head + join(components, separator));
    assert(normal.take(3) =~= head);
    assert(normal[0] == path[0] && normal[1] == path[1] && normal[2] == path[2]);
    assert(windows_components_start(normal) == Some(3int));
    if components.len() == 0 {
        assert(normal.skip(3) =~= empty);
        assert(split_from(normal, '\\', 3) =~= seq![empty]);
        assert(windows_components(normal) =~= components);
    } else {
        lemma_split_join(head, components, '\\');
        assert(windows_component_supported(components[components.len() - 1]));
        assert(windows_components(normal) =~= components);
    }
    if begins(normal, seq!['\\', '\\', '?', '\\']) {
        assert(normal.subrange(0, 4)[0] == '\\');
    }
    if begins(normal, seq!['\\', '\\', '.', '\\']) {
        assert(normal.subrange(0, 4)[0] == '\\');
    }
    if begins(normal, seq!['\\', '\\', '?', '?', '\\']) {
        assert(normal.subrange(0, 5)[0] == '\\');
    }
    if begins(normal, seq!['\\', '?', '?', '\\']) {
        assert(normal.subrange(0, 4)[0] == '\\');
    }
}

proof fn lemma_windows_normal_slashless(path: Seq<char>)
    requires
        path == backslashed(path),
        windows_supported(path),
    ensures
        backslashed(windows_normal(path)) == windows_normal(path),
{
    lemma_windows_components_clean(path);
    let components = windows_components(path);
    let normal = windows_normal(path);
    let separator = seq!['\\'];
    let tail = components.skip(2);
    assert(!separator.contains('/'));
    lemma_join_free(components, separator, '/');
    assert forall|n: int| 0 <= n < normal.len() implies normal[n] != '/' by {
        if doubly_rooted(path) {
            assert forall|i: int| 0 <= i < tail.len() implies !(#[trigger] tail[i]).contains(
                '/',
            ) by {
                assert(tail[i] == components[i + 2]);
            }
            lemma_join_free(tail, separator, '/');
            let rest = join(tail, separator);
            let a = components[0];
            let b = components[1];
            if 2 <= n < 2 + a.len() {
                assert(normal[n] == a[n - 2]);
                assert(a.contains(a[n - 2]));
            } else if 3 + a.len() <= n < 3 + a.len() + b.len() {
                assert(normal[n] == b[n - 3 - a.len()]);
                assert(b.contains(b[n - 3 - a.len()]));
            } else if n >= 4 + a.len() + b.len() {
                assert(normal[n] == rest[n - 4 - a.len() - b.len()]);
                assert(rest.contains(rest[n - 4 - a.len() - b.len()]));
            }
        } else if n < 3 {
            assert(normal[n] == path[n]);
            assert(path.contains(path[n]));
        } else {
            let listed = join(components, separator);
            assert(normal[n] == listed[n - 3]);
            assert(listed.contains(listed[n - 3]));
        }
    }
    assert(backslashed(normal) =~= normal);
}

proof fn lemma_windows_normal_form(path: Seq<char>)
    requires
        path == backslashed(path),
        windows_absolute(path),
        windows_supported(path),
    ensures
        backslashed(windows_normal(path)) == windows_normal(path),
        !in_windows_namespace(windows_normal(path)),
        windows_absolute(windows_normal(path)),
        windows_supported(windows_normal(path)),
        windows_normal(windows_normal(path)) == windows_normal(path),
{
    let normal = windows_normal(path);
    lemma_windows_normal_absolute(path);
    lemma_windows_normal_slashless(path);
    if doubly_rooted(path) {
        lemma_share_normal_form(path);
    } else {
        lemma_drive_normal_form(path);
    }
    assert forall|i: int| 0 <= i < windows_components(normal).len() implies
        windows_component_supported(#[trigger] windows_components(normal)[i]) by {
        assert(windows_component_supported(windows_components(path)[i]));
    }
}

/// Reading a resolved path again gives the same path.
pub proof fn resolved_path_reads_back(path: Seq<char>, platform: Platform, resolved: Seq<char>)
    requires
        resolves(path, platform, Ok(resolved)),
    ensures
        resolves(resolved, platform, Ok(resolved)),
{
    match platform {
        Platform::Unix => {
            lemma_unix_normal_form(path);
        },
        Platform::Windows => {
            assert(backslashed(backslashed(path)) =~= backslashed(path));
            lemma_windows_normal_form(backslashed(path));
        },
    }
}

impl ResolvedPathError {
    /// What the error says of the path.
    pub open spec fn message(self) -> Seq<char> {
        match self {
            ResolvedPathError::NotAbsolute { path } =>
                "resolved paths must be absolute on the current platform: "@ + path@,
            ResolvedPathError::ContainsParentComponent { path } =>
                "resolved paths must not contain a parent ('..') component: "@ + path@,
            ResolvedPathError::UnsupportedWindowsPath { path } =>
                "resolved path is not a supported normal Windows path: "@ + path@,
        }
    }

    /// What the error says of the path.
    pub fn to_text(&self) -> (text: String)
        ensures
            text@ == self.message(),
    {
        match self {
            ResolvedPathError::NotAbsolute { path } => {
                copy_of("resolved paths must be absolute on the current platform: ").concat(
                    path.as_str(),
                )
            },
            ResolvedPathError::ContainsParentComponent { path } => {
                copy_of("resolved paths must not contain a parent ('..') component: ").concat(
                    path.as_str(),
                )
            },
            ResolvedPathError::UnsupportedWindowsPath { path } => {
                copy_of("resolved path is not a supported normal Windows path: ").concat(
                    path.as_str(),
                )
            },
        }
    }
}

} // verus!
