//! How paths are spelled: which spellings are the same path, which are refused, and what a path made
//! of its entries comes to.

use vstd::prelude::*;
use vstd::string::*;
use crate::domain::paths::{
    backslashed, begins, doubly_rooted, drive_prefixed, drive_rooted, forbidden_in_windows,
    has_windows_drive_prefix, in_windows_namespace, is_device, is_letter, is_reserved_windows_name,
    named, normal_windows_path_from_canonicalize, path_key, share_rooted, source_component_allowed,
    upper, uppercase, windows_component_supported, windows_components, windows_components_start,
    windows_supported, Platform, ResolvedPath, ResolvedPathError, SourceRelativePath,
    SourceRelativePathError,
};
use crate::text::{
    join, lemma_position, lemma_position_at, lemma_split_join, opens, position, split, split_from,
};

verus! {

/// Whether two characters are the same but for the case of an ASCII letter.
pub open spec fn alike(left: char, right: char) -> bool {
    ||| left == right
    ||| 'a' <= left <= 'z' && right as int + 32 == left as int
    ||| 'a' <= right <= 'z' && left as int + 32 == right as int
}

/// Whether two texts are the same but for the case of ASCII letters.
pub open spec fn spelled_alike(left: Seq<char>, right: Seq<char>) -> bool {
    &&& left.len() == right.len()
    &&& forall|i: int| 0 <= i < left.len() ==> alike(#[trigger] left[i], right[i])
}

proof fn lemma_upper(character: char)
    ensures
        'a' <= character <= 'z' ==> upper(character) as int == character as int - 32,
        !('a' <= character <= 'z') ==> upper(character) == character,
{
}

proof fn lemma_alike(left: char, right: char)
    ensures
        alike(left, right) <==> upper(left) == upper(right),
{
    lemma_upper(left);
    lemma_upper(right);
}

proof fn lemma_spelled(text: Seq<char>, name: Seq<char>)
    requires
        forall|i: int| 0 <= i < name.len() ==> !('a' <= #[trigger] name[i] <= 'z'),
    ensures
        uppercase(text) == name <==> spelled_alike(text, name),
{
    let raised = uppercase(text);
    if spelled_alike(text, name) {
        assert forall|i: int| 0 <= i < raised.len() implies raised[i] == name[i] by {
            assert(alike(text[i], name[i]));
            lemma_alike(text[i], name[i]);
            lemma_upper(name[i]);
        }
        assert(raised =~= name);
    }
    if raised == name {
        assert forall|i: int| 0 <= i < text.len() implies alike(#[trigger] text[i], name[i]) by {
            assert(raised[i] == upper(text[i]));
            lemma_upper(name[i]);
            lemma_alike(text[i], name[i]);
        }
    }
}

/// Two paths are the same exactly if they are spelled the same, but for the case of a Windows drive.
pub proof fn paths_differ_but_for_the_case_of_a_drive(
    left: ResolvedPath,
    right: ResolvedPath,
    equal: bool,
)
    requires
        call_ensures(ResolvedPath::same, (&left, &right), equal),
    ensures
        equal <==> left@ == right@ || {
            &&& left@.len() == right@.len()
            &&& left@.len() >= 2
            &&& left@[1] == ':'
            &&& alike(left@[0], right@[0])
            &&& 'a' <= left@[0] <= 'z' || 'A' <= left@[0] <= 'Z'
            &&& left@.skip(1) == right@.skip(1)
        },
{
    let a = left@;
    let b = right@;
    if a.len() > 0 {
        lemma_upper(a[0]);
    }
    if b.len() > 0 {
        lemma_upper(b[0]);
    }
    if a.len() > 0 && b.len() > 0 {
        lemma_alike(a[0], b[0]);
    }
    let a_key = path_key(a);
    let b_key = path_key(b);
    if equal && a != b {
        assert(a_key.len() == a.len() && b_key.len() == b.len());
        assert forall|i: int| 1 <= i < a.len() implies a[i] == b[i] by {
            assert(a_key[i] == a[i]);
            assert(b_key[i] == b[i]);
        }
        assert(a.skip(1) =~= b.skip(1));
        if !drive_prefixed(a) {
            assert(a_key == a);
            assert(drive_prefixed(b));
            assert(a[0] == b_key[0]);
        }
        if !drive_prefixed(b) {
            assert(b_key == b);
            assert(b[0] == a_key[0]);
        }
        assert(a_key[0] == b_key[0]);
    }
    if a.len() == b.len() && a.len() >= 2 && a[1] == ':' && alike(a[0], b[0]) && is_letter(a[0])
        && a.skip(1) == b.skip(1) {
        assert(a.skip(1)[0] == a[1] && b.skip(1)[0] == b[1]);
        assert forall|i: int| 1 <= i < a.len() implies a[i] == b[i] by {
            assert(a.skip(1)[i - 1] == b.skip(1)[i - 1]);
        }
        assert(is_letter(b[0]));
        assert(a_key =~= b_key);
    }
}

/// A drive is one ASCII letter before a colon.
pub proof fn drive_is_a_letter_before_a_colon(path: &str, prefixed: bool)
    requires
        call_ensures(has_windows_drive_prefix, (path,), prefixed),
    ensures
        prefixed <==> path@.len() >= 2 && path@[1] == ':' && exists|letter: char|
            'A' <= letter <= 'Z' && #[trigger] alike(path@[0], letter),
{
    if path@.len() >= 2 {
        let first = path@[0];
        lemma_upper(first);
        if is_letter(first) {
            assert('A' <= upper(first) <= 'Z');
            lemma_upper(upper(first));
            lemma_alike(first, upper(first));
            assert(alike(first, upper(first)));
        }
    }
}

/// A Windows name is reserved exactly if it is spelled as a device up to its first dot, in whatever
/// case, and whatever follows.
pub proof fn name_is_reserved_by_what_stands_before_its_dot(
    component: Vec<char>,
    stem: Seq<char>,
    rest: Seq<char>,
    reserved: bool,
)
    requires
        call_ensures(is_reserved_windows_name, (&component,), reserved),
        component@ == stem + rest,
        !stem.contains('.'),
        rest.len() > 0 ==> rest[0] == '.',
    ensures
        reserved <==> {
            ||| spelled_alike(stem, "CON"@)
            ||| spelled_alike(stem, "PRN"@)
            ||| spelled_alike(stem, "AUX"@)
            ||| spelled_alike(stem, "NUL"@)
            ||| exists|number: char|
                '1' <= number <= '9' && (#[trigger] spelled_alike(stem, "COM"@.push(number))
                    || spelled_alike(stem, "LPT"@.push(number)))
        },
{
    reveal_strlit("CON");
    reveal_strlit("PRN");
    reveal_strlit("AUX");
    reveal_strlit("NUL");
    reveal_strlit("COM");
    reveal_strlit("LPT");
    let text = component@;
    assert forall|i: int| 0 <= i < stem.len() implies text[i] != '.' by {
        assert(text[i] == stem[i]);
        assert(stem.contains(stem[i]));
    }
    lemma_position_at(text, '.', 0, stem.len() as int);
    assert(text.take(stem.len() as int) =~= stem);
    let raised = uppercase(stem);
    assert("CON"@ =~= seq!['C', 'O', 'N']);
    assert("PRN"@ =~= seq!['P', 'R', 'N']);
    assert("AUX"@ =~= seq!['A', 'U', 'X']);
    assert("NUL"@ =~= seq!['N', 'U', 'L']);
    lemma_spelled(stem, "CON"@);
    lemma_spelled(stem, "PRN"@);
    lemma_spelled(stem, "AUX"@);
    lemma_spelled(stem, "NUL"@);
    if raised.len() == 4 && '1' <= raised[3] <= '9' {
        let number = raised[3];
        lemma_spelled(stem, "COM"@.push(number));
        lemma_spelled(stem, "LPT"@.push(number));
        if raised.subrange(0, 3) == seq!['C', 'O', 'M'] {
            assert(raised.subrange(0, 3)[0] == raised[0]);
            assert(raised.subrange(0, 3)[1] == raised[1]);
            assert(raised.subrange(0, 3)[2] == raised[2]);
            assert(raised =~= "COM"@.push(number));
        }
        if raised.subrange(0, 3) == seq!['L', 'P', 'T'] {
            assert(raised.subrange(0, 3)[0] == raised[0]);
            assert(raised.subrange(0, 3)[1] == raised[1]);
            assert(raised.subrange(0, 3)[2] == raised[2]);
            assert(raised =~= "LPT"@.push(number));
        }
        if is_device(raised) {
            assert(spelled_alike(stem, "COM"@.push(number)) || spelled_alike(
                stem,
                "LPT"@.push(number),
            ));
        }
    }
    assert forall|number: char|
        '1' <= number <= '9' && (#[trigger] spelled_alike(stem, "COM"@.push(number))
            || spelled_alike(stem, "LPT"@.push(number))) implies is_device(raised) by {
        lemma_spelled(stem, "COM"@.push(number));
        lemma_spelled(stem, "LPT"@.push(number));
        if raised == "COM"@.push(number) {
            assert(raised.subrange(0, 3) =~= seq!['C', 'O', 'M']);
        } else {
            assert(raised.subrange(0, 3) =~= seq!['L', 'P', 'T']);
        }
    }
}

/// A Windows name is supported exactly if it is not empty, ends with neither a space nor a dot, holds
/// none of the characters that have a meaning to Windows and no control character, and is not
/// reserved.
pub proof fn supported_name_holds_no_reserved_character(
    component: Vec<char>,
    reserved: bool,
)
    requires
        call_ensures(is_reserved_windows_name, (&component,), reserved),
    ensures
        windows_component_supported(component@) <==> {
            &&& component@.len() > 0
            &&& !" ."@.contains(component@.last())
            &&& forall|i: int|
                0 <= i < component@.len() ==> !"<>:\"|?*"@.contains(#[trigger] component@[i])
                    && component@[i] as int >= 32
            &&& !reserved
        },
{
    reveal_strlit(" .");
    reveal_strlit("<>:\"|?*");
    let marks = "<>:\"|?*"@;
    assert(marks[0] == '<' && marks[1] == '>' && marks[2] == ':' && marks[3] == '"' && marks[4]
        == '|' && marks[5] == '?' && marks[6] == '*' && marks.len() == 7);
    assert(" ."@[0] == ' ' && " ."@[1] == '.' && " ."@.len() == 2);
    assert forall|character: char| #[trigger] marks.contains(character) <==> character == '<'
        || character == '>' || character == ':' || character == '"' || character == '|'
        || character == '?' || character == '*' by {
        if character == '<' {
            assert(marks[0] == character);
        } else if character == '>' {
            assert(marks[1] == character);
        } else if character == ':' {
            assert(marks[2] == character);
        } else if character == '"' {
            assert(marks[3] == character);
        } else if character == '|' {
            assert(marks[4] == character);
        } else if character == '?' {
            assert(marks[5] == character);
        } else if character == '*' {
            assert(marks[6] == character);
        }
    }
    assert forall|character: char| #[trigger] " ."@.contains(character) <==> character == ' '
        || character == '.' by {
        if character == ' ' {
            assert(" ."@[0] == character);
        } else if character == '.' {
            assert(" ."@[1] == character);
        }
    }
    if windows_component_supported(component@) {
        assert forall|i: int| 0 <= i < component@.len() implies !marks.contains(
            #[trigger] component@[i],
        ) && component@[i] as int >= 32 by {
            assert(!forbidden_in_windows(component@[i]));
        }
    } else if component@.len() > 0 && !reserved && !" ."@.contains(component@.last()) {
        let i = choose|i: int|
            0 <= i < component@.len() && forbidden_in_windows(
                #[trigger] component@[i],
            );
        assert(marks.contains(component@[i]) || (component@[i] as int) < 32);
    }
}

/// A Unix path made of entries is refused exactly if one of them is the parent directory. Otherwise it
/// comes to the entries that name something, one separator before each.
pub proof fn unix_path_comes_to_its_named_entries(
    path: &str,
    parts: Seq<Seq<char>>,
    outcome: Result<ResolvedPath, ResolvedPathError>,
)
    requires
        call_ensures(ResolvedPath::new, (path, Platform::Unix), outcome),
        parts.len() > 0,
        forall|i: int| 0 <= i < parts.len() ==> !(#[trigger] parts[i]).contains('/'),
        path@ == seq!['/'] + join(parts, seq!['/']),
    ensures
        outcome is Err <==> parts.contains(".."@),
        (outcome matches Err(error) ==> (error matches ResolvedPathError::ContainsParentComponent {
            path: at,
        } && at@ == path@)),
        (outcome matches Ok(resolved) ==> resolved@ == seq!['/'] + join(
            parts.filter(|part: Seq<char>| part.len() > 0 && part != "."@),
            seq!['/'],
        )),
{
    reveal_strlit("..");
    reveal_strlit(".");
    assert(".."@ =~= seq!['.', '.']);
    assert("."@ =~= seq!['.']);
    let empty = Seq::<char>::empty();
    let all = seq![empty] + parts;
    assert forall|i: int| 0 <= i < all.len() implies !(#[trigger] all[i]).contains('/') by {
        if i > 0 {
            assert(!parts[i - 1].contains('/'));
        }
    }
    lemma_join_after_nothing(parts, seq!['/']);
    lemma_split_join(empty, all, '/');
    assert(empty + join(all, seq!['/']) =~= path@);
    assert(split(path@, '/') == all);
    if parts.contains(".."@) {
        let i = choose|i: int| 0 <= i < parts.len() && parts[i] == ".."@;
        assert(all[i + 1] == ".."@);
        assert(all.contains(".."@));
    }
    if all.contains(".."@) {
        let i = choose|i: int| 0 <= i < all.len() && all[i] == ".."@;
        assert(all[i].len() == 2);
        assert(i > 0);
        assert(parts[i - 1] == ".."@);
    }
    lemma_named_filter(all);
    lemma_filter_skips_nothing(parts);
}

proof fn lemma_join_after_nothing(parts: Seq<Seq<char>>, separator: Seq<char>)
    requires
        parts.len() > 0,
    ensures
        join(seq![Seq::<char>::empty()] + parts, separator) == separator + join(parts, separator),
    decreases parts.len(),
{
    let all = seq![Seq::<char>::empty()] + parts;
    assert(all.drop_last() =~= seq![Seq::<char>::empty()] + parts.drop_last());
    if parts.len() == 1 {
        assert(all.drop_last() =~= seq![Seq::<char>::empty()]);
        assert(join(all.drop_last(), separator) =~= Seq::<char>::empty());
        assert(join(all, separator) =~= separator + join(parts, separator));
    } else {
        lemma_join_after_nothing(parts.drop_last(), separator);
        assert(join(all, separator) =~= separator + join(parts, separator));
    }
}

proof fn lemma_named_filter(parts: Seq<Seq<char>>)
    ensures
        named(parts) == parts.filter(|part: Seq<char>| part.len() > 0 && part != "."@),
    decreases parts.len(),
{
    reveal_strlit(".");
    assert("."@ =~= seq!['.']);
    reveal(Seq::filter);
    if parts.len() > 0 {
        lemma_named_filter(parts.drop_last());
    }
}

proof fn lemma_filter_skips_nothing(parts: Seq<Seq<char>>)
    ensures
        (seq![Seq::<char>::empty()] + parts).filter(
            |part: Seq<char>| part.len() > 0 && part != "."@,
        ) == parts.filter(|part: Seq<char>| part.len() > 0 && part != "."@),
    decreases parts.len(),
{
    reveal(Seq::filter);
    let all = seq![Seq::<char>::empty()] + parts;
    if parts.len() > 0 {
        assert(all.drop_last() =~= seq![Seq::<char>::empty()] + parts.drop_last());
        assert(all.last() == parts.last());
        lemma_filter_skips_nothing(parts.drop_last());
    } else {
        assert(all.drop_last() =~= Seq::<Seq<char>>::empty());
        assert(all.last().len() == 0);
        assert(parts =~= Seq::<Seq<char>>::empty());
    }
}

/// A path is refused as not absolute under Unix rules exactly if it does not start with a separator.
pub proof fn unix_path_starts_with_a_separator(
    path: &str,
    outcome: Result<ResolvedPath, ResolvedPathError>,
)
    requires
        call_ensures(ResolvedPath::new, (path, Platform::Unix), outcome),
    ensures
        (outcome matches Err(ResolvedPathError::NotAbsolute { .. })) <==> !opens(path@, "/"@),
        (outcome matches Err(ResolvedPathError::NotAbsolute { path: at }) ==> at@ == path@),
        (outcome matches Ok(resolved) ==> opens(resolved@, "/"@)),
        !(outcome matches Err(ResolvedPathError::UnsupportedWindowsPath { .. })),
{
    reveal_strlit("/");
    assert("/"@[0] == '/' && "/"@.len() == 1);
    if path@.len() > 0 {
        let first = path@[0];
    }
    if let Ok(resolved) = outcome {
        assert(resolved@[0] == '/');
    }
}

/// Parts of a path without the nothing after a final separator.
pub open spec fn entries_of(parts: Seq<Seq<char>>) -> Seq<Seq<char>> {
    if parts.last().len() == 0 {
        parts.drop_last()
    } else {
        parts
    }
}

/// A Windows path on a drive, made of entries, is refused exactly if one of them is not supported, but
/// for the nothing after a final separator. Otherwise it comes to its entries.
pub proof fn windows_path_on_a_drive_comes_to_its_entries(
    path: &str,
    drive: char,
    parts: Seq<Seq<char>>,
    outcome: Result<ResolvedPath, ResolvedPathError>,
)
    requires
        call_ensures(ResolvedPath::new, (path, Platform::Windows), outcome),
        is_letter(drive),
        parts.len() > 0,
        forall|i: int|
            0 <= i < parts.len() ==> !(#[trigger] parts[i]).contains('/') && !parts[i].contains(
                '\\',
            ),
        path@ == seq![drive, ':', '\\'] + join(parts, seq!['\\']),
    ensures
        outcome is Ok <==> forall|i: int|
            0 <= i < entries_of(parts).len() ==> windows_component_supported(
                #[trigger] entries_of(parts)[i],
            ),
        (outcome matches Ok(resolved) ==> resolved@ == seq![drive, ':', '\\'] + join(
            entries_of(parts),
            seq!['\\'],
        )),
        (outcome matches Err(error) ==> (error matches
            ResolvedPathError::UnsupportedWindowsPath { path: at } && at@ == path@)),
{
    let root = seq![drive, ':', '\\'];
    let text = path@;
    lemma_split_join_without(root, parts);
    lemma_no_slash(root, parts);
    assert(backslashed(text) =~= text);
    assert(text[0] == drive && text[1] == ':' && text[2] == '\\');
    assert(drive_rooted(text));
    assert(!in_windows_namespace(text)) by {
        if begins(text, seq!['\\', '\\', '?', '\\']) {
            assert(text.subrange(0, 4)[0] == text[0]);
        }
        if begins(text, seq!['\\', '\\', '.', '\\']) {
            assert(text.subrange(0, 4)[0] == text[0]);
        }
        if begins(text, seq!['\\', '\\', '?', '?', '\\']) {
            assert(text.subrange(0, 5)[0] == text[0]);
        }
        if begins(text, seq!['\\', '?', '?', '\\']) {
            assert(text.subrange(0, 4)[0] == text[0]);
        }
    }
    assert(windows_components_start(text) == Some(3int));
    assert(text.take(3) =~= root);
    let entries = entries_of(parts);
    assert(windows_components(text) == entries);
    assert(!doubly_rooted(text));
    if windows_supported(text) {
        assert forall|i: int| 0 <= i < entries.len() implies windows_component_supported(
            #[trigger] entries[i],
        ) by {
            assert(windows_component_supported(windows_components(text)[i]));
        }
    }
    if forall|i: int| 0 <= i < entries.len() ==> windows_component_supported(#[trigger] entries[i]) {
        assert(windows_supported(text));
    }
}

/// A Windows path on a share, made of a server, a share and entries, is refused exactly if one of them
/// is not supported, but for the nothing after a final separator. Otherwise it comes to them, with a
/// separator after the share even where nothing follows.
pub proof fn windows_path_on_a_share_comes_to_its_entries(
    path: &str,
    parts: Seq<Seq<char>>,
    outcome: Result<ResolvedPath, ResolvedPathError>,
)
    requires
        call_ensures(ResolvedPath::new, (path, Platform::Windows), outcome),
        parts.len() >= 2,
        parts[0].len() > 0,
        parts[1].len() > 0,
        forall|i: int|
            0 <= i < parts.len() ==> !(#[trigger] parts[i]).contains('/') && !parts[i].contains(
                '\\',
            ),
        path@ == seq!['\\', '\\'] + join(parts, seq!['\\']),
    ensures
        outcome is Ok <==> forall|i: int|
            0 <= i < entries_of(parts).len() ==> windows_component_supported(
                #[trigger] entries_of(parts)[i],
            ),
        (outcome matches Ok(resolved) ==> resolved@ == seq!['\\', '\\'] + parts[0] + seq!['\\']
            + parts[1] + seq!['\\'] + join(entries_of(parts).skip(2), seq!['\\'])),
        (outcome matches Err(error) ==> (error matches
            ResolvedPathError::UnsupportedWindowsPath { path: at } && at@ == path@)),
{
    let root = seq!['\\', '\\'];
    let text = path@;
    lemma_split_join_without(root, parts);
    lemma_no_slash(root, parts);
    assert(backslashed(text) =~= text);
    assert(text[0] == '\\' && text[1] == '\\');
    assert(split_from(text, '\\', 2) == parts);
    let cut = position(text, '\\', 2);
    lemma_position(text, '\\', 2);
    assert(cut < text.len());
    assert(parts[0] == text.subrange(2, cut));
    assert(parts[0][0] == text[2]);
    let rest = split_from(text, '\\', cut + 1);
    assert(rest[0] == parts[1]);
    lemma_position(text, '\\', cut + 1);
    assert(parts[1][0] == text[cut + 1]);
    assert(parts[1].contains(parts[1][0]));
    assert(share_rooted(text));
    assert(windows_components_start(text) == Some(2int));
    let entries = entries_of(parts);
    assert(windows_components(text) == entries);
    assert(entries.len() >= 2 && entries[0] == parts[0] && entries[1] == parts[1]);
    assert(in_windows_namespace(text) ==> !windows_component_supported(entries[0])) by {
        if in_windows_namespace(text) {
            if begins(text, seq!['\\', '?', '?', '\\']) {
                assert(text.subrange(0, 4)[1] == text[1]);
            } else if begins(text, seq!['\\', '\\', '.', '\\']) {
                assert(text.subrange(0, 4)[2] == text[2]);
                assert(text.subrange(0, 4)[3] == text[3]);
                assert(cut == 3);
                assert(entries[0].last() == '.');
            } else {
                if begins(text, seq!['\\', '\\', '?', '\\']) {
                    assert(text.subrange(0, 4)[2] == text[2]);
                } else {
                    assert(text.subrange(0, 5)[2] == text[2]);
                }
                assert(entries[0][0] == '?');
            }
        }
    }
    if windows_supported(text) {
        assert forall|i: int| 0 <= i < entries.len() implies windows_component_supported(
            #[trigger] entries[i],
        ) by {
            assert(windows_component_supported(windows_components(text)[i]));
        }
    }
    if forall|i: int| 0 <= i < entries.len() ==> windows_component_supported(#[trigger] entries[i]) {
        assert(windows_supported(text));
    }
}

proof fn lemma_split_join_without(root: Seq<char>, parts: Seq<Seq<char>>)
    requires
        parts.len() > 0,
        forall|i: int|
            0 <= i < parts.len() ==> !(#[trigger] parts[i]).contains('/') && !parts[i].contains(
                '\\',
            ),
    ensures
        split_from(root + join(parts, seq!['\\']), '\\', root.len() as int) == parts,
{
    lemma_split_join(root, parts, '\\');
}

proof fn lemma_no_slash(root: Seq<char>, parts: Seq<Seq<char>>)
    requires
        forall|i: int| 0 <= i < root.len() ==> #[trigger] root[i] != '/',
        forall|i: int|
            0 <= i < parts.len() ==> !(#[trigger] parts[i]).contains('/') && !parts[i].contains(
                '\\',
            ),
    ensures
        forall|i: int|
            0 <= i < (root + join(parts, seq!['\\'])).len() ==> #[trigger] (root + join(
                parts,
                seq!['\\'],
            ))[i] != '/',
    decreases parts.len(),
{
    let whole = root + join(parts, seq!['\\']);
    if parts.len() == 0 {
        assert(whole =~= root);
    } else if parts.len() == 1 {
        assert forall|i: int| 0 <= i < whole.len() implies #[trigger] whole[i] != '/' by {
            if i >= root.len() {
                assert(!parts[0].contains('/'));
                assert(whole[i] == parts[0][i - root.len()]);
                assert(parts[0].contains(parts[0][i - root.len()]));
            } else {
                assert(whole[i] == root[i]);
            }
        }
    } else {
        let front = parts.drop_last();
        assert forall|i: int| 0 <= i < front.len() implies !(#[trigger] front[i]).contains('/')
            && !front[i].contains('\\') by {
            assert(front[i] == parts[i]);
        }
        lemma_no_slash(root, front);
        let before = root + join(front, seq!['\\']);
        assert(whole =~= before + seq!['\\'] + parts.last());
        assert forall|i: int| 0 <= i < whole.len() implies #[trigger] whole[i] != '/' by {
            if i < before.len() {
                assert(whole[i] == before[i]);
            } else if i > before.len() {
                let k = i - before.len() - 1;
                assert(!parts[parts.len() - 1].contains('/'));
                assert(whole[i] == parts.last()[k]);
                assert(parts.last().contains(parts.last()[k]));
            }
        }
    }
}

/// A path in a device or verbatim namespace of Windows is never taken for an ordinary one, with
/// whichever slashes it is written.
pub proof fn path_in_a_windows_namespace_is_refused(
    path: &str,
    outcome: Result<ResolvedPath, ResolvedPathError>,
)
    requires
        call_ensures(ResolvedPath::new, (path, Platform::Windows), outcome),
        opens(backslashed(path@), "\\\\?\\"@) || opens(backslashed(path@), "\\\\.\\"@) || opens(
            backslashed(path@),
            "\\\\??\\"@,
        ) || opens(backslashed(path@), "\\??\\"@),
    ensures
        outcome matches Err(ResolvedPathError::UnsupportedWindowsPath { path: at }) && at@ == path@,
{
    reveal_strlit("\\\\?\\");
    reveal_strlit("\\\\.\\");
    reveal_strlit("\\\\??\\");
    reveal_strlit("\\??\\");
    let text = backslashed(path@);
    if opens(text, "\\\\?\\"@) {
        assert(text.subrange(0, 4) =~= seq!['\\', '\\', '?', '\\']);
    }
    if opens(text, "\\\\.\\"@) {
        assert(text.subrange(0, 4) =~= seq!['\\', '\\', '.', '\\']);
    }
    if opens(text, "\\\\??\\"@) {
        assert(text.subrange(0, 5) =~= seq!['\\', '\\', '?', '?', '\\']);
    }
    if opens(text, "\\??\\"@) {
        assert(text.subrange(0, 4) =~= seq!['\\', '?', '?', '\\']);
    }
}

/// A slash and a backslash are the same to Windows: a path and the same path with every slash turned
/// come to the same.
pub proof fn slashes_are_alike_to_windows(
    path: &str,
    turned: &str,
    outcome: Result<ResolvedPath, ResolvedPathError>,
    other: Result<ResolvedPath, ResolvedPathError>,
)
    requires
        call_ensures(ResolvedPath::new, (path, Platform::Windows), outcome),
        call_ensures(ResolvedPath::new, (turned, Platform::Windows), other),
        turned@.len() == path@.len(),
        forall|i: int|
            0 <= i < path@.len() ==> #[trigger] turned@[i] == if path@[i] == '/' {
                '\\'
            } else {
                path@[i]
            },
    ensures
        outcome is Ok <==> other is Ok,
        outcome is Ok ==> outcome->Ok_0@ == other->Ok_0@,
{
    assert(backslashed(path@) =~= turned@);
    assert(backslashed(turned@) =~= turned@);
}

/// What the system's canonicalization puts before a path is taken off it, and nothing else is.
pub proof fn verbatim_spelling_is_taken_back(path: &str, rest: Seq<char>, normal: String)
    requires
        call_ensures(normal_windows_path_from_canonicalize, (path,), normal),
    ensures
        path@ == "\\\\?\\UNC\\"@ + rest ==> normal@ == "\\\\"@ + rest,
        path@ == "\\\\?\\"@ + rest && !opens(rest, "UNC\\"@) ==> normal@ == rest,
        !opens(path@, "\\\\?\\"@) ==> normal@ == path@,
{
    reveal_strlit("\\\\?\\UNC\\");
    reveal_strlit("\\\\?\\");
    reveal_strlit("\\\\");
    reveal_strlit("UNC\\");
    let text = path@;
    let long = seq!['\\', '\\', '?', '\\', 'U', 'N', 'C', '\\'];
    let short = seq!['\\', '\\', '?', '\\'];
    if text == "\\\\?\\UNC\\"@ + rest {
        assert(text.subrange(0, 8) =~= long);
        assert(text.skip(8) =~= rest);
        assert(normal@ =~= "\\\\"@ + rest);
    }
    if text == "\\\\?\\"@ + rest && !opens(rest, "UNC\\"@) {
        assert(text.subrange(0, 4) =~= short);
        assert(text.skip(4) =~= rest);
        if begins(text, long) {
            let start = text.subrange(0, 8);
            assert(start[4] == rest[0] && start[5] == rest[1] && start[6] == rest[2] && start[7]
                == rest[3]);
            assert(opens(rest, "UNC\\"@));
        }
    }
    if !opens(text, "\\\\?\\"@) {
        if begins(text, short) {
            let start = text.subrange(0, 4);
            assert(start[0] == text[0] && start[1] == text[1] && start[2] == text[2] && start[3]
                == text[3]);
            assert(opens(text, "\\\\?\\"@));
        }
        if begins(text, long) {
            let start = text.subrange(0, 8);
            assert(start[0] == text[0] && start[1] == text[1] && start[2] == text[2] && start[3]
                == text[3]);
            assert(opens(text, "\\\\?\\"@));
        }
    }
}

/// A canonicalized path is read as the path that it stands for: as it is under Unix rules, and under
/// Windows rules as the long spelling, or else without its verbatim prefix.
pub proof fn canonicalized_path_is_read_as_what_it_stands_for(
    path: &str,
    long: &str,
    normal: String,
    plain: &str,
    on_unix: Result<ResolvedPath, ResolvedPathError>,
    unix: Result<ResolvedPath, ResolvedPathError>,
    by_long: Result<ResolvedPath, ResolvedPathError>,
    of_long: Result<ResolvedPath, ResolvedPathError>,
    by_normal: Result<ResolvedPath, ResolvedPathError>,
    of_normal: Result<ResolvedPath, ResolvedPathError>,
)
    requires
        call_ensures(
            ResolvedPath::from_platform_canonicalized,
            (path, Platform::Unix, Some(long)),
            on_unix,
        ),
        call_ensures(ResolvedPath::new, (path, Platform::Unix), unix),
        call_ensures(
            ResolvedPath::from_platform_canonicalized,
            (path, Platform::Windows, Some(long)),
            by_long,
        ),
        call_ensures(ResolvedPath::new, (long, Platform::Windows), of_long),
        call_ensures(
            ResolvedPath::from_platform_canonicalized,
            (path, Platform::Windows, None),
            by_normal,
        ),
        call_ensures(normal_windows_path_from_canonicalize, (path,), normal),
        plain@ == normal@,
        call_ensures(ResolvedPath::new, (plain, Platform::Windows), of_normal),
    ensures
        on_unix is Ok <==> unix is Ok,
        on_unix is Ok ==> on_unix->Ok_0@ == unix->Ok_0@,
        by_long is Ok <==> of_long is Ok,
        by_long is Ok ==> by_long->Ok_0@ == of_long->Ok_0@,
        by_normal is Ok <==> of_normal is Ok,
        by_normal is Ok ==> by_normal->Ok_0@ == of_normal->Ok_0@,
{
}

/// A source declaration made of entries is allowed exactly if it is relative and every entry names
/// something below it: none is empty, the current or the parent directory, or on a drive, and none
/// holds a backslash. It is then those entries, in order.
pub proof fn source_declaration_is_its_entries(
    raw_path: &str,
    parts: Seq<Seq<char>>,
    outcome: Result<SourceRelativePath, SourceRelativePathError>,
)
    requires
        call_ensures(SourceRelativePath::parse, (raw_path,), outcome),
        parts.len() > 0,
        forall|i: int| 0 <= i < parts.len() ==> !(#[trigger] parts[i]).contains('/'),
        raw_path@ == join(parts, seq!['/']),
    ensures
        outcome is Ok ==> forall|i: int|
            0 <= i < parts.len() ==> (#[trigger] parts[i]).len() > 0 && parts[i] != "."@
                && parts[i] != ".."@ && !drive_prefixed(parts[i]) && !parts[i].contains('\\'),
        outcome is Ok ==> !(parts.len() > 1 && parts[0] == "~"@),
        (forall|i: int|
            0 <= i < parts.len() ==> (#[trigger] parts[i]).len() > 0 && parts[i] != "."@
                && parts[i] != ".."@ && !drive_prefixed(parts[i]) && !parts[i].contains('\\')) && !(
        parts.len() > 1 && parts[0] == "~"@) ==> outcome is Ok,
        (outcome matches Ok(path) ==> path@ == parts),
{
    reveal_strlit(".");
    reveal_strlit("..");
    reveal_strlit("~");
    assert("."@ =~= seq!['.']);
    assert(".."@ =~= seq!['.', '.']);
    assert("~"@ =~= seq!['~']);
    let text = raw_path@;
    let empty = Seq::<char>::empty();
    lemma_split_join(empty, parts, '/');
    assert(empty + join(parts, seq!['/']) =~= text);
    assert(split(text, '/') == parts);
    lemma_first_entry(parts);
    lemma_backslash_in_an_entry(parts);
    if outcome is Ok {
        assert forall|i: int| 0 <= i < parts.len() implies (#[trigger] parts[i]).len() > 0
            && parts[i] != "."@ && parts[i] != ".."@ && !drive_prefixed(parts[i])
            && !parts[i].contains('\\') by {
            assert(source_component_allowed(split(text, '/')[i]));
        }
        if parts.len() > 1 && parts[0] == "~"@ {
            assert(text.subrange(0, 2) =~= seq!['~', '/']);
        }
    } else {
        if (forall|i: int|
            0 <= i < parts.len() ==> (#[trigger] parts[i]).len() > 0 && parts[i] != "."@ && parts[i]
                != ".."@ && !drive_prefixed(parts[i]) && !parts[i].contains('\\')) && !(parts.len()
            > 1 && parts[0] == "~"@) {
            assert(parts[0].len() > 0);
            assert(text[0] == parts[0][0]);
            assert(!parts[0].contains('/'));
            assert(parts[0].contains(parts[0][0]));
            if begins(text, seq!['~', '/']) {
                assert(text.subrange(0, 2)[0] == text[0]);
                assert(text.subrange(0, 2)[1] == text[1]);
                if parts[0].len() > 1 {
                    assert(text[1] == parts[0][1]);
                    assert(parts[0].contains(parts[0][1]));
                } else {
                    assert(parts[0] =~= "~"@);
                    if parts.len() == 1 {
                        assert(text.len() == 1);
                    }
                }
            }
            if drive_prefixed(text) {
                if parts[0].len() > 1 {
                    assert(text[1] == parts[0][1]);
                    assert(drive_prefixed(parts[0]));
                } else if parts.len() > 1 {
                    assert(text[1] == '/');
                } else {
                    assert(text.len() == 1);
                }
            }
            assert forall|i: int| 0 <= i < split(text, '/').len() implies source_component_allowed(
                #[trigger] split(text, '/')[i],
            ) by {
                assert(parts[i].len() > 0);
            }
        }
    }
}

proof fn lemma_first_entry(parts: Seq<Seq<char>>)
    requires
        parts.len() > 0,
    ensures
        join(parts, seq!['/']).len() >= parts[0].len(),
        forall|i: int| 0 <= i < parts[0].len() ==> #[trigger] join(parts, seq!['/'])[i] == parts[0][i],
        parts.len() > 1 ==> join(parts, seq!['/']).len() > parts[0].len() && join(
            parts,
            seq!['/'],
        )[parts[0].len() as int] == '/',
        parts.len() == 1 ==> join(parts, seq!['/']) == parts[0],
    decreases parts.len(),
{
    if parts.len() > 1 {
        let front = parts.drop_last();
        lemma_first_entry(front);
        let before = join(front, seq!['/']);
        let whole = join(parts, seq!['/']);
        assert(whole =~= before + seq!['/'] + parts.last());
        assert forall|i: int| 0 <= i < parts[0].len() implies #[trigger] whole[i] == parts[0][i] by {
            assert(whole[i] == before[i]);
        }
    }
}

proof fn lemma_backslash_in_an_entry(parts: Seq<Seq<char>>)
    requires
        parts.len() > 0,
    ensures
        join(parts, seq!['/']).contains('\\') <==> exists|i: int|
            0 <= i < parts.len() && (#[trigger] parts[i]).contains('\\'),
    decreases parts.len(),
{
    let whole = join(parts, seq!['/']);
    if parts.len() == 1 {
        if whole.contains('\\') {
            assert(parts[0].contains('\\'));
        }
    } else {
        let front = parts.drop_last();
        lemma_backslash_in_an_entry(front);
        let before = join(front, seq!['/']);
        assert(whole =~= before + seq!['/'] + parts.last());
        if whole.contains('\\') {
            let k = choose|k: int| 0 <= k < whole.len() && whole[k] == '\\';
            if k < before.len() {
                assert(before[k] == '\\');
                assert(before.contains('\\'));
                let i = choose|i: int| 0 <= i < front.len() && (#[trigger] front[i]).contains('\\');
                assert(parts[i].contains('\\'));
            } else {
                assert(k != before.len());
                assert(parts.last()[k - before.len() - 1] == '\\');
                assert(parts[parts.len() - 1].contains('\\'));
            }
        }
        if exists|i: int| 0 <= i < parts.len() && (#[trigger] parts[i]).contains('\\') {
            let i = choose|i: int| 0 <= i < parts.len() && (#[trigger] parts[i]).contains('\\');
            if i < front.len() {
                assert(front[i].contains('\\'));
                assert(before.contains('\\'));
                let k = choose|k: int| 0 <= k < before.len() && before[k] == '\\';
                assert(whole[k] == '\\');
            } else {
                let k = choose|k: int| 0 <= k < parts.last().len() && parts.last()[k] == '\\';
                assert(whole[before.len() + 1 + k] == '\\');
            }
        }
    }
}

} // verus!
