//! Text as sequences of characters: conversion, comparison, order, splitting and joining.

use vstd::prelude::*;
use vstd::string::*;

verus! {

/// `String::push` appends exactly one character at the end of the string.
pub assume_specification[ String::push ](string: &mut String, character: char)
    ensures
        final(string)@ == old(string)@.push(character),
;

/// The characters of every text in a list, in order.
pub open spec fn texts(list: Seq<String>) -> Seq<Seq<char>> {
    Seq::new(list.len(), |i: int| list[i]@)
}

/// The characters of a text.
pub fn chars_of(text: &str) -> (chars: Vec<char>)
    ensures
        chars@ == text@,
{
    let mut chars: Vec<char> = Vec::new();
    for character in iter: text.chars()
        invariant
            iter.seq() == text@,
            chars@ == text@.take(iter.index()),
    {
        chars.push(character);
    }
    chars
}

/// The text made of the characters from `start` up to `end`.
pub fn text_of(chars: &Vec<char>, start: usize, end: usize) -> (text: String)
    requires
        start <= end <= chars@.len(),
    ensures
        text@ == chars@.subrange(start as int, end as int),
{
    let mut text = String::new();
    let mut i: usize = start;
    while i < end
        invariant
            start <= i <= end <= chars@.len(),
            text@ == chars@.subrange(start as int, i as int),
        decreases end - i,
    {
        text.push(chars[i]);
        i += 1;
    }
    text
}

/// Whether a text stands at a position of another.
pub fn matches_at(chars: &Vec<char>, start: usize, part: &Vec<char>) -> (matches: bool)
    requires
        start + part@.len() <= chars@.len(),
    ensures
        matches == (chars@.subrange(start as int, start + part@.len()) == part@),
{
    let total: usize = chars.len();
    let mut i: usize = 0;
    while i < part.len()
        invariant
            i <= part@.len(),
            total == chars@.len(),
            start + part@.len() <= total,
            forall|k: int| 0 <= k < i ==> chars@[start + k] == #[trigger] part@[k],
        decreases part.len() - i,
    {
        if chars[start + i] != part[i] {
            assert(chars@.subrange(start as int, start + part@.len())[i as int] != part@[i as int]);
            return false;
        }
        i += 1;
    }
    assert(chars@.subrange(start as int, start + part@.len()) =~= part@);
    true
}

/// Whether two texts hold the same characters.
pub fn text_equal(left: &str, right: &str) -> (equal: bool)
    ensures
        equal == (left@ == right@),
{
    left.to_owned() == right.to_owned()
}

/// An owned copy of a text.
pub fn copy_of(text: &str) -> (copy: String)
    ensures
        copy@ == text@,
{
    text.to_owned()
}

/// The order of texts by code point, the first difference deciding.
pub open spec fn precedes(left: Seq<char>, right: Seq<char>) -> bool
    decreases left.len(),
{
    if right.len() == 0 {
        false
    } else if left.len() == 0 {
        true
    } else if left[0] == right[0] {
        precedes(left.drop_first(), right.drop_first())
    } else {
        (left[0] as int) < (right[0] as int)
    }
}

/// No text precedes itself.
pub proof fn lemma_precedes_irreflexive(text: Seq<char>)
    ensures
        !precedes(text, text),
    decreases text.len(),
{
    if text.len() > 0 {
        lemma_precedes_irreflexive(text.drop_first());
    }
}

/// The order of texts is transitive.
pub proof fn lemma_precedes_transitive(first: Seq<char>, second: Seq<char>, third: Seq<char>)
    requires
        precedes(first, second),
        precedes(second, third),
    ensures
        precedes(first, third),
    decreases first.len(),
{
    if first.len() > 0 && second.len() > 0 && third.len() > 0 && first[0] == second[0] && second[0]
        == third[0] {
        lemma_precedes_transitive(first.drop_first(), second.drop_first(), third.drop_first());
    }
}

/// Of two different texts one precedes the other.
pub proof fn lemma_precedes_total(left: Seq<char>, right: Seq<char>)
    ensures
        left == right || precedes(left, right) || precedes(right, left),
    decreases left.len(),
{
    if left.len() == 0 || right.len() == 0 {
        if left.len() == 0 && right.len() == 0 {
            assert(left =~= right);
        }
    } else if left[0] == right[0] {
        lemma_precedes_total(left.drop_first(), right.drop_first());
        if left.drop_first() == right.drop_first() {
            assert(left =~= seq![left[0]] + left.drop_first());
            assert(right =~= seq![right[0]] + right.drop_first());
        }
    }
}

/// Whether one text precedes another in code point order.
pub fn text_precedes(left: &str, right: &str) -> (before: bool)
    ensures
        before == precedes(left@, right@),
{
    let a = chars_of(left);
    let b = chars_of(right);
    let mut i: usize = 0;
    proof {
        assert(a@.skip(0) =~= a@);
        assert(b@.skip(0) =~= b@);
    }
    while i < a.len() && i < b.len() && a[i] == b[i]
        invariant
            i <= a.len(),
            i <= b.len(),
            a@ == left@,
            b@ == right@,
            precedes(left@, right@) == precedes(a@.skip(i as int), b@.skip(i as int)),
        decreases a.len() - i,
    {
        proof {
            assert(a@.skip(i as int).drop_first() =~= a@.skip(i + 1));
            assert(b@.skip(i as int).drop_first() =~= b@.skip(i + 1));
        }
        i += 1;
    }
    if i >= b.len() {
        false
    } else if i >= a.len() {
        true
    } else {
        a[i] < b[i]
    }
}

/// The first position at or after `from` that holds `character`, or the length.
pub open spec fn position(text: Seq<char>, character: char, from: int) -> int
    decreases text.len() - from,
{
    if from < 0 || from >= text.len() {
        text.len() as int
    } else if text[from] == character {
        from
    } else {
        position(text, character, from + 1)
    }
}

/// What `position` promises: nothing before the position holds the character.
pub proof fn lemma_position(text: Seq<char>, character: char, from: int)
    requires
        0 <= from <= text.len(),
    ensures
        from <= position(text, character, from) <= text.len(),
        position(text, character, from) < text.len() ==> text[position(text, character, from)]
            == character,
        forall|i: int| from <= i < position(text, character, from) ==> text[i] != character,
    decreases text.len() - from,
{
    if from < text.len() && text[from] != character {
        lemma_position(text, character, from + 1);
    }
}

/// The first position at or after `from` that holds `character`, or the length.
pub fn find_from(chars: &Vec<char>, character: char, from: usize) -> (found: usize)
    requires
        from <= chars@.len(),
    ensures
        found == position(chars@, character, from as int),
        from <= found <= chars@.len(),
{
    let mut i: usize = from;
    while i < chars.len() && chars[i] != character
        invariant
            from <= i <= chars@.len(),
            position(chars@, character, from as int) == position(chars@, character, i as int),
        decreases chars.len() - i,
    {
        i += 1;
    }
    i
}

/// The pieces of a text from `start` on, cut at every separator.
pub open spec fn split_from(text: Seq<char>, separator: char, start: int) -> Seq<Seq<char>>
    decreases text.len() - start,
{
    let cut = position(text, separator, start);
    if start < 0 || cut < start || cut >= text.len() {
        seq![text.skip(start)]
    } else {
        seq![text.subrange(start, cut)] + split_from(text, separator, cut + 1)
    }
}

/// The pieces of a text, cut at every separator: one piece more than there are separators.
pub open spec fn split(text: Seq<char>, separator: char) -> Seq<Seq<char>> {
    split_from(text, separator, 0)
}

/// The pieces of a text from `start` on, cut at every separator.
pub fn split_chars(chars: &Vec<char>, separator: char, start: usize) -> (pieces: Vec<Vec<char>>)
    requires
        start <= chars@.len(),
    ensures
        pieces@.len() == split_from(chars@, separator, start as int).len(),
        forall|i: int|
            0 <= i < pieces@.len() ==> (#[trigger] pieces@[i])@ == split_from(
                chars@,
                separator,
                start as int,
            )[i],
        pieces@.len() >= 1,
{
    let mut pieces: Vec<Vec<char>> = Vec::new();
    let mut from: usize = start;
    let ghost whole = split_from(chars@, separator, start as int);
    loop
        invariant
            from <= chars@.len(),
            whole == split_from(chars@, separator, start as int),
            whole.len() == pieces@.len() + split_from(chars@, separator, from as int).len(),
            whole.skip(pieces@.len() as int) == split_from(chars@, separator, from as int),
            forall|i: int| 0 <= i < pieces@.len() ==> (#[trigger] pieces@[i])@ == whole[i],
        decreases chars.len() - from,
    {
        let cut = find_from(chars, separator, from);
        let mut piece: Vec<char> = Vec::new();
        let mut i: usize = from;
        while i < cut
            invariant
                from <= i <= cut <= chars@.len(),
                piece@ == chars@.subrange(from as int, i as int),
            decreases cut - i,
        {
            piece.push(chars[i]);
            i += 1;
        }
        let ghost rest = split_from(chars@, separator, from as int);
        let ghost done = pieces@.len();
        assert(rest.len() >= 1);
        assert(rest[0] == whole[done as int]);
        if cut >= chars.len() {
            assert(piece@ =~= chars@.skip(from as int));
            assert(rest.len() == 1);
            pieces.push(piece);
            return pieces;
        }
        proof {
            let tail = split_from(chars@, separator, cut + 1);
            assert(rest == seq![chars@.subrange(from as int, cut as int)] + tail);
            assert(whole.skip(done as int + 1) =~= rest.skip(1));
            assert(rest.skip(1) =~= tail);
        }
        pieces.push(piece);
        from = cut + 1;
    }
}

/// A position is known by what stands before it and at it.
pub proof fn lemma_position_at(text: Seq<char>, character: char, from: int, at: int)
    requires
        0 <= from <= at <= text.len(),
        forall|i: int| from <= i < at ==> text[i] != character,
        at < text.len() ==> text[at] == character,
    ensures
        position(text, character, from) == at,
    decreases at - from,
{
    if from < at {
        lemma_position_at(text, character, from + 1, at);
    }
}

/// A cut text has a first piece, and no piece holds the separator.
pub proof fn lemma_split_pieces(text: Seq<char>, separator: char, start: int)
    requires
        0 <= start <= text.len(),
    ensures
        split_from(text, separator, start).len() >= 1,
        forall|i: int, k: int|
            #![trigger split_from(text, separator, start)[i][k]]
            0 <= i < split_from(text, separator, start).len() && 0 <= k < split_from(
                text,
                separator,
                start,
            )[i].len() ==> split_from(text, separator, start)[i][k] != separator,
    decreases text.len() - start,
{
    lemma_position(text, separator, start);
    let cut = position(text, separator, start);
    let pieces = split_from(text, separator, start);
    if cut < text.len() {
        let rest = split_from(text, separator, cut + 1);
        lemma_split_pieces(text, separator, cut + 1);
        assert(pieces == seq![text.subrange(start, cut)] + rest);
        assert forall|i: int, k: int|
            #![trigger pieces[i][k]]
            0 <= i < pieces.len() && 0 <= k < pieces[i].len() implies pieces[i][k] != separator by {
            if i > 0 {
                assert(pieces[i] == rest[i - 1]);
                assert(rest[i - 1][k] != separator);
            }
        }
    }
}

/// Every character of a piece is a character of the text.
pub proof fn lemma_split_characters(text: Seq<char>, separator: char, start: int, i: int, k: int)
    requires
        0 <= start <= text.len(),
        0 <= i < split_from(text, separator, start).len(),
        0 <= k < split_from(text, separator, start)[i].len(),
    ensures
        text.contains(split_from(text, separator, start)[i][k]),
    decreases text.len() - start,
{
    lemma_position(text, separator, start);
    let cut = position(text, separator, start);
    let pieces = split_from(text, separator, start);
    if cut < text.len() && i > 0 {
        let rest = split_from(text, separator, cut + 1);
        assert(pieces == seq![text.subrange(start, cut)] + rest);
        assert(pieces[i] == rest[i - 1]);
        lemma_split_characters(text, separator, cut + 1, i - 1, k);
    } else {
        assert(pieces[i][k] == text[start + k]);
    }
}

/// A separator and a piece added to a text add that piece to its pieces.
pub proof fn lemma_split_push(text: Seq<char>, separator: char, start: int, piece: Seq<char>)
    requires
        0 <= start <= text.len(),
        !piece.contains(separator),
    ensures
        split_from(text + seq![separator] + piece, separator, start) == split_from(
            text,
            separator,
            start,
        ).push(piece),
    decreases text.len() - start,
{
    let longer = text + seq![separator] + piece;
    lemma_position(text, separator, start);
    let cut = position(text, separator, start);
    assert forall|i: int| start <= i < cut implies longer[i] != separator by {
        assert(longer[i] == text[i]);
    }
    lemma_position_at(longer, separator, start, cut);
    if cut < text.len() {
        lemma_split_push(text, separator, cut + 1, piece);
        assert(longer.subrange(start, cut) =~= text.subrange(start, cut));
        assert(split_from(longer, separator, start) =~= split_from(text, separator, start).push(
            piece,
        ));
    } else {
        assert(longer.subrange(start, cut) =~= text.skip(start));
        assert forall|i: int| cut + 1 <= i < longer.len() implies longer[i] != separator by {
            assert(piece.contains(longer[i])) by {
                assert(piece[i - cut - 1] == longer[i]);
            }
        }
        lemma_position_at(longer, separator, cut + 1, longer.len() as int);
        assert(longer.skip(cut + 1) =~= piece);
        assert(split_from(longer, separator, cut + 1) =~= seq![piece]);
        assert(split_from(longer, separator, start) =~= seq![text.skip(start), piece]);
    }
}

/// A start, then texts without the separator joined by it, is cut back into those texts.
///
/// The start ends where the pieces start, and holds the separator before them.
pub proof fn lemma_split_join(start: Seq<char>, parts: Seq<Seq<char>>, separator: char)
    requires
        parts.len() >= 1,
        forall|i: int| 0 <= i < parts.len() ==> !(#[trigger] parts[i]).contains(separator),
    ensures
        split_from(start + join(parts, seq![separator]), separator, start.len() as int) == parts,
    decreases parts.len(),
{
    let whole = start + join(parts, seq![separator]);
    let n = start.len() as int;
    if parts.len() == 1 {
        assert forall|i: int| n <= i < whole.len() implies whole[i] != separator by {
            assert(parts[0].contains(parts[0][i - n]));
            assert(whole[i] == parts[0][i - n]);
        }
        lemma_position_at(whole, separator, n, whole.len() as int);
        assert(whole.skip(n) =~= parts[0]);
        assert(split_from(whole, separator, n) =~= parts);
    } else {
        let front = parts.drop_last();
        assert forall|i: int| 0 <= i < front.len() implies !(#[trigger] front[i]).contains(
            separator,
        ) by {
            assert(front[i] == parts[i]);
        }
        lemma_split_join(start, front, separator);
        let shorter = start + join(front, seq![separator]);
        assert(whole =~= shorter + seq![separator] + parts.last());
        assert(!parts[parts.len() - 1].contains(separator));
        lemma_split_push(shorter, separator, n, parts.last());
        assert(front.push(parts.last()) =~= parts);
    }
}

/// The texts of a list with a separator between neighbours.
pub open spec fn join(parts: Seq<Seq<char>>, separator: Seq<char>) -> Seq<char>
    decreases parts.len(),
{
    if parts.len() == 0 {
        Seq::empty()
    } else if parts.len() == 1 {
        parts[0]
    } else {
        join(parts.drop_last(), separator) + separator + parts.last()
    }
}

/// Two texts joined.
pub proof fn lemma_join_two(first: Seq<char>, second: Seq<char>, separator: Seq<char>)
    ensures
        join(seq![first, second], separator) == first + separator + second,
{
    let parts = seq![first, second];
    assert(parts.drop_last() =~= seq![first]);
    assert(join(parts.drop_last(), separator) == first);
}

/// The first two texts of a longer list stand before the rest, joined.
pub proof fn lemma_join_front(parts: Seq<Seq<char>>, separator: Seq<char>)
    requires
        parts.len() > 2,
    ensures
        join(parts, separator) == parts[0] + separator + parts[1] + separator + join(
            parts.skip(2),
            separator,
        ),
    decreases parts.len(),
{
    let front = parts.drop_last();
    assert(parts.skip(2).drop_last() =~= front.skip(2));
    assert(parts.skip(2).last() == parts.last());
    if parts.len() == 3 {
        assert(front =~= seq![parts[0], parts[1]]);
        lemma_join_two(parts[0], parts[1], separator);
        assert(parts.skip(2) =~= seq![parts[2]]);
    } else {
        lemma_join_front(front, separator);
        assert(join(parts, separator) =~= parts[0] + separator + parts[1] + separator + (join(
            front.skip(2),
            separator,
        ) + separator + parts.last()));
    }
}

/// A character in no text and not in the separator is not in the joined text.
pub proof fn lemma_join_free(parts: Seq<Seq<char>>, separator: Seq<char>, character: char)
    requires
        !separator.contains(character),
        forall|i: int| 0 <= i < parts.len() ==> !(#[trigger] parts[i]).contains(character),
    ensures
        !join(parts, separator).contains(character),
    decreases parts.len(),
{
    let joined = join(parts, separator);
    if parts.len() == 1 {
        assert(!parts[0].contains(character));
    } else if parts.len() > 1 {
        let front = parts.drop_last();
        assert forall|i: int| 0 <= i < front.len() implies !(#[trigger] front[i]).contains(
            character,
        ) by {
            assert(front[i] == parts[i]);
        }
        lemma_join_free(front, separator, character);
        let first = join(front, separator);
        assert(!parts[parts.len() - 1].contains(character));
        if joined.contains(character) {
            let k = choose|k: int| 0 <= k < joined.len() && joined[k] == character;
            if k < first.len() {
                assert(first[k] == character);
            } else if k < first.len() + separator.len() {
                assert(separator[k - first.len()] == character);
            } else {
                assert(parts.last()[k - first.len() - separator.len()] == character);
            }
        }
    }
}

/// The texts of a list with a separator between neighbours.
pub fn join_texts(parts: &Vec<String>, separator: &str) -> (joined: String)
    ensures
        joined@ == join(texts(parts@), separator@),
{
    let mut joined = String::new();
    let mut i: usize = 0;
    proof {
        assert(texts(parts@).take(0) =~= Seq::<Seq<char>>::empty());
    }
    while i < parts.len()
        invariant
            i <= parts@.len(),
            joined@ == join(texts(parts@).take(i as int), separator@),
        decreases parts.len() - i,
    {
        let ghost before = texts(parts@).take(i as int);
        let ghost after = texts(parts@).take(i + 1);
        proof {
            assert(after.drop_last() =~= before);
            assert(after.last() == parts@[i as int]@);
        }
        if i > 0 {
            joined.append(separator);
        }
        joined.append(parts[i].as_str());
        proof {
            if i == 0 {
                assert(joined@ =~= parts@[0]@);
            }
        }
        i += 1;
    }
    proof {
        assert(texts(parts@).take(i as int) =~= texts(parts@));
    }
    joined
}

/// Texts as lines: each one ends with a newline.
pub open spec fn lined(lines: Seq<Seq<char>>) -> Seq<char>
    decreases lines.len(),
{
    if lines.len() == 0 {
        Seq::empty()
    } else {
        lined(lines.drop_last()) + lines.last() + "\n"@
    }
}

/// The lines of two lists, one after the other, are the lines of both.
pub proof fn lemma_lined_add(first: Seq<Seq<char>>, second: Seq<Seq<char>>)
    ensures
        lined(first + second) == lined(first) + lined(second),
    decreases second.len(),
{
    if second.len() == 0 {
        assert(first + second =~= first);
        assert(lined(first) + lined(second) =~= lined(first));
    } else {
        assert((first + second).drop_last() =~= first + second.drop_last());
        assert((first + second).last() == second.last());
        lemma_lined_add(first, second.drop_last());
        assert(lined(first) + (lined(second.drop_last()) + second.last() + "\n"@) =~= lined(first)
            + lined(second.drop_last()) + second.last() + "\n"@);
    }
}

/// Texts as lines: each one ends with a newline.
pub fn lined_texts(lines: &Vec<String>) -> (text: String)
    ensures
        text@ == lined(texts(lines@)),
{
    let mut text = String::new();
    let mut i: usize = 0;
    proof {
        assert(texts(lines@).take(0) =~= Seq::<Seq<char>>::empty());
    }
    while i < lines.len()
        invariant
            i <= lines@.len(),
            text@ == lined(texts(lines@).take(i as int)),
        decreases lines.len() - i,
    {
        let ghost after = texts(lines@).take(i + 1);
        proof {
            assert(after.drop_last() =~= texts(lines@).take(i as int));
            assert(after.last() == lines@[i as int]@);
        }
        text.append(lines[i].as_str());
        text.append("\n");
        i += 1;
    }
    proof {
        assert(texts(lines@).take(i as int) =~= texts(lines@));
    }
    text
}

/// The decimal digit of a number below ten.
pub open spec fn digit(n: nat) -> char {
    if n == 0 {
        '0'
    } else if n == 1 {
        '1'
    } else if n == 2 {
        '2'
    } else if n == 3 {
        '3'
    } else if n == 4 {
        '4'
    } else if n == 5 {
        '5'
    } else if n == 6 {
        '6'
    } else if n == 7 {
        '7'
    } else if n == 8 {
        '8'
    } else {
        '9'
    }
}

/// A number in decimal.
pub open spec fn decimal(n: nat) -> Seq<char>
    decreases n,
{
    if n < 10 {
        seq![digit(n)]
    } else {
        decimal(n / 10).push(digit(n % 10))
    }
}

fn to_digit(n: usize) -> (character: char)
    requires
        n < 10,
    ensures
        character == digit(n as nat),
{
    if n == 0 {
        '0'
    } else if n == 1 {
        '1'
    } else if n == 2 {
        '2'
    } else if n == 3 {
        '3'
    } else if n == 4 {
        '4'
    } else if n == 5 {
        '5'
    } else if n == 6 {
        '6'
    } else if n == 7 {
        '7'
    } else if n == 8 {
        '8'
    } else {
        '9'
    }
}

/// A number in decimal.
pub fn to_decimal(n: usize) -> (text: String)
    ensures
        text@ == decimal(n as nat),
    decreases n,
{
    if n < 10 {
        let mut text = String::new();
        text.push(to_digit(n));
        assert(text@ =~= decimal(n as nat));
        text
    } else {
        let mut text = to_decimal(n / 10);
        text.push(to_digit(n % 10));
        text
    }
}

/// Whether a character is white space, as Unicode has it.
pub open spec fn is_white(character: char) -> bool {
    let code = character as int;
    ||| 0x9 <= code <= 0xd
    ||| code == 0x20
    ||| code == 0x85
    ||| code == 0xa0
    ||| code == 0x1680
    ||| 0x2000 <= code <= 0x200a
    ||| code == 0x2028
    ||| code == 0x2029
    ||| code == 0x202f
    ||| code == 0x205f
    ||| code == 0x3000
}

/// Whether a character is white space, as Unicode has it.
pub fn white(character: char) -> (yes: bool)
    ensures
        yes == is_white(character),
{
    let code = character as u32;
    (0x9 <= code && code <= 0xd) || code == 0x20 || code == 0x85 || code == 0xa0 || code == 0x1680
        || (0x2000 <= code && code <= 0x200a) || code == 0x2028 || code == 0x2029 || code == 0x202f
        || code == 0x205f || code == 0x3000
}

/// How many characters at the start of a text are white space.
pub open spec fn white_start(text: Seq<char>) -> nat
    decreases text.len(),
{
    if text.len() > 0 && is_white(text[0]) {
        1 + white_start(text.drop_first())
    } else {
        0
    }
}

/// How many characters at the start of a text are white space.
pub fn count_white_start(chars: &Vec<char>, from: usize) -> (count: usize)
    requires
        from <= chars@.len(),
    ensures
        count == white_start(chars@.skip(from as int)),
        from + count <= chars@.len(),
{
    let total: usize = chars.len();
    let mut i: usize = from;
    while i < total && white(chars[i])
        invariant
            from <= i <= total,
            total == chars@.len(),
            white_start(chars@.skip(from as int)) == i - from + white_start(chars@.skip(i as int)),
        decreases total - i,
    {
        proof {
            assert(chars@.skip(i as int).drop_first() =~= chars@.skip(i + 1));
        }
        i += 1;
    }
    i - from
}

/// What `white_start` promises.
pub proof fn lemma_white_start(text: Seq<char>)
    ensures
        white_start(text) <= text.len(),
        white_start(text) < text.len() ==> !is_white(text[white_start(text) as int]),
        forall|i: int| 0 <= i < white_start(text) ==> is_white(#[trigger] text[i]),
    decreases text.len(),
{
    if text.len() > 0 && is_white(text[0]) {
        let rest = text.drop_first();
        lemma_white_start(rest);
        assert forall|i: int| 0 <= i < white_start(text) implies is_white(#[trigger] text[i]) by {
            if i > 0 {
                assert(rest[i - 1] == text[i]);
            }
        }
    }
}

/// How many characters at the end of a text are white space.
pub open spec fn white_end(text: Seq<char>) -> nat
    decreases text.len(),
{
    if text.len() > 0 && is_white(text.last()) {
        1 + white_end(text.drop_last())
    } else {
        0
    }
}

/// A text without the white space around it.
pub open spec fn trimmed(text: Seq<char>) -> Seq<char> {
    let rest = text.skip(white_start(text) as int);
    rest.take(rest.len() - white_end(rest))
}

/// A text without the white space around it.
pub fn trim(text: &str) -> (trimmed_text: Vec<char>)
    ensures
        trimmed_text@ == trimmed(text@),
{
    let chars = chars_of(text);
    assert(chars@.skip(0) =~= text@);
    let start = count_white_start(&chars, 0);
    let ghost rest = text@.skip(start as int);
    let mut end: usize = chars.len();
    proof {
        assert(rest.take(rest.len() as int) =~= rest);
    }
    while end > start && white(chars[end - 1])
        invariant
            start <= end <= chars@.len(),
            chars@ == text@,
            rest == text@.skip(start as int),
            white_end(rest) == rest.len() - (end - start) + white_end(rest.take(end - start)),
        decreases end,
    {
        proof {
            assert(rest.take(end - start).last() == chars@[end - 1]);
            assert(rest.take(end - start).drop_last() =~= rest.take(end - start - 1));
        }
        end -= 1;
    }
    proof {
        if end > start {
            assert(rest.take(end - start).last() == chars@[end - 1]);
        }
        assert(white_end(rest.take(end - start)) == 0);
    }
    let mut kept: Vec<char> = Vec::new();
    let mut i: usize = start;
    while i < end
        invariant
            start <= i <= end <= chars@.len(),
            kept@ == chars@.subrange(start as int, i as int),
        decreases end - i,
    {
        kept.push(chars[i]);
        i += 1;
    }
    assert(kept@ =~= rest.take(end - start));
    kept
}

/// Whether a text starts with another.
pub open spec fn opens(text: Seq<char>, start: Seq<char>) -> bool {
    &&& text.len() >= start.len()
    &&& forall|i: int| 0 <= i < start.len() ==> #[trigger] text[i] == start[i]
}

/// Whether a text ends with another.
pub open spec fn closes(text: Seq<char>, ending: Seq<char>) -> bool {
    &&& text.len() >= ending.len()
    &&& forall|i: int|
        0 <= i < ending.len() ==> #[trigger] text[text.len() - ending.len() + i] == ending[i]
}

proof fn lemma_white_end(text: Seq<char>)
    ensures
        white_end(text) <= text.len(),
        white_end(text) < text.len() ==> !is_white(text[text.len() - white_end(text) - 1]),
        forall|i: int| text.len() - white_end(text) <= i < text.len() ==> is_white(
            #[trigger] text[i],
        ),
    decreases text.len(),
{
    if text.len() > 0 && is_white(text.last()) {
        let rest = text.drop_last();
        lemma_white_end(rest);
        assert forall|i: int| text.len() - white_end(text) <= i < text.len() implies is_white(
            #[trigger] text[i],
        ) by {
            if i < rest.len() {
                assert(rest[i] == text[i]);
            }
        }
    }
}

/// Whether a text is nothing but white space.
pub open spec fn is_blank(text: Seq<char>) -> bool {
    forall|i: int| 0 <= i < text.len() ==> is_white(#[trigger] text[i])
}

/// A trimmed text is the text without white space before it and after it, and starts and ends with
/// something else.
pub proof fn trimmed_text_stands_between_white_space(text: Seq<char>) -> (around: (
    Seq<char>,
    Seq<char>,
))
    ensures
        text == around.0 + trimmed(text) + around.1,
        is_blank(around.0),
        is_blank(around.1),
        trimmed(text).len() > 0 ==> !is_white(trimmed(text)[0]) && !is_white(trimmed(text).last()),
{
    let start = white_start(text) as int;
    let rest = text.skip(start);
    lemma_white_start(text);
    lemma_white_end(rest);
    let end = rest.len() - white_end(rest);
    let around = (text.take(start), rest.skip(end));
    assert(text =~= around.0 + rest.take(end) + around.1);
    assert forall|i: int| 0 <= i < around.0.len() implies is_white(#[trigger] around.0[i]) by {
        assert(around.0[i] == text[i]);
    }
    assert forall|i: int| 0 <= i < around.1.len() implies is_white(#[trigger] around.1[i]) by {
        assert(around.1[i] == rest[end + i]);
    }
    around
}

/// There is only one way to trim a text: whatever stands between white space, and starts and ends
/// with something else, is the trimmed text.
pub proof fn text_is_trimmed_in_one_way(before: Seq<char>, word: Seq<char>, after: Seq<char>)
    requires
        is_blank(before),
        is_blank(after),
        word.len() > 0,
        !is_white(word[0]),
        !is_white(word.last()),
    ensures
        trimmed(before + word + after) == word,
{
    let text = before + word + after;
    let around = trimmed_text_stands_between_white_space(text);
    let found = trimmed(text);
    let start = around.0.len() as int;
    let end = start + found.len();
    assert(text[before.len() as int] == word[0]);
    assert(text[before.len() + word.len() - 1] == word.last());
    if start > before.len() {
        assert(around.0[before.len() as int] == text[before.len() as int]);
    }
    if start < before.len() {
        if found.len() > 0 {
            assert(found[0] == text[start]);
            assert(before[start] == text[start]);
        } else {
            assert(around.1[before.len() - start] == text[before.len() as int]);
        }
    }
    assert(start == before.len());
    if end < before.len() + word.len() {
        assert(around.1[before.len() + word.len() - 1 - end] == text[before.len() + word.len() - 1]);
    }
    if end > before.len() + word.len() {
        assert(found.last() == text[end - 1]);
        assert(after[end - 1 - before.len() - word.len()] == text[end - 1]);
    }
    assert(end == before.len() + word.len());
    assert forall|i: int| 0 <= i < word.len() implies found[i] == #[trigger] word[i] by {
        assert(text[start + i] == found[i]);
        assert(text[before.len() + i] == word[i]);
    }
    assert(found =~= word);
}

/// The number that decimal digits stand for.
pub open spec fn number(digits: Seq<char>) -> int
    decreases digits.len(),
{
    if digits.len() == 0 {
        0
    } else {
        10 * number(digits.drop_last()) + (digits.last() as int - '0' as int)
    }
}

/// A number in decimal stands for itself, in digits alone and without a zero before it.
pub proof fn decimal_stands_for_its_number(n: nat)
    ensures
        number(decimal(n)) == n,
        decimal(n).len() > 0,
        forall|i: int| 0 <= i < decimal(n).len() ==> '0' <= #[trigger] decimal(n)[i] <= '9',
        n > 0 ==> decimal(n)[0] != '0',
    decreases n,
{
    let digits = decimal(n);
    if n < 10 {
        assert(digits.drop_last() =~= Seq::empty());
        assert(number(digits.drop_last()) == 0);
    } else {
        decimal_stands_for_its_number(n / 10);
        assert(digits.drop_last() =~= decimal(n / 10));
        assert forall|i: int| 0 <= i < digits.len() implies '0' <= #[trigger] digits[i] <= '9' by {
            if i < digits.len() - 1 {
                assert(digits[i] == decimal(n / 10)[i]);
            }
        }
    }
}

/// Texts are ordered by the first character in which they differ, and a text comes before every
/// longer one that starts with it.
pub proof fn first_difference_orders_texts(
    common: Seq<char>,
    left: char,
    left_rest: Seq<char>,
    right: char,
    right_rest: Seq<char>,
)
    ensures
        left < right ==> precedes(
            common.push(left) + left_rest,
            common.push(right) + right_rest,
        ),
        left > right ==> !precedes(
            common.push(left) + left_rest,
            common.push(right) + right_rest,
        ),
        precedes(common, common.push(right) + right_rest),
        !precedes(common.push(right) + right_rest, common),
    decreases common.len(),
{
    let a = common.push(left) + left_rest;
    let b = common.push(right) + right_rest;
    if common.len() > 0 {
        let rest = common.drop_first();
        first_difference_orders_texts(rest, left, left_rest, right, right_rest);
        assert(a.drop_first() =~= rest.push(left) + left_rest);
        assert(b.drop_first() =~= rest.push(right) + right_rest);
        assert(a[0] == common[0] && b[0] == common[0]);
    } else {
        assert(a[0] == left && b[0] == right);
    }
}

} // verus!
