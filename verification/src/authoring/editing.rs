//! Presentation-preserving edits to an existing portable configuration.
//!
//! A document is a sequence of characters, and a line is known by the position where it starts.

use vstd::prelude::*;
use vstd::string::*;
use crate::application::queries::{field_store, store_of_field};
use crate::text::{
    chars_of, copy_of, count_white_start, find_from, is_white, lemma_position, lemma_white_start,
    matches_at, position, text_equal, text_of, texts, white, white_start,
};

verus! {

/// Sets of characters that stand around what matters.
#[derive(Clone, Copy, Debug, PartialEq, Eq, Structural)]
pub enum Padding {
    Spaces,
    Blanks,
    Newlines,
}

/// Whether a character is padding: a space, a blank (a space or a tab), or part of a newline.
pub open spec fn is_padding(padding: Padding, character: char) -> bool {
    match padding {
        Padding::Spaces => character == ' ',
        Padding::Blanks => character == ' ' || character == '\t',
        Padding::Newlines => character == '\r' || character == '\n',
    }
}

fn padding(kind: Padding, character: char) -> (yes: bool)
    ensures
        yes == is_padding(kind, character),
{
    match kind {
        Padding::Spaces => character == ' ',
        Padding::Blanks => character == ' ' || character == '\t',
        Padding::Newlines => character == '\r' || character == '\n',
    }
}

/// How many characters at the start of a text are padding.
pub open spec fn padded_start(text: Seq<char>, padding: Padding) -> nat
    decreases text.len(),
{
    if text.len() > 0 && is_padding(padding, text[0]) {
        1 + padded_start(text.drop_first(), padding)
    } else {
        0
    }
}

/// How many characters at the end of a text are padding.
pub open spec fn padded_end(text: Seq<char>, padding: Padding) -> nat
    decreases text.len(),
{
    if text.len() > 0 && is_padding(padding, text.last()) {
        1 + padded_end(text.drop_last(), padding)
    } else {
        0
    }
}

proof fn lemma_padded_start(text: Seq<char>, padding: Padding)
    ensures
        padded_start(text, padding) <= text.len(),
        forall|i: int|
            0 <= i < padded_start(text, padding) ==> is_padding(padding, #[trigger] text[i]),
        padded_start(text, padding) < text.len() ==> !is_padding(
            padding,
            text[padded_start(text, padding) as int],
        ),
    decreases text.len(),
{
    if text.len() > 0 && is_padding(padding, text[0]) {
        let rest = text.drop_first();
        lemma_padded_start(rest, padding);
        assert forall|i: int| 0 <= i < padded_start(text, padding) implies is_padding(
            padding,
            #[trigger] text[i],
        ) by {
            if i > 0 {
                assert(rest[i - 1] == text[i]);
            }
        }
    }
}

proof fn lemma_padded_end(text: Seq<char>, padding: Padding)
    ensures
        padded_end(text, padding) <= text.len(),
        forall|i: int|
            text.len() - padded_end(text, padding) <= i < text.len() ==> is_padding(
                padding,
                #[trigger] text[i],
            ),
        padded_end(text, padding) < text.len() ==> !is_padding(
            padding,
            text[text.len() - padded_end(text, padding) - 1],
        ),
    decreases text.len(),
{
    if text.len() > 0 && is_padding(padding, text.last()) {
        let rest = text.drop_last();
        lemma_padded_end(rest, padding);
        assert forall|i: int|
            text.len() - padded_end(text, padding) <= i < text.len() implies is_padding(
            padding,
            #[trigger] text[i],
        ) by {
            if i < text.len() - 1 {
                assert(rest[i] == text[i]);
            }
        }
    }
}

fn count_start(chars: &Vec<char>, kind: Padding) -> (count: usize)
    ensures
        count == padded_start(chars@, kind),
        count <= chars@.len(),
{
    let total: usize = chars.len();
    let mut i: usize = 0;
    proof {
        assert(chars@.skip(0) =~= chars@);
    }
    while i < total && padding(kind, chars[i])
        invariant
            i <= total,
            total == chars@.len(),
            padded_start(chars@, kind) == i + padded_start(chars@.skip(i as int), kind),
        decreases total - i,
    {
        proof {
            assert(chars@.skip(i as int).drop_first() =~= chars@.skip(i + 1));
        }
        i += 1;
    }
    i
}

fn count_end(chars: &Vec<char>, start: usize, end: usize, kind: Padding) -> (count: usize)
    requires
        start <= end <= chars@.len(),
    ensures
        count == padded_end(chars@.subrange(start as int, end as int), kind),
        count <= end - start,
{
    let ghost text = chars@.subrange(start as int, end as int);
    let mut stop: usize = end;
    proof {
        assert(text.take(text.len() as int) =~= text);
    }
    while stop > start && padding(kind, chars[stop - 1])
        invariant
            start <= stop <= end <= chars@.len(),
            text == chars@.subrange(start as int, end as int),
            padded_end(text, kind) == (end - stop) + padded_end(text.take(stop - start), kind),
        decreases stop,
    {
        proof {
            assert(text.take(stop - start).last() == chars@[stop - 1]);
            assert(text.take(stop - start).drop_last() =~= text.take(stop - start - 1));
        }
        stop -= 1;
    }
    proof {
        if stop > start {
            assert(text.take(stop - start).last() == chars@[stop - 1]);
        }
        assert(padded_end(text.take(stop - start), kind) == 0);
    }
    end - stop
}

/// Whether a line starts at a position.
pub open spec fn is_line(document: Seq<char>, i: int) -> bool {
    0 <= i < document.len() && (i == 0 || document[i - 1] == '\n')
}

/// Whether a list holds exactly the lines that start after a position, in order.
pub open spec fn lists_lines(list: Seq<usize>, document: Seq<char>, after: int) -> bool {
    &&& forall|a: int, b: int| 0 <= a < b < list.len() ==> #[trigger] list[a] < #[trigger] list[b]
    &&& forall|k: int|
        0 <= k < list.len() ==> is_line(document, #[trigger] list[k] as int) && list[k] > after
    &&& forall|i: int| #[trigger]
        is_line(document, i) && i > after ==> exists|k: int|
            0 <= k < list.len() && #[trigger] list[k] == i
}

/// The lines of a document, in order.
pub fn lines(document: &Vec<char>) -> (list: Vec<usize>)
    ensures
        lists_lines(list@, document@, -1),
{
    let mut list: Vec<usize> = Vec::new();
    let mut i: usize = 0;
    while i < document.len()
        invariant
            i <= document@.len(),
            forall|a: int, b: int|
                0 <= a < b < list@.len() ==> #[trigger] list@[a] < #[trigger] list@[b],
            forall|k: int|
                0 <= k < list@.len() ==> is_line(document@, #[trigger] list@[k] as int) && list@[k]
                    < i,
            forall|p: int| #[trigger]
                is_line(document@, p) && p < i ==> exists|k: int|
                    0 <= k < list@.len() && #[trigger] list@[k] == p,
        decreases document.len() - i,
    {
        let ghost before = list@;
        if i == 0 || document[i - 1] == '\n' {
            list.push(i);
            assert(list@[before.len() as int] == i);
        }
        proof {
            assert forall|p: int| #[trigger] is_line(document@, p) && p < i + 1 implies exists|
                k: int,
            |
                0 <= k < list@.len() && #[trigger] list@[k] == p by {
                if p < i {
                    let k = choose|k: int| 0 <= k < before.len() && #[trigger] before[k] == p;
                    assert(list@[k] == p);
                } else {
                    assert(list@[before.len() as int] == p);
                }
            }
        }
        i += 1;
    }
    list
}

/// The lines of a document that start after a position, in order.
pub fn lines_after(document: &Vec<char>, line: usize) -> (list: Vec<usize>)
    ensures
        lists_lines(list@, document@, line as int),
{
    let all = lines(document);
    let mut list: Vec<usize> = Vec::new();
    let mut i: usize = 0;
    while i < all.len()
        invariant
            i <= all@.len(),
            lists_lines(all@, document@, -1),
            forall|a: int, b: int|
                0 <= a < b < list@.len() ==> #[trigger] list@[a] < #[trigger] list@[b],
            forall|k: int|
                0 <= k < list@.len() ==> is_line(document@, #[trigger] list@[k] as int) && list@[k]
                    > line,
            forall|k: int, j: int|
                0 <= k < list@.len() && i <= j < all@.len() ==> #[trigger] list@[k]
                    < #[trigger] all@[j],
            forall|j: int|
                0 <= j < i && #[trigger] all@[j] > line ==> exists|k: int|
                    0 <= k < list@.len() && #[trigger] list@[k] == all@[j],
        decreases all.len() - i,
    {
        let ghost before = list@;
        if all[i] > line {
            list.push(all[i]);
            assert(list@[before.len() as int] == all@[i as int]);
        }
        proof {
            assert forall|j: int| 0 <= j < i + 1 && #[trigger] all@[j] > line implies exists|
                k: int,
            |
                0 <= k < list@.len() && #[trigger] list@[k] == all@[j] by {
                if j < i {
                    let k = choose|k: int| 0 <= k < before.len() && #[trigger] before[k] == all@[j];
                    assert(list@[k] == all@[j]);
                } else {
                    assert(list@[before.len() as int] == all@[j]);
                }
            }
        }
        i += 1;
    }
    proof {
        assert forall|p: int| #[trigger] is_line(document@, p) && p > line implies exists|k: int|
            0 <= k < list@.len() && #[trigger] list@[k] == p by {
            let j = choose|j: int| 0 <= j < all@.len() && #[trigger] all@[j] == p;
            assert(all@[j] > line);
        }
    }
    list
}

/// Where a line ends: at its newline, or at the end of the document.
pub open spec fn end_of(document: Seq<char>, line: int) -> int {
    position(document, '\n', line)
}

/// A line without its newline.
pub open spec fn text_at(document: Seq<char>, line: int) -> Seq<char> {
    document.subrange(line, end_of(document, line))
}

/// Where a line ends.
pub fn line_end(document: &Vec<char>, line: usize) -> (end: usize)
    requires
        line <= document@.len(),
    ensures
        end == end_of(document@, line as int),
        line <= end <= document@.len(),
{
    proof {
        lemma_position(document@, '\n', line as int);
    }
    find_from(document, '\n', line)
}

fn slice(chars: &Vec<char>, start: usize, end: usize) -> (part: Vec<char>)
    requires
        start <= end <= chars@.len(),
    ensures
        part@ == chars@.subrange(start as int, end as int),
{
    let mut part: Vec<char> = Vec::new();
    let mut i: usize = start;
    while i < end
        invariant
            start <= i <= end <= chars@.len(),
            part@ == chars@.subrange(start as int, i as int),
        decreases end - i,
    {
        part.push(chars[i]);
        i += 1;
    }
    part
}

/// A line without its newline, unless it lies behind the document.
pub fn line_text(document: &Vec<char>, line: usize) -> (text: Option<Vec<char>>)
    ensures
        match text {
            Some(text) => line <= document@.len() && text@ == text_at(document@, line as int),
            None => line > document@.len(),
        },
{
    if line > document.len() {
        return None;
    }
    let end = line_end(document, line);
    Some(slice(document, line, end))
}

/// How far a line is indented.
pub open spec fn indent_of(document: Seq<char>, line: int) -> nat {
    padded_start(text_at(document, line), Padding::Spaces)
}

/// How far a line is indented, unless it lies behind the document.
pub fn indent_at(document: &Vec<char>, line: usize) -> (indent: Option<usize>)
    ensures
        match indent {
            Some(indent) => line <= document@.len() && indent == indent_of(document@, line as int)
                && indent <= document@.len(),
            None => line > document@.len(),
        },
{
    match line_text(document, line) {
        Some(text) => {
            proof {
                lemma_position(document@, '\n', line as int);
            }
            Some(count_start(&text, Padding::Spaces))
        },
        None => None,
    }
}

/// Whether a line starts, after its indentation, with a key and a colon.
pub open spec fn has_key(text: Seq<char>, key: Seq<char>) -> bool {
    let start = padded_start(text, Padding::Spaces) as int;
    &&& start + key.len() < text.len()
    &&& text.subrange(start, start + key.len()) == key
    &&& text[start + key.len()] == ':'
}

/// Whether a line starts, after its indentation, with a key and a colon.
pub fn key_at(document: &Vec<char>, line: usize, key: &str) -> (found: bool)
    ensures
        found == (line <= document@.len() && has_key(text_at(document@, line as int), key@)),
{
    let text = match line_text(document, line) {
        Some(text) => text,
        None => return false,
    };
    let name = chars_of(key);
    let start = count_start(&text, Padding::Spaces);
    let rest: usize = text.len() - start;
    if rest <= name.len() {
        return false;
    }
    matches_at(&text, start, &name) && text[start + name.len()] == ':'
}

/// Whether a line says nothing: it is blank or a comment.
pub open spec fn is_silent(text: Seq<char>) -> bool {
    let start = white_start(text) as int;
    start == text.len() || text[start] == '#'
}

/// Whether a line says nothing.
pub fn is_blank_or_comment(text: &Vec<char>) -> (silent: bool)
    ensures
        silent == is_silent(text@),
{
    assert(text@.skip(0) =~= text@);
    let start = count_white_start(text, 0);
    start == text.len() || text[start] == '#'
}

/// Whether a line is an entry of the document itself.
pub open spec fn is_top(document: Seq<char>, key: Seq<char>, line: int) -> bool {
    is_line(document, line) && indent_of(document, line) == 0 && has_key(
        text_at(document, line),
        key,
    )
}

/// Whether a line is the first entry of the document itself with a key.
pub open spec fn is_first_top(document: Seq<char>, key: Seq<char>, line: int) -> bool {
    is_top(document, key, line) && forall|m: int| 0 <= m < line ==> !#[trigger] is_top(
        document,
        key,
        m,
    )
}

/// The first entry of the document itself with a key.
pub fn top_level_line(document: &Vec<char>, key: &str) -> (found: Option<usize>)
    ensures
        match found {
            Some(line) => is_first_top(document@, key@, line as int),
            None => forall|m: int| !#[trigger] is_top(document@, key@, m),
        },
{
    let list = lines(document);
    let mut i: usize = 0;
    while i < list.len()
        invariant
            i <= list@.len(),
            lists_lines(list@, document@, -1),
            forall|k: int| 0 <= k < i ==> !is_top(document@, key@, #[trigger] list@[k] as int),
        decreases list.len() - i,
    {
        let line = list[i];
        assert(is_line(document@, list@[i as int] as int));
        let unindented = match indent_at(document, line) {
            Some(indent) => indent == 0,
            None => false,
        };
        if unindented && key_at(document, line, key) {
            proof {
                assert forall|m: int| 0 <= m < line implies !#[trigger] is_top(
                    document@,
                    key@,
                    m,
                ) by {
                    if is_top(document@, key@, m) {
                        assert(is_line(document@, m));
                        let k = choose|k: int| 0 <= k < list@.len() && #[trigger] list@[k] == m;
                        assert(k < i) by {
                            if k > i {
                                assert(list@[i as int] < list@[k]);
                            }
                        }
                    }
                }
            }
            return Some(line);
        }
        i += 1;
    }
    proof {
        assert forall|m: int| !#[trigger] is_top(document@, key@, m) by {
            if is_top(document@, key@, m) {
                assert(is_line(document@, m));
                let k = choose|k: int| 0 <= k < list@.len() && #[trigger] list@[k] == m;
                assert(!is_top(document@, key@, list@[k] as int));
            }
        }
    }
    None
}

/// Whether a line ends the entries below an indentation.
pub open spec fn is_outer(document: Seq<char>, indent: int, line: int) -> bool {
    is_line(document, line) && indent_of(document, line) <= indent && !is_silent(
        text_at(document, line),
    )
}

/// Whether a line is an entry at an indentation.
pub open spec fn is_entry(document: Seq<char>, indent: int, key: Seq<char>, line: int) -> bool {
    is_line(document, line) && indent_of(document, line) == indent && has_key(
        text_at(document, line),
        key,
    )
}

/// Whether a line is the first entry with a key directly below a line at an indentation.
pub open spec fn is_child(
    document: Seq<char>,
    parent: int,
    indent: int,
    key: Seq<char>,
    line: int,
) -> bool {
    &&& line > parent
    &&& is_entry(document, indent + 2, key, line)
    &&& forall|m: int|
        #![trigger is_line(document, m)]
        parent < m < line ==> !is_outer(document, indent, m) && !is_entry(
            document,
            indent + 2,
            key,
            m,
        )
}

fn child(document: &Vec<char>, parent: usize, indent: usize, key: &str) -> (found: Option<usize>)
    ensures
        match found {
            Some(line) => is_child(document@, parent as int, indent as int, key@, line as int),
            None => forall|line: int| !#[trigger] is_child(
                document@,
                parent as int,
                indent as int,
                key@,
                line,
            ),
        },
{
    let list = lines_after(document, parent);
    let mut i: usize = 0;
    while i < list.len()
        invariant
            i <= list@.len(),
            lists_lines(list@, document@, parent as int),
            forall|k: int|
                0 <= k < i ==> !is_outer(document@, indent as int, #[trigger] list@[k] as int)
                    && !is_entry(document@, indent + 2, key@, list@[k] as int),
        decreases list.len() - i,
    {
        let line = list[i];
        assert(is_line(document@, list@[i as int] as int));
        proof {
            assert forall|m: int|
                #![trigger is_line(document@, m)]
                parent < m < line implies !is_outer(document@, indent as int, m) && !is_entry(
                document@,
                indent + 2,
                key@,
                m,
            ) by {
                if is_line(document@, m) {
                    let k = choose|k: int| 0 <= k < list@.len() && #[trigger] list@[k] == m;
                    assert(k < i) by {
                        if k > i {
                            assert(list@[i as int] < list@[k]);
                        }
                    }
                }
            }
        }
        let (depth, text) = match (indent_at(document, line), line_text(document, line)) {
            (Some(depth), Some(text)) => (depth, text),
            _ => {
                assert(false);
                return None;
            },
        };
        if depth <= indent && !is_blank_or_comment(&text) {
            proof {
                assert(is_outer(document@, indent as int, line as int));
                assert forall|l: int| !#[trigger] is_child(
                    document@,
                    parent as int,
                    indent as int,
                    key@,
                    l,
                ) by {
                    if is_child(document@, parent as int, indent as int, key@, l) {
                        assert(is_line(document@, l));
                        if l < line {
                            assert(!is_entry(document@, indent + 2, key@, l));
                        } else if l > line {
                            assert(is_line(document@, line as int));
                        }
                    }
                }
            }
            return None;
        }
        if depth >= 2 && depth - 2 == indent && key_at(document, line, key) {
            return Some(line);
        }
        i += 1;
    }
    proof {
        assert forall|l: int| !#[trigger] is_child(
            document@,
            parent as int,
            indent as int,
            key@,
            l,
        ) by {
            if is_child(document@, parent as int, indent as int, key@, l) {
                assert(is_line(document@, l));
                let k = choose|k: int| 0 <= k < list@.len() && #[trigger] list@[k] == l;
                assert(!is_entry(document@, indent + 2, key@, list@[k] as int));
            }
        }
    }
    None
}

proof fn lemma_first_top_unique(document: Seq<char>, key: Seq<char>, a: int, b: int)
    requires
        is_first_top(document, key, a),
        is_first_top(document, key, b),
    ensures
        a == b,
{
    if a < b {
        assert(!is_top(document, key, a));
    } else if b < a {
        assert(!is_top(document, key, b));
    }
}

proof fn lemma_child_unique(
    document: Seq<char>,
    parent: int,
    indent: int,
    key: Seq<char>,
    a: int,
    b: int,
)
    requires
        is_child(document, parent, indent, key, a),
        is_child(document, parent, indent, key, b),
    ensures
        a == b,
{
    assert(is_line(document, a));
    assert(is_line(document, b));
}

/// Whether lines lead from the stores of a document to the path of one of them.
pub open spec fn leads_to_store_path(
    document: Seq<char>,
    store: Seq<char>,
    stores: int,
    entry: int,
    properties: int,
    line: int,
) -> bool {
    &&& is_first_top(document, "stores"@, stores)
    &&& is_child(document, stores, 0, store, entry)
    &&& is_child(document, entry, 2, "properties"@, properties)
    &&& is_child(document, properties, 4, "path"@, line)
}

/// Whether a line holds the path of a store.
pub open spec fn is_store_path(document: Seq<char>, store: Seq<char>, line: int) -> bool {
    exists|stores: int, entry: int, properties: int|
        leads_to_store_path(document, store, stores, entry, properties, line)
}

/// The line that holds the path of a store, where the document is laid out so that it shows.
pub fn store_path_line(document: &Vec<char>, store: &str) -> (found: Option<usize>)
    ensures
        match found {
            Some(line) => is_store_path(document@, store@, line as int),
            None => forall|line: int| !#[trigger] is_store_path(document@, store@, line),
        },
{
    let stores = match top_level_line(document, "stores") {
        Some(line) => line,
        None => {
            proof {
                assert forall|line: int| !#[trigger] is_store_path(document@, store@, line) by {
                    if is_store_path(document@, store@, line) {
                        let (a, b, c) = choose|a: int, b: int, c: int|
                            leads_to_store_path(document@, store@, a, b, c, line);
                        assert(!is_top(document@, "stores"@, a));
                    }
                }
            }
            return None;
        },
    };
    let entry = match child(document, stores, 0, store) {
        Some(line) => line,
        None => {
            proof {
                assert forall|line: int| !#[trigger] is_store_path(document@, store@, line) by {
                    if is_store_path(document@, store@, line) {
                        let (a, b, c) = choose|a: int, b: int, c: int|
                            leads_to_store_path(document@, store@, a, b, c, line);
                        lemma_first_top_unique(document@, "stores"@, a, stores as int);
                        assert(!is_child(document@, stores as int, 0, store@, b));
                    }
                }
            }
            return None;
        },
    };
    let properties = match child(document, entry, 2, "properties") {
        Some(line) => line,
        None => {
            proof {
                assert forall|line: int| !#[trigger] is_store_path(document@, store@, line) by {
                    if is_store_path(document@, store@, line) {
                        let (a, b, c) = choose|a: int, b: int, c: int|
                            leads_to_store_path(document@, store@, a, b, c, line);
                        lemma_first_top_unique(document@, "stores"@, a, stores as int);
                        lemma_child_unique(document@, a, 0, store@, b, entry as int);
                        assert(!is_child(document@, entry as int, 2, "properties"@, c));
                    }
                }
            }
            return None;
        },
    };
    match child(document, properties, 4, "path") {
        Some(line) => {
            assert(leads_to_store_path(
                document@,
                store@,
                stores as int,
                entry as int,
                properties as int,
                line as int,
            ));
            Some(line)
        },
        None => {
            proof {
                assert forall|line: int| !#[trigger] is_store_path(document@, store@, line) by {
                    if is_store_path(document@, store@, line) {
                        let (a, b, c) = choose|a: int, b: int, c: int|
                            leads_to_store_path(document@, store@, a, b, c, line);
                        lemma_first_top_unique(document@, "stores"@, a, stores as int);
                        lemma_child_unique(document@, a, 0, store@, b, entry as int);
                        lemma_child_unique(document@, b, 2, "properties"@, c, properties as int);
                        assert(!is_child(document@, properties as int, 4, "path"@, line));
                    }
                }
            }
            None
        },
    }
}

/// Where a comment starts from `i` on, or the length: at a `#` behind white space and outside
/// quotes. A backslash escapes the next character inside double quotes.
pub open spec fn comment_from(text: Seq<char>, i: int, quote: Option<char>, escaped: bool) -> int
    decreases text.len() - i,
{
    if i < 0 || i >= text.len() {
        text.len() as int
    } else if quote == Some('"') && escaped {
        comment_from(text, i + 1, quote, false)
    } else if quote == Some('"') && text[i] == '\\' {
        comment_from(text, i + 1, quote, true)
    } else if text[i] == '\'' || text[i] == '"' {
        if quote == Some(text[i]) {
            comment_from(text, i + 1, None, escaped)
        } else if quote is None {
            comment_from(text, i + 1, Some(text[i]), escaped)
        } else {
            comment_from(text, i + 1, quote, escaped)
        }
    } else if text[i] == '#' && quote is None && i > 0 && is_white(text[i - 1]) {
        i
    } else {
        comment_from(text, i + 1, quote, escaped)
    }
}

/// Where the comment of a value starts, if it has one.
pub fn comment_start(value: &Vec<char>) -> (start: Option<usize>)
    ensures
        match start {
            Some(start) => start < value@.len() && start == comment_from(value@, 0, None, false),
            None => comment_from(value@, 0, None, false) == value@.len(),
        },
{
    let mut quote: Option<char> = None;
    let mut escaped = false;
    let mut i: usize = 0;
    while i < value.len()
        invariant
            i <= value@.len(),
            comment_from(value@, 0, None, false) == comment_from(value@, i as int, quote, escaped),
        decreases value.len() - i,
    {
        let character = value[i];
        let in_double = match quote {
            Some(open) => open == '"',
            None => false,
        };
        if in_double && escaped {
            escaped = false;
        } else if in_double && character == '\\' {
            escaped = true;
        } else if character == '\'' || character == '"' {
            match quote {
                Some(open) => if open == character {
                    quote = None;
                },
                None => {
                    quote = Some(character);
                },
            }
        } else if character == '#' && quote.is_none() && i > 0 && white(value[i - 1]) {
            return Some(i);
        }
        i += 1;
    }
    None
}

proof fn lemma_comment_bounds(text: Seq<char>, i: int, quote: Option<char>, escaped: bool)
    requires
        0 <= i <= text.len(),
    ensures
        i <= comment_from(text, i, quote, escaped) <= text.len(),
    decreases text.len() - i,
{
    if i < text.len() {
        lemma_comment_bounds(text, i + 1, quote, false);
        lemma_comment_bounds(text, i + 1, quote, true);
        lemma_comment_bounds(text, i + 1, quote, escaped);
        lemma_comment_bounds(text, i + 1, None, escaped);
        lemma_comment_bounds(text, i + 1, Some(text[i]), escaped);
    }
}

proof fn lemma_comment_after_blanks(text: Seq<char>, i: int, n: int)
    requires
        0 <= i <= n <= text.len(),
        forall|k: int| i <= k < n ==> is_padding(Padding::Blanks, #[trigger] text[k]),
    ensures
        comment_from(text, i, None, false) == comment_from(text, n, None, false),
    decreases n - i,
{
    if i < n {
        assert(is_padding(Padding::Blanks, text[i]));
        lemma_comment_after_blanks(text, i + 1, n);
    }
}

/// A value without the newline behind it.
pub open spec fn without_newline(raw: Seq<char>) -> Seq<char> {
    raw.take(raw.len() - padded_end(raw, Padding::Newlines))
}

/// A value without the blanks before it and the comment behind it.
pub open spec fn bare_value(raw: Seq<char>) -> Seq<char> {
    let line = without_newline(raw);
    line.subrange(
        padded_start(raw, Padding::Blanks) as int,
        comment_from(line, 0, None, false),
    )
}

/// Whether a value is something other than a plain or quoted scalar on one line.
pub open spec fn is_special(value: Seq<char>) -> bool {
    let start = white_start(value) as int;
    ||| start < value.len() && (value[start] == '|' || value[start] == '>' || value[start] == '&'
        || value[start] == '*')
    ||| value.contains('\n')
}

/// Where the scalar of a value starts and ends, if it is one that can be replaced by itself.
pub open spec fn bounds_of(raw: Seq<char>) -> Option<(int, int)> {
    let start = padded_start(raw, Padding::Blanks) as int;
    let value = bare_value(raw);
    let end = start + value.len() - padded_end(value, Padding::Blanks);
    if end == start || is_special(value) {
        None
    } else {
        Some((start, end))
    }
}

proof fn lemma_bare_value(raw: Seq<char>)
    ensures
        ({
            let line = without_newline(raw);
            &&& padded_start(raw, Padding::Blanks) <= comment_from(line, 0, None, false)
                <= line.len() <= raw.len()
        }),
{
    let line = without_newline(raw);
    let leading = padded_start(raw, Padding::Blanks) as int;
    lemma_padded_start(raw, Padding::Blanks);
    lemma_padded_end(raw, Padding::Newlines);
    assert(leading <= line.len()) by {
        if leading > line.len() {
            assert(is_padding(Padding::Blanks, raw[line.len() as int]));
            assert(is_padding(Padding::Newlines, raw[line.len() as int]));
        }
    }
    assert forall|k: int| 0 <= k < leading implies is_padding(
        Padding::Blanks,
        #[trigger] line[k],
    ) by {
        assert(line[k] == raw[k]);
    }
    lemma_comment_after_blanks(line, 0, leading);
    lemma_comment_bounds(line, leading, None, false);
}

fn holds_newline(value: &Vec<char>) -> (found: bool)
    ensures
        found == value@.contains('\n'),
{
    let mut i: usize = 0;
    while i < value.len()
        invariant
            i <= value@.len(),
            forall|k: int| 0 <= k < i ==> #[trigger] value@[k] != '\n',
        decreases value.len() - i,
    {
        if value[i] == '\n' {
            assert(value@[i as int] == '\n');
            return true;
        }
        i += 1;
    }
    false
}

/// Where the scalar of a value starts and ends.
pub fn scalar_bounds(raw: &Vec<char>) -> (outcome: Result<(usize, usize), String>)
    ensures
        match outcome {
            Ok(bounds) => bounds_of(raw@) == Some((bounds.0 as int, bounds.1 as int)) && bounds.0
                <= bounds.1 <= raw@.len(),
            Err(message) => bounds_of(raw@) is None && message@
                == "cannot prove presentation preservation for this scalar value"@,
        },
{
    proof {
        lemma_bare_value(raw@);
        assert(raw@.subrange(0, raw@.len() as int) =~= raw@);
    }
    let leading = count_start(raw, Padding::Blanks);
    let newlines = count_end(raw, 0, raw.len(), Padding::Newlines);
    let line = slice(raw, 0, raw.len() - newlines);
    assert(line@ =~= without_newline(raw@));
    let comment = match comment_start(&line) {
        Some(start) => start,
        None => line.len(),
    };
    let value = slice(&line, leading, comment);
    assert(value@ =~= bare_value(raw@));
    assert(value@.subrange(0, value@.len() as int) =~= value@);
    let trailing = count_end(&value, 0, value.len(), Padding::Blanks);
    let end = leading + (value.len() - trailing);
    assert(value@.skip(0) =~= value@);
    let start = count_white_start(&value, 0);
    let special = start < value.len() && (value[start] == '|' || value[start] == '>' || value[start]
        == '&' || value[start] == '*');
    if end == leading || special || holds_newline(&value) {
        return Err(copy_of("cannot prove presentation preservation for this scalar value"));
    }
    Ok((leading, end))
}

/// Where the scalar of a mapping entry starts and ends in the document, or why it cannot be
/// replaced.
pub open spec fn scalar_at(document: Seq<char>, line: int) -> Result<(int, int), Seq<char>> {
    let text = text_at(document, line);
    let colon = position(text, ':', 0);
    if colon == text.len() {
        Err("target is not a scalar mapping entry"@)
    } else {
        match bounds_of(text.skip(colon + 1)) {
            None => Err("cannot prove presentation preservation for this scalar value"@),
            Some((start, end)) => Ok((line + colon + 1 + start, line + colon + 1 + end)),
        }
    }
}

/// A document with a part of it replaced.
pub open spec fn spliced(document: Seq<char>, start: int, end: int, part: Seq<char>) -> Seq<char> {
    document.take(start) + part + document.skip(end)
}

/// A document with one scalar replaced, and what stood there.
pub open spec fn scalar_replaced(document: Seq<char>, line: int, rendered: Seq<char>) -> Result<
    (Seq<char>, Seq<char>),
    Seq<char>,
> {
    match scalar_at(document, line) {
        Err(message) => Err(message),
        Ok((start, end)) => Ok(
            (spliced(document, start, end, rendered), document.subrange(start, end)),
        ),
    }
}

/// A document with an edit, and what stood where the edit is.
#[derive(Debug, PartialEq, Eq)]
pub struct Edited {
    pub candidate: String,
    pub prior: String,
}

/// Whether an outcome is what an edit has to give.
pub open spec fn edits(
    outcome: Result<Edited, String>,
    expected: Result<(Seq<char>, Seq<char>), Seq<char>>,
) -> bool {
    match expected {
        Ok((candidate, prior)) => outcome matches Ok(edited) && edited.candidate@ == candidate
            && edited.prior@ == prior,
        Err(message) => outcome matches Err(text) && text@ == message,
    }
}

/// Replaces the scalar of a mapping entry, and nothing else.
pub fn replace_scalar(document: &Vec<char>, line: usize, rendered: &str) -> (outcome: Result<
    Edited,
    String,
>)
    requires
        line <= document@.len(),
    ensures
        edits(outcome, scalar_replaced(document@, line as int, rendered@)),
{
    let stop = line_end(document, line);
    let text = slice(document, line, stop);
    proof {
        lemma_position(text@, ':', 0);
    }
    let colon = find_from(&text, ':', 0);
    if colon == text.len() {
        return Err(copy_of("target is not a scalar mapping entry"));
    }
    let raw = slice(&text, colon + 1, text.len());
    assert(raw@ =~= text_at(document@, line as int).skip(colon + 1));
    let (start, end) = match scalar_bounds(&raw) {
        Ok(bounds) => bounds,
        Err(message) => return Err(message),
    };
    let value_start: usize = line + colon + 1;
    let absolute_start: usize = value_start + start;
    let absolute_end: usize = value_start + end;
    let prior = text_of(document, absolute_start, absolute_end);
    let candidate = text_of(document, 0, absolute_start).concat(rendered).concat(
        text_of(document, absolute_end, document.len()).as_str(),
    );
    proof {
        assert(document@.subrange(0, absolute_start as int) =~= document@.take(
            absolute_start as int,
        ));
        assert(document@.subrange(absolute_end as int, document@.len() as int) =~= document@.skip(
            absolute_end as int,
        ));
    }
    Ok(Edited { candidate, prior })
}

/// The first entry of a document itself with a key.
pub open spec fn top_line(document: Seq<char>, key: Seq<char>) -> Option<int> {
    if exists|line: int| is_first_top(document, key, line) {
        Some(choose|line: int| is_first_top(document, key, line))
    } else {
        None
    }
}

proof fn lemma_top_line(document: Seq<char>, key: Seq<char>, line: int)
    requires
        is_first_top(document, key, line),
    ensures
        top_line(document, key) == Some(line),
{
    lemma_first_top_unique(document, key, line, top_line(document, key)->0);
}

proof fn lemma_no_top_line(document: Seq<char>, key: Seq<char>)
    requires
        forall|m: int| !#[trigger] is_top(document, key, m),
    ensures
        top_line(document, key) is None,
{
    if top_line(document, key) is Some {
        let line = choose|line: int| is_first_top(document, key, line);
        assert(!is_top(document, key, line));
    }
}

/// The line that holds the path of a store.
pub open spec fn store_path(document: Seq<char>, store: Seq<char>) -> Option<int> {
    if exists|line: int| is_store_path(document, store, line) {
        Some(choose|line: int| is_store_path(document, store, line))
    } else {
        None
    }
}

proof fn lemma_store_path(document: Seq<char>, store: Seq<char>, line: int)
    requires
        is_store_path(document, store, line),
    ensures
        store_path(document, store) == Some(line),
        0 <= line < document.len(),
{
    let other = store_path(document, store)->0;
    let (a, b, c) = choose|a: int, b: int, c: int|
        leads_to_store_path(document, store, a, b, c, line);
    let (x, y, z) = choose|x: int, y: int, z: int|
        leads_to_store_path(document, store, x, y, z, other);
    lemma_first_top_unique(document, "stores"@, a, x);
    lemma_child_unique(document, a, 0, store, b, y);
    lemma_child_unique(document, b, 2, "properties"@, c, z);
    lemma_child_unique(document, c, 4, "path"@, line, other);
}

/// The line that sets the default profile.
pub open spec fn default_profile_entry(rendered: Seq<char>) -> Seq<char> {
    "default_profile: "@ + rendered + "\n"@
}

/// A document with a line put behind another, which is given its newline if it has none.
pub open spec fn line_inserted(document: Seq<char>, line: int, entry: Seq<char>) -> Seq<char> {
    let end = end_of(document, line);
    if end < document.len() {
        document.take(end + 1) + entry + document.skip(end + 1)
    } else {
        document + "\n"@ + entry
    }
}

/// A document with its default profile replaced, or put behind its schema version.
pub open spec fn default_profile_edited(document: Seq<char>, rendered: Seq<char>) -> Result<
    (Seq<char>, Seq<char>),
    Seq<char>,
> {
    match top_line(document, "default_profile"@) {
        Some(line) => scalar_replaced(document, line, rendered),
        None => match top_line(document, "schema_version"@) {
            Some(schema) => Ok(
                (
                    line_inserted(document, schema, default_profile_entry(rendered)),
                    "<absent>"@,
                ),
            ),
            None => Err("cannot prove presentation preservation without schema_version"@),
        },
    }
}

/// Replaces the default profile, or puts it behind the schema version on a line of its own.
pub fn edit_default_profile(document: &Vec<char>, rendered: &str) -> (outcome: Result<
    Edited,
    String,
>)
    ensures
        edits(outcome, default_profile_edited(document@, rendered@)),
{
    match top_level_line(document, "default_profile") {
        Some(line) => {
            proof {
                lemma_top_line(document@, "default_profile"@, line as int);
            }
            return replace_scalar(document, line, rendered);
        },
        None => {
            proof {
                lemma_no_top_line(document@, "default_profile"@);
            }
        },
    }
    let schema = match top_level_line(document, "schema_version") {
        Some(line) => line,
        None => {
            proof {
                lemma_no_top_line(document@, "schema_version"@);
            }
            return Err(copy_of("cannot prove presentation preservation without schema_version"));
        },
    };
    proof {
        lemma_top_line(document@, "schema_version"@, schema as int);
    }
    let end = line_end(document, schema);
    let entry = copy_of("default_profile: ").concat(rendered).concat("\n");
    let candidate = if end < document.len() {
        proof {
            assert(document@.subrange(0, end + 1) =~= document@.take(end + 1));
            assert(document@.subrange(end + 1, document@.len() as int) =~= document@.skip(end + 1));
        }
        text_of(document, 0, end + 1).concat(entry.as_str()).concat(
            text_of(document, end + 1, document.len()).as_str(),
        )
    } else {
        proof {
            assert(document@.subrange(0, document@.len() as int) =~= document@);
        }
        text_of(document, 0, document.len()).concat("\n").concat(entry.as_str())
    };
    Ok(Edited { candidate, prior: copy_of("<absent>") })
}

/// A document with one supported field edited. The stores are those that its configuration has.
pub open spec fn field_edited(
    document: Seq<char>,
    stores: Seq<Seq<char>>,
    field: Seq<char>,
    rendered: Seq<char>,
) -> Result<(Seq<char>, Seq<char>), Seq<char>> {
    if field == "default_profile"@ {
        default_profile_edited(document, rendered)
    } else {
        match store_of_field(field) {
            None => Err("unsupported configuration field: "@ + field),
            Some(store) => if !stores.contains(store) {
                Err("unsupported configuration field: "@ + field)
            } else {
                match store_path(document, store) {
                    None => Err("cannot prove presentation preservation for this store path"@),
                    Some(line) => scalar_replaced(document, line, rendered),
                }
            },
        }
    }
}

fn holds_text(list: &Vec<String>, text: &str) -> (found: bool)
    ensures
        found == texts(list@).contains(text@),
{
    let mut i: usize = 0;
    while i < list.len()
        invariant
            i <= list@.len(),
            forall|k: int| 0 <= k < i ==> (#[trigger] texts(list@)[k]) != text@,
        decreases list.len() - i,
    {
        if text_equal(list[i].as_str(), text) {
            assert(texts(list@)[i as int] == text@);
            return true;
        }
        i += 1;
    }
    false
}

/// Edits one supported field with a value that is already written as the document is to hold it.
pub fn edit_rendered(document: &str, stores: &Vec<String>, field: &str, rendered: &str) -> (outcome:
    Result<Edited, String>)
    ensures
        edits(outcome, field_edited(document@, texts(stores@), field@, rendered@)),
{
    let chars = chars_of(document);
    if text_equal(field, "default_profile") {
        return edit_default_profile(&chars, rendered);
    }
    let store = match field_store(field) {
        Some(store) => store,
        None => return Err(copy_of("unsupported configuration field: ").concat(field)),
    };
    if !holds_text(stores, store.as_str()) {
        return Err(copy_of("unsupported configuration field: ").concat(field));
    }
    match store_path_line(&chars, store.as_str()) {
        Some(line) => {
            proof {
                lemma_store_path(document@, store@, line as int);
            }
            replace_scalar(&chars, line, rendered)
        },
        None => {
            proof {
                if store_path(document@, store@) is Some {
                    let line = choose|line: int| is_store_path(document@, store@, line);
                    assert(!is_store_path(document@, store@, line));
                }
            }
            Err(copy_of("cannot prove presentation preservation for this store path"))
        },
    }
}

/// The hexadecimal digit of a number below sixteen.
pub open spec fn hex_digit(n: int) -> char {
    if n < 10 {
        ((('0' as int) + n) as char)
    } else {
        ((('a' as int) + n - 10) as char)
    }
}

/// A character as it stands between the quotes of a JSON string.
pub open spec fn json_character(character: char) -> Seq<char> {
    let code = character as int;
    if character == '"' || character == '\\' {
        seq!['\\', character]
    } else if code == 8 {
        seq!['\\', 'b']
    } else if code == 9 {
        seq!['\\', 't']
    } else if code == 10 {
        seq!['\\', 'n']
    } else if code == 12 {
        seq!['\\', 'f']
    } else if code == 13 {
        seq!['\\', 'r']
    } else if code < 32 {
        seq!['\\', 'u', '0', '0', hex_digit(code / 16), hex_digit(code % 16)]
    } else {
        seq![character]
    }
}

/// What stands between the quotes of a JSON string.
pub open spec fn json_contents(text: Seq<char>) -> Seq<char>
    decreases text.len(),
{
    if text.len() == 0 {
        Seq::empty()
    } else {
        json_contents(text.drop_last()) + json_character(text.last())
    }
}

/// A text as a JSON string.
pub open spec fn json_string(text: Seq<char>) -> Seq<char> {
    seq!['"'] + json_contents(text) + seq!['"']
}

/// A text written as a quoted scalar, by `serde_json::to_string`.
///
/// The result is the JSON string of the text: a double quote, every character as itself but for
/// the quote, the backslash and the control characters below the space, which are escaped, and a
/// double quote. A text can always be written so.
#[verifier::external_body]
fn yaml_string(value: &str) -> (rendered: String)
    ensures
        rendered@ == json_string(value@),
{
    serde_json::to_string(value).expect("strings serialize")
}

/// Edits one supported field of a document, and nothing else.
pub fn edit(document: &str, stores: &Vec<String>, field: &str, value: &str) -> (outcome: Result<
    Edited,
    String,
>)
    ensures
        edits(outcome, field_edited(document@, texts(stores@), field@, json_string(value@))),
{
    let rendered = yaml_string(value);
    edit_rendered(document, stores, field, rendered.as_str())
}

/// An edit of a scalar changes nothing but the scalar: what stands before it and behind it stays,
/// and putting back what stood there gives the document again.
pub proof fn edit_changes_only_the_scalar(document: Seq<char>, line: int, rendered: Seq<char>)
    requires
        0 <= line <= document.len(),
        scalar_replaced(document, line, rendered) is Ok,
    ensures
        ({
            let (candidate, prior) = scalar_replaced(document, line, rendered)->Ok_0;
            let (start, end) = scalar_at(document, line)->Ok_0;
            &&& line <= start <= end <= end_of(document, line) <= document.len()
            &&& candidate.take(start) == document.take(start)
            &&& candidate.skip(start + rendered.len()) == document.skip(end)
            &&& candidate.subrange(start, start + rendered.len()) == rendered
            &&& spliced(candidate, start, start + rendered.len(), prior) == document
        }),
{
    let (candidate, prior) = scalar_replaced(document, line, rendered)->Ok_0;
    let (start, end) = scalar_at(document, line)->Ok_0;
    lemma_position(document, '\n', line);
    let text = text_at(document, line);
    lemma_position(text, ':', 0);
    let colon = position(text, ':', 0);
    let raw = text.skip(colon + 1);
    lemma_bare_value(raw);
    lemma_padded_end(bare_value(raw), Padding::Blanks);
    assert(start <= end <= end_of(document, line));
    assert(candidate.take(start) =~= document.take(start));
    assert(candidate.skip(start + rendered.len()) =~= document.skip(end));
    assert(candidate.subrange(start, start + rendered.len()) =~= rendered);
    assert(spliced(candidate, start, start + rendered.len(), prior) =~= document);
}

proof fn lemma_json_character(character: char)
    ensures
        json_character(character).len() >= 1,
        forall|i: int|
            0 <= i < json_character(character).len() ==> (#[trigger] json_character(
                character,
            )[i]) as int >= 32,
{
    let code = character as int;
    if code < 32 {
        assert(0 <= code / 16 < 2);
        assert(0 <= code % 16 < 16);
        assert(hex_digit(code / 16) as int >= 32);
        assert(hex_digit(code % 16) as int >= 32);
    }
}

proof fn lemma_json_contents(text: Seq<char>)
    ensures
        forall|i: int|
            0 <= i < json_contents(text).len() ==> (#[trigger] json_contents(text)[i]) as int >= 32,
    decreases text.len(),
{
    if text.len() > 0 {
        let front = json_contents(text.drop_last());
        let piece = json_character(text.last());
        lemma_json_contents(text.drop_last());
        lemma_json_character(text.last());
        assert forall|i: int| 0 <= i < json_contents(text).len() implies (#[trigger] json_contents(
            text,
        )[i]) as int >= 32 by {
            if i < front.len() {
                assert(json_contents(text)[i] == front[i]);
            } else {
                assert(json_contents(text)[i] == piece[i - front.len()]);
            }
        }
    }
}

proof fn lemma_scan_json_character(text: Seq<char>, i: int, character: char)
    requires
        0 <= i,
        i + json_character(character).len() <= text.len(),
        text.subrange(i, i + json_character(character).len()) == json_character(character),
    ensures
        comment_from(text, i, Some('"'), false) == comment_from(
            text,
            i + json_character(character).len(),
            Some('"'),
            false,
        ),
{
    let piece = json_character(character);
    let code = character as int;
    assert forall|k: int| 0 <= k < piece.len() implies text[i + k] == #[trigger] piece[k] by {
        assert(text.subrange(i, i + piece.len())[k] == text[i + k]);
    }
    if piece.len() == 1 {
        assert(text[i] == piece[0]);
    } else if piece.len() == 2 {
        assert(text[i] == piece[0]);
        assert(comment_from(text, i, Some('"'), false) == comment_from(
            text,
            i + 1,
            Some('"'),
            true,
        ));
    } else {
        assert(0 <= code / 16 < 2);
        assert(0 <= code % 16 < 16);
        let high = hex_digit(code / 16);
        let low = hex_digit(code % 16);
        assert(high as int >= 48 && low as int >= 48);
        assert(high != '"' && high != '\\' && high != '\'' && high != '#') by {
            assert((high as int) < 92 || (high as int) >= 97);
        }
        assert(low != '"' && low != '\\' && low != '\'' && low != '#') by {
            assert((low as int) < 92 || (low as int) >= 97);
        }
        assert(text[i] == piece[0]);
        assert(text[i + 2] == piece[2]);
        assert(text[i + 3] == piece[3]);
        assert(text[i + 4] == piece[4]);
        assert(text[i + 5] == piece[5]);
        assert(comment_from(text, i, Some('"'), false) == comment_from(
            text,
            i + 1,
            Some('"'),
            true,
        ));
        assert(comment_from(text, i + 1, Some('"'), true) == comment_from(
            text,
            i + 2,
            Some('"'),
            false,
        ));
        assert(comment_from(text, i + 2, Some('"'), false) == comment_from(
            text,
            i + 3,
            Some('"'),
            false,
        ));
        assert(comment_from(text, i + 3, Some('"'), false) == comment_from(
            text,
            i + 4,
            Some('"'),
            false,
        ));
        assert(comment_from(text, i + 4, Some('"'), false) == comment_from(
            text,
            i + 5,
            Some('"'),
            false,
        ));
    }
}

proof fn lemma_scan_json_contents(text: Seq<char>, i: int, value: Seq<char>)
    requires
        0 <= i,
        i + json_contents(value).len() <= text.len(),
        text.subrange(i, i + json_contents(value).len()) == json_contents(value),
    ensures
        comment_from(text, i, Some('"'), false) == comment_from(
            text,
            i + json_contents(value).len(),
            Some('"'),
            false,
        ),
    decreases value.len(),
{
    if value.len() > 0 {
        let whole = json_contents(value);
        let front = json_contents(value.drop_last());
        let piece = json_character(value.last());
        let middle = i + front.len();
        assert(text.subrange(i, middle) =~= front) by {
            assert forall|k: int| 0 <= k < front.len() implies text[i + k] == front[k] by {
                assert(text.subrange(i, i + whole.len())[k] == whole[k]);
            }
        }
        assert(text.subrange(middle, middle + piece.len()) =~= piece) by {
            assert forall|k: int| 0 <= k < piece.len() implies text[middle + k] == piece[k] by {
                assert(text.subrange(i, i + whole.len())[front.len() + k] == whole[front.len()
                    + k]);
            }
        }
        lemma_scan_json_contents(text, i, value.drop_last());
        lemma_scan_json_character(text, middle, value.last());
    }
}

proof fn lemma_scan_json_string(text: Seq<char>, i: int, value: Seq<char>)
    requires
        0 <= i,
        i + json_string(value).len() <= text.len(),
        text.subrange(i, i + json_string(value).len()) == json_string(value),
    ensures
        comment_from(text, i, None, false) == comment_from(
            text,
            i + json_string(value).len(),
            None,
            false,
        ),
{
    let whole = json_string(value);
    let contents = json_contents(value);
    assert(text.subrange(i, i + whole.len())[0] == whole[0]);
    assert(text[i] == '"');
    assert(text.subrange(i + 1, i + 1 + contents.len()) =~= contents) by {
        assert forall|k: int| 0 <= k < contents.len() implies text[i + 1 + k] == contents[k] by {
            assert(text.subrange(i, i + whole.len())[1 + k] == whole[1 + k]);
        }
    }
    lemma_scan_json_contents(text, i + 1, value);
    let last = i + 1 + contents.len();
    assert(text.subrange(i, i + whole.len())[whole.len() - 1] == whole[whole.len() - 1]);
    assert(text[last] == '"');
}

proof fn lemma_comment_is_local(left: Seq<char>, right: Seq<char>, i: int, shift: int)
    requires
        0 < i <= left.len(),
        right.len() == left.len() + shift,
        0 < i + shift,
        forall|k: int| i <= k < left.len() ==> #[trigger] left[k] == right[k + shift],
        i < left.len() ==> is_padding(Padding::Blanks, left[i]),
        forall|k: int|
            i <= k < comment_from(left, i, None, false) ==> is_padding(
                Padding::Blanks,
                #[trigger] left[k],
            ),
    ensures
        comment_from(right, i + shift, None, false) == comment_from(left, i, None, false) + shift,
{
    lemma_comment_bounds(left, i, None, false);
    let stop = comment_from(left, i, None, false);
    lemma_comment_after_blanks(left, i, stop);
    assert forall|k: int| i + shift <= k < stop + shift implies is_padding(
        Padding::Blanks,
        #[trigger] right[k],
    ) by {
        assert(left[k - shift] == right[k]);
    }
    lemma_comment_after_blanks(right, i + shift, stop + shift);
    if stop < left.len() {
        assert(stop > i) by {
            if stop == i {
                assert(is_padding(Padding::Blanks, left[i]));
                assert(comment_from(left, i, None, false) == comment_from(left, i + 1, None, false));
                lemma_comment_bounds(left, i + 1, None, false);
            }
        }
        assert(comment_from(left, stop, None, false) == stop);
        lemma_comment_here(left, stop);
        assert(left[stop] == right[stop + shift]);
        assert(left[stop - 1] == right[stop - 1 + shift]);
    }
}

proof fn lemma_comment_here(text: Seq<char>, i: int)
    requires
        0 <= i < text.len(),
        comment_from(text, i, None, false) == i,
    ensures
        text[i] == '#',
        i > 0,
        is_white(text[i - 1]),
{
    if !(text[i] == '#' && i > 0 && is_white(text[i - 1])) {
        lemma_comment_bounds(text, i + 1, None, false);
        lemma_comment_bounds(text, i + 1, Some(text[i]), false);
    }
}

proof fn lemma_padded_start_is(text: Seq<char>, padding: Padding, n: int)
    requires
        0 <= n <= text.len(),
        forall|i: int| 0 <= i < n ==> is_padding(padding, #[trigger] text[i]),
        n < text.len() ==> !is_padding(padding, text[n]),
    ensures
        padded_start(text, padding) == n,
{
    lemma_padded_start(text, padding);
    let found = padded_start(text, padding) as int;
    if found < n {
        assert(is_padding(padding, text[found]));
    } else if found > n {
        assert(is_padding(padding, text[n]));
    }
}

proof fn lemma_padded_end_is(text: Seq<char>, padding: Padding, n: int)
    requires
        0 <= n <= text.len(),
        forall|i: int| text.len() - n <= i < text.len() ==> is_padding(padding, #[trigger] text[i]),
        n < text.len() ==> !is_padding(padding, text[text.len() - n - 1]),
    ensures
        padded_end(text, padding) == n,
{
    lemma_padded_end(text, padding);
    let found = padded_end(text, padding) as int;
    if found < n {
        assert(is_padding(padding, text[text.len() - found - 1]));
    } else if found > n {
        assert(is_padding(padding, text[text.len() - n - 1]));
    }
}

proof fn lemma_comment_found(text: Seq<char>, i: int, quote: Option<char>, escaped: bool)
    requires
        0 <= i <= text.len(),
        comment_from(text, i, quote, escaped) < text.len(),
    ensures
        ({
            let found = comment_from(text, i, quote, escaped);
            &&& text[found] == '#'
            &&& found > 0
            &&& is_white(text[found - 1])
        }),
    decreases text.len() - i,
{
    if i < text.len() {
        if quote == Some('"') && escaped {
            lemma_comment_found(text, i + 1, quote, false);
        } else if quote == Some('"') && text[i] == '\\' {
            lemma_comment_found(text, i + 1, quote, true);
        } else if text[i] == '\'' || text[i] == '"' {
            if quote == Some(text[i]) {
                lemma_comment_found(text, i + 1, None, escaped);
            } else if quote is None {
                lemma_comment_found(text, i + 1, Some(text[i]), escaped);
            } else {
                lemma_comment_found(text, i + 1, quote, escaped);
            }
        } else if text[i] == '#' && quote is None && i > 0 && is_white(text[i - 1]) {
        } else {
            lemma_comment_found(text, i + 1, quote, escaped);
        }
    }
}

/// Whether the comment behind a scalar, if there is one, stands behind a blank.
pub open spec fn comment_is_apart(raw: Seq<char>) -> bool {
    let line = without_newline(raw);
    let comment = comment_from(line, 0, None, false);
    comment < line.len() ==> (bounds_of(raw)->0).1 < comment
}

#[verifier::spinoff_prover]
#[verifier::rlimit(60)]
proof fn lemma_raw_reads_back(raw: Seq<char>, value: Seq<char>)
    requires
        bounds_of(raw) is Some,
        !raw.contains('\n'),
        comment_is_apart(raw),
    ensures
        ({
            let (start, end) = bounds_of(raw)->0;
            bounds_of(spliced(raw, start, end, json_string(value))) == Some(
                (start, start + json_string(value).len()),
            )
        }),
{
    let (start, end) = bounds_of(raw)->0;
    let json = json_string(value);
    let line = without_newline(raw);
    let comment = comment_from(line, 0, None, false);
    let bare = bare_value(raw);
    let newlines = padded_end(raw, Padding::Newlines) as int;
    lemma_bare_value(raw);
    lemma_padded_start(raw, Padding::Blanks);
    lemma_padded_end(raw, Padding::Newlines);
    lemma_padded_end(bare, Padding::Blanks);
    lemma_json_contents(value);
    let changed = spliced(raw, start, end, json);
    let shift = start + json.len() - end;
    // The blanks before the scalar.
    assert(changed[start] == '"') by {
        assert(json[0] == '"');
    }
    assert forall|i: int| 0 <= i < start implies is_padding(
        Padding::Blanks,
        #[trigger] changed[i],
    ) by {
        assert(changed[i] == raw[i]);
    }
    lemma_padded_start_is(changed, Padding::Blanks, start);
    // The newline behind the line.
    assert forall|i: int| end <= i < raw.len() implies #[trigger] raw[i] == changed[i + shift] by {
    }
    assert forall|i: int| changed.len() - newlines <= i < changed.len() implies is_padding(
        Padding::Newlines,
        #[trigger] changed[i],
    ) by {
        assert(raw[i - shift] == changed[i]);
        assert(is_padding(Padding::Newlines, raw[i - shift]));
    }
    assert(!is_padding(Padding::Newlines, changed[changed.len() - newlines - 1])) by {
        let last = changed.len() - newlines - 1;
        if last - shift >= end {
            assert(raw[last - shift] == changed[last]);
        } else {
            assert(changed[last] == json[json.len() - 1]);
        }
    }
    lemma_padded_end_is(changed, Padding::Newlines, newlines);
    let new_line = without_newline(changed);
    assert(new_line =~= line.take(start) + json + line.skip(end));
    // The comment.
    assert forall|k: int| end <= k < comment implies is_padding(
        Padding::Blanks,
        #[trigger] line[k],
    ) by {
        assert(bare[k - start] == line[k]);
    }
    assert(comment_from(line, end, None, false) == comment) by {
        lemma_comment_after_blanks(line, end, comment);
        if comment < line.len() {
            lemma_comment_found(line, 0, None, false);
        }
    }
    assert(new_line.subrange(start, start + json.len()) =~= json);
    assert forall|k: int| 0 <= k < start implies is_padding(
        Padding::Blanks,
        #[trigger] new_line[k],
    ) by {
        assert(new_line[k] == changed[k]);
    }
    lemma_comment_after_blanks(new_line, 0, start);
    lemma_scan_json_string(new_line, start, value);
    assert forall|k: int| end <= k < line.len() implies #[trigger] line[k] == new_line[k
        + shift] by {
    }
    if end < line.len() {
        assert(is_padding(Padding::Blanks, line[end]));
    }
    lemma_comment_is_local(line, new_line, end, shift);
    assert(comment_from(new_line, 0, None, false) == comment + shift);
    // The scalar.
    let new_value = bare_value(changed);
    assert(new_value =~= json + line.subrange(end, comment));
    assert forall|i: int| new_value.len() - (comment - end) <= i < new_value.len() implies is_padding(
        Padding::Blanks,
        #[trigger] new_value[i],
    ) by {
        let k = i - json.len() + end;
        assert(new_value[i] == line[k]);
    }
    assert(new_value[new_value.len() - (comment - end) - 1] == '"') by {
        assert(json[json.len() - 1] == '"');
    }
    lemma_padded_end_is(new_value, Padding::Blanks, comment - end);
    assert(new_value[0] == '"');
    assert(white_start(new_value) == 0);
    assert(!new_value.contains('\n')) by {
        assert forall|i: int| 0 <= i < new_value.len() implies new_value[i] != '\n' by {
            if i < json.len() {
                assert(new_value[i] == json[i]);
                if 0 < i < json.len() - 1 {
                    assert(json[i] == json_contents(value)[i - 1]);
                }
            } else {
                let k = i - json.len() + end;
                assert(new_value[i] == line[k]);
                assert(is_padding(Padding::Blanks, line[k]));
            }
        }
    }
}

/// A scalar that was replaced by a written text reads back as that text: the same entry can be
/// edited again, and what it held is exactly what was written.
///
/// The comment behind the scalar, if there is one, has to stand behind a blank. Behind another
/// white space character it would no longer be a comment once that character is replaced.
#[verifier::spinoff_prover]
#[verifier::rlimit(60)]
pub proof fn edited_scalar_reads_back(document: Seq<char>, line: int, value: Seq<char>)
    requires
        0 <= line <= document.len(),
        scalar_at(document, line) is Ok,
        comment_is_apart(
            text_at(document, line).skip(position(text_at(document, line), ':', 0) + 1),
        ),
    ensures
        ({
            let (start, end) = scalar_at(document, line)->Ok_0;
            let candidate = spliced(document, start, end, json_string(value));
            &&& scalar_at(candidate, line) == Ok::<(int, int), Seq<char>>(
                (start, start + json_string(value).len()),
            )
            &&& candidate.subrange(start, start + json_string(value).len()) == json_string(value)
        }),
{
    let (start, end) = scalar_at(document, line)->Ok_0;
    let json = json_string(value);
    let candidate = spliced(document, start, end, json);
    let text = text_at(document, line);
    let colon = position(text, ':', 0);
    let raw = text.skip(colon + 1);
    let stop = end_of(document, line);
    edit_changes_only_the_scalar(document, line, json);
    lemma_position(document, '\n', line);
    lemma_position(text, ':', 0);
    assert(!raw.contains('\n')) by {
        assert forall|i: int| 0 <= i < raw.len() implies raw[i] != '\n' by {
            assert(raw[i] == document[line + colon + 1 + i]);
        }
    }
    lemma_raw_reads_back(raw, value);
    lemma_json_contents(value);
    let shift = start + json.len() - end;
    // The line still ends at its newline.
    let new_stop = stop + shift;
    assert(end_of(candidate, line) == new_stop) by {
        assert forall|i: int| line <= i < new_stop implies candidate[i] != '\n' by {
            if i < start {
                assert(candidate[i] == document[i]);
            } else if i < start + json.len() {
                assert(candidate[i] == json[i - start]);
                if 0 < i - start < json.len() - 1 {
                    assert(json[i - start] == json_contents(value)[i - start - 1]);
                }
            } else {
                assert(candidate[i] == document[i - shift]);
            }
        }
        if new_stop < candidate.len() {
            assert(candidate[new_stop] == document[stop]);
        }
        lemma_position_is(candidate, '\n', line, new_stop);
    }
    let new_text = text_at(candidate, line);
    let value_start = line + colon + 1;
    assert(new_text =~= text.take(colon + 1) + spliced(
        raw,
        start - value_start,
        end - value_start,
        json,
    )) by {
        let right = text.take(colon + 1) + spliced(
            raw,
            start - value_start,
            end - value_start,
            json,
        );
        assert(new_text.len() == right.len());
        assert forall|i: int| 0 <= i < new_text.len() implies new_text[i] == right[i] by {
            let p = line + i;
            assert(new_text[i] == candidate[p]);
            if p < start {
                assert(candidate[p] == document[p]);
                assert(text[i] == document[p]);
                if i > colon {
                    assert(raw[i - colon - 1] == text[i]);
                }
            } else if p < start + json.len() {
                assert(candidate[p] == json[p - start]);
            } else {
                assert(candidate[p] == document[p - shift]);
                assert(raw[p - shift - value_start] == document[p - shift]);
            }
        }
    }
    assert(position(new_text, ':', 0) == colon) by {
        assert forall|i: int| 0 <= i < colon implies new_text[i] != ':' by {
            assert(new_text[i] == text[i]);
        }
        assert(new_text[colon] == text[colon]);
        lemma_position_is(new_text, ':', 0, colon);
    }
    assert(new_text.skip(colon + 1) =~= spliced(
        raw,
        start - value_start,
        end - value_start,
        json,
    ));
}

proof fn lemma_position_is(text: Seq<char>, character: char, from: int, found: int)
    requires
        0 <= from <= found <= text.len(),
        forall|i: int| from <= i < found ==> text[i] != character,
        found < text.len() ==> text[found] == character,
    ensures
        position(text, character, from) == found,
{
    lemma_position(text, character, from);
}

/// Lines that end before a position are the same in two documents that agree up to there.
proof fn lemma_same_line(left: Seq<char>, right: Seq<char>, n: int, line: int, stop: int)
    requires
        0 <= line <= stop <= n,
        n <= left.len(),
        n <= right.len(),
        left.take(n) == right.take(n),
        end_of(left, line) == stop,
        stop == n ==> end_of(right, line) == stop,
    ensures
        end_of(right, line) == stop,
        text_at(left, line) == text_at(right, line),
        line < n ==> is_line(left, line) == is_line(right, line),
{
    assert forall|i: int| 0 <= i < n implies left[i] == right[i] by {
        assert(left.take(n)[i] == left[i]);
        assert(right.take(n)[i] == right[i]);
    }
    lemma_position(left, '\n', line);
    if stop < n {
        lemma_position_is(right, '\n', line, stop);
    }
    assert(text_at(left, line) =~= text_at(right, line));
}

/// Whether two documents have the same line at a position, or both none.
spec fn same_at(left: Seq<char>, right: Seq<char>, m: int) -> bool {
    is_line(left, m) == is_line(right, m) && text_at(left, m) == text_at(right, m)
}

/// Lines before another one are the same in two documents that agree beyond its start.
proof fn lemma_lines_before(left: Seq<char>, right: Seq<char>, n: int, line: int)
    requires
        is_line(left, line),
        line < n <= left.len(),
        n <= right.len(),
        left.take(n) == right.take(n),
    ensures
        forall|m: int| 0 <= m < line ==> #[trigger] same_at(left, right, m),
{
    assert forall|m: int| 0 <= m < line implies #[trigger] same_at(left, right, m) by {
        lemma_position(left, '\n', m);
        assert(left[line - 1] == '\n');
        lemma_same_line(left, right, n, m, end_of(left, m));
    }
}

/// A line whose text begins as another one, up to the colon behind its key, has the same key at the
/// same indentation.
proof fn lemma_same_key(left: Seq<char>, right: Seq<char>, key: Seq<char>)
    requires
        has_key(left, key),
        key.len() > 0,
        key[0] != ' ',
        padded_start(left, Padding::Spaces) + key.len() < right.len(),
        forall|i: int|
            0 <= i <= padded_start(left, Padding::Spaces) + key.len() ==> right[i] == left[i],
    ensures
        has_key(right, key),
        padded_start(right, Padding::Spaces) == padded_start(left, Padding::Spaces),
{
    let indent = padded_start(left, Padding::Spaces) as int;
    let part = left.subrange(indent, indent + key.len());
    lemma_padded_start(left, Padding::Spaces);
    assert(part[0] == left[indent]);
    assert forall|i: int| 0 <= i < indent implies is_padding(
        Padding::Spaces,
        #[trigger] right[i],
    ) by {
        assert(is_padding(Padding::Spaces, left[i]));
    }
    lemma_padded_start_is(right, Padding::Spaces, indent);
    assert(right.subrange(indent, indent + key.len()) =~= part);
}

/// The colon behind a key that has none itself is the first one of the line.
proof fn lemma_first_colon(text: Seq<char>, key: Seq<char>)
    requires
        has_key(text, key),
        !key.contains(':'),
    ensures
        position(text, ':', 0) == padded_start(text, Padding::Spaces) + key.len(),
{
    let indent = padded_start(text, Padding::Spaces) as int;
    let part = text.subrange(indent, indent + key.len());
    lemma_padded_start(text, Padding::Spaces);
    assert forall|i: int| 0 <= i < indent + key.len() implies text[i] != ':' by {
        if i < indent {
            assert(is_padding(Padding::Spaces, text[i]));
        } else {
            assert(part[i - indent] == text[i]);
            assert(key.contains(key[i - indent]));
        }
    }
    lemma_position_is(text, ':', 0, indent + key.len());
}

/// An edited entry keeps its place, its indentation and its key, and every line before it stays.
#[verifier::spinoff_prover]
#[verifier::rlimit(60)]
proof fn lemma_entry_kept(document: Seq<char>, line: int, key: Seq<char>, value: Seq<char>)
    requires
        is_line(document, line),
        has_key(text_at(document, line), key),
        key.len() > 0,
        key[0] != ' ',
        !key.contains(':'),
        scalar_at(document, line) is Ok,
    ensures
        ({
            let (start, end) = scalar_at(document, line)->Ok_0;
            let candidate = spliced(document, start, end, json_string(value));
            &&& is_line(candidate, line)
            &&& has_key(text_at(candidate, line), key)
            &&& indent_of(candidate, line) == indent_of(document, line)
            &&& forall|m: int| 0 <= m < line ==> #[trigger] same_at(document, candidate, m)
        }),
{
    let (start, end) = scalar_at(document, line)->Ok_0;
    let json = json_string(value);
    let candidate = spliced(document, start, end, json);
    edit_changes_only_the_scalar(document, line, json);
    let text = text_at(document, line);
    let new_text = text_at(candidate, line);
    let colon = position(text, ':', 0);
    lemma_position(document, '\n', line);
    lemma_position(candidate, '\n', line);
    lemma_position(text, ':', 0);
    lemma_first_colon(text, key);
    lemma_bare_value(text.skip(colon + 1));
    assert(start > line + colon);
    assert forall|i: int| 0 <= i < start implies candidate[i] == document[i] by {
        assert(candidate.take(start)[i] == document.take(start)[i]);
    }
    assert(new_text.len() > colon) by {
        if end_of(candidate, line) <= line + colon {
            assert(candidate[end_of(candidate, line)] == document[end_of(candidate, line)]);
        }
    }
    assert forall|i: int| 0 <= i <= colon implies new_text[i] == text[i] by {
        assert(candidate[line + i] == document[line + i]);
    }
    lemma_same_key(text, new_text, key);
    lemma_lines_before(document, candidate, start, line);
}

proof fn lemma_top_line_kept(document: Seq<char>, line: int, value: Seq<char>)
    requires
        is_first_top(document, "default_profile"@, line),
        scalar_at(document, line) is Ok,
    ensures
        ({
            let (start, end) = scalar_at(document, line)->Ok_0;
            is_first_top(
                spliced(document, start, end, json_string(value)),
                "default_profile"@,
                line,
            )
        }),
{
    let key = "default_profile"@;
    let (start, end) = scalar_at(document, line)->Ok_0;
    let candidate = spliced(document, start, end, json_string(value));
    assert(key.len() > 0 && key[0] != ' ' && !key.contains(':')) by {
        reveal_strlit("default_profile");
    }
    lemma_entry_kept(document, line, key, value);
    assert forall|m: int| 0 <= m < line implies !#[trigger] is_top(candidate, key, m) by {
        assert(same_at(document, candidate, m));
        assert(!is_top(document, key, m));
    }
}

/// An entry before an edited line stays the first one below its parent.
proof fn lemma_child_kept(
    document: Seq<char>,
    candidate: Seq<char>,
    parent: int,
    indent: int,
    key: Seq<char>,
    entry: int,
    line: int,
)
    requires
        is_child(document, parent, indent, key, entry),
        0 <= parent,
        entry <= line,
        entry == line ==> is_entry(candidate, indent + 2, key, line),
        forall|m: int| 0 <= m < line ==> #[trigger] same_at(document, candidate, m),
    ensures
        is_child(candidate, parent, indent, key, entry),
{
    assert(is_entry(candidate, indent + 2, key, entry)) by {
        if entry < line {
            assert(same_at(document, candidate, entry));
        }
    }
    assert forall|m: int|
        #![trigger is_line(candidate, m)]
        parent < m < entry implies !is_outer(candidate, indent, m) && !is_entry(
        candidate,
        indent + 2,
        key,
        m,
    ) by {
        assert(same_at(document, candidate, m));
        assert(!is_outer(document, indent, m) && !is_entry(document, indent + 2, key, m));
    }
}

proof fn lemma_store_path_kept(document: Seq<char>, store: Seq<char>, line: int, value: Seq<char>)
    requires
        is_store_path(document, store, line),
        scalar_at(document, line) is Ok,
    ensures
        ({
            let (start, end) = scalar_at(document, line)->Ok_0;
            is_store_path(spliced(document, start, end, json_string(value)), store, line)
        }),
{
    let (stores, entry, properties) = choose|stores: int, entry: int, properties: int|
        leads_to_store_path(document, store, stores, entry, properties, line);
    let (start, end) = scalar_at(document, line)->Ok_0;
    let candidate = spliced(document, start, end, json_string(value));
    let key = "path"@;
    assert(key.len() > 0 && key[0] != ' ' && !key.contains(':')) by {
        reveal_strlit("path");
    }
    lemma_entry_kept(document, line, key, value);
    assert(same_at(document, candidate, stores));
    assert(is_top(candidate, "stores"@, stores));
    assert forall|m: int| 0 <= m < stores implies !#[trigger] is_top(
        candidate,
        "stores"@,
        m,
    ) by {
        assert(same_at(document, candidate, m));
        assert(!is_top(document, "stores"@, m));
    }
    lemma_child_kept(document, candidate, stores, 0, store, entry, line);
    lemma_child_kept(document, candidate, entry, 2, "properties"@, properties, line);
    lemma_child_kept(document, candidate, properties, 4, key, line, line);
    assert(leads_to_store_path(candidate, store, stores, entry, properties, line));
}

#[verifier::spinoff_prover]
#[verifier::rlimit(60)]
proof fn lemma_entry_reads_back(value: Seq<char>)
    ensures
        bounds_of(seq![' '] + json_string(value)) == Some(
            (1int, 1int + json_string(value).len()),
        ),
{
    let raw = seq![' ', 'x'];
    let json = json_string(value);
    lemma_padded_start_is(raw, Padding::Blanks, 1);
    lemma_padded_end_is(raw, Padding::Newlines, 0);
    assert(without_newline(raw) =~= raw);
    assert(comment_from(raw, 2, None, false) == 2);
    assert(comment_from(raw, 1, None, false) == 2);
    assert(comment_from(raw, 0, None, false) == 2);
    assert(bare_value(raw) =~= seq!['x']);
    lemma_padded_end_is(bare_value(raw), Padding::Blanks, 0);
    assert(white_start(bare_value(raw)) == 0);
    assert(!bare_value(raw).contains('\n'));
    assert(bounds_of(raw) == Some((1int, 2int)));
    lemma_raw_reads_back(raw, value);
    assert(spliced(raw, 1, 2, json) =~= seq![' '] + json);
}

#[verifier::spinoff_prover]
#[verifier::rlimit(60)]
proof fn lemma_entry_text(text: Seq<char>, value: Seq<char>)
    requires
        text == "default_profile: "@ + json_string(value),
    ensures
        padded_start(text, Padding::Spaces) == 0,
        has_key(text, "default_profile"@),
        position(text, ':', 0) == 15,
        text.skip(16) == seq![' '] + json_string(value),
        forall|i: int| 0 <= i < text.len() ==> text[i] != '\n',
{
    reveal_strlit("default_profile");
    reveal_strlit("default_profile: ");
    let key = "default_profile"@;
    let head = "default_profile: "@;
    let json = json_string(value);
    lemma_json_contents(value);
    assert forall|i: int| 0 <= i < 17 implies text[i] == head[i] by {}
    lemma_padded_start_is(text, Padding::Spaces, 0);
    assert(text.subrange(0, key.len() as int) =~= key);
    assert forall|i: int| 0 <= i < 15 implies text[i] != ':' by {
        assert(text[i] == head[i]);
    }
    assert(text[15] == head[15]);
    lemma_position_is(text, ':', 0, 15);
    assert(text.skip(16) =~= seq![' '] + json);
    assert forall|i: int| 0 <= i < text.len() implies text[i] != '\n' by {
        if i < 17 {
            assert(text[i] == head[i]);
        } else {
            assert(text[i] == json[i - 17]);
            if 0 < i - 17 < json.len() - 1 {
                assert(json[i - 17] == json_contents(value)[i - 18]);
            }
        }
    }
}

#[verifier::spinoff_prover]
#[verifier::rlimit(60)]
proof fn lemma_inserted_shape(document: Seq<char>, schema: int, value: Seq<char>)
    requires
        0 <= schema < document.len(),
    ensures
        ({
            let line = end_of(document, schema) + 1;
            let entry = "default_profile: "@ + json_string(value);
            let candidate = line_inserted(
                document,
                schema,
                default_profile_entry(json_string(value)),
            );
            &&& 0 < line < candidate.len()
            &&& line - 1 <= document.len()
            &&& candidate[line - 1] == '\n'
            &&& forall|i: int| 0 <= i < line - 1 ==> #[trigger] candidate[i] == document[i]
            &&& text_at(candidate, line) == entry
            &&& line + entry.len() < candidate.len()
            &&& candidate.subrange(line, line + entry.len()) == entry
        }),
{
    reveal_strlit("\n");
    let json = json_string(value);
    let entry = "default_profile: "@ + json;
    let whole = default_profile_entry(json);
    let candidate = line_inserted(document, schema, whole);
    lemma_position(document, '\n', schema);
    let line = end_of(document, schema) + 1;
    assert(whole =~= entry + seq!['\n']);
    assert(candidate.subrange(line, line + entry.len()) =~= entry);
    assert(candidate[line + entry.len()] == '\n');
    lemma_entry_text(entry, value);
    assert forall|i: int| line <= i < line + entry.len() implies candidate[i] != '\n' by {
        assert(candidate.subrange(line, line + entry.len())[i - line] == entry[i - line]);
    }
    lemma_position_is(candidate, '\n', line, (line + entry.len()) as int);
}

#[verifier::spinoff_prover]
#[verifier::rlimit(60)]
proof fn lemma_inserted_first(
    document: Seq<char>,
    candidate: Seq<char>,
    key: Seq<char>,
    line: int,
    m: int,
)
    requires
        0 < line < candidate.len(),
        line - 1 <= document.len(),
        candidate[line - 1] == '\n',
        line - 1 < document.len() ==> document[line - 1] == '\n',
        line - 1 == document.len() && line > 1 ==> document[line - 2] != '\n',
        forall|i: int| 0 <= i < line - 1 ==> #[trigger] candidate[i] == document[i],
        forall|i: int| !#[trigger] is_top(document, key, i),
        0 <= m < line,
    ensures
        !is_top(candidate, key, m),
{
    if is_top(candidate, key, m) {
        lemma_position(candidate, '\n', m);
        let own = end_of(candidate, m);
        assert(own <= line - 1);
        if m == line - 1 {
            assert(own == m);
            assert(text_at(candidate, m).len() == 0);
        } else {
            assert forall|i: int| m <= i < own implies document[i] != '\n' by {
                assert(candidate[i] == document[i]);
            }
            if own < line - 1 {
                assert(candidate[own] == document[own]);
            }
            lemma_position_is(document, '\n', m, own);
            assert(text_at(document, m) =~= text_at(candidate, m));
            assert(is_line(document, m)) by {
                if m > 0 {
                    assert(candidate[m - 1] == document[m - 1]);
                }
            }
            assert(!is_top(document, key, m));
        }
    }
}

#[verifier::spinoff_prover]
#[verifier::rlimit(60)]
proof fn lemma_scalar_of_the_entry(candidate: Seq<char>, line: int, value: Seq<char>)
    requires
        text_at(candidate, line) == "default_profile: "@ + json_string(value),
    ensures
        indent_of(candidate, line) == 0,
        has_key(text_at(candidate, line), "default_profile"@),
        scalar_at(candidate, line) == Ok::<(int, int), Seq<char>>(
            (line + 17, line + 17 + json_string(value).len()),
        ),
{
    let text = text_at(candidate, line);
    lemma_entry_text(text, value);
    lemma_entry_reads_back(value);
    assert(text.len() > 16) by {
        reveal_strlit("default_profile: ");
    }
    assert(text.skip(16) == seq![' '] + json_string(value));
}

#[verifier::spinoff_prover]
#[verifier::rlimit(60)]
proof fn lemma_text_of_the_entry(candidate: Seq<char>, line: int, json: Seq<char>)
    requires
        ({
            let entry = "default_profile: "@ + json;
            &&& 0 <= line
            &&& line + entry.len() < candidate.len()
            &&& candidate.subrange(line, line + entry.len()) == entry
        }),
    ensures
        candidate.subrange(line + 17, line + 17 + json.len()) == json,
{
    reveal_strlit("default_profile: ");
    let entry = "default_profile: "@ + json;
    assert forall|i: int| 0 <= i < json.len() implies candidate[line + 17 + i] == json[i] by {
        assert(candidate.subrange(line, line + entry.len())[17 + i] == entry[17 + i]);
    }
    assert(candidate.subrange(line + 17, line + 17 + json.len()) =~= json);
}

#[verifier::spinoff_prover]
#[verifier::rlimit(60)]
proof fn lemma_inserted_comes_first(
    document: Seq<char>,
    candidate: Seq<char>,
    schema: int,
    key: Seq<char>,
)
    requires
        ({
            let line = end_of(document, schema) + 1;
            &&& 0 <= schema < document.len()
            &&& 0 < line < candidate.len()
            &&& candidate[line - 1] == '\n'
            &&& forall|i: int| 0 <= i < line - 1 ==> #[trigger] candidate[i] == document[i]
            &&& forall|i: int| !#[trigger] is_top(document, key, i)
        }),
    ensures
        forall|m: int|
            0 <= m < end_of(document, schema) + 1 ==> !#[trigger] is_top(candidate, key, m),
{
    let line = end_of(document, schema) + 1;
    lemma_position(document, '\n', schema);
    assert forall|m: int| 0 <= m < line implies !#[trigger] is_top(candidate, key, m) by {
        lemma_inserted_first(document, candidate, key, line, m);
    }
}

#[verifier::spinoff_prover]
#[verifier::rlimit(60)]
proof fn lemma_inserted_reads_back(document: Seq<char>, schema: int, value: Seq<char>)
    requires
        is_first_top(document, "schema_version"@, schema),
        forall|m: int| !#[trigger] is_top(document, "default_profile"@, m),
    ensures
        ({
            let line = end_of(document, schema) + 1;
            let candidate = line_inserted(
                document,
                schema,
                default_profile_entry(json_string(value)),
            );
            &&& is_first_top(candidate, "default_profile"@, line)
            &&& scalar_at(candidate, line) == Ok::<(int, int), Seq<char>>(
                (line + 17, line + 17 + json_string(value).len()),
            )
            &&& candidate.subrange(line + 17, line + 17 + json_string(value).len())
                == json_string(value)
        }),
{
    let candidate = line_inserted(document, schema, default_profile_entry(json_string(value)));
    let line = end_of(document, schema) + 1;
    lemma_inserted_shape(document, schema, value);
    lemma_scalar_of_the_entry(candidate, line, value);
    lemma_text_of_the_entry(candidate, line, json_string(value));
    lemma_inserted_comes_first(document, candidate, schema, "default_profile"@);
    assert(is_line(candidate, line));
}

/// A default profile that was set reads back: the next edit of it finds exactly what was written,
/// whether the field was there before or not.
///
/// The comment behind a value that was there has to stand behind a blank, as for every scalar.
pub proof fn default_profile_reads_back(document: Seq<char>, value: Seq<char>, next: Seq<char>)
    requires
        default_profile_edited(document, json_string(value)) is Ok,
        top_line(document, "default_profile"@) matches Some(line) ==> comment_is_apart(
            text_at(document, line).skip(position(text_at(document, line), ':', 0) + 1),
        ),
    ensures
        ({
            let (candidate, _) = default_profile_edited(document, json_string(value))->Ok_0;
            default_profile_edited(candidate, next) matches Ok((_, prior)) && prior
                == json_string(value)
        }),
{
    let key = "default_profile"@;
    let (candidate, _) = default_profile_edited(document, json_string(value))->Ok_0;
    match top_line(document, key) {
        Some(line) => {
            assert(is_first_top(document, key, line));
            lemma_top_line_kept(document, line, value);
            edited_scalar_reads_back(document, line, value);
            lemma_top_line(candidate, key, line);
        },
        None => {
            let schema = top_line(document, "schema_version"@)->0;
            assert(is_first_top(document, "schema_version"@, schema));
            assert forall|m: int| !#[trigger] is_top(document, key, m) by {
                if is_top(document, key, m) {
                    lemma_first_exists(document, key, m);
                }
            }
            lemma_inserted_reads_back(document, schema, value);
            let end = end_of(document, schema);
            let line = end + 1;
            lemma_top_line(candidate, key, line);
        },
    }
}

/// The path of a store that was set reads back: the next edit of it finds exactly what was written.
///
/// The comment behind the value that was there has to stand behind a blank, as for every scalar.
pub proof fn store_path_reads_back(
    document: Seq<char>,
    stores: Seq<Seq<char>>,
    field: Seq<char>,
    value: Seq<char>,
    next: Seq<char>,
)
    requires
        store_of_field(field) is Some,
        field_edited(document, stores, field, json_string(value)) is Ok,
        store_path(document, store_of_field(field)->0) matches Some(line) ==> comment_is_apart(
            text_at(document, line).skip(position(text_at(document, line), ':', 0) + 1),
        ),
    ensures
        ({
            let (candidate, _) = field_edited(document, stores, field, json_string(value))->Ok_0;
            field_edited(candidate, stores, field, next) matches Ok((_, prior)) && prior
                == json_string(value)
        }),
{
    assert(field != "default_profile"@) by {
        reveal_strlit("default_profile");
        reveal_strlit("stores.");
        assert(field.take("stores."@.len() as int)[0] == field[0]);
    }
    let store = store_of_field(field)->0;
    let (candidate, _) = field_edited(document, stores, field, json_string(value))->Ok_0;
    let line = store_path(document, store)->0;
    assert(is_store_path(document, store, line));
    lemma_store_path(document, store, line);
    lemma_store_path_kept(document, store, line, value);
    edited_scalar_reads_back(document, line, value);
    lemma_store_path(candidate, store, line);
}

proof fn lemma_first_exists(document: Seq<char>, key: Seq<char>, line: int)
    requires
        is_top(document, key, line),
    ensures
        exists|first: int| is_first_top(document, key, first),
    decreases line,
{
    if exists|m: int| 0 <= m < line && #[trigger] is_top(document, key, m) {
        let m = choose|m: int| 0 <= m < line && #[trigger] is_top(document, key, m);
        lemma_first_exists(document, key, m);
    } else {
        assert(is_first_top(document, key, line));
    }
}

/// The lines of a document are listed by where they start, from the first on: at its beginning and
/// behind every newline that something follows. Those after a line are the rest of them.
pub proof fn lines_start_behind_newlines(
    document: Vec<char>,
    line: usize,
    all: Vec<usize>,
    rest: Vec<usize>,
    i: int,
)
    requires
        call_ensures(lines, (&document,), all),
        line < document@.len(),
        call_ensures(lines_after, (&document, line), rest),
        0 <= i < document@.len(),
    ensures
        (exists|k: int| 0 <= k < all@.len() && #[trigger] all@[k] == i) <==> i == 0 || document@[i
            - 1] == '\n',
        (exists|k: int| 0 <= k < rest@.len() && #[trigger] rest@[k] == i) <==> i > line
            && document@[i - 1] == '\n',
        forall|a: int, b: int|
            0 <= a < b < all@.len() ==> #[trigger] all@[a] < #[trigger] all@[b],
        forall|a: int, b: int|
            0 <= a < b < rest@.len() ==> #[trigger] rest@[a] < #[trigger] rest@[b],
{
    if i == 0 || document@[i - 1] == '\n' {
        assert(is_line(document@, i));
    }
    if exists|k: int| 0 <= k < all@.len() && #[trigger] all@[k] == i {
        let k = choose|k: int| 0 <= k < all@.len() && #[trigger] all@[k] == i;
        assert(is_line(document@, all@[k] as int));
    }
    if exists|k: int| 0 <= k < rest@.len() && #[trigger] rest@[k] == i {
        let k = choose|k: int| 0 <= k < rest@.len() && #[trigger] rest@[k] == i;
        assert(is_line(document@, rest@[k] as int));
    }
}

/// A line is indented by the spaces that it starts with, all of them and nothing else.
pub proof fn indent_counts_the_first_spaces(document: Vec<char>, line: usize, indent: Option<usize>)
    requires
        call_ensures(indent_at, (&document, line), indent),
    ensures
        indent is None <==> line > document@.len(),
        (indent matches Some(indent) ==> line + indent <= document@.len() && (forall|i: int|
            line <= i < line + indent ==> #[trigger] document@[i] == ' ') && (line + indent
            < document@.len() ==> document@[line + indent] != ' ')),
{
    if let Some(indent) = indent {
        let text = text_at(document@, line as int);
        lemma_position(document@, '\n', line as int);
        lemma_padded_start(text, Padding::Spaces);
        assert forall|i: int| line <= i < line + indent implies #[trigger] document@[i] == ' ' by {
            assert(text[i - line] == document@[i]);
        }
        if indent < text.len() {
            assert(text[indent as int] == document@[line + indent]);
        }
    }
}

/// A line has a key exactly if the key and a colon follow its spaces, on the same line.
pub proof fn key_stands_between_the_spaces_and_a_colon(
    document: Vec<char>,
    line: usize,
    key: &str,
    indent: usize,
    found: bool,
)
    requires
        call_ensures(key_at, (&document, line, key), found),
        call_ensures(indent_at, (&document, line), Some(indent)),
    ensures
        found ==> line + indent + key@.len() < document@.len() && document@[line + indent
            + key@.len()] == ':' && (forall|i: int|
            0 <= i < key@.len() ==> #[trigger] document@[line + indent + i] == key@[i]),
        !key@.contains('\n') && line + indent + key@.len() < document@.len() && document@[line
            + indent + key@.len()] == ':' && (forall|i: int|
            0 <= i < key@.len() ==> #[trigger] document@[line + indent + i] == key@[i]) ==> found,
{
    let text = text_at(document@, line as int);
    lemma_position(document@, '\n', line as int);
    lemma_padded_start(text, Padding::Spaces);
    let start = indent as int;
    let end = end_of(document@, line as int);
    if found {
        assert forall|i: int| 0 <= i < key@.len() implies #[trigger] document@[line + indent + i]
            == key@[i] by {
            assert(text.subrange(start, start + key@.len())[i] == key@[i]);
        }
    }
    if !key@.contains('\n') && line + indent + key@.len() < document@.len() && document@[line + indent
        + key@.len()] == ':' && (forall|i: int|
        0 <= i < key@.len() ==> #[trigger] document@[line + indent + i] == key@[i]) {
        if end <= line + indent + key@.len() {
            assert(end < document@.len() && document@[end] == '\n');
            let i = end - line - indent;
            if i < key@.len() {
                assert(document@[line + indent + i] == key@[i]);
                assert(key@.contains(key@[i]));
            }
        }
        assert(text.subrange(start, start + key@.len()) =~= key@) by {
            assert forall|i: int| 0 <= i < key@.len() implies #[trigger] text.subrange(
                start,
                start + key@.len(),
            )[i] == key@[i] by {
                assert(document@[line + indent + i] == key@[i]);
            }
        }
    }
}

/// A line says nothing exactly if it is white space throughout, or up to the sign of a comment.
pub proof fn silent_line_is_blank_up_to_a_comment(text: Vec<char>, silent: bool)
    requires
        call_ensures(is_blank_or_comment, (&text,), silent),
    ensures
        silent <==> (forall|i: int| 0 <= i < text@.len() ==> is_white(#[trigger] text@[i])) || (
        exists|i: int|
            0 <= i < text@.len() && #[trigger] text@[i] == '#' && forall|j: int|
                0 <= j < i ==> is_white(#[trigger] text@[j])),
{
    lemma_white_start(text@);
    let start = white_start(text@) as int;
    if exists|i: int|
        0 <= i < text@.len() && #[trigger] text@[i] == '#' && forall|j: int|
            0 <= j < i ==> is_white(#[trigger] text@[j]) {
        let i = choose|i: int|
            0 <= i < text@.len() && #[trigger] text@[i] == '#' && forall|j: int|
                0 <= j < i ==> is_white(#[trigger] text@[j]);
        assert(!is_white('#'));
        assert(start == i) by {
            if i < start {
                assert(is_white(text@[i]));
            }
            if start < i {
                assert(is_white(text@[start]));
            }
        }
    }
    if start < text@.len() && forall|i: int| 0 <= i < text@.len() ==> is_white(#[trigger] text@[i]) {
        assert(is_white(text@[start]));
    }
}

proof fn lemma_plain_comment(text: Seq<char>, i: int)
    requires
        0 <= i <= text.len(),
        forall|k: int| 0 <= k < text.len() ==> #[trigger] text[k] != '"' && text[k] != '\'',
    ensures
        ({
            let found = comment_from(text, i, None, false);
            &&& i <= found <= text.len()
            &&& found < text.len() ==> found > 0 && text[found] == '#' && is_white(text[found - 1])
            &&& forall|k: int|
                i <= k < found && k > 0 ==> !(#[trigger] text[k] == '#' && is_white(text[k - 1]))
        }),
    decreases text.len() - i,
{
    if i < text.len() {
        assert(text[i] != '"' && text[i] != '\'');
        if !(text[i] == '#' && i > 0 && is_white(text[i - 1])) {
            lemma_plain_comment(text, i + 1);
        }
    }
}

/// The comment of a value without quotes starts at its first sign of a comment behind white space.
pub proof fn comment_starts_behind_white_space(value: Vec<char>, start: Option<usize>, k: int)
    requires
        call_ensures(comment_start, (&value,), start),
        forall|i: int| 0 <= i < value@.len() ==> #[trigger] value@[i] != '"' && value@[i] != '\'',
        0 < k < value@.len(),
    ensures
        (start matches Some(start) ==> 0 < start < value@.len() && value@[start as int] == '#'
            && is_white(value@[start - 1])),
        value@[k] == '#' && is_white(value@[k - 1]) ==> (start matches Some(start) && start <= k),
{
    lemma_plain_comment(value@, 0);
}

/// A scalar stands between blanks, and is neither empty nor one that starts a block, an anchor or an
/// alias.
pub proof fn scalar_stands_between_blanks(raw: Vec<char>, outcome: Result<(usize, usize), String>)
    requires
        call_ensures(scalar_bounds, (&raw,), outcome),
    ensures
        (outcome matches Ok(bounds) ==> {
            let (start, end) = bounds;
            &&& start < end <= raw@.len()
            &&& forall|i: int|
                0 <= i < start ==> #[trigger] raw@[i] == ' ' || raw@[i] == '\t'
            &&& raw@[start as int] != ' ' && raw@[start as int] != '\t'
            &&& raw@[end - 1] != ' ' && raw@[end - 1] != '\t'
            &&& raw@[start as int] != '|' && raw@[start as int] != '>' && raw@[start as int] != '&'
                && raw@[start as int] != '*'
        }),
        (outcome matches Err(message) ==> message@
            == "cannot prove presentation preservation for this scalar value"@),
{
    if let Ok(bounds) = outcome {
        let value = bare_value(raw@);
        lemma_bare_value(raw@);
        lemma_padded_start(raw@, Padding::Blanks);
        lemma_padded_end(raw@, Padding::Newlines);
        lemma_padded_end(value, Padding::Blanks);
        assert(value.len() > 0);
        assert(value[0] == raw@[bounds.0 as int]);
        assert(value[bounds.1 - bounds.0 - 1] == raw@[bounds.1 - 1]);
        assert forall|i: int| 0 <= i < bounds.0 implies #[trigger] raw@[i] == ' ' || raw@[i]
            == '\t' by {
            assert(is_padding(Padding::Blanks, raw@[i]));
        }
        if !is_white(value[0]) {
            assert(white_start(value) == 0);
        }
    }
}

/// Only the default profile and the path of a declared store are edited. Every other field is refused by
/// its name.
pub proof fn other_fields_are_refused_by_name(
    document: &str,
    stores: Vec<String>,
    field: &str,
    value: &str,
    outcome: Result<Edited, String>,
)
    requires
        call_ensures(edit, (document, &stores, field, value), outcome),
        field@ != "default_profile"@,
        (store_of_field(field@) matches Some(store) ==> forall|i: int|
            0 <= i < stores@.len() ==> (#[trigger] stores@[i])@ != store),
    ensures
        outcome matches Err(message) && message@ == "unsupported configuration field: "@ + field@,
{
    if let Some(store) = store_of_field(field@) {
        assert(!texts(stores@).contains(store)) by {
            if texts(stores@).contains(store) {
                let i = choose|i: int| 0 <= i < texts(stores@).len() && texts(stores@)[i] == store;
                assert(stores@[i]@ == store);
            }
        }
    }
}

/// A key at the top level is found at a line that has it without an indent, and before every other that
/// has.
pub proof fn top_level_key_is_found_at_its_first_line(
    document: Vec<char>,
    key: &str,
    found: Option<usize>,
    line: usize,
    indent: Option<usize>,
    has: bool,
)
    requires
        call_ensures(top_level_line, (&document, key), found),
        call_ensures(indent_at, (&document, line), indent),
        call_ensures(key_at, (&document, line, key), has),
        line < document@.len(),
        line == 0 || document@[line - 1] == '\n',
    ensures
        found == Some(line) ==> indent == Some(0usize) && has,
        indent == Some(0usize) && has ==> (found matches Some(first) ==> first <= line),
{
    assert(is_line(document@, line as int));
    if indent == Some(0usize) && has {
        assert(is_top(document@, key@, line as int));
        if let Some(first) = found {
            assert(is_first_top(document@, key@, first as int));
        }
    }
}

/// The path of a store is found under its properties, under the store, under the stores, each indented
/// by two spaces more than what it stands under.
pub proof fn store_path_is_found_under_its_store(
    document: Vec<char>,
    store: &str,
    line: int,
) -> (above: (int, int, int))
    requires
        is_store_path(document@, store@, line),
    ensures
        0 <= above.0 < above.1 < above.2 < line < document@.len(),
        indent_of(document@, above.0) == 0 && has_key(text_at(document@, above.0), "stores"@),
        indent_of(document@, above.1) == 2 && has_key(text_at(document@, above.1), store@),
        indent_of(document@, above.2) == 4 && has_key(text_at(document@, above.2), "properties"@),
        indent_of(document@, line) == 6 && has_key(text_at(document@, line), "path"@),
        above.0 == 0 || document@[above.0 - 1] == '\n',
        document@[above.1 - 1] == '\n',
        document@[above.2 - 1] == '\n',
        document@[line - 1] == '\n',
{
    let (stores, entry, properties) = choose|stores: int, entry: int, properties: int|
        leads_to_store_path(document@, store@, stores, entry, properties, line);
    assert(leads_to_store_path(document@, store@, stores, entry, properties, line));
    (stores, entry, properties)
}

} // verus!
