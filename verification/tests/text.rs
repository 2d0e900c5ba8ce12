use loadout::text::{
    chars_of, copy_of, find_from, join_texts, lined_texts, split_chars, text_equal, text_of,
    text_precedes, to_decimal, trim, white,
};

#[test]
fn texts_are_taken_apart_and_put_together() {
    let chars = chars_of("a/b//c");
    assert_eq!(find_from(&chars, '/', 0), 1);
    assert_eq!(find_from(&chars, '/', 2), 3);
    assert_eq!(find_from(&chars, 'x', 0), 6);
    let pieces: Vec<String> = split_chars(&chars, '/', 0)
        .iter()
        .map(|piece| text_of(piece, 0, piece.len()))
        .collect();
    assert_eq!(pieces, ["a", "b", "", "c"]);
    assert_eq!(join_texts(&pieces, "/"), "a/b//c");
    assert_eq!(join_texts(&vec![], "/"), "");
    assert_eq!(lined_texts(&pieces), "a\nb\n\nc\n");
    assert_eq!(text_of(&chars, 2, 3), "b");
    assert_eq!(copy_of("\u{e9}"), "\u{e9}");
}

#[test]
fn texts_are_ordered_as_strings_are() {
    for (left, right) in [("", "a"), ("a", "b"), ("a", "aa"), ("Z", "a"), ("a", "\u{e9}")] {
        assert!(text_precedes(left, right));
        assert!(!text_precedes(right, left));
        assert!(left < right);
        assert!(!text_equal(left, right));
    }
    assert!(!text_precedes("a", "a"));
    assert!(text_equal("a", "a"));
}

#[test]
fn numbers_are_written_in_decimal() {
    for number in [0, 9, 10, 128, 4_096, usize::MAX] {
        assert_eq!(to_decimal(number), number.to_string());
    }
}

#[test]
fn white_space_is_what_unicode_calls_white_space() {
    for code in 0..0x11_0000u32 {
        if let Some(character) = char::from_u32(code) {
            assert_eq!(white(character), character.is_whitespace(), "{code:x}");
        }
    }
    for text in ["", " a ", "\u{2003}a b\n", "\t\r\n"] {
        assert_eq!(trim(text).iter().collect::<String>(), text.trim());
    }
}
