//! Text primitives against the standard library.

use matcha::text;

#[test]
fn white_space_and_control_characters_agree_with_the_standard_library() {
    for code in 0..=0x10_ffff_u32 {
        if let Some(character) = char::from_u32(code) {
            assert_eq!(text::is_white_space(character), character.is_whitespace());
            assert_eq!(text::is_control(character), character.is_control());
        }
    }
}

#[test]
fn trimming_agrees_with_the_standard_library() {
    for sample in ["", " ", "a", " a ", "\t a\u{3000}b \u{a0}", "界 \n", "\n\n"] {
        assert_eq!(text::trim(sample), sample.trim());
        assert_eq!(text::trim_end(sample), sample.trim_end());
        assert_eq!(text::trim_end_char(sample, '\n'), sample.trim_end_matches('\n'));
        assert_eq!(text::is_blank(sample), sample.trim().is_empty());
        assert_eq!(text::is_only(sample, ' '), sample.chars().all(|c| c == ' '));
        assert_eq!(text::contains_char(sample, 'a'), sample.contains('a'));
    }
}

#[test]
fn comparison_agrees_with_the_standard_library() {
    let samples = ["", "a", "A", "ab", "é", "É", "ab c", "AB C", "z", "["];
    for a in samples {
        for b in samples {
            assert_eq!(text::same_text(a, b), a == b);
            assert_eq!(text::same_text_ignoring_ascii_case(a, b), a.eq_ignore_ascii_case(b));
        }
    }
}

#[test]
fn numbers_are_written_in_decimal() {
    for value in [0, 7, 10, 99, 100, 57_387, u64::MAX] {
        let mut written = String::from("n");
        text::push_decimal(&mut written, value);
        assert_eq!(written, format!("n{value}"));
        let mut bytes = vec![b'n'];
        text::push_decimal_bytes(&mut bytes, value);
        assert_eq!(bytes, format!("n{value}").into_bytes());
    }
}

#[test]
fn control_characters_are_dropped() {
    assert_eq!(text::without_control("a\x1b[3\u{7f}\u{9f}é\n"), "a[3é");
    assert_eq!(text::bytes_of("é"), vec![0xc3, 0xa9]);
    assert_eq!(text::to_chars("aé"), vec!['a', 'é']);
}
