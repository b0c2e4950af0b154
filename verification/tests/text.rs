use edge_ascii::text::{
    contains, joined, output_text, parse_u32, same, split_at_char, to_decimal, value_of, white_space,
};

#[test]
fn decimal_numbers() {
    assert_eq!(to_decimal(0), "0");
    assert_eq!(to_decimal(10), "10");
    assert_eq!(to_decimal(9070), "9070");
    assert_eq!(to_decimal(u64::MAX), "18446744073709551615");
}

#[test]
fn decimal_numbers_are_read_back() {
    for n in [0, 7, 10, 1920, 65536, 4294967295] {
        assert_eq!(parse_u32(&to_decimal(n)), Some(n as u32));
    }
}

#[test]
fn numbers_are_read_like_the_standard_library_reads_them() {
    for s in [
        "", "+", "-", "0", "007", "+12", "++1", "-0", "1 ", " 1", "12a", "4294967295",
        "4294967296", "99999999999999999999999", "4294967296x", "१", "N/A",
    ] {
        assert_eq!(parse_u32(s), s.parse::<u32>().ok(), "{s:?}");
    }
}

#[test]
fn white_space_is_that_of_the_standard_library() {
    for n in 0..=0x10ffff_u32 {
        if let Some(c) = char::from_u32(n) {
            assert_eq!(white_space(c), c.is_whitespace(), "{n:x}");
        }
    }
}

#[test]
fn splits_at_the_first_occurrence() {
    let split = |s: &str| split_at_char(s, '=');
    assert_eq!(split("a=b"), Some(("a".to_string(), "b".to_string())));
    assert_eq!(split(" a \t= b=c \r"), Some(("a".to_string(), "b=c".to_string())));
    assert_eq!(split("="), Some((String::new(), String::new())));
    assert_eq!(split("a"), None);
    assert_eq!(split(""), None);
}

#[test]
fn finds_values_by_key() {
    let text = "width=1920\r\nheight = 1080 \nnoise\nr_frame_rate=30000/1001\nwidth=640\n";
    assert_eq!(value_of(text, "width").as_deref(), Some("640"));
    assert_eq!(value_of(text, "height").as_deref(), Some("1080"));
    assert_eq!(value_of(text, "r_frame_rate").as_deref(), Some("30000/1001"));
    assert_eq!(value_of(text, "noise"), None);
    assert_eq!(value_of("", "width"), None);
    assert_eq!(value_of("width=1", "width").as_deref(), Some("1"));
}

#[test]
fn contains_agrees_with_the_standard_library() {
    for s in ["", "a", "ab", "aab", "abab", "■ab"] {
        for part in ["", "a", "ab", "b", "ba", "abc", "■"] {
            assert_eq!(contains(s, part), s.contains(part), "{s:?} {part:?}");
        }
    }
}

#[test]
fn strings_are_joined_and_compared() {
    assert_eq!(joined("a", "■b"), "a■b");
    assert!(same(&"x".to_string(), "x"));
    assert!(!same(&"x".to_string(), "xy"));
}

#[test]
fn all_that_a_program_wrote_is_kept() {
    assert_eq!(output_text(&b"plain".to_vec()), "plain");
    assert_eq!(output_text(&"\u{25a0}\u{e9}".as_bytes().to_vec()), "\u{25a0}\u{e9}");
    assert_eq!(output_text(&b"a\xffb".to_vec()), "a\u{fffd}b");
    assert_eq!(output_text(&Vec::new()), "");
    let bytes = b"Device creation failed: \xe2\x96\xa0\xc3(\xff".to_vec();
    for n in 0..=bytes.len() {
        if let Ok(start) = std::str::from_utf8(&bytes[..n]) {
            assert!(output_text(&bytes).starts_with(start));
        }
    }
}
