use drill::text::{chars_of, contains, format_i64, format_u64, matches_at, parse_i64, parse_u64, split, string_of, to_ascii_lowercase, trim, whitespace};

fn chars(s: &str) -> Vec<char> {
    s.chars().collect()
}

#[test]
fn numbers_are_written_in_decimal() {
    for n in [0i64, 1, 9, 10, 11, 99, 100, 12345, -1, -9, -10, -12345, i64::MAX, i64::MIN, i64::MIN + 1] {
        assert_eq!(string_of(&format_i64(n)), n.to_string());
    }
    for n in [0u64, 5, 10, 1000, u64::MAX] {
        assert_eq!(string_of(&format_u64(n)), n.to_string());
    }
}

#[test]
fn numbers_are_read_as_the_standard_library_reads_them() {
    let samples = [
        "", "0", "7", "+7", "-7", "007", "-0", "+0", "+", "-", "++1", "--1", "+-1", "1 ", " 1", "1_000", "1.0", "0x10", "१२", "9223372036854775807", "9223372036854775808", "-9223372036854775808",
        "-9223372036854775809", "+9223372036854775807", "18446744073709551615", "18446744073709551616", "00000000000000000000000000000000000001", "99999999999999999999999999999", "12a", "a12",
    ];
    for s in samples {
        assert_eq!(parse_i64(&chars(s)), s.parse::<i64>().ok(), "{:?}", s);
        assert_eq!(parse_u64(&chars(s)), s.parse::<u64>().ok(), "{:?}", s);
    }
}

#[test]
fn strings_and_characters_convert_both_ways() {
    for s in ["", "a", "héllo wörld", "\u{1f600}\u{0}\n"] {
        assert_eq!(chars_of(s), chars(s));
        assert_eq!(string_of(&chars(s)), s);
    }
}

#[test]
fn trimming_and_splitting() {
    for s in ["", " ", "a", " a", "a ", " \t a b \n\r", "\u{a0}x\u{3000}", "\u{200b}x\u{200b}", "\u{85}\u{1680}y\u{2028}\u{2029}\u{202f}\u{205f}"] {
        assert_eq!(string_of(&trim(&chars(s))), s.trim(), "{:?}", s);
    }
    for s in ["", ",", "a", "a,b", ",a,", "a,,b", "tag1, tag2 ,tag3"] {
        let pieces: Vec<String> = split(&chars(s), ',').iter().map(string_of).collect();
        let expected: Vec<&str> = s.split(',').collect();
        assert_eq!(pieces, expected, "{:?}", s);
    }
    for n in 0..=0x10ffffu32 {
        if let Some(c) = char::from_u32(n) {
            assert_eq!(whitespace(c), c.is_whitespace(), "U+{:04X}", n);
        }
    }
}

#[test]
fn searching() {
    let text = chars("abcabc");
    assert!(matches_at(&text, &chars("abc"), 0));
    assert!(matches_at(&text, &chars("abc"), 3));
    assert!(!matches_at(&text, &chars("abc"), 1));
    assert!(!matches_at(&text, &chars("abc"), 4));
    assert!(matches_at(&text, &chars(""), 6));
    assert!(!matches_at(&text, &chars(""), 7));
    assert!(contains(&text, &chars("ca")));
    assert!(contains(&text, &chars("")));
    assert!(contains(&chars(""), &chars("")));
    assert!(!contains(&text, &chars("cb")));
    assert!(!contains(&text, &chars("abcabca")));
}

#[test]
fn lower_case_touches_ascii_letters_only() {
    for s in ["", "Content-Type", "X-ÄÖ-Z", "already lower", "MiXeD123_@[`{"] {
        assert_eq!(to_ascii_lowercase(s), s.to_ascii_lowercase());
    }
}
