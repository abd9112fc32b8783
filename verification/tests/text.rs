//! Working with text.

use blog_cms::text::{
    alphanumeric, decimal, find_from, is_before, is_blank, lines, replace, signed_decimal, split,
    to_lower, trim, white_space,
};

#[test]
fn white_space_is_what_unicode_says() {
    for n in 0..=0x10ffffu32 {
        if let Some(c) = char::from_u32(n) {
            assert_eq!(white_space(c), c.is_whitespace(), "{n:#x}");
            assert_eq!(alphanumeric(c), c.is_ascii_alphanumeric(), "{n:#x}");
        }
    }
}

#[test]
fn text_is_trimmed_as_std_does() {
    for s in ["", "  ", " a b ", "\u{2003}x\u{85}", "x", "\n\ta"] {
        assert_eq!(trim(s), s.trim());
        assert_eq!(is_blank(s), s.trim().is_empty());
        assert_eq!(to_lower(s), s.to_ascii_lowercase());
    }
}

#[test]
fn text_is_replaced_split_and_cut_into_lines_as_std_does() {
    for (s, pat, with) in [("aaa", "aa", "b"), ("{x}{y}", "{x}", "{y}"), ("", "a", "b")] {
        assert_eq!(replace(s, pat, with), s.replace(pat, with));
    }
    for s in ["", "a", "a,b", ",a,,", "ü,ö"] {
        let want: Vec<String> = s.split(',').map(str::to_string).collect();
        assert_eq!(split(s, ','), want);
    }
    for s in ["", "a", "a\n", "a\r\nb\r", "\n\n", "a\n\nb"] {
        let want: Vec<String> = s.lines().map(str::to_string).collect();
        assert_eq!(lines(s), want);
    }
}

#[test]
fn numbers_are_written_as_std_does() {
    for n in [0, 9, 10, 4127, u128::MAX] {
        assert_eq!(decimal(n), n.to_string());
    }
    for n in [0, -1, i64::MIN, i64::MAX, -1009] {
        assert_eq!(signed_decimal(n), n.to_string());
    }
}

#[test]
fn text_is_ordered_as_std_does() {
    for a in ["", "a", "ab", "b", "B", "é", "z\u{10000}", "z\u{ffff}"] {
        for b in ["", "a", "ab", "b", "B", "é", "z\u{10000}", "z\u{ffff}"] {
            assert_eq!(is_before(a, b), a < b, "{a:?} {b:?}");
        }
    }
}

#[test]
fn text_is_found_from_a_place_on() {
    let x: Vec<char> = "assets/assets/".chars().collect();
    let y: Vec<char> = "assets/".chars().collect();
    assert_eq!(find_from(&x, &y, 0), Some(0));
    assert_eq!(find_from(&x, &y, 1), Some(7));
    assert_eq!(find_from(&x, &y, 8), None);
}
