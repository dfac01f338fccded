//! Lines, trimming and order of texts, against the standard library.

use yeti3_cleaner::lines::{find_behind, lines_of, longest_of, trim};
use yeti3_cleaner::text::{
    chars_of, decimal_text, join_by, signed_decimal_text, text_between, text_precedes,
    wide_decimal_text,
};

const SAMPLES: [&str; 18] = [
    "",
    "\n",
    "\r\n",
    "a",
    "a\n",
    "a\r",
    "a\r\n",
    "a\r\r\n",
    "\na",
    "a\nb",
    "a\r\nb\n\nc",
    "\n\n",
    "Known direct total   12 GB",
    "х\nДлинная строка\nкоротко",
    "\r",
    "a\n\r",
    "one\ntwo\rthree\r\n",
    "  a \t\n b  ",
];

#[test]
fn lines_agree_with_the_standard_library() {
    for text in SAMPLES {
        let expected: Vec<&str> = text.lines().collect();
        assert_eq!(lines_of(text), expected, "{text:?}");
        let longest = text.lines().map(str::len).max().unwrap_or(0);
        assert_eq!(longest_of(&lines_of(text)), longest, "{text:?}");
        for line in lines_of(text) {
            assert!(!line.contains('\n'));
        }
    }
}

#[test]
fn trimming_agrees_with_the_standard_library() {
    for code in 0..0x11_0000u32 {
        if let Some(c) = char::from_u32(code) {
            if code < 0x3100 || c.is_whitespace() {
                let text = format!("{c} a{c}b {c}");
                assert_eq!(trim(&text), text.trim(), "{code:x}");
            }
        }
    }
    for text in SAMPLES {
        assert_eq!(trim(text), text.trim());
    }
}

#[test]
fn headings_are_found_in_the_first_line_that_starts_with_them() {
    let list = lines_of("x total 1\ntotal 2\ntotal 3\n");
    assert_eq!(find_behind(&list, "total"), Some(String::from(" 2")));
    assert_eq!(find_behind(&list, "totals"), None);
    assert_eq!(find_behind(&list, ""), Some(String::from("x total 1")));
    assert_eq!(find_behind(&Vec::new(), ""), None);
}

#[test]
fn order_of_texts_is_that_of_the_standard_library() {
    let texts = ["", "a", "ab", "b", "Z", "é", "Я", "я", "𐍈", "\u{ffff}", "a\u{0}"];
    for left in texts {
        for right in texts {
            assert_eq!(text_precedes(left, right), left < right, "{left:?} {right:?}");
        }
    }
}

#[test]
fn numbers_are_written_in_decimal() {
    for value in [0u64, 9, 10, 99, 100, 12345678901234567890, u64::MAX] {
        assert_eq!(decimal_text(value), value.to_string());
    }
    for value in [0i64, -1, 42, i64::MIN, i64::MAX] {
        assert_eq!(signed_decimal_text(value), value.to_string());
    }
    assert_eq!(wide_decimal_text(u128::MAX), u128::MAX.to_string());
}

#[test]
fn texts_are_cut_and_joined() {
    let chars = chars_of("привет");
    assert_eq!(chars.len(), 6);
    assert_eq!(text_between(&chars, 1, 4), "рив");
    let list = vec![String::from("a"), String::from("b"), String::from("c")];
    assert_eq!(join_by(&list, ", "), "a, b, c");
    assert_eq!(join_by(&Vec::new(), ", "), "");
}
