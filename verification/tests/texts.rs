//! Texts: splitting, trimming, searching, and numbers in decimal.

use vigil::clock::days_until;
use vigil::text;

fn strings(v: &[&str]) -> Vec<String> {
    v.iter().map(|s| s.to_string()).collect()
}

#[test]
fn splitting_and_joining_undo_each_other() {
    for s in ["", ",", "a", "a,b", ",a,,b,", "ä,ö"] {
        let parts = text::split_on(s, ',');
        assert_eq!(text::join(&parts, ","), s);
        assert_eq!(parts, strings(&s.split(',').collect::<Vec<_>>()));
    }
}

#[test]
fn words_and_lines_are_found() {
    assert_eq!(text::split_words("  a\tb \n c\u{3000}d "), strings(&["a", "b", "c", "d"]));
    assert!(text::split_words(" \u{a0}").is_empty());
    assert_eq!(text::split_lines("a\r\nb\n\nc"), strings(&["a", "b", "", "c"]));
    assert_eq!(text::split_lines("a\n"), strings(&["a"]));
    assert_eq!(text::split_lines("a\r"), strings(&["a\r"]));
    assert!(text::split_lines("").is_empty());
}

#[test]
fn white_space_is_trimmed() {
    assert_eq!(text::trim(" \t a b\u{2003}\n"), "a b");
    assert_eq!(text::trim("\u{85}\u{feff}x"), "\u{feff}x");
    assert_eq!(text::trim("   "), "");
    for c in ['\u{9}', '\u{d}', ' ', '\u{85}', '\u{a0}', '\u{1680}', '\u{2028}', '\u{205f}'] {
        assert!(text::space(c));
        assert!(c.is_whitespace());
    }
    assert!(!text::space('\u{200b}'));
}

#[test]
fn ascii_letters_change_case() {
    assert_eq!(text::to_lower("AbC-É"), "abc-É");
    assert_eq!(text::to_upper("abc-é"), "ABC-é");
}

#[test]
fn parts_are_found() {
    assert!(text::contains("hello", "ell"));
    assert!(text::contains("hello", ""));
    assert!(!text::contains("hello", "helloo"));
    assert!(text::starts_with("hello", "he"));
    assert_eq!(text::strip_prefix("hello", "he"), Some("llo".to_string()));
    assert_eq!(text::strip_prefix("hello", "lo"), None);
    assert_eq!(text::split_once("a:b:c", ':'), Some(("a".to_string(), "b:c".to_string())));
    assert_eq!(text::split_once("abc", ':'), None);
    assert_eq!(text::replace("aXbXX", "X", "yX"), "ayXbyXyX");
    assert_eq!(text::replace("aaa", "aa", "b"), "ba");
}

#[test]
fn texts_are_ordered_like_strings() {
    let all = ["", "2023-09", "2023-10", "2023-1", "a", "ä", "z"];
    for a in all {
        for b in all {
            assert_eq!(text::precedes(a, b), a <= b, "{a} {b}");
            assert_eq!(text::same(a, b), a == b);
        }
    }
}

#[test]
fn numbers_round_trip() {
    for n in [0, 7, -7, 1_000, i64::MAX, i64::MIN] {
        assert_eq!(text::int_text(n), n.to_string());
        assert_eq!(text::parse_i64(&text::int_text(n)), Some(n));
    }
    assert_eq!(text::nat_text(u64::MAX), u64::MAX.to_string());
}

#[test]
fn numbers_are_read_as_strictly_as_they_are_written() {
    for s in ["", "+", "-", "+5", "-0", " 5", "5 ", "0x5", "65535", "65536", "-1", "1.0", "９"] {
        assert_eq!(text::parse_u16(s), s.parse::<u16>().ok(), "{s}");
        assert_eq!(text::parse_u32(s), s.parse::<u32>().ok(), "{s}");
        assert_eq!(text::parse_i32(s), s.parse::<i32>().ok(), "{s}");
        assert_eq!(text::parse_i64(s), s.parse::<i64>().ok(), "{s}");
        assert_eq!(text::parse_usize(s), s.parse::<usize>().ok(), "{s}");
    }
}

#[test]
fn days_are_rounded_down() {
    assert_eq!(days_until(86_400, 0), 1);
    assert_eq!(days_until(86_399, 0), 0);
    assert_eq!(days_until(-1, 0), -1);
    assert_eq!(days_until(i64::MAX, i64::MIN), ((i64::MAX as i128 - i64::MIN as i128) / 86_400) as i64);
}
