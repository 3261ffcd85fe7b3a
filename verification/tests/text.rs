use anarchy_agent::decimal::{decimal_string, join, push_decimal};
use anarchy_agent::split::{lines, trim_bounds, trim_chars, words};
use anarchy_agent::text::{
    chars_of, contains, count_chars, find_from, occurs_at_index, replace, str_eq, string_of,
    string_of_range,
};

fn cs(s: &str) -> Vec<char> {
    s.chars().collect()
}

#[test]
fn chars_and_strings_round_trip() {
    let v = chars_of("ƒ(x) ⟼ 1");
    assert_eq!(v, cs("ƒ(x) ⟼ 1"));
    assert_eq!(string_of(&v), "ƒ(x) ⟼ 1");
    assert_eq!(string_of_range(&v, 1, 4), "(x)");
    assert_eq!(string_of_range(&v, 3, 3), "");
    assert!(str_eq("abc", "abc"));
    assert!(!str_eq("abc", "abd"));
    assert!(!str_eq("abc", "ab"));
}

#[test]
fn contains_finds_substrings_anywhere() {
    assert!(contains("say ƒmain() now", "main()"));
    assert!(contains("abc", ""));
    assert!(contains("", ""));
    assert!(contains("abc", "abc"));
    assert!(contains("abc", "c"));
    assert!(!contains("abc", "abcd"));
    assert!(!contains("abc", "ca"));
    assert!(!contains("", "a"));
}

#[test]
fn occurs_and_find_report_positions() {
    let hay = cs("abcabc");
    let needle = cs("bc");
    assert!(occurs_at_index(&hay, &needle, 1));
    assert!(!occurs_at_index(&hay, &needle, 2));
    assert!(!occurs_at_index(&hay, &needle, 5));
    assert!(!occurs_at_index(&hay, &needle, 100));
    assert_eq!(find_from(&hay, &needle, 0), Some(1));
    assert_eq!(find_from(&hay, &needle, 2), Some(4));
    assert_eq!(find_from(&hay, &needle, 5), None);
    assert_eq!(find_from(&hay, &cs(""), 6), Some(6));
    assert_eq!(find_from(&hay, &cs(""), 7), None);
}

#[test]
fn replace_rewrites_every_occurrence_from_the_left() {
    assert_eq!(replace("a{{x}}b{{x}}", "{{x}}", "1"), "a1b1");
    assert_eq!(replace("aaa", "aa", "b"), "ba");
    assert_eq!(replace("abc", "x", "y"), "abc");
    assert_eq!(replace("abc", "abc", ""), "");
    assert_eq!(replace("abc", "", "-"), "abc");
    assert_eq!(replace("ab", "b", "bb"), "abb");
    assert_eq!(replace("", "a", "b"), "");
}

#[test]
fn replace_agrees_with_the_standard_library_on_patterns_that_are_not_empty() {
    for (hay, from, to) in [("hello world", "o", "0"), ("xxxx", "xx", "y"), ("abcabc", "bc", "")] {
        assert_eq!(replace(hay, from, to), hay.replace(from, to));
    }
}

#[test]
fn count_counts_occurrences_that_do_not_overlap() {
    assert_eq!(count_chars(&cs("abcabcab"), &cs("ab")), 3);
    assert_eq!(count_chars(&cs("aaaa"), &cs("aa")), 2);
    assert_eq!(count_chars(&cs("aaa"), &cs("aa")), 1);
    assert_eq!(count_chars(&cs("abc"), &cs("x")), 0);
    assert_eq!(count_chars(&cs("abc"), &cs("")), 4);
    assert_eq!(count_chars(&cs(""), &cs("")), 1);
    assert_eq!(count_chars(&cs(""), &cs("a")), 0);
}

#[test]
fn decimal_writes_numbers_without_leading_zeros() {
    assert_eq!(decimal_string(0), "0");
    assert_eq!(decimal_string(7), "7");
    assert_eq!(decimal_string(10), "10");
    assert_eq!(decimal_string(1234567890), "1234567890");
    assert_eq!(decimal_string(u128::MAX), u128::MAX.to_string());
    let mut s = String::from("n=");
    push_decimal(&mut s, 405);
    assert_eq!(s, "n=405");
}

#[test]
fn join_puts_the_separator_between_neighbours() {
    assert_eq!(join(&vec![], ", "), "");
    assert_eq!(join(&vec!["a".to_string()], ", "), "a");
    assert_eq!(join(&vec!["a".to_string(), "b".to_string(), "c".to_string()], ", "), "a, b, c");
    assert_eq!(join(&vec!["".to_string(), "".to_string()], "-"), "-");
}

#[test]
fn trim_removes_surrounding_whitespace_only() {
    assert_eq!(trim_chars(&cs("  a b \t\n")), cs("a b"));
    assert_eq!(trim_chars(&cs("\u{3000}x\u{a0}")), cs("x"));
    assert_eq!(trim_chars(&cs("   ")), cs(""));
    assert_eq!(trim_chars(&cs("")), cs(""));
    assert_eq!(trim_chars(&cs("ab")), cs("ab"));
    assert_eq!(trim_bounds(&cs(" ab  ")), (1, 3));
    assert_eq!(trim_bounds(&cs("    ")), (4, 4));
}

#[test]
fn lines_split_at_line_feeds_and_drop_carriage_returns_before_them() {
    let got: Vec<String> = lines(&cs("a\nb\r\n\nc")).iter().map(|l| l.iter().collect()).collect();
    assert_eq!(got, vec!["a", "b", "", "c"]);
    let got: Vec<String> = lines(&cs("a\n")).iter().map(|l| l.iter().collect()).collect();
    assert_eq!(got, vec!["a"]);
    let got: Vec<String> = lines(&cs("a\r")).iter().map(|l| l.iter().collect()).collect();
    assert_eq!(got, vec!["a\r"]);
    assert!(lines(&cs("")).is_empty());
    let got: Vec<String> = lines(&cs("\n\n")).iter().map(|l| l.iter().collect()).collect();
    assert_eq!(got, vec!["", ""]);
}

#[test]
fn lines_agree_with_the_standard_library() {
    for text in ["", "x", "x\n", "x\ny", "x\r\ny\r\n", "\n", "a\r\r\nb", "a\rb\n", "\r\n\r\n"] {
        let got: Vec<String> = lines(&cs(text)).iter().map(|l| l.iter().collect()).collect();
        let want: Vec<String> = text.lines().map(|l| l.to_string()).collect();
        assert_eq!(got, want);
    }
}

#[test]
fn words_are_the_runs_between_whitespace() {
    assert_eq!(words(&cs("  list   the files\t\nnow ")), vec!["list", "the", "files", "now"]);
    assert!(words(&cs("   ")).is_empty());
    assert!(words(&cs("")).is_empty());
    assert_eq!(words(&cs("one")), vec!["one"]);
}

#[test]
fn whitespace_is_the_white_space_property_of_every_character() {
    let listed = |p: u32| {
        (0x0009..=0x000D).contains(&p)
            || p == 0x0020
            || p == 0x0085
            || p == 0x00A0
            || p == 0x1680
            || (0x2000..=0x200A).contains(&p)
            || p == 0x2028
            || p == 0x2029
            || p == 0x202F
            || p == 0x205F
            || p == 0x3000
    };
    let mut seen = 0;
    for p in 0..=0x10FFFFu32 {
        if let Some(c) = char::from_u32(p) {
            assert_eq!(c.is_whitespace(), listed(p), "U+{:04X}", p);
            assert_eq!(trim_chars(&vec![c]).is_empty(), listed(p), "U+{:04X}", p);
            seen += 1;
        }
    }
    assert_eq!(seen, 0x110000 - 0x800);
    assert_eq!(words(&cs("a\u{2003}b\u{85}c")), vec!["a", "b", "c"]);
}
