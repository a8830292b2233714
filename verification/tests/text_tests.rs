use anti_power::numbers::{i32_to_text, parse_i32, parse_leading_number, unsigned_to_text};
use anti_power::rewrite::{join, replace_all, split, split_rel, trim};
use anti_power::text::{
    contains, contains_lowered, ends_with_lowered, same_lowered, same_text, starts_with,
    starts_with_lowered, to_lower,
};

#[test]
fn contains_finds_a_word() {
    assert!(contains("permission denied (os error 13)", "denied"));
    assert!(!contains("all good", "denied"));
    assert!(contains("abc", ""));
    assert!(contains("", ""));
    assert!(!contains("", "a"));
    assert!(contains("aab", "ab"));
}

#[test]
fn contains_lowered_folds_the_haystack_only() {
    assert!(contains_lowered("Permission DENIED", "permission denied"));
    assert!(!contains_lowered("permission denied", "Permission"));
}

#[test]
fn prefix_and_suffix_tests() {
    assert!(starts_with("/usr/share/x", "/usr/"));
    assert!(!starts_with("/usr", "/usr/"));
    assert!(starts_with("abc", ""));
    assert!(starts_with_lowered("ZH-CN", "zh"));
    assert!(!starts_with_lowered("en-US", "zh"));
    assert!(ends_with_lowered("Antigravity.APP", ".app"));
    assert!(!ends_with_lowered("app", ".app"));
}

#[test]
fn equality_with_and_without_case() {
    assert!(same_text("abc", "abc"));
    assert!(!same_text("abc", "abd"));
    assert!(!same_text("abc", "ab"));
    assert!(same_lowered("Resources", "resources"));
    assert!(!same_lowered("Resources", "resource"));
    assert_eq!(to_lower('Q'), 'q');
    assert_eq!(to_lower('q'), 'q');
    assert_eq!(to_lower('['), '[');
    assert_eq!(to_lower('@'), '@');
}

#[test]
fn replace_all_replaces_every_occurrence() {
    assert_eq!(replace_all("a.b.c", ".", "/"), "a/b/c");
    assert_eq!(replace_all("{x} and {x}", "{x}", "1"), "1 and 1");
    assert_eq!(replace_all("aaa", "aa", "b"), "ba");
    assert_eq!(replace_all("abc", "", "z"), "abc");
    assert_eq!(replace_all("abc", "abcd", "z"), "abc");
    assert_eq!(replace_all("", "a", "z"), "");
    assert_eq!(replace_all("héllo", "l", "L"), "héLLo");
}

#[test]
fn trim_strips_white_space_at_both_ends() {
    assert_eq!(trim("  a b \n"), "a b");
    assert_eq!(trim("\t\r\n"), "");
    assert_eq!(trim(""), "");
    assert_eq!(trim("x"), "x");
    assert_eq!(trim("\u{3000}x\u{a0}"), "x");
    assert_eq!(trim(" 0\n"), " 0\n".trim());
}

#[test]
fn split_keeps_empty_pieces() {
    assert_eq!(split("1.18.3", '.'), vec!["1", "18", "3"]);
    assert_eq!(split("", '.'), vec![""]);
    assert_eq!(split(".", '.'), vec!["", ""]);
    assert_eq!(split("a..b", '.'), vec!["a", "", "b"]);
    assert_eq!(split("abc", '.'), vec!["abc"]);
}

#[test]
fn split_rel_drops_empty_pieces() {
    assert_eq!(split_rel("cascade-panel/js/main.js"), vec!["cascade-panel", "js", "main.js"]);
    assert_eq!(split_rel("a//b/"), vec!["a", "b"]);
    assert_eq!(split_rel("workbench.html"), vec!["workbench.html"]);
    assert!(split_rel("").is_empty());
}

#[test]
fn join_puts_the_separator_between() {
    let parts = vec!["a".to_string(), "b".to_string(), "c".to_string()];
    assert_eq!(join(&parts, "\n"), "a\nb\nc");
    assert_eq!(join(&vec!["a".to_string()], ", "), "a");
    assert_eq!(join(&Vec::new(), ", "), "");
}

#[test]
fn leading_number_reads_the_digit_run() {
    assert_eq!(parse_leading_number("18"), Some(18));
    assert_eq!(parse_leading_number("3-beta"), Some(3));
    assert_eq!(parse_leading_number("007"), Some(7));
    assert_eq!(parse_leading_number(""), None);
    assert_eq!(parse_leading_number("v1"), None);
    assert_eq!(parse_leading_number("4294967295"), Some(4294967295));
    assert_eq!(parse_leading_number("4294967296"), None);
    assert_eq!(parse_leading_number("99999999999999999999999"), None);
}

#[test]
fn parse_i32_agrees_with_std() {
    for text in [
        "0", "1", "-1", "+5", "2147483647", "2147483648", "-2147483648", "-2147483649", "", "-",
        "+", "12a", " 1", "1 ", "--1", "007", "-0",
    ] {
        assert_eq!(parse_i32(text), text.parse::<i32>().ok(), "{:?}", text);
    }
}

#[test]
fn numbers_are_written_in_base_ten() {
    assert_eq!(unsigned_to_text(0), "0");
    assert_eq!(unsigned_to_text(9), "9");
    assert_eq!(unsigned_to_text(10), "10");
    assert_eq!(unsigned_to_text(1234567890123), "1234567890123");
    assert_eq!(unsigned_to_text(u128::MAX), u128::MAX.to_string());
    assert_eq!(i32_to_text(0), "0");
    assert_eq!(i32_to_text(-1), "-1");
    assert_eq!(i32_to_text(i32::MIN), "-2147483648");
    assert_eq!(i32_to_text(i32::MAX), "2147483647");
    assert_eq!(i32_to_text(127), "127");
}
