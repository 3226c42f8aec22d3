use tdops::text::{contains_text, join, owned, starts_with_char, text_eq, trim, u64_to_decimal};

#[test]
fn decimal_renders_like_to_string() {
    assert_eq!(u64_to_decimal(0), "0");
    assert_eq!(u64_to_decimal(7), "7");
    assert_eq!(u64_to_decimal(10), "10");
    assert_eq!(u64_to_decimal(443), "443");
    assert_eq!(u64_to_decimal(123456789), "123456789");
    assert_eq!(u64_to_decimal(u64::MAX), u64::MAX.to_string());
}

#[test]
fn trim_removes_unicode_white_space_at_both_ends() {
    assert_eq!(trim("  abc \n"), "abc");
    assert_eq!(trim("abc"), "abc");
    assert_eq!(trim(" \t\r\n "), "");
    assert_eq!(trim(""), "");
    assert_eq!(trim("\u{3000}x y\u{85}"), "x y");
    assert_eq!(trim("\u{a0}\u{2009}tok\u{202f}"), "tok");
    for s in ["  dop_v1_xxx\n", "\u{1680}a b\u{205f}", "x", "\u{200b}z"] {
        assert_eq!(trim(s), s.trim());
    }
}

#[test]
fn contains_finds_substrings() {
    assert!(contains_text("Error: No serve config found", "No serve config"));
    assert!(contains_text("No serve config", "No serve config"));
    assert!(!contains_text("No serve conf", "No serve config"));
    assert!(contains_text("abc", ""));
    assert!(!contains_text("", "a"));
    assert!(contains_text("aab", "ab"));
}

#[test]
fn join_puts_separator_between_parts() {
    let parts = vec![owned("serve"), owned("--bg"), owned("--yes"), owned("3000")];
    assert_eq!(join(&parts, " "), "serve --bg --yes 3000");
    assert_eq!(join(&vec![owned("one")], " "), "one");
    assert_eq!(join(&Vec::new(), " "), "");
}

#[test]
fn text_comparisons() {
    assert!(text_eq("public", "public"));
    assert!(!text_eq("public", "private"));
    assert!(!text_eq("pub", "public"));
    assert!(starts_with_char("yes", 'y'));
    assert!(!starts_with_char("", 'y'));
    assert!(!starts_with_char("no", 'y'));
}

#[test]
fn trimming_twice_is_trimming_once() {
    for s in ["  a b  ", "\n\u{3000}", "x", "", "\t tok \u{85}"] {
        let once = trim(s);
        assert_eq!(trim(once), once);
    }
}
