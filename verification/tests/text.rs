use rusteron::text::{
    chars_of, is_white_space, int_to_text, join_strings, str_after_last, str_contains, str_ends_with, str_eq, str_escaped,
    str_lines, str_replace, str_split, str_starts_with, str_trim, text_between, text_of,
};

fn s(text: &str) -> String {
    text.to_string()
}

#[test]
fn characters_and_back() {
    let v = chars_of("héllo");
    assert_eq!(v, vec!['h', 'é', 'l', 'l', 'o']);
    assert_eq!(text_of(&v), "héllo");
    assert_eq!(text_between(&v, 1, 3), "él");
    assert_eq!(text_between(&v, 2, 2), "");
}

#[test]
fn predicates_on_text() {
    assert!(str_eq("a_t", "a_t"));
    assert!(!str_eq("a_t", "a_T"));
    assert!(!str_eq("a", "ab"));
    assert!(str_starts_with("* mut x", "* mut"));
    assert!(!str_starts_with("*", "* mut"));
    assert!(str_starts_with("x", ""));
    assert!(str_ends_with("aeron_t", "_t"));
    assert!(!str_ends_with("t", "_t"));
    assert!(str_contains("pub type a = a_stct ;", "_stct"));
    assert!(!str_contains("stct", "_stct"));
    assert!(str_contains("", ""));
}

#[test]
fn replacing_goes_left_to_right() {
    assert_eq!(str_replace("aeron_x_stct", "_stct", "_t"), "aeron_x_t");
    assert_eq!(str_replace("aaa", "aa", "b"), "ba");
    assert_eq!(str_replace("a_init_init", "_init", "_close"), "a_close_close");
    assert_eq!(str_replace("abc", "", "x"), "abc");
    assert_eq!(str_replace("ab", "abc", "x"), "ab");
    assert_eq!(str_replace("xx", "x", ""), "");
}

#[test]
fn splitting_and_joining() {
    assert_eq!(str_split("a_b__c_", '_'), vec![s("a"), s("b"), s(""), s("c"), s("")]);
    assert_eq!(str_split("", '_'), vec![s("")]);
    assert_eq!(join_strings(&vec![s("a"), s("b"), s("c")], ", "), "a, b, c");
    assert_eq!(join_strings(&vec![s("a")], ", "), "a");
    assert_eq!(join_strings(&vec![], ", "), "");
    assert_eq!(str_after_last("* mut aeron_t", ' '), "aeron_t");
    assert_eq!(str_after_last("aeron_t", ' '), "aeron_t");
    assert_eq!(str_after_last("a ", ' '), "");
}

#[test]
fn lines_end_at_line_feeds() {
    assert_eq!(str_lines("foo\nbar\n\r\nbaz\r"), vec![s("foo"), s("bar"), s(""), s("baz\r")]);
    assert_eq!(str_lines("a\r\nb\n"), vec![s("a"), s("b")]);
    assert_eq!(str_lines(""), Vec::<String>::new());
    assert_eq!(str_lines("\n"), vec![s("")]);
    for text in ["", "x", "x\n", "\r\n\r\n", "a\rb\n\nc", "\r"] {
        let expected: Vec<String> = text.lines().map(|l| l.to_string()).collect();
        assert_eq!(str_lines(text), expected, "{:?}", text);
    }
}

#[test]
fn trimming_and_escaping() {
    assert_eq!(str_trim("  a b \t\n"), "a b");
    assert_eq!(str_trim(" \u{a0}\u{3000} "), "");
    assert_eq!(str_trim(""), "");
    assert_eq!(str_trim("x"), "x");
    assert_eq!(str_escaped("a\"b\\c\nd\re\tf"), "a\\\"b\\\\c\\nd\\re\\tf");
}

#[test]
fn numbers_in_decimal() {
    assert_eq!(int_to_text(0), "0");
    assert_eq!(int_to_text(7), "7");
    assert_eq!(int_to_text(-10), "-10");
    assert_eq!(int_to_text(1234567890), "1234567890");
    assert_eq!(int_to_text(i64::MAX), "9223372036854775807");
    assert_eq!(int_to_text(i64::MIN), "-9223372036854775808");
}

#[test]
fn white_space_is_what_the_standard_library_says() {
    for n in 0..=0x10ffffu32 {
        if let Some(c) = char::from_u32(n) {
            assert_eq!(is_white_space(c), c.is_whitespace(), "{:x}", n);
        }
    }
}
