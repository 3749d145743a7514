use sharun::text::{
    chars_of, contains, ends_with, is_space_char, join_with, replace_all, replace_each, same_str,
    split_at_char, split_words, starts_with, string_of, trimmed,
};

fn cs(s: &str) -> Vec<char> {
    s.chars().collect()
}

fn strs(rows: &Vec<Vec<char>>) -> Vec<String> {
    rows.iter().map(|r| r.iter().collect()).collect()
}

#[test]
fn chars_and_strings_convert_both_ways() {
    assert_eq!(chars_of("a/é+"), vec!['a', '/', 'é', '+']);
    assert_eq!(string_of(&['l', 'i', 'b']), "lib");
    assert_eq!(string_of(&chars_of("")), "");
    assert_eq!(string_of(&chars_of("ld-linux.so.2")), "ld-linux.so.2");
}

#[test]
fn split_keeps_empty_pieces() {
    assert_eq!(strs(&split_at_char(&cs("a:b::c"), ':')), vec!["a", "b", "", "c"]);
    assert_eq!(strs(&split_at_char(&cs(""), ':')), vec![""]);
    assert_eq!(strs(&split_at_char(&cs(":"), ':')), vec!["", ""]);
    assert_eq!(strs(&split_at_char(&cs("abc"), ':')), vec!["abc"]);
}

#[test]
fn split_agrees_with_std() {
    for text in ["/usr/bin:/bin", "x", "", "::", "a:b:", ":a"] {
        let want: Vec<String> = text.split(':').map(|p| p.to_string()).collect();
        assert_eq!(strs(&split_at_char(&cs(text), ':')), want);
    }
}

#[test]
fn join_puts_the_separator_between() {
    let parts = vec![cs("a"), cs(""), cs("b")];
    assert_eq!(string_of(&join_with(&parts, &cs(", "))), "a, , b");
    assert_eq!(string_of(&join_with(&vec![cs("only")], &cs(":"))), "only");
    assert_eq!(string_of(&join_with(&Vec::new(), &cs(":"))), "");
}

#[test]
fn trim_drops_white_space_at_both_ends_only() {
    assert_eq!(string_of(&trimmed(&cs("  a b \t\n"))), "a b");
    assert_eq!(string_of(&trimmed(&cs("\u{a0}x\u{3000}"))), "x");
    assert_eq!(string_of(&trimmed(&cs(" \n "))), "");
    assert_eq!(string_of(&trimmed(&cs(""))), "");
    assert_eq!(string_of(&trimmed(&cs("+\n"))), "+");
}

#[test]
fn white_space_is_what_std_calls_white_space() {
    for n in 0u32..=0x10ffff {
        if let Some(c) = char::from_u32(n) {
            assert_eq!(is_space_char(c), c.is_whitespace(), "U+{:04X}", n);
        }
    }
}

#[test]
fn words_are_runs_without_white_space() {
    assert_eq!(strs(&split_words(&cs("  /usr/bin/env  foo --flag\n"))), vec![
        "/usr/bin/env",
        "foo",
        "--flag"
    ]);
    assert!(split_words(&cs(" \t ")).is_empty());
    assert!(split_words(&cs("")).is_empty());
    assert_eq!(strs(&split_words(&cs("one"))), vec!["one"]);
}

#[test]
fn words_agree_with_std() {
    for text in ["unset A  B", " x ", "", "a\tb\nc", "\u{2003}wide\u{2003}space"] {
        let want: Vec<String> = text.split_whitespace().map(|p| p.to_string()).collect();
        assert_eq!(strs(&split_words(&cs(text))), want);
    }
}

#[test]
fn prefix_suffix_and_substring() {
    assert!(starts_with(&cs("gtk-3.0"), &cs("gtk-")));
    assert!(!starts_with(&cs("gt"), &cs("gtk-")));
    assert!(starts_with(&cs("x"), &cs("")));
    assert!(ends_with(&cs("libz.so"), &cs(".so")));
    assert!(!ends_with(&cs("libz.so.1"), &cs(".so")));
    assert!(contains(&cs("libz.so.1"), &cs(".so.")));
    assert!(!contains(&cs("libz.so"), &cs(".so.")));
    assert!(contains(&cs("abc"), &cs("")));
    assert!(contains(&cs("abc"), &cs("abc")));
    assert!(!contains(&cs("ab"), &cs("abc")));
}

#[test]
fn replacing_one_character() {
    assert_eq!(string_of(&replace_each(&cs("+:+/a"), '+', &cs("/root"))), "/root:/root/a");
    assert_eq!(string_of(&replace_each(&cs("a\nb"), '\n', &cs(":"))), "a:b");
    assert_eq!(string_of(&replace_each(&cs("'x'"), '\'', &cs(""))), "x");
    assert_eq!(string_of(&replace_each(&cs("abc"), 'z', &cs("!"))), "abc");
}

#[test]
fn replacing_a_pattern_goes_left_to_right() {
    assert_eq!(string_of(&replace_all(&cs("tcl8.6"), &cs("tcl"), &cs("tk"))), "tk8.6");
    assert_eq!(string_of(&replace_all(&cs("aaa"), &cs("aa"), &cs("b"))), "ba");
    assert_eq!(string_of(&replace_all(&cs("abc"), &cs(""), &cs("-"))), "-a-b-c-");
    assert_eq!(string_of(&replace_all(&cs(""), &cs(""), &cs("-"))), "-");
    assert_eq!(string_of(&replace_all(&cs("tcltcl"), &cs("tcl"), &cs("tk"))), "tktk");
}

#[test]
fn replacing_agrees_with_std() {
    let cases = [("tcl8.6/tcl", "tcl", "tk"), ("xx", "x", "xx"), ("a", "", "b"), ("", "a", "b")];
    for (text, pat, to) in cases {
        assert_eq!(string_of(&replace_all(&cs(text), &cs(pat), &cs(to))), text.replace(pat, to));
    }
}

#[test]
fn strings_compare_by_their_characters() {
    assert!(same_str("AppRun", "AppRun"));
    assert!(!same_str("AppRun", "apprun"));
    assert!(!same_str("bin", "bin/"));
    assert!(same_str("", ""));
}
