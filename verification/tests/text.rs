use creamlinux::text::{
    chars_of, contains, decimal_of, ends_with, find_after_last, find_first, is_space_char,
    join_with, lowered, same_text, slice_of, split_lines, starts_with, str_eq, string_of, trimmed,
    without_leading, without_trailing,
};

fn s(v: &Vec<char>) -> String {
    string_of(v)
}

#[test]
fn chars_and_strings_round_trip() {
    let v = chars_of("héllo wörld");
    assert_eq!(v.len(), 11);
    assert_eq!(v[1], 'é');
    assert_eq!(string_of(&v), "héllo wörld");
    assert_eq!(string_of(&chars_of("")), "");
}

#[test]
fn trimming_takes_unicode_whitespace_from_both_ends() {
    assert_eq!(s(&trimmed(&chars_of("  a b \t\r\n"))), "a b");
    assert_eq!(s(&trimmed(&chars_of("\u{a0}\u{3000}x\u{2003}"))), "x");
    assert_eq!(s(&trimmed(&chars_of("   "))), "");
    assert_eq!(s(&trimmed(&chars_of(""))), "");
    assert_eq!(s(&trimmed(&chars_of("x"))), "x");
    assert!(is_space_char(' '));
    assert!(is_space_char('\u{85}'));
    assert!(!is_space_char('\u{200b}'));
    assert!(!is_space_char('_'));
}

#[test]
fn stripping_a_character_from_either_end() {
    assert_eq!(s(&without_leading(&chars_of("## a#"), '#')), " a#");
    assert_eq!(s(&without_trailing(&chars_of("\"x\"\"\""), '"')), "\"x");
    assert_eq!(s(&without_leading(&chars_of("###"), '#')), "");
}

#[test]
fn lines_end_at_line_feeds() {
    let lines = split_lines(&chars_of("a\nb\r\n\nc"));
    let got: Vec<String> = lines.iter().map(s).collect();
    assert_eq!(got, vec!["a", "b", "", "c"]);
    let lines = split_lines(&chars_of("a\n"));
    assert_eq!(lines.len(), 1);
    let lines = split_lines(&chars_of(""));
    assert_eq!(lines.len(), 0);
    let lines = split_lines(&chars_of("\n"));
    let got: Vec<String> = lines.iter().map(s).collect();
    assert_eq!(got, vec![""]);
    let lines = split_lines(&chars_of("a\rb\r"));
    let got: Vec<String> = lines.iter().map(s).collect();
    assert_eq!(got, vec!["a\rb\r"]);
}

#[test]
fn lines_agree_with_the_standard_library() {
    for text in ["x\r\ny\n", "\r\n\r\n", "one", "a\n\nb\n\n", "\r", "k\r\n"] {
        let got: Vec<String> = split_lines(&chars_of(text)).iter().map(s).collect();
        let want: Vec<String> = text.lines().map(|l| l.to_string()).collect();
        assert_eq!(got, want);
    }
}

#[test]
fn joining_puts_the_separator_between() {
    let parts = vec![chars_of("a"), chars_of(""), chars_of("c")];
    assert_eq!(s(&join_with(&parts, &chars_of("\n"))), "a\n\nc");
    assert_eq!(s(&join_with(&Vec::new(), &chars_of(","))), "");
    assert_eq!(s(&join_with(&vec![chars_of("x")], &chars_of(","))), "x");
}

#[test]
fn searching_in_text() {
    let v = chars_of("steam_api64.dll");
    assert!(starts_with(&v, &chars_of("steam_api")));
    assert!(!starts_with(&v, &chars_of("team")));
    assert!(ends_with(&v, &chars_of(".dll")));
    assert!(!ends_with(&v, &chars_of(".dl")));
    assert!(contains(&v, &chars_of("64")));
    assert!(contains(&v, &chars_of("")));
    assert!(contains(&v, &chars_of("steam_api64.dll")));
    assert!(!contains(&v, &chars_of("65")));
    assert!(!contains(&chars_of("ab"), &chars_of("abc")));
    assert_eq!(find_first(&v, '.'), 11);
    assert_eq!(find_first(&v, '!'), 15);
    assert_eq!(find_after_last(&chars_of("a/b/c"), '/'), 4);
    assert_eq!(find_after_last(&chars_of("abc"), '/'), 0);
    assert_eq!(s(&slice_of(&v, 6, 11)), "api64");
}

#[test]
fn comparing_text() {
    assert!(str_eq("abc", "abc"));
    assert!(!str_eq("abc", "abd"));
    assert!(!str_eq("abc", "ab"));
    assert!(same_text(&chars_of(""), &chars_of("")));
}

#[test]
fn lower_case_touches_ascii_capitals_only() {
    assert_eq!(s(&lowered(&chars_of("Steam_API64.DLL"))), "steam_api64.dll");
    assert_eq!(s(&lowered(&chars_of("ÄZ[a"))), "Äz[a");
}

#[test]
fn decimal_forms() {
    assert_eq!(s(&decimal_of(0)), "0");
    assert_eq!(s(&decimal_of(7)), "7");
    assert_eq!(s(&decimal_of(10)), "10");
    assert_eq!(s(&decimal_of(1234567890)), "1234567890");
    assert_eq!(s(&decimal_of(u64::MAX)), "18446744073709551615");
}
