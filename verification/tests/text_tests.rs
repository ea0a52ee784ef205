use loop_lib::alias::AliasTable;
use loop_lib::decimal::{parse_integer, parse_natural, signed_text, unsigned_text};
use loop_lib::resolve::resolve_command;
use loop_lib::shell::{add_shell_aliases, parse_alias_line, parse_shell_aliases};
use loop_lib::source::{get_aliases, needs_shell_aliases, source_aliases};
use loop_lib::text::{
    chars_of, contains_chars, contains_str, is_space_char, matches_at, skip_back_while,
    skip_prefix_while, skip_while, slice_chars, trim_class, CharClass,
};

fn chars(s: &str) -> Vec<char> {
    s.chars().collect()
}

#[test]
fn chars_of_keeps_every_character() {
    assert_eq!(chars_of("a✓b"), vec!['a', '✓', 'b']);
    assert_eq!(chars_of(""), Vec::<char>::new());
}

#[test]
fn white_space_is_unicode_white_space() {
    for c in [' ', '\t', '\n', '\r', '\u{0B}', '\u{0C}', '\u{85}', '\u{A0}', '\u{1680}'] {
        assert!(is_space_char(c));
    }
    for c in ['\u{2000}', '\u{200A}', '\u{2028}', '\u{2029}', '\u{202F}', '\u{205F}', '\u{3000}'] {
        assert!(is_space_char(c));
    }
    for c in ['a', '0', '-', '\u{200B}', '\u{8}', '\u{E}', '\u{1F}', '\u{FEFF}'] {
        assert!(!is_space_char(c));
    }
    for n in 0u32..0x3100 {
        if let Some(c) = char::from_u32(n) {
            assert_eq!(is_space_char(c), c.is_whitespace());
        }
    }
}

#[test]
fn scans_stop_where_the_class_ends() {
    let s = chars("  ab c");
    assert_eq!(skip_while(&s, 0, CharClass::Space), 2);
    assert_eq!(skip_while(&s, 2, CharClass::Word), 4);
    assert_eq!(skip_while(&s, 5, CharClass::Word), 6);
    assert_eq!(skip_while(&s, 6, CharClass::Word), 6);
    assert_eq!(skip_while(&s, 0, CharClass::Except('c')), 5);
    assert_eq!(skip_while(&s, 0, CharClass::Only(' ')), 2);
    assert_eq!(skip_back_while(&s, 6, CharClass::Word), 5);
    assert_eq!(skip_back_while(&s, 2, CharClass::Space), 0);
    assert_eq!(slice_chars(&s, 2, 4), chars("ab"));
}

#[test]
fn trimming_takes_both_ends() {
    assert_eq!(trim_class(&chars("  a b \n"), CharClass::Space), chars("a b"));
    assert_eq!(trim_class(&chars("   "), CharClass::Space), chars(""));
    assert_eq!(trim_class(&chars(""), CharClass::Space), chars(""));
    assert_eq!(trim_class(&chars("''it's''"), CharClass::Only('\'')), chars("it's"));
    assert_eq!(trim_class(&chars("'"), CharClass::Only('\'')), chars(""));
}

#[test]
fn substring_search() {
    assert!(contains_str("/some/path/.git/file", ".git"));
    assert!(!contains_str("/some/path/normal/file", ".git"));
    assert!(contains_str("abc", ""));
    assert!(contains_str("", ""));
    assert!(!contains_str("", "a"));
    assert!(contains_str("aab", "ab"));
    assert!(contains_chars(&chars("abc"), &chars("c")));
    assert!(matches_at(&chars("abc"), &chars("bc"), 1));
    assert!(!matches_at(&chars("abc"), &chars("bc"), 2));
    assert!(!matches_at(&chars("abc"), &chars("a"), 4));
    assert!(matches_at(&chars("abc"), &chars(""), 3));
    assert_eq!(skip_prefix_while(&chars("ababx"), 0, &chars("ab")), 4);
    assert_eq!(skip_prefix_while(&chars("ababx"), 0, &chars("")), 0);
}

#[test]
fn numbers_in_decimal() {
    assert_eq!(unsigned_text(0), "0");
    assert_eq!(unsigned_text(7), "7");
    assert_eq!(unsigned_text(10), "10");
    assert_eq!(unsigned_text(u64::MAX), "18446744073709551615");
    assert_eq!(signed_text(0), "0");
    assert_eq!(signed_text(-1), "-1");
    assert_eq!(signed_text(127), "127");
    assert_eq!(signed_text(i64::MIN), "-9223372036854775808");
    assert_eq!(signed_text(i64::MAX), "9223372036854775807");
}

#[test]
fn alias_substitution() {
    let mut table = AliasTable::new();
    table.insert("ll".to_string(), "ls -l".to_string());
    assert_eq!(resolve_command("ll -a", &table), "ls -l -a");
    assert_eq!(resolve_command("ls -a", &table), "ls -a");
    assert_eq!(resolve_command("lll", &table), "lll");
    assert_eq!(resolve_command("\tll\u{A0}ll", &table), "\tls -l\u{A0}ll");
    let empty = AliasTable::new();
    assert_eq!(resolve_command("ll -a", &empty), "ll -a");
}

#[test]
fn alias_table_overwrites_on_equal_keys() {
    let mut table = AliasTable::new();
    assert!(table.is_empty());
    table.insert("a".to_string(), "1".to_string());
    table.insert("b".to_string(), "2".to_string());
    table.insert("a".to_string(), "3".to_string());
    assert_eq!(table.len(), 2);
    assert_eq!(table.get("a"), Some(&"3".to_string()));
    assert_eq!(table.get("b"), Some(&"2".to_string()));
    assert_eq!(table.get("c"), None);
    let (name, value) = table.entry(0);
    assert_eq!((name.as_str(), value.as_str()), ("a", "3"));

    let mut other = AliasTable::new();
    other.insert("b".to_string(), "4".to_string());
    other.insert("c".to_string(), "5".to_string());
    table.extend(&other);
    assert_eq!(table.len(), 3);
    assert_eq!(table.get("a"), Some(&"3".to_string()));
    assert_eq!(table.get("b"), Some(&"4".to_string()));
    assert_eq!(table.get("c"), Some(&"5".to_string()));
}

#[test]
fn alias_line_is_split_at_the_first_equals_sign() {
    let line = chars("alias ll='ls -l'");
    assert_eq!(parse_alias_line(&line), Some(("ll".to_string(), "ls -l".to_string())));
    let line = chars("  gst = \"git status\"  ");
    assert_eq!(parse_alias_line(&line), Some(("gst".to_string(), "git status".to_string())));
    let line = chars("x=a=b");
    assert_eq!(parse_alias_line(&line), Some(("x".to_string(), "a=b".to_string())));
    let line = chars("alias alias k='\"v\"'");
    assert_eq!(parse_alias_line(&line), Some(("k".to_string(), "v".to_string())));
    assert_eq!(parse_alias_line(&chars("no equals sign")), None);
    assert_eq!(parse_alias_line(&chars("=")), Some((String::new(), String::new())));
}

#[test]
fn shell_listing_is_read_line_by_line() {
    let listing = "alias ll='ls -l'\r\nnot an alias\ngst='git status'\nll='ls -la'\n";
    let table = parse_shell_aliases(listing);
    assert_eq!(table.len(), 2);
    assert_eq!(table.get("ll"), Some(&"ls -la".to_string()));
    assert_eq!(table.get("gst"), Some(&"git status".to_string()));
    assert!(parse_shell_aliases("").is_empty());

    let mut table = AliasTable::new();
    table.insert("keep".to_string(), "me".to_string());
    add_shell_aliases(&mut table, "a=b");
    assert_eq!(table.get("keep"), Some(&"me".to_string()));
    assert_eq!(table.get("a"), Some(&"b".to_string()));
}

#[test]
fn sources_merge_in_increasing_precedence() {
    let global = r#"{"aliases": {"ll": "ls -l", "g": "git"}}"#;
    let local = r#"{"aliases": {"ll": "ls -la", "t": "cargo test"}}"#;
    let listing = "alias sh='from shell'\nalias ll='ls'\n";

    let table = get_aliases(Some(global), Some(listing), Some(local));
    assert_eq!(table.get("ll"), Some(&"ls -la".to_string()));
    assert_eq!(table.get("g"), Some(&"git".to_string()));
    assert_eq!(table.get("t"), Some(&"cargo test".to_string()));
    assert_eq!(table.get("sh"), None);

    let table = get_aliases(None, Some(listing), Some(local));
    assert_eq!(table.get("sh"), Some(&"from shell".to_string()));
    assert_eq!(table.get("ll"), Some(&"ls -la".to_string()));

    let table = get_aliases(Some("{broken"), Some(listing), Some("also broken"));
    assert_eq!(table.get("sh"), Some(&"from shell".to_string()));
    assert_eq!(table.get("ll"), Some(&"ls".to_string()));
    assert_eq!(table.len(), 2);

    assert!(get_aliases(None, None, None).is_empty());
    assert!(needs_shell_aliases(None));
    assert!(needs_shell_aliases(Some(r#"{"aliases": {}}"#)));
    assert!(!needs_shell_aliases(Some(global)));
    assert_eq!(source_aliases(Some(global)).len(), 2);
    assert!(source_aliases(Some("[]")).is_empty());
}

#[test]
fn numbers_are_read_back() {
    assert_eq!(parse_integer("0"), Some(0));
    assert_eq!(parse_integer("-0"), Some(0));
    assert_eq!(parse_integer("007"), Some(7));
    assert_eq!(parse_integer("-12"), Some(-12));
    assert_eq!(parse_integer("9223372036854775807"), Some(i64::MAX));
    assert_eq!(parse_integer("9223372036854775808"), None);
    assert_eq!(parse_integer("-9223372036854775808"), Some(i64::MIN));
    assert_eq!(parse_integer("-9223372036854775809"), None);
    assert_eq!(parse_integer(""), None);
    assert_eq!(parse_integer("-"), None);
    assert_eq!(parse_integer("+1"), None);
    assert_eq!(parse_integer("1.0"), None);
    assert_eq!(parse_integer("--1"), None);
    assert_eq!(parse_integer("1 "), None);
    assert_eq!(parse_natural(&chars("x18446744073709551615"), 1), Some(u64::MAX));
    assert_eq!(parse_natural(&chars("18446744073709551616"), 0), None);
    assert_eq!(parse_natural(&chars("99999999999999999999999"), 0), None);
    assert_eq!(parse_natural(&chars("12"), 2), None);
    for n in [0i64, 1, -1, 9, 10, -10, 12345, i64::MAX, i64::MIN] {
        assert_eq!(parse_integer(&signed_text(n)), Some(n));
    }
}
