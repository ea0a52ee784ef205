use loop_lib::alias::AliasTable;
use loop_lib::resolve::resolve_command;
use loop_lib::source::{get_aliases, load_aliases_from_file, AliasSourceError};

#[test]
fn alias_replaces_first_word_only() {
    let mut table = AliasTable::new();
    table.insert("ll".to_string(), "ls -l".to_string());
    assert_eq!(resolve_command("ll -a", &table), "ls -l -a");
    assert_eq!(resolve_command("echo ll", &table), "echo ll");
    assert_eq!(resolve_command("  ll ll", &table), "  ls -l ll");
    assert_eq!(resolve_command("", &table), "");
    assert_eq!(resolve_command("   ", &table), "   ");
}

#[test]
fn test_load_aliases_from_file() {
    let looprc_content = r#"
    {
        "aliases": {
            "ll": "ls -l",
            "gst": "git status"
        }
    }
    "#;
    let aliases = load_aliases_from_file(looprc_content).unwrap();
    assert_eq!(aliases.get("ll"), Some(&"ls -l".to_string()));
    assert_eq!(aliases.get("gst"), Some(&"git status".to_string()));
}

#[test]
fn alias_file_errors() {
    assert_eq!(load_aliases_from_file("{ not json").err(), Some(AliasSourceError::Syntax));
    assert_eq!(load_aliases_from_file("{}").err(), Some(AliasSourceError::NoAliases));
    assert_eq!(load_aliases_from_file("[1, 2]").err(), Some(AliasSourceError::NoAliases));
    assert_eq!(
        load_aliases_from_file(r#"{"aliases": "ll"}"#).err(),
        Some(AliasSourceError::NoAliases)
    );
    let table = load_aliases_from_file(r#"{"aliases": {"n": 3, "s": "x"}}"#).unwrap();
    assert_eq!(table.get("n"), Some(&String::new()));
    assert_eq!(table.get("s"), Some(&"x".to_string()));
    assert_eq!(table.len(), 2);
}

#[test]
fn test_get_aliases() {
    let looprc_content = r#"
    {
        "aliases": {
            "ll": "ls -l",
            "gst": "git status"
        }
    }
    "#;
    let aliases = get_aliases(Some(looprc_content), None, None);
    assert_eq!(aliases.get("ll"), Some(&"ls -l".to_string()));
    assert_eq!(aliases.get("gst"), Some(&"git status".to_string()));
}
