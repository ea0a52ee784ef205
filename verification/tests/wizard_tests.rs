use loop_lib::alias::AliasTable;
use loop_lib::report::Tone;
use loop_lib::source::{load_aliases_from_file, AliasSourceError};
use loop_lib::wizard::{
    add_aliases_to_global_looprc, is_yes, prompt, render_diff, render_preview, wizard_step,
    DiffLine, Question, WizardAction, WizardEnd, WizardEvent, WizardState,
};

#[test]
fn only_y_is_a_yes() {
    assert!(is_yes("y"));
    assert!(is_yes("Y\n"));
    assert!(is_yes("  y \r\n"));
    assert!(!is_yes("yes"));
    assert!(!is_yes(""));
    assert!(!is_yes("n"));
    assert!(!is_yes("y y"));
}

#[test]
fn prompts_hint_at_the_default() {
    assert_eq!(prompt(Question::ApplyChanges), "Do you want to apply these changes? [y/N]: ");
    assert_eq!(
        prompt(Question::SetAliases),
        "Do you want to set the value of the 'aliases' property? [y/N]: "
    );
    assert_eq!(
        prompt(Question::CreateFile),
        "The global .looprc file does not exist. Do you want to create it? [y/N]: "
    );
}

#[test]
fn alias_document_declares_the_table() {
    let mut table = AliasTable::new();
    table.insert("ll".to_string(), "ls -l".to_string());
    table.insert("gst".to_string(), "git status".to_string());
    let text = table.to_document().unwrap();
    assert_eq!(text, "{\n  \"aliases\": {\n    \"gst\": \"git status\",\n    \"ll\": \"ls -l\"\n  }\n}");
    let back = load_aliases_from_file(&text).unwrap();
    assert_eq!(back.len(), 2);
    assert_eq!(back.get("ll"), Some(&"ls -l".to_string()));
    assert_eq!(back.get("gst"), Some(&"git status".to_string()));
}

#[test]
fn preview_marks_each_line_of_the_comparison() {
    let diff = vec![
        DiffLine::Kept("{".to_string()),
        DiffLine::Removed("  old".to_string()),
        DiffLine::Added("  new".to_string()),
    ];
    let lines = render_diff(&diff);
    assert_eq!(lines.len(), 3);
    assert_eq!((lines[0].tone, lines[0].text.as_str()), (Tone::Plain, " {"));
    assert_eq!((lines[1].tone, lines[1].text.as_str()), (Tone::Bad, "-  old"));
    assert_eq!((lines[2].tone, lines[2].text.as_str()), (Tone::Good, "+  new"));
}

#[test]
fn preview_compares_old_and_new_text() {
    let lines = render_preview("a\nb\n", "a\nc\n");
    let texts: Vec<&str> = lines.iter().map(|line| line.text.as_str()).collect();
    assert_eq!(texts, vec![" a", "-b", "+c", " "]);
    let lines = render_preview("", "new text");
    assert_eq!(lines.len(), 1);
    assert_eq!((lines[0].tone, lines[0].text.as_str()), (Tone::Good, "new text"));
}

#[test]
fn wizard_walks_from_a_missing_file_to_the_write() {
    let state = add_aliases_to_global_looprc();
    assert!(matches!(state, WizardState::Start));
    let (state, action) = wizard_step(state, WizardEvent::FileMissing);
    assert!(matches!(action, WizardAction::Ask(Question::CreateFile)));
    let (state, action) = wizard_step(state, WizardEvent::Answer(true));
    assert!(matches!(action, WizardAction::Ask(Question::SetAliases)));
    let (state, action) = wizard_step(state, WizardEvent::Answer(true));
    assert!(matches!(action, WizardAction::RunShell));
    let (state, action) = wizard_step(state, WizardEvent::Listing("alias ll='ls -l'\n".to_string()));
    let expected = "{\n  \"aliases\": {\n    \"ll\": \"ls -l\"\n  }\n}";
    match action {
        WizardAction::Preview(lines) => {
            assert_eq!(lines.len(), 1);
            assert_eq!(lines[0].tone, Tone::Good);
            assert_eq!(lines[0].text, expected);
        },
        _ => panic!("a preview was expected"),
    }
    let (state, action) = wizard_step(state, WizardEvent::Answer(true));
    match action {
        WizardAction::Write(text) => assert_eq!(text, expected),
        _ => panic!("a write was expected"),
    }
    let (state, action) = wizard_step(state, WizardEvent::Written);
    assert!(matches!(action, WizardAction::Stop(WizardEnd::Applied)));
    assert!(matches!(state, WizardState::Finished(WizardEnd::Applied)));
    let (_, action) = wizard_step(state, WizardEvent::Answer(true));
    assert!(matches!(action, WizardAction::Stop(WizardEnd::Unexpected)));
}

#[test]
fn wizard_keeps_the_aliases_of_the_file() {
    let existing = "{\"aliases\": {\"g\": \"git\", \"ll\": \"ls\"}}".to_string();
    let (state, action) =
        wizard_step(add_aliases_to_global_looprc(), WizardEvent::FileRead(existing));
    assert!(matches!(action, WizardAction::Ask(Question::SetAliases)));
    let (state, _) = wizard_step(state, WizardEvent::Answer(true));
    let (state, action) = wizard_step(state, WizardEvent::Listing("ll='ls -l'".to_string()));
    match action {
        WizardAction::Preview(lines) => assert!(lines.len() > 1),
        _ => panic!("a preview was expected"),
    }
    match state {
        WizardState::ConfirmApply { content } => assert_eq!(
            content,
            "{\n  \"aliases\": {\n    \"g\": \"git\",\n    \"ll\": \"ls -l\"\n  }\n}"
        ),
        _ => panic!("the wizard should wait for the last answer"),
    }
}

#[test]
fn wizard_stops_on_a_no_and_on_a_bad_file() {
    let (state, _) = wizard_step(add_aliases_to_global_looprc(), WizardEvent::FileMissing);
    let (state, action) = wizard_step(state, WizardEvent::Answer(false));
    assert!(matches!(action, WizardAction::Stop(WizardEnd::Cancelled)));
    assert!(matches!(state, WizardState::Finished(WizardEnd::Cancelled)));

    let (_, action) = wizard_step(
        add_aliases_to_global_looprc(),
        WizardEvent::FileRead("not json".to_string()),
    );
    assert!(matches!(action, WizardAction::Stop(WizardEnd::BadFile(AliasSourceError::Syntax))));
    let (_, action) =
        wizard_step(add_aliases_to_global_looprc(), WizardEvent::FileRead("{}".to_string()));
    assert!(matches!(action, WizardAction::Stop(WizardEnd::BadFile(AliasSourceError::NoAliases))));

    let (_, action) = wizard_step(add_aliases_to_global_looprc(), WizardEvent::Written);
    assert!(matches!(action, WizardAction::Stop(WizardEnd::Unexpected)));

    let state = WizardState::ConfirmSet { existing: String::new() };
    let (_, action) = wizard_step(state, WizardEvent::Answer(false));
    assert!(matches!(action, WizardAction::Stop(WizardEnd::Cancelled)));
    let state = WizardState::ConfirmApply { content: "x".to_string() };
    let (_, action) = wizard_step(state, WizardEvent::Answer(false));
    assert!(matches!(action, WizardAction::Stop(WizardEnd::Cancelled)));
}
