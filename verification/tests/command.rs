use config_editor::args::Argument;
use config_editor::capability::Capability;
use config_editor::command::{ConfigCommand, ConfigError, Outcome, Step};
use config_editor::diff::{DiffLine, DiffTag};
use config_editor::editor::EditError;
use config_editor::present::{PrintFormat, Row, Shown};
use config_editor::schema::ConfigSchema;

const SAMPLE: &str = "[sync]\ntimeout_ms = 5000\ninterval_ms = 1000\n";

fn sync_schema() -> ConfigSchema {
    ConfigSchema {
        path: "sync",
        type_info: "object",
        description: "Sync configuration",
        children: vec![
            ConfigSchema {
                path: "timeout_ms",
                type_info: "u64",
                description: "Timeout for sync operations in milliseconds",
                children: vec![],
            },
            ConfigSchema {
                path: "interval_ms",
                type_info: "u64",
                description: "Interval between sync operations in milliseconds",
                children: vec![],
            },
        ],
    }
}

fn command(tokens: &[&str], print: PrintFormat, save: bool) -> ConfigCommand {
    ConfigCommand { args: tokens.iter().map(|t| Argument::from_str(t).unwrap()).collect(), print, save }
}

fn line(tag: DiffTag, text: &str) -> DiffLine {
    DiffLine { tag, text: text.to_string() }
}

#[test]
fn run_with_hints_describes_and_edits_nothing() {
    let cmd = command(&["sync.timeout_ms=1", "sync.timeout_ms?", "bogus.path?"], PrintFormat::Default, true);
    match cmd.run(SAMPLE, &sync_schema()).unwrap() {
        Step::Hints(report) => {
            assert_eq!(
                report.rows,
                vec![Row {
                    key: "sync.timeout_ms".to_string(),
                    middle: "u64".to_string(),
                    last: "Timeout for sync operations in milliseconds".to_string(),
                }]
            );
            assert_eq!(report.unknown, vec!["bogus.path"]);
        }
        other => panic!("unexpected: {:?}", other),
    }
}

#[test]
fn run_without_arguments_shows_the_document() {
    let cmd = command(&[], PrintFormat::Default, false);
    match cmd.run(SAMPLE, &sync_schema()).unwrap() {
        Step::Show(shown) => assert_eq!(shown, Shown::Text(SAMPLE.to_string())),
        other => panic!("unexpected: {:?}", other),
    }
    let cmd = command(&[], PrintFormat::Json, false);
    match cmd.run(SAMPLE, &sync_schema()).unwrap() {
        Step::Show(shown) => assert_eq!(
            shown,
            Shown::Text(
                "{\n  \"sync\": {\n    \"timeout_ms\": 5000,\n    \"interval_ms\": 1000\n  }\n}".to_string()
            )
        ),
        other => panic!("unexpected: {:?}", other),
    }
    let cmd = command(&[], PrintFormat::Human, false);
    match cmd.run(SAMPLE, &sync_schema()).unwrap() {
        Step::Show(shown) => assert_eq!(
            shown,
            Shown::Table(vec![
                Row { key: "sync.timeout_ms".to_string(), middle: "5000".to_string(), last: "u64".to_string() },
                Row { key: "sync.interval_ms".to_string(), middle: "1000".to_string(), last: "u64".to_string() },
            ])
        ),
        other => panic!("unexpected: {:?}", other),
    }
}

#[test]
fn run_refuses_a_document_that_is_no_toml() {
    let cmd = command(&["sync.timeout_ms=1"], PrintFormat::Default, false);
    assert!(matches!(cmd.run("[sync", &sync_schema()), Err(ConfigError::Unparsable(_))));
    let cmd = command(&["sync?"], PrintFormat::Default, false);
    assert!(matches!(cmd.run("[sync", &sync_schema()), Err(ConfigError::Unparsable(_))));
}

#[test]
fn run_refuses_an_edit_that_cannot_be_resolved() {
    let cmd = command(&["sync.interval_ms=1", "sync.timeout_ms.x=1"], PrintFormat::Default, true);
    assert_eq!(
        cmd.run(SAMPLE, &sync_schema()).unwrap_err(),
        ConfigError::Unresolved(1, EditError::Blocked)
    );
}

#[test]
fn run_with_edits_hands_the_edited_text_to_validation() {
    let cmd = command(&["sync.timeout_ms=7000", "sync.retries=2"], PrintFormat::Default, false);
    match cmd.run(SAMPLE, &sync_schema()).unwrap() {
        Step::Validate(pending) => {
            assert_eq!(pending.unedited, SAMPLE);
            assert_eq!(pending.edited, "[sync]\ntimeout_ms = 7000\ninterval_ms = 1000\nretries = 2\n");
            assert_eq!(pending.document.to_text(), pending.edited);
            assert!(pending.changed);
            assert!(!pending.save);
            assert_eq!(pending.unknown, vec!["sync.retries"]);
        }
        other => panic!("unexpected: {:?}", other),
    }
}

#[test]
fn changed_and_valid_without_save_is_previewed() {
    let cmd = command(&["sync.timeout_ms=7000"], PrintFormat::Default, false);
    let Step::Validate(pending) = cmd.run(SAMPLE, &sync_schema()).unwrap() else { panic!("no edit") };
    let outcome = pending.conclude(Ok(())).unwrap();
    assert_eq!(
        outcome,
        Outcome::Preview(vec![
            line(DiffTag::Equal, "[sync]"),
            line(DiffTag::Delete, "timeout_ms = 5000"),
            line(DiffTag::Insert, "timeout_ms = 7000"),
            line(DiffTag::Equal, "interval_ms = 1000"),
        ])
    );
    assert_eq!(
        outcome.notice(),
        "\nnote: if this looks right, use `-s, --save` to persist these modifications"
    );
}

#[test]
fn saved_text_keeps_comments_and_spacing() {
    let file = "# top\n[sync]\ntimeout_ms = 5000 # ms\ninterval_ms = 100\n";
    let cmd = command(&["sync.timeout_ms=6000"], PrintFormat::Default, true);
    let Step::Validate(pending) = cmd.run(file, &sync_schema()).unwrap() else { panic!("no edit") };
    assert_eq!(
        pending.conclude(Ok(())),
        Ok(Outcome::Save("# top\n[sync]\ntimeout_ms = 6000 # ms\ninterval_ms = 100\n".to_string()))
    );
}

#[test]
fn second_run_on_the_saved_text_changes_nothing() {
    let tokens = ["sync.timeout_ms=6000", "sync.extra.name=\"n\"", "sync.ratio=0.5"];
    let cmd = command(&tokens, PrintFormat::Default, true);
    let Step::Validate(pending) = cmd.run(SAMPLE, &sync_schema()).unwrap() else { panic!("no edit") };
    let Ok(Outcome::Save(saved)) = pending.conclude(Ok(())) else { panic!("not saved") };
    let cmd = command(&tokens, PrintFormat::Default, true);
    let Step::Validate(pending) = cmd.run(&saved, &sync_schema()).unwrap() else { panic!("no edit") };
    assert!(!pending.changed);
    assert_eq!(pending.edited, saved);
    assert_eq!(pending.conclude(Ok(())), Ok(Outcome::NoChanges));
}

#[test]
fn changed_and_valid_with_save_is_written() {
    let cmd = command(&["sync.timeout_ms=7000"], PrintFormat::Default, true);
    let Step::Validate(pending) = cmd.run(SAMPLE, &sync_schema()).unwrap() else { panic!("no edit") };
    let outcome = pending.conclude(Ok(())).unwrap();
    assert_eq!(outcome, Outcome::Save("[sync]\ntimeout_ms = 7000\ninterval_ms = 1000\n".to_string()));
    assert_eq!(outcome.notice(), "Node configuration has been updated");
}

#[test]
fn setting_the_value_that_is_there_is_no_change() {
    for save in [false, true] {
        let cmd = command(&["sync.timeout_ms=5000"], PrintFormat::Default, save);
        let Step::Validate(pending) = cmd.run(SAMPLE, &sync_schema()).unwrap() else { panic!("no edit") };
        assert!(!pending.changed);
        let outcome = pending.conclude(Ok(())).unwrap();
        assert_eq!(outcome, Outcome::NoChanges);
        assert_eq!(outcome.notice(), "warning: no changes were made to the configuration");
    }
}

#[test]
fn refused_by_the_loader_is_never_written() {
    for save in [false, true] {
        let cmd = command(&["sync.timeout_ms=\"soon\""], PrintFormat::Default, save);
        let Step::Validate(pending) = cmd.run(SAMPLE, &sync_schema()).unwrap() else { panic!("no edit") };
        let r = pending.conclude(Err("invalid type: string \"soon\", expected u64".to_string()));
        assert_eq!(
            r,
            Err(ConfigError::ValidationFailed("invalid type: string \"soon\", expected u64".to_string()))
        );
        assert_eq!(
            r.unwrap_err().message(),
            "Config validation failed: invalid type: string \"soon\", expected u64"
        );
    }
}

#[test]
fn command_splits_its_arguments() {
    let cmd = command(&["a?", "b=1", "c.d?", "e.f=true"], PrintFormat::Default, false);
    let hints: Vec<String> = cmd.hints().into_iter().map(|h| h.key).collect();
    assert_eq!(hints, vec!["a", "c.d"]);
    let edits = cmd.edits();
    assert_eq!(edits.len(), 2);
    assert_eq!(edits[0].key_path, vec!["b"]);
    assert_eq!(edits[1].key_path, vec!["e", "f"]);
}

#[test]
fn errors_have_messages() {
    assert_eq!(
        ConfigError::NotInitialized("\"/home/node\"".to_string()).message(),
        "Node is not initialized in \"/home/node\""
    );
    assert_eq!(ConfigError::ValidationFailed("why".to_string()).message(), "Config validation failed: why");
    assert_eq!(ConfigError::IoFailure("disk full".to_string()).message(), "disk full");
    assert!(ConfigError::Unparsable("x".to_string()).message().ends_with(": x"));
    assert!(!ConfigError::Unresolved(0, EditError::Blocked).message().is_empty());
    assert!(!ConfigError::Unresolved(0, EditError::EmptyPath).message().is_empty());
    assert!(!ConfigError::Unresolved(0, EditError::Unstorable).message().is_empty());
}

#[test]
fn capabilities_are_three() {
    let all = [Capability::ManageApplication, Capability::ManageMembers, Capability::Proxy];
    assert_ne!(all[0], all[1]);
    assert_ne!(all[1], all[2]);
    assert_ne!(all[0], all[2]);
    let copy = all[1];
    assert_eq!(copy, Capability::ManageMembers);
}
