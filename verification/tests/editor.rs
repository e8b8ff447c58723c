use config_editor::document::{Document, Entry, Node};
use config_editor::editor::{Edit, EditError};
use config_editor::scalar::Scalar;

const SAMPLE: &str = "# node settings\n[sync]\ntimeout_ms = 5000 # in ms\ninterval_ms   =   1000\n\n[discovery]\nmdns = true\n\n[discovery.relay]\nregistrations_limit = 3\n";

fn edit(path: &[&str], value: Scalar) -> Edit {
    Edit { key_path: path.iter().map(|s| s.to_string()).collect(), new_value: value }
}

#[test]
fn parse_then_print_gives_the_text_back() {
    let document = Document::parse(SAMPLE).unwrap();
    assert_eq!(document.to_text(), SAMPLE);
}

#[test]
fn parse_refuses_what_is_no_toml() {
    let error = Document::parse("[sync\ntimeout_ms = ").unwrap_err();
    assert!(!error.message.is_empty());
}

#[test]
fn edit_replaces_a_value_and_reports_the_change() {
    let mut document = Document::parse(SAMPLE).unwrap();
    let changed = document.apply_edit(&edit(&["sync", "interval_ms"], Scalar::Integer(2000)));
    assert_eq!(changed, Ok(true));
    assert_eq!(
        document.to_text(),
        "# node settings\n[sync]\ntimeout_ms = 5000 # in ms\ninterval_ms   =   2000\n\n[discovery]\nmdns = true\n\n[discovery.relay]\nregistrations_limit = 3\n"
    );
}

#[test]
fn edit_keeps_all_text_outside_the_value() {
    let mut document = Document::parse(SAMPLE).unwrap();
    document.apply_edit(&edit(&["discovery", "mdns"], Scalar::Boolean(false))).unwrap();
    let text = document.to_text();
    let expected = SAMPLE.replace("mdns = true", "mdns = false");
    assert_eq!(text, expected);
}

#[test]
fn edit_keeps_the_comment_behind_the_value() {
    let mut document = Document::parse(SAMPLE).unwrap();
    document.apply_edit(&edit(&["sync", "timeout_ms"], Scalar::Integer(1))).unwrap();
    let expected = SAMPLE.replace("timeout_ms = 5000 # in ms", "timeout_ms = 1 # in ms");
    assert_eq!(document.to_text(), expected);
}

#[test]
fn edit_keeps_every_byte_outside_the_value() {
    let text = "# top\n[sync]\ntimeout_ms = 5000 # ms\ninterval_ms = 100\n";
    let mut document = Document::parse(text).unwrap();
    assert_eq!(document.apply_edit(&edit(&["sync", "timeout_ms"], Scalar::Integer(6000))), Ok(true));
    assert_eq!(document.to_text(), "# top\n[sync]\ntimeout_ms = 6000 # ms\ninterval_ms = 100\n");
    let text = "a   =   \"x\"   # c\nb = [ 1,  2 ] # d\np = { q   =   1 }\n";
    let mut document = Document::parse(text).unwrap();
    document.apply_edit(&edit(&["a"], Scalar::Boolean(true))).unwrap();
    document.apply_edit(&edit(&["b"], Scalar::Integer(3))).unwrap();
    document.apply_edit(&edit(&["p", "q"], Scalar::Integer(2))).unwrap();
    assert_eq!(document.to_text(), "a   =   true   # c\nb = 3 # d\np = { q   =   2 }\n");
}

#[test]
fn edit_with_the_same_value_is_no_change() {
    let mut document = Document::parse(SAMPLE).unwrap();
    let changed = document.apply_edit(&edit(&["sync", "timeout_ms"], Scalar::Integer(5000)));
    assert_eq!(changed, Ok(false));
    let changed = document.apply_edit(&edit(&["discovery", "mdns"], Scalar::Boolean(true)));
    assert_eq!(changed, Ok(false));
}

#[test]
fn edit_with_the_same_value_leaves_the_way_it_is_written() {
    let text = "a = 5_000 # c\nb = 0x10\nc = 1\n";
    let mut document = Document::parse(text).unwrap();
    assert_eq!(document.apply_edit(&edit(&["a"], Scalar::Integer(5000))), Ok(false));
    assert_eq!(document.to_text(), text);
    let edits = vec![
        edit(&["a"], Scalar::Integer(5000)),
        edit(&["c"], Scalar::Integer(2)),
        edit(&["b"], Scalar::Integer(16)),
    ];
    assert_eq!(document.apply_edits(&edits), Ok(true));
    assert_eq!(document.to_text(), "a = 5_000 # c\nb = 0x10\nc = 2\n");
}

#[test]
fn edit_with_another_kind_of_value_is_a_change() {
    let mut document = Document::parse(SAMPLE).unwrap();
    let changed = document.apply_edit(&edit(&["sync", "timeout_ms"], Scalar::Str("5000".to_string())));
    assert_eq!(changed, Ok(true));
    assert!(document.to_text().contains("timeout_ms = \"5000\""));
}

#[test]
fn edit_adds_a_new_key_to_a_table() {
    let mut document = Document::parse(SAMPLE).unwrap();
    let changed = document.apply_edit(&edit(&["sync", "retries"], Scalar::Integer(4)));
    assert_eq!(changed, Ok(true));
    let text = document.to_text();
    assert!(text.contains("retries = 4\n"));
    assert!(text.contains("timeout_ms = 5000 # in ms\n"));
    assert!(text.contains("interval_ms   =   1000\n"));
    let again = Document::parse(&text).unwrap();
    assert_eq!(again.to_text(), text);
}

#[test]
fn edit_makes_missing_tables_on_the_way() {
    let mut document = Document::parse("a = 1\n").unwrap();
    let changed = document.apply_edit(&edit(&["x", "y", "z"], Scalar::Boolean(true)));
    assert_eq!(changed, Ok(true));
    assert_eq!(document.to_text(), "a = 1\nx = { y = { z = true } }\n");
}

#[test]
fn edit_overwrites_a_table_with_a_scalar() {
    let mut document = Document::parse(SAMPLE).unwrap();
    let changed = document.apply_edit(&edit(&["discovery", "relay"], Scalar::Integer(1)));
    assert_eq!(changed, Ok(true));
    let text = document.to_text();
    assert!(text.contains("mdns = true\nrelay= 1\n"));
    assert!(!text.contains("registrations_limit"));
}

#[test]
fn edit_through_a_scalar_is_blocked_and_leaves_the_document() {
    let mut document = Document::parse(SAMPLE).unwrap();
    let r = document.apply_edit(&edit(&["sync", "timeout_ms", "deeper"], Scalar::Integer(1)));
    assert_eq!(r, Err(EditError::Blocked));
    assert_eq!(document.to_text(), SAMPLE);
}

#[test]
fn edit_through_an_array_of_tables_is_blocked() {
    let text = "[[peers]]\nname = \"a\"\n";
    let mut document = Document::parse(text).unwrap();
    let r = document.apply_edit(&edit(&["peers", "name"], Scalar::Integer(1)));
    assert_eq!(r, Err(EditError::Blocked));
    assert_eq!(document.to_text(), text);
}

#[test]
fn edit_without_keys_is_refused() {
    let mut document = Document::parse(SAMPLE).unwrap();
    let r = document.apply_edit(&edit(&[], Scalar::Integer(1)));
    assert_eq!(r, Err(EditError::EmptyPath));
    assert_eq!(document.to_text(), SAMPLE);
}

#[test]
fn edit_with_a_float_that_is_none_is_refused() {
    let mut document = Document::parse(SAMPLE).unwrap();
    let r = document.apply_edit(&edit(&["sync", "ratio"], Scalar::Float("abc".to_string())));
    assert_eq!(r, Err(EditError::Unstorable));
    let r = document.apply_edit(&edit(&["sync", "ratio"], Scalar::Float("1.50".to_string())));
    assert_eq!(r, Err(EditError::Unstorable));
    assert_eq!(document.to_text(), SAMPLE);
}

#[test]
fn edit_writes_each_kind_of_scalar() {
    let mut document = Document::parse("").unwrap();
    document.apply_edit(&edit(&["s"], Scalar::Str("a \"b\"".to_string()))).unwrap();
    document.apply_edit(&edit(&["i"], Scalar::Integer(-3))).unwrap();
    document.apply_edit(&edit(&["f"], Scalar::Float("1.5".to_string()))).unwrap();
    document.apply_edit(&edit(&["b"], Scalar::Boolean(false))).unwrap();
    document
        .apply_edit(&edit(
            &["a"],
            Scalar::Array(vec![Scalar::Integer(1), Scalar::Str("x".to_string()), Scalar::Array(vec![])]),
        ))
        .unwrap();
    assert_eq!(
        document.to_text(),
        "s = 'a \"b\"'\ni = -3\nf = 1.5\nb = false\na = [1, \"x\", []]\n"
    );
}

#[test]
fn edit_into_an_inline_table_goes_in() {
    let mut document = Document::parse("point = { x = 1, y = 2 }\n").unwrap();
    assert_eq!(document.apply_edit(&edit(&["point", "x"], Scalar::Integer(1))), Ok(false));
    assert_eq!(document.apply_edit(&edit(&["point", "y"], Scalar::Integer(5))), Ok(true));
    assert_eq!(document.to_text(), "point = { x = 1, y = 5 }\n");
}

#[test]
fn edits_are_applied_in_order() {
    let mut document = Document::parse(SAMPLE).unwrap();
    let edits = vec![
        edit(&["sync", "timeout_ms"], Scalar::Integer(1)),
        edit(&["sync", "timeout_ms"], Scalar::Integer(2)),
    ];
    assert_eq!(document.apply_edits(&edits), Ok(true));
    assert!(document.to_text().contains("timeout_ms = 2"));
}

#[test]
fn edits_that_bring_the_old_value_back_still_count_as_change() {
    let mut document = Document::parse(SAMPLE).unwrap();
    let edits = vec![
        edit(&["sync", "timeout_ms"], Scalar::Integer(1)),
        edit(&["sync", "timeout_ms"], Scalar::Integer(5000)),
    ];
    assert_eq!(document.apply_edits(&edits), Ok(true));
}

#[test]
fn edits_all_unchanged_report_no_change() {
    let mut document = Document::parse(SAMPLE).unwrap();
    let edits = vec![
        edit(&["sync", "timeout_ms"], Scalar::Integer(5000)),
        edit(&["discovery", "relay", "registrations_limit"], Scalar::Integer(3)),
    ];
    assert_eq!(document.apply_edits(&edits), Ok(false));
    assert_eq!(document.apply_edits(&Vec::new()), Ok(false));
}

#[test]
fn edits_are_all_or_nothing() {
    let mut document = Document::parse(SAMPLE).unwrap();
    let edits = vec![
        edit(&["sync", "timeout_ms"], Scalar::Integer(1)),
        edit(&["discovery", "mdns", "deeper"], Scalar::Integer(2)),
        edit(&["sync", "interval_ms"], Scalar::Integer(3)),
    ];
    assert_eq!(document.apply_edits(&edits), Err((1, EditError::Blocked)));
    assert_eq!(document.to_text(), SAMPLE);
}

#[test]
fn edits_see_what_earlier_edits_made() {
    let mut document = Document::parse(SAMPLE).unwrap();
    let edits = vec![
        edit(&["sync"], Scalar::Integer(1)),
        edit(&["sync", "timeout_ms"], Scalar::Integer(2)),
    ];
    assert_eq!(document.apply_edits(&edits), Err((1, EditError::Blocked)));
    assert_eq!(document.to_text(), SAMPLE);
}

#[test]
fn second_application_changes_nothing() {
    let edits = vec![
        edit(&["sync", "timeout_ms"], Scalar::Integer(7000)),
        edit(&["discovery", "mdns"], Scalar::Boolean(false)),
        edit(&["new", "table", "key"], Scalar::Str("v".to_string())),
        edit(&["sync", "ratio"], Scalar::Float("0.25".to_string())),
    ];
    let mut document = Document::parse(SAMPLE).unwrap();
    assert_eq!(document.apply_edits(&edits), Ok(true));
    let once = document.to_text();
    assert_eq!(document.apply_edits(&edits), Ok(false));
    assert_eq!(document.to_text(), once);
}

#[test]
fn second_application_of_fighting_edits_changes_again() {
    let edits = vec![
        edit(&["sync", "timeout_ms"], Scalar::Integer(1)),
        edit(&["sync", "timeout_ms"], Scalar::Integer(2)),
    ];
    let mut document = Document::parse(SAMPLE).unwrap();
    assert_eq!(document.apply_edits(&edits), Ok(true));
    assert_eq!(document.apply_edits(&edits), Ok(true));
}

#[test]
fn applied_edits_are_read_back_from_the_text() {
    let edits = vec![
        edit(&["sync", "timeout_ms"], Scalar::Integer(7000)),
        edit(&["extra", "name"], Scalar::Str("n".to_string())),
        edit(&["extra", "list"], Scalar::Array(vec![Scalar::Float("0.5".to_string()), Scalar::Boolean(true)])),
    ];
    let mut document = Document::parse(SAMPLE).unwrap();
    document.apply_edits(&edits).unwrap();
    let mut reloaded = Document::parse(&document.to_text()).unwrap();
    assert_eq!(reloaded.apply_edits(&edits), Ok(false));
}

#[test]
fn duplicate_holds_and_prints_the_same() {
    let document = Document::parse(SAMPLE).unwrap();
    let copy = document.duplicate();
    assert_eq!(copy.to_text(), SAMPLE);
    assert_eq!(copy.tree(), document.tree());
}

#[test]
fn tree_lists_the_entries_in_document_order() {
    let document = Document::parse("b = 1 # c\na =   \"x\"\n[t]\nk = true\n[[aot]]\nz = 1\n").unwrap();
    let tree = document.tree();
    assert_eq!(
        tree,
        vec![
            Entry { key: "b".to_string(), node: Node::Value { text: "1".to_string() } },
            Entry { key: "a".to_string(), node: Node::Value { text: "\"x\"".to_string() } },
            Entry {
                key: "t".to_string(),
                node: Node::Table(vec![Entry {
                    key: "k".to_string(),
                    node: Node::Value { text: "true".to_string() }
                }])
            },
            Entry { key: "aot".to_string(), node: Node::ArrayOfTables },
        ]
    );
}
