use config_editor::diff::{diff_lines, preview_of, render_diff, DiffColor, DiffLine, DiffTag};

fn line(tag: DiffTag, text: &str) -> DiffLine {
    DiffLine { tag, text: text.to_string() }
}

#[test]
fn diff_of_one_replaced_line() {
    let lines = diff_lines("a\nb\nc\n", "a\nx\nc\n");
    assert_eq!(
        lines,
        vec![
            line(DiffTag::Equal, "a"),
            line(DiffTag::Delete, "b"),
            line(DiffTag::Insert, "x"),
            line(DiffTag::Equal, "c"),
        ]
    );
}

#[test]
fn diff_of_equal_texts_keeps_every_line() {
    let lines = diff_lines("a\nb\n", "a\nb\n");
    assert_eq!(lines, vec![line(DiffTag::Equal, "a"), line(DiffTag::Equal, "b")]);
    assert_eq!(diff_lines("", ""), vec![]);
}

#[test]
fn diff_of_added_and_removed_lines() {
    assert_eq!(
        diff_lines("a\n", "a\nb\n"),
        vec![line(DiffTag::Equal, "a"), line(DiffTag::Insert, "b")]
    );
    assert_eq!(
        diff_lines("a\nb\n", "b\n"),
        vec![line(DiffTag::Delete, "a"), line(DiffTag::Equal, "b")]
    );
}

#[test]
fn diff_does_not_alter_its_inputs() {
    let old = String::from("a\nb\n");
    let new = String::from("a\nc\n");
    let _ = diff_lines(&old, &new);
    assert_eq!(old, "a\nb\n");
    assert_eq!(new, "a\nc\n");
}

#[test]
fn diff_line_without_line_feed_is_kept_whole() {
    assert_eq!(
        diff_lines("a", "b"),
        vec![line(DiffTag::Delete, "a"), line(DiffTag::Insert, "b")]
    );
}

#[test]
fn from_change_strips_one_line_feed() {
    assert_eq!(DiffLine::from_change(DiffTag::Equal, "a\n"), line(DiffTag::Equal, "a"));
    assert_eq!(DiffLine::from_change(DiffTag::Equal, "a\n\n"), line(DiffTag::Equal, "a\n"));
    assert_eq!(DiffLine::from_change(DiffTag::Insert, "a"), line(DiffTag::Insert, "a"));
    assert_eq!(DiffLine::from_change(DiffTag::Delete, "a\r\n"), line(DiffTag::Delete, "a\r"));
    assert_eq!(DiffLine::from_change(DiffTag::Delete, ""), line(DiffTag::Delete, ""));
    assert_eq!(DiffLine::from_change(DiffTag::Delete, "\n"), line(DiffTag::Delete, ""));
}

#[test]
fn preview_of_keeps_order_and_tags() {
    let changes = vec![
        (DiffTag::Delete, "x\n".to_string()),
        (DiffTag::Insert, "y".to_string()),
        (DiffTag::Equal, "z\n".to_string()),
    ];
    assert_eq!(
        preview_of(&changes),
        vec![line(DiffTag::Delete, "x"), line(DiffTag::Insert, "y"), line(DiffTag::Equal, "z")]
    );
}

#[test]
fn markers_and_colors() {
    assert_eq!(DiffTag::Delete.marker(), '-');
    assert_eq!(DiffTag::Insert.marker(), '+');
    assert_eq!(DiffTag::Equal.marker(), ' ');
    assert_eq!(DiffTag::Delete.color(), DiffColor::Red);
    assert_eq!(DiffTag::Insert.color(), DiffColor::Green);
    assert_eq!(DiffTag::Equal.color(), DiffColor::White);
}

#[test]
fn render_puts_marker_text_and_line_feed() {
    assert_eq!(line(DiffTag::Delete, "b").render(), "-b\n");
    assert_eq!(line(DiffTag::Insert, "x").render(), "+x\n");
    assert_eq!(line(DiffTag::Equal, "a").render(), " a\n");
    assert_eq!(line(DiffTag::Equal, "").render(), " \n");
}

#[test]
fn render_diff_is_the_lines_one_after_another() {
    let lines = diff_lines("a\nb\nc\n", "a\nx\nc\n");
    assert_eq!(render_diff(&lines), " a\n-b\n+x\n c\n");
    assert_eq!(render_diff(&vec![]), "");
}
