use config_editor::text::{ends_with_char, find_char, join, join_pair, same_text, split, trim_trailing};

#[test]
fn split_cuts_at_every_separator() {
    assert_eq!(split("a.b.c", '.'), vec!["a", "b", "c"]);
    assert_eq!(split("abc", '.'), vec!["abc"]);
    assert_eq!(split("", '.'), vec![""]);
    assert_eq!(split("a..b", '.'), vec!["a", "", "b"]);
    assert_eq!(split(".a.", '.'), vec!["", "a", ""]);
}

#[test]
fn split_counts_characters_not_bytes() {
    assert_eq!(split("é.ü", '.'), vec!["é", "ü"]);
}

#[test]
fn find_char_gives_first_index_or_length() {
    assert_eq!(find_char("a=b=c", '='), 1);
    assert_eq!(find_char("abc", '='), 3);
    assert_eq!(find_char("", '='), 0);
    assert_eq!(find_char("é=1", '='), 1);
}

#[test]
fn trim_trailing_removes_the_whole_run() {
    assert_eq!(trim_trailing("sync?", '?'), "sync");
    assert_eq!(trim_trailing("sync??", '?'), "sync");
    assert_eq!(trim_trailing("sy?nc", '?'), "sy?nc");
    assert_eq!(trim_trailing("?", '?'), "");
    assert_eq!(trim_trailing("", '?'), "");
}

#[test]
fn ends_with_char_looks_at_the_last_character() {
    assert!(ends_with_char("a?", '?'));
    assert!(!ends_with_char("?a", '?'));
    assert!(!ends_with_char("", '?'));
}

#[test]
fn same_text_compares_character_by_character() {
    assert!(same_text("abc", "abc"));
    assert!(!same_text("abc", "abd"));
    assert!(!same_text("abc", "ab"));
    assert!(same_text("", ""));
}

#[test]
fn join_puts_texts_together() {
    assert_eq!(join("ab", "cd"), "abcd");
    assert_eq!(join_pair("sync", ".", "timeout_ms"), "sync.timeout_ms");
}
