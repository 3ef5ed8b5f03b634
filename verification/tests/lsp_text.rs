use pax_carbon::lsp::changes::{
    is_pax_language, is_pax_path, is_rust_path, pending_change_action, save_action, SaveAction,
    SAVE_DEBOUNCE_NANOS,
};
use pax_carbon::lsp::diagnostics::{diagnostics_for, to_diagnostic, DiagnosticSeverity, PaxParseError};
use pax_carbon::lsp::model::Position;
use pax_carbon::lsp::text::{
    char_is_whitespace, checked_char_before_position, checked_word_before_position, contains_char, ends_with,
    equals_without_char, get_char_before_position, get_word_before_position, is_cursor_in_document,
    last_word_of,
};
use ropey::Rope;

fn pos(line: u32, character: u32) -> Position {
    Position { line, character }
}

#[test]
fn word_before_cursor_is_last_word_on_the_way() {
    let doc = Rope::from_str("<Rectangle fill=\n  @click=self.go />\n");
    assert_eq!(get_word_before_position(&doc, &pos(0, 16)), Some("fill=".to_string()));
    assert_eq!(get_word_before_position(&doc, &pos(1, 9)), Some("@click=".to_string()));
    assert_eq!(get_word_before_position(&doc, &pos(0, 0)), None);
    assert_eq!(get_word_before_position(&doc, &pos(1, 2)), Some("fill=".to_string()));
}

#[test]
fn word_before_cursor_looks_back_fifty_characters_only() {
    let text = format!("{}{}", "a".repeat(60), " ");
    let doc = Rope::from_str(&text);
    assert_eq!(get_word_before_position(&doc, &pos(0, 60)), Some("a".repeat(50)));
    assert_eq!(get_word_before_position(&doc, &pos(0, 61)), Some("a".repeat(49)));
}

#[test]
fn char_before_cursor() {
    let doc = Rope::from_str("ab\ncd");
    assert_eq!(get_char_before_position(&doc, &pos(0, 0)), None);
    assert_eq!(get_char_before_position(&doc, &pos(0, 2)), Some('b'));
    assert_eq!(get_char_before_position(&doc, &pos(1, 0)), Some('\n'));
    assert_eq!(get_char_before_position(&doc, &pos(1, 2)), Some('d'));
}

#[test]
fn cursor_outside_the_document_is_refused() {
    let doc = Rope::from_str("ab\ncd");
    assert!(is_cursor_in_document(&doc, &pos(1, 2)));
    assert!(is_cursor_in_document(&doc, &pos(2, 0)));
    assert!(!is_cursor_in_document(&doc, &pos(1, 3)));
    assert!(!is_cursor_in_document(&doc, &pos(3, 0)));
    assert_eq!(checked_char_before_position(&doc, &pos(3, 0)), None);
    assert_eq!(checked_word_before_position(&doc, &pos(0, 9)), None);
    assert_eq!(checked_char_before_position(&doc, &pos(0, 1)), Some(Some('a')));
    assert_eq!(checked_word_before_position(&doc, &pos(1, 2)), Some(Some("cd".to_string())));
}

#[test]
fn last_word_splits_on_unicode_white_space() {
    assert_eq!(last_word_of(&"one two\u{3000}three \t\n".to_string()), Some("three".to_string()));
    assert_eq!(last_word_of(&"x\u{a0}y".to_string()), Some("y".to_string()));
    assert_eq!(last_word_of(&" \u{2028} ".to_string()), None);
    assert_eq!(last_word_of(&String::new()), None);
    assert_eq!(last_word_of(&"éé".to_string()), Some("éé".to_string()));
}

#[test]
fn string_tests() {
    assert!(contains_char(&"@click".to_string(), '@'));
    assert!(!contains_char(&"click".to_string(), '@'));
    assert!(ends_with(&"/a/b.pax".to_string(), ".pax"));
    assert!(!ends_with(&"pax".to_string(), ".pax"));
    assert!(equals_without_char(&"fill".to_string(), &"fi=ll==".to_string(), '='));
    assert!(!equals_without_char(&"fill".to_string(), &"fil=".to_string(), '='));
    assert!(is_pax_path(&"/x/y.pax".to_string()));
    assert!(is_rust_path(&"/x/lib.rs".to_string()));
    assert!(!is_rust_path(&"/x/lib.pax".to_string()));
    assert!(is_pax_language(&"pax".to_string()));
    assert!(!is_pax_language(&"rust".to_string()));
}

#[test]
fn pending_changes_of_pax_documents_are_handled() {
    let a = pending_change_action(&"/p/a.pax".to_string(), 1);
    assert!(a.index_component && a.reparse);
    let a = pending_change_action(&"/p/a.pax".to_string(), 0);
    assert!(a.index_component && !a.reparse);
    let a = pending_change_action(&"/p/a.rs".to_string(), 3);
    assert!(!a.index_component && !a.reparse);
}

#[test]
fn saves_of_rust_files_reindex_at_most_every_ten_seconds() {
    assert_eq!(save_action(&"/p/a.pax".to_string(), u128::MAX), SaveAction::Ignore);
    assert_eq!(save_action(&"/p/a.rs".to_string(), SAVE_DEBOUNCE_NANOS - 1), SaveAction::Debounce);
    assert_eq!(save_action(&"/p/a.rs".to_string(), SAVE_DEBOUNCE_NANOS), SaveAction::Reindex);
}

#[test]
fn parse_errors_become_zero_based_error_diagnostics() {
    let e = PaxParseError { start: (1, 1), end: (3, 7), error_message: "bad".to_string() };
    let d = to_diagnostic(e);
    assert_eq!((d.range.start.line, d.range.start.character), (0, 0));
    assert_eq!((d.range.end.line, d.range.end.character), (2, 6));
    assert_eq!(d.message, "bad");
    assert_eq!(d.severity, Some(DiagnosticSeverity::Error));
    let ds = diagnostics_for(vec![
        PaxParseError { start: (2, 5), end: (2, 9), error_message: "first".to_string() },
        PaxParseError { start: (4, 1), end: (5, 2), error_message: "second".to_string() },
    ]);
    assert_eq!(ds.len(), 2);
    assert_eq!(ds[0].message, "first");
    assert_eq!(ds[1].range.start.line, 3);
    assert!(diagnostics_for(vec![]).is_empty());
}

#[test]
fn lines_break_at_crlf_cr_and_unicode_separators() {
    // lines: "a\r\n", "b\r", "c\u{2028}", "d\n", "e"
    let doc = Rope::from_str("a\r\nb\rc\u{2028}d\ne");
    assert_eq!(get_char_before_position(&doc, &pos(1, 0)), Some('\n'));
    assert_eq!(get_char_before_position(&doc, &pos(1, 1)), Some('b'));
    assert_eq!(get_char_before_position(&doc, &pos(2, 1)), Some('c'));
    assert_eq!(get_char_before_position(&doc, &pos(3, 0)), Some('\u{2028}'));
    assert_eq!(get_char_before_position(&doc, &pos(3, 1)), Some('d'));
    assert_eq!(get_char_before_position(&doc, &pos(4, 1)), Some('e'));
    assert!(is_cursor_in_document(&doc, &pos(4, 1)));
    assert!(is_cursor_in_document(&doc, &pos(5, 0)));
    assert!(!is_cursor_in_document(&doc, &pos(4, 2)));
    assert!(!is_cursor_in_document(&doc, &pos(6, 0)));
    assert_eq!(checked_word_before_position(&doc, &pos(4, 1)), Some(Some("e".to_string())));
}

#[test]
fn white_space_is_exactly_what_std_calls_white_space() {
    for code in 0u32..=0x10FFFF {
        if let Some(c) = char::from_u32(code) {
            assert_eq!(char_is_whitespace(c), c.is_whitespace(), "U+{:04X}", code);
        }
    }
}
