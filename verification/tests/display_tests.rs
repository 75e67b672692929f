use zord::display::{explorer_full, explorer_icon, log_kind, selection_span, LogKind, SelectionSpan, EXPLORER_LIMIT};
use zord::syntax::{highlight_line, TokenClass};

fn parts(line: &str) -> Vec<(String, TokenClass)> {
    highlight_line(line).into_iter().map(|t| (t.text, t.class)).collect()
}

#[test]
fn highlighting_cuts_after_each_non_word_char() {
    let p = parts("pub fn Foo(true_x) -> self\n");
    let texts: Vec<&str> = p.iter().map(|(t, _)| t.as_str()).collect();
    assert_eq!(texts, vec!["pub ", "fn ", "Foo(", "true_x)", " ", "-", ">", " ", "self"]);
    let classes: Vec<TokenClass> = p.iter().map(|(_, c)| *c).collect();
    assert_eq!(
        classes,
        vec![
            TokenClass::Keyword,
            TokenClass::Keyword,
            TokenClass::TypeName,
            TokenClass::Plain,
            TokenClass::Plain,
            TokenClass::Plain,
            TokenClass::Plain,
            TokenClass::Plain,
            TokenClass::Literal,
        ]
    );
}

#[test]
fn highlighting_drops_line_breaks_and_handles_empty_lines() {
    assert!(parts("\r\n").is_empty());
    assert!(parts("").is_empty());
    assert_eq!(parts("Self\r\n"), vec![("Self".to_string(), TokenClass::TypeName)]);
    assert_eq!(parts("émoji_1 x"), vec![("émoji_1 ".to_string(), TokenClass::Plain), ("x".to_string(), TokenClass::Plain)]);
    assert_eq!(parts("null;"), vec![("null;".to_string(), TokenClass::Literal)]);
}

#[test]
fn log_colours() {
    assert_eq!(log_kind("[10:00:00] Save failed: no"), LogKind::Error);
    assert_eq!(log_kind("ERROR Saved"), LogKind::Error);
    assert_eq!(log_kind("[10:00:00] Saved a.rs"), LogKind::Success);
    assert_eq!(log_kind("[10:00:00] Loaded a.rs (0.1 MB)"), LogKind::Success);
    assert_eq!(log_kind("[10:00:00] Streaming: a.rs"), LogKind::Normal);
    assert_eq!(log_kind("saved"), LogKind::Normal);
}

#[test]
fn explorer_badges() {
    assert_eq!(explorer_icon("rs"), "rs");
    assert_eq!(explorer_icon("cxx"), "c+");
    assert_eq!(explorer_icon("hpp"), "h ");
    assert_eq!(explorer_icon("json"), "{}");
    assert_eq!(explorer_icon("yml"), "cf");
    assert_eq!(explorer_icon("txt"), "tx");
    assert_eq!(explorer_icon("RS"), "  ");
    assert_eq!(explorer_icon(""), "  ");
}

#[test]
fn explorer_limit() {
    assert!(!explorer_full(EXPLORER_LIMIT - 1));
    assert!(explorer_full(EXPLORER_LIMIT));
    assert_eq!(EXPLORER_LIMIT, 8000);
}

#[test]
fn selection_spans_per_line() {
    // line of 5 chars (4 + line break) starting at char 10
    assert_eq!(selection_span(0, 10, 10, 5), None);
    assert_eq!(selection_span(15, 20, 10, 5), None);
    assert_eq!(selection_span(12, 13, 10, 5), Some(SelectionSpan { start_col: 2, end_col: 3, through_end: false }));
    assert_eq!(selection_span(3, 30, 10, 5), Some(SelectionSpan { start_col: 0, end_col: 4, through_end: true }));
    assert_eq!(selection_span(11, 15, 10, 5), Some(SelectionSpan { start_col: 1, end_col: 4, through_end: true }));
}
