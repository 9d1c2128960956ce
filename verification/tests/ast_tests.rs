//! Tests of spans, source maps and error rendering.

use shex::ast::{Command, ShexError, SourceMap, Span, Spanned};

#[test]
fn test_span_creation() {
    let span = Span::new(10, 20);
    assert_eq!(span.start, 10);
    assert_eq!(span.end, 20);
}

#[test]
fn test_spanned_node() {
    let cmd = Command::Simple {
        name: "echo".to_string(),
        args: vec!["hello".to_string()],
        assignments: vec![],
        redirections: vec![],
    };
    let spanned = Spanned::new(cmd, Span::new(0, 10));
    assert_eq!(spanned.span.start, 0);
    assert_eq!(spanned.span.end, 10);
}

#[test]
fn test_source_map() {
    let source = "echo hello\necho world\n";
    let source_map = SourceMap::new(source);

    let pos = source_map.position(0);
    assert_eq!(pos.line, 1);
    assert_eq!(pos.column, 1);

    let pos = source_map.position(4);
    assert_eq!(pos.line, 1);
    assert_eq!(pos.column, 5);

    let pos = source_map.position(11);
    assert_eq!(pos.line, 2);
    assert_eq!(pos.column, 1);
}

#[test]
fn test_error_with_proper_format() {
    let source = "echo hello\nnonexistent";
    let source_map = SourceMap::new(source);
    let span = Span::new(11, 22);

    let error =
        ShexError::command_not_found("nonexistent".to_string(), span, &source_map, "test.sh");

    let error_str = error.message();
    assert!(error_str.contains("Shex:test.sh:2:1"));
    assert!(error_str.contains("ERR_COMMAND_NOT_FOUND"));
}

#[test]
fn test_error_wire_format_exact() {
    let source_map = SourceMap::new("");
    let span = Span::new(0, 3);

    let syntax = ShexError::syntax("bad token".to_string(), span, &source_map, "a.sh");
    assert_eq!(syntax.message(), "Shex:a.sh:1:1: ERR_SYNTAX: bad token");

    let undef =
        ShexError::undefined_variable("name".to_string(), Span::new(4, 9), &source_map, "b.sh");
    assert_eq!(undef.message(), "Shex:b.sh:1:5: ERR_UNDEF_VAR: name is not set");

    let not_found =
        ShexError::command_not_found("frobnicate".to_string(), span, &source_map, "c.sh");
    assert_eq!(
        not_found.message(),
        "Shex:c.sh:1:1: ERR_COMMAND_NOT_FOUND: frobnicate not found"
    );
}

#[test]
fn test_error_span_accessor() {
    let source_map = SourceMap::new("abc");
    let span = Span::new(1, 2);
    let error = ShexError::syntax("m".to_string(), span, &source_map, "f");
    assert_eq!(error.span(), span);
}

#[test]
fn test_source_map_multidigit_position() {
    let source = "0123456789012345";
    let source_map = SourceMap::new(source);
    let pos = source_map.position(12);
    assert_eq!(pos.line, 1);
    assert_eq!(pos.column, 13);
}

#[test]
fn test_span_to_positions() {
    let source = "ab\ncd";
    let source_map = SourceMap::new(source);
    let (start, end) = source_map.span_to_positions(Span::new(1, 4));
    assert_eq!((start.line, start.column), (1, 2));
    assert_eq!((end.line, end.column), (2, 2));
}
