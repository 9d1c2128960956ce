//! Tests of quote removal, assignment words, and expansion-request parsing.

use shex::ast::Span;
use shex::lexer::{SpannedToken, Token};
use shex::string_utils::{
    combine_args, extract_arguments, extract_assignments, find_any, is_valid_variable_name,
    parse_assignment, parse_parameter_expansion, parse_simple_parameter_expansion, remove_quotes,
    token_to_string,
};
use shex::variable_resolver::ExpansionMode;

fn make_token(token: Token, text: &str) -> SpannedToken {
    SpannedToken {
        token,
        span: Span::dummy(),
        text: text.to_string(),
    }
}

#[test]
fn test_remove_quotes() {
    assert_eq!(remove_quotes("\"hello world\""), "hello world");
    assert_eq!(remove_quotes("'hello world'"), "hello world");
    assert_eq!(remove_quotes("hello"), "hello");
    assert_eq!(remove_quotes("\"hello"), "\"hello");
    assert_eq!(remove_quotes(""), "");
}

#[test]
fn test_token_to_string() {
    let string_token = make_token(Token::String, "\"hello world\"");
    assert_eq!(token_to_string(&string_token), "hello world");

    let word_token = make_token(Token::Word, "hello");
    assert_eq!(token_to_string(&word_token), "hello");
}

#[test]
fn test_parse_assignment() {
    assert_eq!(
        parse_assignment("var=value"),
        Some(("var".to_string(), "value".to_string()))
    );
    assert_eq!(
        parse_assignment("_var=value"),
        Some(("_var".to_string(), "value".to_string()))
    );
    assert_eq!(
        parse_assignment("var123=value"),
        Some(("var123".to_string(), "value".to_string()))
    );
    assert_eq!(
        parse_assignment("PATH=/usr/bin"),
        Some(("PATH".to_string(), "/usr/bin".to_string()))
    );
    assert_eq!(
        parse_assignment("empty="),
        Some(("empty".to_string(), String::new()))
    );

    assert_eq!(parse_assignment("123var=value"), None);
    assert_eq!(parse_assignment("-var=value"), None);
    assert_eq!(parse_assignment("var"), None);
    assert_eq!(parse_assignment("=value"), None);
}

#[test]
fn test_is_valid_variable_name() {
    assert!(is_valid_variable_name("var"));
    assert!(is_valid_variable_name("_var"));
    assert!(is_valid_variable_name("var123"));
    assert!(is_valid_variable_name("PATH"));
    assert!(is_valid_variable_name("_"));

    assert!(!is_valid_variable_name("123var"));
    assert!(!is_valid_variable_name("-var"));
    assert!(!is_valid_variable_name("var-name"));
    assert!(!is_valid_variable_name(""));
    assert!(!is_valid_variable_name("var.name"));
}

#[test]
fn test_extract_assignments() {
    let tokens = vec![
        make_token(Token::AssignmentWord, "var1=value1"),
        make_token(Token::Word, "echo"),
        make_token(Token::AssignmentWord, "var2=value2"),
        make_token(Token::String, "\"hello\""),
    ];

    let assignments = extract_assignments(&tokens);
    assert_eq!(assignments.len(), 2);
    assert_eq!(assignments[0], ("var1".to_string(), "value1".to_string()));
    assert_eq!(assignments[1], ("var2".to_string(), "value2".to_string()));
}

#[test]
fn test_extract_arguments() {
    let tokens = vec![
        make_token(Token::AssignmentWord, "var=value"),
        make_token(Token::Word, "echo"),
        make_token(Token::String, "\"hello world\""),
        make_token(Token::Word, "test"),
    ];

    let args = extract_arguments(&tokens);
    assert_eq!(args.len(), 3);
    assert_eq!(args[0], "echo");
    assert_eq!(args[1], "hello world");
    assert_eq!(args[2], "test");
}

#[test]
fn test_combine_args() {
    let prefix = vec![
        make_token(Token::AssignmentWord, "var=value"),
        make_token(Token::Word, "arg1"),
    ];
    let suffix = vec![
        make_token(Token::Word, "arg2"),
        make_token(Token::String, "\"arg 3\""),
    ];

    let combined = combine_args(&prefix, &suffix);
    assert_eq!(combined.len(), 3);
    assert_eq!(combined[0], "arg1");
    assert_eq!(combined[1], "arg2");
    assert_eq!(combined[2], "arg 3");
}

#[test]
fn test_parse_simple_parameter_expansion() {
    let request = parse_simple_parameter_expansion("$var").unwrap();
    assert_eq!(request.variable_name, "var");
    assert_eq!(request.mode, ExpansionMode::Normal);

    assert!(parse_simple_parameter_expansion("$123").is_none());
    assert!(parse_simple_parameter_expansion("$").is_none());
}

#[test]
fn test_parse_parameter_expansion_default_value() {
    let request = parse_parameter_expansion("${var:-default}").unwrap();
    assert_eq!(request.variable_name, "var");
    assert_eq!(request.mode, ExpansionMode::DefaultValue);
    assert_eq!(request.parameter, Some("default".to_string()));
    assert!(request.check_unset);

    let request = parse_parameter_expansion("${var-default}").unwrap();
    assert!(!request.check_unset);
}

#[test]
fn test_parse_parameter_expansion_assign_default() {
    let request = parse_parameter_expansion("${var:=default}").unwrap();
    assert_eq!(request.variable_name, "var");
    assert_eq!(request.mode, ExpansionMode::AssignDefault);
    assert_eq!(request.parameter, Some("default".to_string()));
    assert!(request.check_unset);
}

#[test]
fn test_parse_parameter_expansion_error_if_unset() {
    let request = parse_parameter_expansion("${var:?message}").unwrap();
    assert_eq!(request.variable_name, "var");
    assert_eq!(request.mode, ExpansionMode::ErrorIfUnset);
    assert_eq!(request.parameter, Some("message".to_string()));
    assert!(request.check_unset);
}

#[test]
fn test_parse_parameter_expansion_alternative_value() {
    let request = parse_parameter_expansion("${var:+alternative}").unwrap();
    assert_eq!(request.variable_name, "var");
    assert_eq!(request.mode, ExpansionMode::AlternativeValue);
    assert_eq!(request.parameter, Some("alternative".to_string()));
    assert!(request.check_unset);
}

#[test]
fn test_find_any() {
    assert_eq!(find_any("hello-world", &['-', '+']), Some(5));
    assert_eq!(find_any("hello+world", &['-', '+']), Some(5));
    assert_eq!(find_any("hello=world", &['-', '+', '=']), Some(5));
    assert_eq!(find_any("helloworld", &['-', '+']), None);
}

#[test]
fn test_parse_parameter_expansion_plain_braced() {
    let request = parse_parameter_expansion("${var}").unwrap();
    assert_eq!(request.variable_name, "var");
    assert_eq!(request.mode, ExpansionMode::Normal);
    assert_eq!(request.parameter, None);
    assert!(!request.check_unset);
}

#[test]
fn test_parse_parameter_expansion_rejects_malformed() {
    assert!(parse_parameter_expansion("${}").is_none());
    assert!(parse_parameter_expansion("${1x}").is_none());
    assert!(parse_parameter_expansion("$var").is_none());
    assert!(parse_parameter_expansion("${var:%odd}").is_none());
    assert!(parse_parameter_expansion("literal").is_none());
}

#[test]
fn test_parse_parameter_expansion_empty_defaults() {
    let request = parse_parameter_expansion("${var:-}").unwrap();
    assert_eq!(request.mode, ExpansionMode::DefaultValue);
    assert_eq!(request.parameter, Some(String::new()));

    let request = parse_parameter_expansion("${var:?}").unwrap();
    assert_eq!(request.mode, ExpansionMode::ErrorIfUnset);
    assert_eq!(request.parameter, None);

    let request = parse_parameter_expansion("${var?}").unwrap();
    assert_eq!(request.mode, ExpansionMode::ErrorIfUnset);
    assert_eq!(request.parameter, None);
    assert!(!request.check_unset);
}
