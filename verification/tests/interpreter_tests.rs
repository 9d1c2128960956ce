//! Tests of the evaluator: built-ins, expansion, and control flow.

use shex::ast::{CaseArm, Command, Program, ShexError, Span, Spanned};
use shex::interpreter::Interpreter;

fn make_simple_command(name: &str, args: Vec<&str>) -> Spanned<Command> {
    Spanned::new(
        Command::Simple {
            name: name.to_string(),
            args: args
                .into_iter()
                .map(std::string::ToString::to_string)
                .collect(),
            assignments: vec![],
            redirections: vec![],
        },
        Span::dummy(),
    )
}

#[test]
fn test_echo_command() {
    let mut interpreter = Interpreter::new();
    let program = Program {
        commands: vec![make_simple_command("echo", vec!["hello", "world"])],
    };

    let result = interpreter.execute(program).unwrap();
    assert_eq!(result.code, 0);
    assert_eq!(result.stdout, "hello world\n");
    assert_eq!(result.stderr, "");
}

#[test]
fn test_true_command() {
    let mut interpreter = Interpreter::new();
    let program = Program {
        commands: vec![make_simple_command("true", vec![])],
    };

    let result = interpreter.execute(program).unwrap();
    assert_eq!(result.code, 0);
    assert_eq!(result.stdout, "");
}

#[test]
fn test_false_command() {
    let mut interpreter = Interpreter::new();
    let program = Program {
        commands: vec![make_simple_command("false", vec![])],
    };

    let result = interpreter.execute(program).unwrap();
    assert_eq!(result.code, 1);
    assert_eq!(result.stdout, "");
}

#[test]
fn lib_test_command_not_found() {
    let mut interpreter = Interpreter::new();
    let program = Program {
        commands: vec![make_simple_command("nonexistent_command_12345", vec![])],
    };

    let result = interpreter.execute(program);
    assert!(result.is_err());
    match result.unwrap_err() {
        ShexError::CommandNotFound { command, .. } => {
            assert_eq!(command, "nonexistent_command_12345");
        }
        _ => panic!("Expected CommandNotFound error"),
    }
}

#[test]
fn test_multiple_commands() {
    let mut interpreter = Interpreter::new();
    let program = Program {
        commands: vec![
            make_simple_command("true", vec![]),
            make_simple_command("echo", vec!["test"]),
        ],
    };

    let result = interpreter.execute(program).unwrap();
    assert_eq!(result.code, 0);
    assert_eq!(result.stdout, "test\n");
}

#[test]
fn test_variable_assignment() {
    let mut interpreter = Interpreter::new();
    let program = Program {
        commands: vec![Spanned::new(
            Command::Assignment {
                assignments: vec![("var".to_string(), "hello".to_string())],
            },
            Span::dummy(),
        )],
    };

    let result = interpreter.execute(program).unwrap();
    assert_eq!(result.code, 0);
    assert_eq!(result.stdout, "");

    assert_eq!(
        interpreter.variable_context.get("var"),
        Some(&"hello".to_string())
    );
}

#[test]
fn test_simple_parameter_expansion() {
    let mut interpreter = Interpreter::new();

    interpreter
        .variable_context
        .set("greeting".to_string(), "hello".to_string());

    let program = Program {
        commands: vec![make_simple_command("echo", vec!["$greeting"])],
    };

    let result = interpreter.execute(program).unwrap();
    assert_eq!(result.code, 0);
    assert_eq!(result.stdout, "hello\n");
}

#[test]
fn test_braced_parameter_expansion() {
    let mut interpreter = Interpreter::new();

    interpreter
        .variable_context
        .set("name".to_string(), "world".to_string());

    let program = Program {
        commands: vec![make_simple_command("echo", vec!["${name}"])],
    };

    let result = interpreter.execute(program).unwrap();
    assert_eq!(result.code, 0);
    assert_eq!(result.stdout, "world\n");
}

#[test]
fn lib_test_parameter_expansion_with_default() {
    let mut interpreter = Interpreter::new();

    let program = Program {
        commands: vec![make_simple_command(
            "echo",
            vec!["${unset_var:-default_value}"],
        )],
    };

    let result = interpreter.execute(program).unwrap();
    assert_eq!(result.code, 0);
    assert_eq!(result.stdout, "default_value\n");

    interpreter
        .variable_context
        .set("unset_var".to_string(), "actual_value".to_string());

    let program2 = Program {
        commands: vec![make_simple_command(
            "echo",
            vec!["${unset_var:-default_value}"],
        )],
    };

    let result = interpreter.execute(program2).unwrap();
    assert_eq!(result.code, 0);
    assert_eq!(result.stdout, "actual_value\n");
}

#[test]
fn lib_test_undefined_variable_error() {
    let mut interpreter = Interpreter::new();

    let program = Program {
        commands: vec![make_simple_command("echo", vec!["$undefined_var"])],
    };

    let result = interpreter.execute(program);
    assert!(result.is_err());
    match result.unwrap_err() {
        ShexError::UndefinedVariable { var, .. } => {
            assert_eq!(var, "undefined_var");
        }
        _ => panic!("Expected UndefinedVariable error"),
    }
}

#[test]
fn test_multiple_parameter_expansions() {
    let mut interpreter = Interpreter::new();

    interpreter
        .variable_context
        .set("first".to_string(), "hello".to_string());
    interpreter
        .variable_context
        .set("second".to_string(), "world".to_string());

    let program = Program {
        commands: vec![make_simple_command("echo", vec!["$first", "${second}"])],
    };

    let result = interpreter.execute(program).unwrap();
    assert_eq!(result.code, 0);
    assert_eq!(result.stdout, "hello world\n");
}

#[test]
fn lib_test_assign_default_expansion() {
    let mut interpreter = Interpreter::new();

    let program = Program {
        commands: vec![make_simple_command(
            "echo",
            vec!["${new_var:=assigned_value}"],
        )],
    };

    let result = interpreter.execute(program).unwrap();
    assert_eq!(result.code, 0);
    assert_eq!(result.stdout, "assigned_value\n");

    assert_eq!(
        interpreter.variable_context.get("new_var"),
        Some(&"assigned_value".to_string())
    );
}

#[test]
fn test_prefix_assignment_with_expansion() {
    let mut interpreter = Interpreter::new();

    let program = Program {
        commands: vec![Spanned::new(
            Command::Simple {
                name: "echo".to_string(),
                args: vec!["hello".to_string(), "$name".to_string()],
                assignments: vec![("name".to_string(), "world".to_string())],
                redirections: vec![],
            },
            Span::dummy(),
        )],
    };

    let result = interpreter.execute(program).unwrap();
    assert_eq!(result.code, 0);
    assert_eq!(result.stdout, "hello world\n");

    assert_eq!(
        interpreter.variable_context.get("name"),
        Some(&"world".to_string())
    );
}

#[test]
fn test_posix_examples_basic() {
    let mut interpreter = Interpreter::new();

    interpreter
        .variable_context
        .set("a".to_string(), "1".to_string());

    let program = Program {
        commands: vec![make_simple_command("echo", vec!["${a}", "b"])],
    };

    let result = interpreter.execute(program).unwrap();
    assert_eq!(result.code, 0);
    assert_eq!(result.stdout, "1 b\n");

    let program = Program {
        commands: vec![make_simple_command("echo", vec!["$ab"])],
    };

    let result = interpreter.execute(program);
    assert!(result.is_err());
    match result.unwrap_err() {
        ShexError::UndefinedVariable { var, .. } => {
            assert_eq!(var, "ab");
        }
        _ => panic!("Expected UndefinedVariable error"),
    }
}

#[test]
fn test_posix_examples_unset_vs_empty() {
    let mut interpreter = Interpreter::new();

    interpreter
        .variable_context
        .set("foo".to_string(), "asdf".to_string());

    let program = Program {
        commands: vec![make_simple_command("echo", vec!["${foo-bar}"])],
    };

    let result = interpreter.execute(program).unwrap();
    assert_eq!(result.code, 0);
    assert_eq!(result.stdout, "asdf\n");

    interpreter
        .variable_context
        .set("foo".to_string(), "".to_string());

    let program = Program {
        commands: vec![make_simple_command("echo", vec!["${foo-bar}"])],
    };

    let result = interpreter.execute(program).unwrap();
    assert_eq!(result.code, 0);
    assert_eq!(result.stdout, "\n");

    let program = Program {
        commands: vec![make_simple_command("echo", vec!["${unset_foo-bar}"])],
    };

    let result = interpreter.execute(program).unwrap();
    assert_eq!(result.code, 0);
    assert_eq!(result.stdout, "bar\n");
}

#[test]
fn test_posix_examples_colon_versions() {
    let mut interpreter = Interpreter::new();

    interpreter
        .variable_context
        .set("foo".to_string(), "".to_string());

    let program = Program {
        commands: vec![make_simple_command("echo", vec!["${foo:-bar}"])],
    };

    let result = interpreter.execute(program).unwrap();
    assert_eq!(result.code, 0);
    assert_eq!(result.stdout, "bar\n");

    interpreter
        .variable_context
        .set("foo".to_string(), "value".to_string());

    let program = Program {
        commands: vec![make_simple_command("echo", vec!["${foo:-bar}"])],
    };

    let result = interpreter.execute(program).unwrap();
    assert_eq!(result.code, 0);
    assert_eq!(result.stdout, "value\n");
}

#[test]
fn test_posix_examples_assign_default() {
    let mut interpreter = Interpreter::new();

    let program = Program {
        commands: vec![make_simple_command("echo", vec!["${X:=abc}"])],
    };

    let result = interpreter.execute(program).unwrap();
    assert_eq!(result.code, 0);
    assert_eq!(result.stdout, "abc\n");

    assert_eq!(
        interpreter.variable_context.get("X"),
        Some(&"abc".to_string())
    );

    let program2 = Program {
        commands: vec![make_simple_command("echo", vec!["${X:=abc}"])],
    };
    let result = interpreter.execute(program2).unwrap();
    assert_eq!(result.code, 0);
    assert_eq!(result.stdout, "abc\n");
}

#[test]
fn test_posix_examples_error_if_unset() {
    let mut interpreter = Interpreter::new();

    let program = Program {
        commands: vec![make_simple_command("echo", vec!["${posix:?}"])],
    };

    let result = interpreter.execute(program);
    assert!(result.is_err());
    match result.unwrap_err() {
        ShexError::Syntax { message, .. } => {
            assert!(message.contains("posix: parameter null or not set"));
        }
        _ => panic!("Expected Syntax error with parameter message"),
    }

    let program = Program {
        commands: vec![make_simple_command("echo", vec!["${posix:?custom error}"])],
    };

    let result = interpreter.execute(program);
    assert!(result.is_err());
    match result.unwrap_err() {
        ShexError::Syntax { message, .. } => {
            assert!(message.contains("custom error"));
        }
        _ => panic!("Expected Syntax error with custom message"),
    }
}

#[test]
fn test_posix_examples_alternative_value() {
    let mut interpreter = Interpreter::new();

    interpreter
        .variable_context
        .set("var".to_string(), "value".to_string());

    let program = Program {
        commands: vec![make_simple_command("echo", vec!["${var:+alternative}"])],
    };

    let result = interpreter.execute(program).unwrap();
    assert_eq!(result.code, 0);
    assert_eq!(result.stdout, "alternative\n");

    let program = Program {
        commands: vec![make_simple_command(
            "echo",
            vec!["${unset_var:+alternative}"],
        )],
    };

    let result = interpreter.execute(program).unwrap();
    assert_eq!(result.code, 0);
    assert_eq!(result.stdout, "\n");

    interpreter
        .variable_context
        .set("empty_var".to_string(), "".to_string());

    let program = Program {
        commands: vec![make_simple_command(
            "echo",
            vec!["${empty_var:+alternative}"],
        )],
    };

    let result = interpreter.execute(program).unwrap();
    assert_eq!(result.code, 0);
    assert_eq!(result.stdout, "\n");
}

#[test]
fn test_pipeline_execution() {
    let mut interpreter = Interpreter::new();
    let program = Program {
        commands: vec![Spanned::new(
            Command::Pipeline {
                commands: vec![
                    make_simple_command("echo", vec!["hello"]),
                    make_simple_command("echo", vec!["world"]),
                ],
                redirections: vec![],
            },
            Span::dummy(),
        )],
    };

    let result = interpreter.execute(program).unwrap();
    assert_eq!(result.code, 0);
    assert_eq!(result.stdout, "world\n");
}

#[test]
fn test_and_if_success() {
    let mut interpreter = Interpreter::new();
    let program = Program {
        commands: vec![Spanned::new(
            Command::AndIf {
                left: Box::new(make_simple_command("true", vec![])),
                right: Box::new(make_simple_command("echo", vec!["success"])),
            },
            Span::dummy(),
        )],
    };

    let result = interpreter.execute(program).unwrap();
    assert_eq!(result.code, 0);
    assert_eq!(result.stdout, "success\n");
}

#[test]
fn test_and_if_failure() {
    let mut interpreter = Interpreter::new();
    let program = Program {
        commands: vec![Spanned::new(
            Command::AndIf {
                left: Box::new(make_simple_command("false", vec![])),
                right: Box::new(make_simple_command("echo", vec!["should_not_run"])),
            },
            Span::dummy(),
        )],
    };

    let result = interpreter.execute(program).unwrap();
    assert_eq!(result.code, 1);
    assert_eq!(result.stdout, "");
}

#[test]
fn test_or_if_success() {
    let mut interpreter = Interpreter::new();
    let program = Program {
        commands: vec![Spanned::new(
            Command::OrIf {
                left: Box::new(make_simple_command("true", vec![])),
                right: Box::new(make_simple_command("echo", vec!["should_not_run"])),
            },
            Span::dummy(),
        )],
    };

    let result = interpreter.execute(program).unwrap();
    assert_eq!(result.code, 0);
    assert_eq!(result.stdout, "");
}

#[test]
fn test_or_if_failure() {
    let mut interpreter = Interpreter::new();
    let program = Program {
        commands: vec![Spanned::new(
            Command::OrIf {
                left: Box::new(make_simple_command("false", vec![])),
                right: Box::new(make_simple_command("echo", vec!["fallback"])),
            },
            Span::dummy(),
        )],
    };

    let result = interpreter.execute(program).unwrap();
    assert_eq!(result.code, 0);
    assert_eq!(result.stdout, "fallback\n");
}

#[test]
fn test_sequence_execution() {
    let mut interpreter = Interpreter::new();
    let program = Program {
        commands: vec![Spanned::new(
            Command::Sequence {
                commands: vec![
                    make_simple_command("echo", vec!["first"]),
                    make_simple_command("echo", vec!["second"]),
                    make_simple_command("echo", vec!["third"]),
                ],
            },
            Span::dummy(),
        )],
    };

    let result = interpreter.execute(program).unwrap();
    assert_eq!(result.code, 0);
    assert_eq!(result.stdout, "third\n");
}

#[test]
fn test_sequence_with_failure() {
    let mut interpreter = Interpreter::new();
    let program = Program {
        commands: vec![Spanned::new(
            Command::Sequence {
                commands: vec![
                    make_simple_command("echo", vec!["first"]),
                    make_simple_command("false", vec![]),
                    make_simple_command("echo", vec!["third"]),
                ],
            },
            Span::dummy(),
        )],
    };

    let result = interpreter.execute(program).unwrap();
    assert_eq!(result.code, 0);
    assert_eq!(result.stdout, "third\n");
}

#[test]
fn test_background_execution() {
    let mut interpreter = Interpreter::new();
    let program = Program {
        commands: vec![Spanned::new(
            Command::Background {
                command: Box::new(make_simple_command("echo", vec!["background"])),
            },
            Span::dummy(),
        )],
    };

    let result = interpreter.execute(program).unwrap();
    assert_eq!(result.code, 0);
    assert_eq!(result.stdout, "");
}

#[test]
fn lib_test_complex_command_combination() {
    let mut interpreter = Interpreter::new();

    let program = Program {
        commands: vec![Spanned::new(
            Command::OrIf {
                left: Box::new(Spanned::new(
                    Command::AndIf {
                        left: Box::new(make_simple_command("true", vec![])),
                        right: Box::new(make_simple_command("echo", vec!["success"])),
                    },
                    Span::dummy(),
                )),
                right: Box::new(make_simple_command("echo", vec!["fallback"])),
            },
            Span::dummy(),
        )],
    };

    let result = interpreter.execute(program).unwrap();
    assert_eq!(result.code, 0);
    assert_eq!(result.stdout, "success\n");
}

#[test]
fn test_nested_command_with_variables() {
    let mut interpreter = Interpreter::new();

    let program = Program {
        commands: vec![Spanned::new(
            Command::AndIf {
                left: Box::new(Spanned::new(
                    Command::Simple {
                        name: "echo".to_string(),
                        args: vec!["$var".to_string()],
                        assignments: vec![("var".to_string(), "hello".to_string())],
                        redirections: vec![],
                    },
                    Span::dummy(),
                )),
                right: Box::new(make_simple_command("echo", vec!["world"])),
            },
            Span::dummy(),
        )],
    };

    let result = interpreter.execute(program).unwrap();
    assert_eq!(result.code, 0);
    assert_eq!(result.stdout, "world\n");
}

#[test]
fn test_if_statement_true_condition() {
    let mut interpreter = Interpreter::new();

    let program = Program {
        commands: vec![Spanned::new(
            Command::If {
                condition: Box::new(make_simple_command("true", vec![])),
                then_body: vec![make_simple_command("echo", vec!["success"])],
                elif_clauses: vec![],
                else_body: None,
            },
            Span::dummy(),
        )],
    };

    let result = interpreter.execute(program).unwrap();
    assert_eq!(result.code, 0);
    assert_eq!(result.stdout, "success\n");
}

#[test]
fn test_if_statement_false_condition() {
    let mut interpreter = Interpreter::new();

    let program = Program {
        commands: vec![Spanned::new(
            Command::If {
                condition: Box::new(make_simple_command("false", vec![])),
                then_body: vec![make_simple_command("echo", vec!["fail"])],
                elif_clauses: vec![],
                else_body: None,
            },
            Span::dummy(),
        )],
    };

    let result = interpreter.execute(program).unwrap();
    assert_eq!(result.code, 0);
    assert_eq!(result.stdout, "");
}

#[test]
fn test_if_else_statement() {
    let mut interpreter = Interpreter::new();

    let program = Program {
        commands: vec![Spanned::new(
            Command::If {
                condition: Box::new(make_simple_command("false", vec![])),
                then_body: vec![make_simple_command("echo", vec!["fail"])],
                elif_clauses: vec![],
                else_body: Some(vec![make_simple_command("echo", vec!["success"])]),
            },
            Span::dummy(),
        )],
    };

    let result = interpreter.execute(program).unwrap();
    assert_eq!(result.code, 0);
    assert_eq!(result.stdout, "success\n");
}

#[test]
fn test_while_loop() {
    let mut interpreter = Interpreter::new();

    interpreter
        .variable_context
        .set("count".to_string(), "0".to_string());

    let program = Program {
        commands: vec![Spanned::new(
            Command::While {
                condition: Box::new(make_simple_command("false", vec![])),
                body: vec![make_simple_command("echo", vec!["never"])],
            },
            Span::dummy(),
        )],
    };

    let result = interpreter.execute(program).unwrap();
    assert_eq!(result.code, 0);
    assert_eq!(result.stdout, "");
}

#[test]
fn test_for_loop_with_words() {
    let mut interpreter = Interpreter::new();

    let program = Program {
        commands: vec![Spanned::new(
            Command::For {
                variable: "item".to_string(),
                words: Some(vec![
                    "apple".to_string(),
                    "banana".to_string(),
                    "cherry".to_string(),
                ]),
                body: vec![make_simple_command("echo", vec!["$item"])],
            },
            Span::dummy(),
        )],
    };

    let result = interpreter.execute(program).unwrap();
    assert_eq!(result.code, 0);
    assert_eq!(result.stdout, "cherry\n");
}

#[test]
fn test_for_loop_empty_list() {
    let mut interpreter = Interpreter::new();

    let program = Program {
        commands: vec![Spanned::new(
            Command::For {
                variable: "item".to_string(),
                words: Some(vec![]),
                body: vec![make_simple_command("echo", vec!["never"])],
            },
            Span::dummy(),
        )],
    };

    let result = interpreter.execute(program).unwrap();
    assert_eq!(result.code, 0);
    assert_eq!(result.stdout, "");
}

#[test]
fn test_case_statement_match() {
    let mut interpreter = Interpreter::new();

    let program = Program {
        commands: vec![Spanned::new(
            Command::Case {
                word: "apple".to_string(),
                arms: vec![
                    CaseArm {
                        patterns: vec!["apple".to_string()],
                        commands: vec![make_simple_command("echo", vec!["fruit"])],
                    },
                    CaseArm {
                        patterns: vec!["*".to_string()],
                        commands: vec![make_simple_command("echo", vec!["other"])],
                    },
                ],
            },
            Span::dummy(),
        )],
    };

    let result = interpreter.execute(program).unwrap();
    assert_eq!(result.code, 0);
    assert_eq!(result.stdout, "fruit\n");
}

#[test]
fn test_case_statement_no_match() {
    let mut interpreter = Interpreter::new();

    let program = Program {
        commands: vec![Spanned::new(
            Command::Case {
                word: "banana".to_string(),
                arms: vec![CaseArm {
                    patterns: vec!["apple".to_string()],
                    commands: vec![make_simple_command("echo", vec!["fruit"])],
                }],
            },
            Span::dummy(),
        )],
    };

    let result = interpreter.execute(program).unwrap();
    assert_eq!(result.code, 0);
    assert_eq!(result.stdout, "");
}

#[test]
fn test_case_statement_multiple_patterns() {
    let mut interpreter = Interpreter::new();

    let program = Program {
        commands: vec![Spanned::new(
            Command::Case {
                word: "banana".to_string(),
                arms: vec![CaseArm {
                    patterns: vec![
                        "apple".to_string(),
                        "banana".to_string(),
                        "cherry".to_string(),
                    ],
                    commands: vec![make_simple_command("echo", vec!["fruit"])],
                }],
            },
            Span::dummy(),
        )],
    };

    let result = interpreter.execute(program).unwrap();
    assert_eq!(result.code, 0);
    assert_eq!(result.stdout, "fruit\n");
}

#[test]
fn test_subshell_execution() {
    let mut interpreter = Interpreter::new();

    let program = Program {
        commands: vec![Spanned::new(
            Command::Subshell {
                commands: vec![make_simple_command("echo", vec!["in subshell"])],
            },
            Span::dummy(),
        )],
    };

    let result = interpreter.execute(program).unwrap();
    assert_eq!(result.code, 0);
    assert_eq!(result.stdout, "in subshell\n");
}

#[test]
fn test_brace_group_execution() {
    let mut interpreter = Interpreter::new();

    let program = Program {
        commands: vec![Spanned::new(
            Command::BraceGroup {
                commands: vec![make_simple_command("echo", vec!["in brace group"])],
            },
            Span::dummy(),
        )],
    };

    let result = interpreter.execute(program).unwrap();
    assert_eq!(result.code, 0);
    assert_eq!(result.stdout, "in brace group\n");
}

#[test]
fn test_nested_compound_commands() {
    let mut interpreter = Interpreter::new();

    let program = Program {
        commands: vec![Spanned::new(
            Command::If {
                condition: Box::new(make_simple_command("true", vec![])),
                then_body: vec![Spanned::new(
                    Command::BraceGroup {
                        commands: vec![make_simple_command("echo", vec!["nested"])],
                    },
                    Span::dummy(),
                )],
                elif_clauses: vec![],
                else_body: None,
            },
            Span::dummy(),
        )],
    };

    let result = interpreter.execute(program).unwrap();
    assert_eq!(result.code, 0);
    assert_eq!(result.stdout, "nested\n");
}

#[test]
fn test_subshell_scope_isolation() {
    let mut interpreter = Interpreter::new();
    interpreter
        .variable_context
        .set("outer".to_string(), "before".to_string());

    let program = Program {
        commands: vec![Spanned::new(
            Command::Subshell {
                commands: vec![Spanned::new(
                    Command::Assignment {
                        assignments: vec![("outer".to_string(), "inside".to_string())],
                    },
                    Span::dummy(),
                )],
            },
            Span::dummy(),
        )],
    };

    let result = interpreter.execute(program).unwrap();
    assert_eq!(result.code, 0);
    assert_eq!(
        interpreter.variable_context.get("outer"),
        Some(&"before".to_string())
    );
}

#[test]
fn test_brace_group_scope_persists() {
    let mut interpreter = Interpreter::new();

    let program = Program {
        commands: vec![Spanned::new(
            Command::BraceGroup {
                commands: vec![Spanned::new(
                    Command::Assignment {
                        assignments: vec![("inner".to_string(), "kept".to_string())],
                    },
                    Span::dummy(),
                )],
            },
            Span::dummy(),
        )],
    };

    let result = interpreter.execute(program).unwrap();
    assert_eq!(result.code, 0);
    assert_eq!(
        interpreter.variable_context.get("inner"),
        Some(&"kept".to_string())
    );
}

#[test]
fn test_for_loop_variable_persists() {
    let mut interpreter = Interpreter::new();

    let program = Program {
        commands: vec![Spanned::new(
            Command::For {
                variable: "item".to_string(),
                words: Some(vec!["one".to_string(), "two".to_string()]),
                body: vec![make_simple_command("true", vec![])],
            },
            Span::dummy(),
        )],
    };

    let result = interpreter.execute(program).unwrap();
    assert_eq!(result.code, 0);
    assert_eq!(
        interpreter.variable_context.get("item"),
        Some(&"two".to_string())
    );
}

#[test]
fn test_function_definition_is_noop() {
    let mut interpreter = Interpreter::new();

    let program = Program {
        commands: vec![Spanned::new(
            Command::Function {
                name: "greet".to_string(),
                body: Box::new(make_simple_command("echo", vec!["hello"])),
                redirections: vec![],
            },
            Span::dummy(),
        )],
    };

    let result = interpreter.execute(program).unwrap();
    assert_eq!(result.code, 0);
    assert_eq!(result.stdout, "");
}

#[test]
fn test_errexit_stops_after_failure() {
    let mut interpreter = Interpreter::new();
    let program = Program {
        commands: vec![
            make_simple_command("false", vec![]),
            make_simple_command("echo", vec!["unreachable"]),
        ],
    };

    let result = interpreter.execute(program).unwrap();
    assert_eq!(result.code, 1);
    assert_eq!(result.stdout, "");
    assert_eq!(interpreter.exit_code(), 1);
}

#[test]
fn test_until_loop_stops_immediately() {
    let mut interpreter = Interpreter::new();

    let program = Program {
        commands: vec![Spanned::new(
            Command::Until {
                condition: Box::new(make_simple_command("true", vec![])),
                body: vec![make_simple_command("echo", vec!["never"])],
            },
            Span::dummy(),
        )],
    };

    let result = interpreter.execute(program).unwrap();
    assert_eq!(result.code, 0);
    assert_eq!(result.stdout, "");
}

#[test]
fn test_empty_program_is_success() {
    let mut interpreter = Interpreter::new();
    let result = interpreter.execute(Program { commands: vec![] }).unwrap();
    assert_eq!(result.code, 0);
    assert_eq!(result.stdout, "");
    assert_eq!(result.stderr, "");
}
