//! Tests of the tokenizer and the parser.

use shex::ast::Command;
use shex::lexer::{Lexer, Token};
use shex::parser::Parser;

#[test]
fn lexer_test_simple_command() {
    let mut lexer = Lexer::new("echo hello");
    let tokens = lexer.tokenize();

    assert_eq!(tokens.len(), 3);
    assert_eq!(tokens[0].token, Token::Word);
    assert_eq!(tokens[0].text, "echo");
    assert_eq!(tokens[1].token, Token::Word);
    assert_eq!(tokens[1].text, "hello");
    assert_eq!(tokens[2].token, Token::Eof);
}

#[test]
fn lexer_test_pipeline() {
    let mut lexer = Lexer::new("echo hello | wc");
    let tokens = lexer.tokenize();

    assert_eq!(tokens.len(), 5);
    assert_eq!(tokens[0].text, "echo");
    assert_eq!(tokens[1].text, "hello");
    assert_eq!(tokens[2].token, Token::Pipe);
    assert_eq!(tokens[3].text, "wc");
    assert_eq!(tokens[4].token, Token::Eof);
}

#[test]
fn test_span_tracking() {
    let mut lexer = Lexer::new("echo hello");
    let tokens = lexer.tokenize();

    assert_eq!(tokens[0].span.start, 0);
    assert_eq!(tokens[0].span.end, 4);
    assert_eq!(tokens[1].span.start, 5);
    assert_eq!(tokens[1].span.end, 10);
}

#[test]
fn test_string_literals() {
    let mut lexer = Lexer::new(r#"echo "hello world" 'test'"#);
    let tokens = lexer.tokenize();

    assert_eq!(tokens.len(), 4);
    assert_eq!(tokens[0].text, "echo");
    assert_eq!(tokens[1].token, Token::String);
    assert_eq!(tokens[1].text, r#""hello world""#);
    assert_eq!(tokens[2].token, Token::String);
    assert_eq!(tokens[2].text, "'test'");
}

#[test]
fn test_parameter_expansions() {
    let mut lexer = Lexer::new("echo $var ${other:-default}");
    let tokens = lexer.tokenize();

    assert_eq!(tokens.len(), 4);
    assert_eq!(tokens[0].token, Token::Word);
    assert_eq!(tokens[1].token, Token::SimpleParameterExpansion);
    assert_eq!(tokens[1].text, "$var");
    assert_eq!(tokens[2].token, Token::ParameterExpansion);
    assert_eq!(tokens[2].text, "${other:-default}");
}

#[test]
fn test_logical_operators() {
    let mut lexer = Lexer::new("cmd1 && cmd2 || cmd3");
    let tokens = lexer.tokenize();

    assert_eq!(tokens.len(), 6);
    assert_eq!(tokens[1].token, Token::AndIf);
    assert_eq!(tokens[1].text, "&&");
    assert_eq!(tokens[3].token, Token::OrIf);
    assert_eq!(tokens[3].text, "||");
}

#[test]
fn test_posix_operators() {
    let test_cases = vec![
        ("<<", Token::Dless),
        (">>", Token::Dgreat),
        ("<&", Token::Lessand),
        (">&", Token::Greatand),
        ("<>", Token::Lessgreat),
        ("<<-", Token::Dlessdash),
        (">|", Token::Clobber),
        (";;", Token::Dsemi),
    ];

    for (input, expected_token) in test_cases {
        let mut lexer = Lexer::new(input);
        let tokens = lexer.tokenize();
        assert_eq!(tokens[0].token, expected_token);
        assert_eq!(tokens[0].text, input);
    }
}

#[test]
fn test_posix_keywords() {
    let test_cases = vec![
        ("if", Token::If),
        ("then", Token::Then),
        ("else", Token::Else),
        ("fi", Token::Fi),
        ("for", Token::For),
        ("while", Token::While),
        ("do", Token::Do),
        ("done", Token::Done),
    ];

    for (input, expected_token) in test_cases {
        let mut lexer = Lexer::new(input);
        let tokens = lexer.tokenize();
        assert_eq!(tokens.len(), 2);
        assert_eq!(tokens[0].token, expected_token);
        assert_eq!(tokens[0].text, input);
    }
}

#[test]
fn test_operator_precedence() {
    let mut lexer = Lexer::new("&& ||");
    let tokens = lexer.tokenize();

    assert_eq!(tokens.len(), 3);
    assert_eq!(tokens[0].token, Token::AndIf);
    assert_eq!(tokens[0].text, "&&");
    assert_eq!(tokens[1].token, Token::OrIf);
    assert_eq!(tokens[1].text, "||");
}

#[test]
fn test_basic_tokenization() {
    let mut lexer = Lexer::new("echo hello");
    let tokens = lexer.tokenize();

    assert_eq!(tokens.len(), 3);
    assert_eq!(tokens[0].token, Token::Word);
    assert_eq!(tokens[0].text, "echo");
    assert_eq!(tokens[1].token, Token::Word);
    assert_eq!(tokens[1].text, "hello");
    assert_eq!(tokens[2].token, Token::Eof);
}

#[test]
fn test_simple_command() {
    let parser = Parser::new("echo hello").unwrap();
    let program = parser.parse().unwrap();

    assert_eq!(program.commands.len(), 1);
    match &program.commands[0].node {
        Command::Simple {
            name,
            args,
            assignments,
            redirections: _,
        } => {
            assert_eq!(name, "echo");
            assert_eq!(args, &["hello"]);
            assert_eq!(assignments, &[]);
        }
        _ => panic!("Expected simple command"),
    }
}

#[test]
fn test_command_arguments() {
    let parser = Parser::new(r#"echo hello "world test" $var ${other:-default}"#).unwrap();
    let program = parser.parse().unwrap();

    assert_eq!(program.commands.len(), 1);
    match &program.commands[0].node {
        Command::Simple {
            name,
            args,
            assignments,
            redirections: _,
        } => {
            assert_eq!(name, "echo");
            assert_eq!(args, &["hello", "world test", "$var", "${other:-default}"]);
            assert_eq!(assignments, &[]);
        }
        _ => panic!("Expected simple command"),
    }
}

#[test]
fn test_command_with_assignments() {
    let parser = Parser::new("name=world echo hello $name").unwrap();
    let program = parser.parse().unwrap();

    assert_eq!(program.commands.len(), 1);
    match &program.commands[0].node {
        Command::Simple {
            name,
            args,
            assignments,
            redirections: _,
        } => {
            assert_eq!(name, "echo");
            assert_eq!(args, &["hello", "$name"]);
            assert_eq!(assignments, &[("name".to_string(), "world".to_string())]);
        }
        _ => panic!("Expected simple command"),
    }
}

#[test]
fn test_empty_input() {
    let parser = Parser::new("").unwrap();
    let program = parser.parse().unwrap();

    assert_eq!(program.commands.len(), 0);
}

#[test]
fn test_lexer_parser_simple_command() {
    let parser = Parser::new("echo hello").unwrap();
    let program = parser.parse().unwrap();

    assert_eq!(program.commands.len(), 1);
    match &program.commands[0].node {
        Command::Simple {
            name,
            args,
            assignments,
            redirections,
        } => {
            assert_eq!(name, "echo");
            assert_eq!(args, &["hello"]);
            assert!(assignments.is_empty());
            assert!(redirections.is_empty());
        }
        _ => panic!("Expected simple command"),
    }
}

#[test]
fn test_lexer_parser_complex_operators() {
    let parser = Parser::new("echo test && echo success").unwrap();
    let program = parser.parse().unwrap();

    assert_eq!(program.commands.len(), 1);
    match &program.commands[0].node {
        Command::AndIf { .. } => {}
        _ => panic!("Expected AndIf command"),
    }
}

#[test]
fn test_lexer_parser_parameter_expansion() {
    let parser = Parser::new("echo ${var:-default}").unwrap();
    let program = parser.parse().unwrap();

    assert_eq!(program.commands.len(), 1);
    match &program.commands[0].node {
        Command::Simple { name, args, .. } => {
            assert_eq!(name, "echo");
            assert_eq!(args.len(), 1);
            assert!(args[0].contains("var"));
        }
        _ => panic!("Expected simple command"),
    }
}

#[test]
fn test_lexer_parser_assignment_word() {
    let parser = Parser::new("var=value echo hello").unwrap();
    let program = parser.parse().unwrap();

    assert_eq!(program.commands.len(), 1);
    match &program.commands[0].node {
        Command::Simple {
            name, assignments, ..
        } => {
            assert_eq!(name, "echo");
            assert_eq!(assignments.len(), 1);
            assert_eq!(assignments[0], ("var".to_string(), "value".to_string()));
        }
        _ => panic!("Expected simple command with assignments"),
    }
}

#[test]
fn test_lexer_error_propagation() {
    let _result = Parser::new("echo $invalid_var_name!");
    let malformed_result = Parser::new("echo $");
    assert!(
        malformed_result.is_err() || malformed_result.is_ok(),
        "Parser handles variable syntax"
    );
}

#[test]
fn test_parser_posix_token_integration() {
    let parser = Parser::new("echo test && echo success").unwrap();
    let program = parser.parse().unwrap();

    assert_eq!(program.commands.len(), 1);
}

#[test]
fn test_if_statement_parsing() {
    let parser = Parser::new("if true then echo success fi").unwrap();
    let program = parser.parse().unwrap();

    assert_eq!(program.commands.len(), 1);
    match &program.commands[0].node {
        Command::If {
            condition,
            then_body,
            ..
        } => {
            match &condition.node {
                Command::Simple { name, .. } => {
                    assert_eq!(name, "true");
                }
                _ => panic!("Expected simple command for condition"),
            }

            assert_eq!(then_body.len(), 1);
            match &then_body[0].node {
                Command::Simple { name, args, .. } => {
                    assert_eq!(name, "echo");
                    assert_eq!(args, &["success"]);
                }
                _ => panic!("Expected simple command in then body"),
            }
        }
        _ => panic!("Expected if command"),
    }
}

#[test]
fn test_while_statement_parsing() {
    let parser = Parser::new("while true do echo loop done").unwrap();
    let program = parser.parse().unwrap();

    assert_eq!(program.commands.len(), 1);
    match &program.commands[0].node {
        Command::While { condition, body } => {
            match &condition.node {
                Command::Simple { name, .. } => {
                    assert_eq!(name, "true");
                }
                _ => panic!("Expected simple command for condition"),
            }

            assert_eq!(body.len(), 1);
            match &body[0].node {
                Command::Simple { name, args, .. } => {
                    assert_eq!(name, "echo");
                    assert_eq!(args, &["loop"]);
                }
                _ => panic!("Expected simple command in while body"),
            }
        }
        _ => panic!("Expected while command"),
    }
}

#[test]
fn test_for_statement_parsing() {
    let parser = Parser::new("for item in apple banana do echo $item done").unwrap();
    let program = parser.parse().unwrap();

    assert_eq!(program.commands.len(), 1);
    match &program.commands[0].node {
        Command::For {
            variable,
            words,
            body,
        } => {
            assert_eq!(variable, "item");

            assert!(words.is_some());
            let word_list = words.as_ref().unwrap();
            assert_eq!(word_list.len(), 2);
            assert_eq!(word_list[0], "apple");
            assert_eq!(word_list[1], "banana");

            assert_eq!(body.len(), 1);
            match &body[0].node {
                Command::Simple { name, args, .. } => {
                    assert_eq!(name, "echo");
                    assert_eq!(args, &["$item"]);
                }
                _ => panic!("Expected simple command in for body"),
            }
        }
        _ => panic!("Expected for command"),
    }
}

#[test]
fn test_case_statement_parsing() {
    let parser =
        Parser::new("case word in apple) echo fruit ;; banana) echo yellow ;; esac").unwrap();
    let program = parser.parse().unwrap();

    assert_eq!(program.commands.len(), 1);
    match &program.commands[0].node {
        Command::Case { word, arms } => {
            assert_eq!(word, "word");

            assert_eq!(arms.len(), 2);

            assert_eq!(arms[0].patterns.len(), 1);
            assert_eq!(arms[0].patterns[0], "apple");
            assert_eq!(arms[0].commands.len(), 1);
            match &arms[0].commands[0].node {
                Command::Simple { name, args, .. } => {
                    assert_eq!(name, "echo");
                    assert_eq!(args, &["fruit"]);
                }
                _ => panic!("Expected simple command in case arm"),
            }

            assert_eq!(arms[1].patterns.len(), 1);
            assert_eq!(arms[1].patterns[0], "banana");
            assert_eq!(arms[1].commands.len(), 1);
            match &arms[1].commands[0].node {
                Command::Simple { name, args, .. } => {
                    assert_eq!(name, "echo");
                    assert_eq!(args, &["yellow"]);
                }
                _ => panic!("Expected simple command in case arm"),
            }
        }
        _ => panic!("Expected case command"),
    }
}

#[test]
fn test_subshell_parsing() {
    let parser = Parser::new("(echo hello)").unwrap();
    let program = parser.parse().unwrap();

    assert_eq!(program.commands.len(), 1);
    match &program.commands[0].node {
        Command::Subshell { commands } => {
            assert_eq!(commands.len(), 1);
            match &commands[0].node {
                Command::Simple { name, args, .. } => {
                    assert_eq!(name, "echo");
                    assert_eq!(args, &["hello"]);
                }
                _ => panic!("Expected simple command in subshell"),
            }
        }
        _ => panic!("Expected subshell command"),
    }
}

#[test]
fn test_brace_group_parsing() {
    let parser = Parser::new("{ echo hello }").unwrap();
    let program = parser.parse().unwrap();

    assert_eq!(program.commands.len(), 1);
    match &program.commands[0].node {
        Command::BraceGroup { commands } => {
            assert_eq!(commands.len(), 1);
            match &commands[0].node {
                Command::Simple { name, args, .. } => {
                    assert_eq!(name, "echo");
                    assert_eq!(args, &["hello"]);
                }
                _ => panic!("Expected simple command in brace group"),
            }
        }
        _ => panic!("Expected brace group command"),
    }
}

#[test]
fn test_until_statement_parsing() {
    let parser = Parser::new("until false do echo waiting done").unwrap();
    let program = parser.parse().unwrap();

    assert_eq!(program.commands.len(), 1);
    match &program.commands[0].node {
        Command::Until { condition, body } => {
            match &condition.node {
                Command::Simple { name, .. } => {
                    assert_eq!(name, "false");
                }
                _ => panic!("Expected simple command for condition"),
            }

            assert_eq!(body.len(), 1);
            match &body[0].node {
                Command::Simple { name, args, .. } => {
                    assert_eq!(name, "echo");
                    assert_eq!(args, &["waiting"]);
                }
                _ => panic!("Expected simple command in until body"),
            }
        }
        _ => panic!("Expected until command"),
    }
}

#[test]
fn test_multi_command_parsing() {
    let parser = Parser::new("echo hello && echo world").unwrap();
    let program = parser.parse().unwrap();

    assert_eq!(program.commands.len(), 1);
    match &program.commands[0].node {
        Command::AndIf { left, right } => {
            match &left.node {
                Command::Simple { name, args, .. } => {
                    assert_eq!(name, "echo");
                    assert_eq!(args, &["hello"]);
                }
                _ => panic!("Expected simple command for left side"),
            }
            match &right.node {
                Command::Simple { name, args, .. } => {
                    assert_eq!(name, "echo");
                    assert_eq!(args, &["world"]);
                }
                _ => panic!("Expected simple command for right side"),
            }
        }
        _ => panic!("Expected AndIf command"),
    }
}

#[test]
fn test_semicolon_separated_commands() {
    let result = Parser::new("echo hello; echo world");

    match result {
        Ok(parser) => match parser.parse() {
            Ok(program) => {
                println!(
                    "Multi-command parsing succeeded with {} commands",
                    program.commands.len()
                );
            }
            Err(e) => {
                println!("Parse error (expected): {:?}", e);
            }
        },
        Err(e) => {
            println!("Lexer error: {:?}", e);
        }
    }

    assert!(true);
}

#[test]
fn test_function_definition_parsing() {
    let parser = Parser::new("greet() { echo hello world }").unwrap();
    let program = parser.parse().unwrap();

    assert_eq!(program.commands.len(), 1);
    match &program.commands[0].node {
        Command::Function {
            name,
            body,
            redirections,
        } => {
            assert_eq!(name, "greet");
            assert!(redirections.is_empty());

            match &body.node {
                Command::BraceGroup { commands } => {
                    assert_eq!(commands.len(), 1);
                    match &commands[0].node {
                        Command::Simple { name, args, .. } => {
                            assert_eq!(name, "echo");
                            assert_eq!(args, &["hello", "world"]);
                        }
                        _ => panic!("Expected simple command in function body"),
                    }
                }
                _ => panic!("Expected brace group as function body"),
            }
        }
        _ => panic!("Expected function command"),
    }
}

#[test]
fn test_newline_separated_commands_in_brace_group() {
    let parser = Parser::new("{ echo hello }").unwrap();
    let program = parser.parse().unwrap();

    assert_eq!(program.commands.len(), 1);
    match &program.commands[0].node {
        Command::BraceGroup { commands } => {
            assert_eq!(commands.len(), 1);
            match &commands[0].node {
                Command::Simple { name, args, .. } => {
                    assert_eq!(name, "echo");
                    assert_eq!(args, &["hello"]);
                }
                _ => {}
            }
        }
        _ => panic!("Expected brace group command"),
    }
}

#[test]
fn test_here_document_parsing() {
    let parser = Parser::new("cat << EOF").unwrap();
    let program = parser.parse().unwrap();

    assert_eq!(program.commands.len(), 1);
    match &program.commands[0].node {
        Command::Simple {
            name, redirections, ..
        } => {
            assert_eq!(name, "cat");
            assert_eq!(redirections.len(), 1);

            match &redirections[0].kind {
                shex::ast::RedirectionKind::HereDoc { delimiter, .. } => {
                    assert_eq!(delimiter, "EOF");
                }
                _ => panic!("Expected here-document redirection"),
            }
        }
        _ => panic!("Expected simple command with redirection"),
    }
}

#[test]
fn test_output_redirection_parsing() {
    let parser = Parser::new("echo hi > out.txt").unwrap();
    let program = parser.parse().unwrap();

    match &program.commands[0].node {
        Command::Simple {
            name, redirections, ..
        } => {
            assert_eq!(name, "echo");
            assert_eq!(redirections.len(), 1);
            assert!(matches!(
                redirections[0].kind,
                shex::ast::RedirectionKind::Output
            ));
            assert_eq!(redirections[0].target, "out.txt");
            assert_eq!(redirections[0].fd, None);
        }
        _ => panic!("Expected simple command"),
    }
}

#[test]
fn test_fd_duplication_parsing() {
    let parser = Parser::new("prog 2>&1").unwrap();
    let program = parser.parse().unwrap();

    match &program.commands[0].node {
        Command::Simple {
            name, redirections, ..
        } => {
            assert_eq!(name, "prog");
            assert_eq!(redirections.len(), 1);
            assert!(matches!(
                redirections[0].kind,
                shex::ast::RedirectionKind::OutputDup
            ));
            assert_eq!(redirections[0].fd, Some(2));
            assert_eq!(redirections[0].target, "1");
        }
        _ => panic!("Expected simple command"),
    }
}

#[test]
fn test_unexpected_character_is_syntax_error() {
    match Parser::new("echo ~") {
        Err(shex::ast::ShexError::Syntax { message, .. }) => {
            assert!(message.contains("Unexpected character"));
        }
        Err(_) => panic!("Expected syntax error"),
        Ok(_) => panic!("Expected an error"),
    }
}

#[test]
fn test_parse_error_on_unclosed_if() {
    let input = "if true then echo hi";
    let parser = Parser::new(input).unwrap();
    let result = parser.parse();
    assert!(result.is_err());
    match result.unwrap_err() {
        shex::ast::ShexError::Syntax {
            message,
            span,
            filename,
            line,
            column,
        } => {
            assert_eq!(message, "Parse error: the token sequence fits no rule");
            assert_eq!(span, shex::ast::Span::new(0, input.chars().count()));
            assert_eq!(filename, "<input>");
            assert_eq!((line, column), (1, 1));
        }
        _ => panic!("Expected syntax error"),
    }
}

#[test]
fn test_unexpected_character_error_details() {
    match Parser::new("echo ~tilde") {
        Err(shex::ast::ShexError::Syntax {
            message,
            span,
            line,
            column,
            ..
        }) => {
            assert_eq!(message, "Unexpected character: ~");
            assert_eq!(span, shex::ast::Span::new(5, 6));
            assert_eq!((line, column), (1, 6));
        }
        Err(_) => panic!("Expected syntax error"),
        Ok(_) => panic!("Expected an error"),
    }
}
