use monkey_core::ast::BlockStatement;
use monkey_core::ast::Expression;
use monkey_core::ast::Statement;
use monkey_core::parser::ParseError;
use monkey_core::parser::parse_program;
use monkey_core::token::Token;
use monkey_core::token::TokenKind;

fn lex(src: &str) -> Vec<Token> {
    let chars: Vec<char> = src.chars().collect();
    let mut toks = Vec::new();
    let mut i = 0;
    while i < chars.len() {
        let c = chars[i];
        match c {
            ' ' | '\t' | '\n' | '\r' => {
                i += 1;
            }
            '=' => {
                if i + 1 < chars.len() && chars[i + 1] == '=' {
                    toks.push(Token::new(TokenKind::Eq, "=="));
                    i += 2;
                } else {
                    toks.push(Token::new(TokenKind::Assign, "="));
                    i += 1;
                }
            }
            '!' => {
                if i + 1 < chars.len() && chars[i + 1] == '=' {
                    toks.push(Token::new(TokenKind::NotEq, "!="));
                    i += 2;
                } else {
                    toks.push(Token::new(TokenKind::Bang, "!"));
                    i += 1;
                }
            }
            '+' => {
                toks.push(Token::new(TokenKind::Plus, "+"));
                i += 1;
            }
            '-' => {
                toks.push(Token::new(TokenKind::Minus, "-"));
                i += 1;
            }
            '*' => {
                toks.push(Token::new(TokenKind::Asterisk, "*"));
                i += 1;
            }
            '/' => {
                toks.push(Token::new(TokenKind::Slash, "/"));
                i += 1;
            }
            '<' => {
                toks.push(Token::new(TokenKind::Lt, "<"));
                i += 1;
            }
            '>' => {
                toks.push(Token::new(TokenKind::Gt, ">"));
                i += 1;
            }
            ',' => {
                toks.push(Token::new(TokenKind::Comma, ","));
                i += 1;
            }
            ';' => {
                toks.push(Token::new(TokenKind::Semicolon, ";"));
                i += 1;
            }
            '(' => {
                toks.push(Token::new(TokenKind::LParen, "("));
                i += 1;
            }
            ')' => {
                toks.push(Token::new(TokenKind::RParen, ")"));
                i += 1;
            }
            '{' => {
                toks.push(Token::new(TokenKind::LBrace, "{"));
                i += 1;
            }
            '}' => {
                toks.push(Token::new(TokenKind::RBrace, "}"));
                i += 1;
            }
            d if d.is_ascii_digit() => {
                let start = i;
                while i < chars.len() && chars[i].is_ascii_digit() {
                    i += 1;
                }
                let lit: String = chars[start..i].iter().collect();
                toks.push(Token::new(TokenKind::Int, &lit));
            }
            a if a.is_ascii_alphabetic() || a == '_' => {
                let start = i;
                while i < chars.len() && (chars[i].is_ascii_alphanumeric() || chars[i] == '_') {
                    i += 1;
                }
                let word: String = chars[start..i].iter().collect();
                let kind = match word.as_str() {
                    "fn" => TokenKind::Function,
                    "let" => TokenKind::Let,
                    "true" => TokenKind::True,
                    "false" => TokenKind::False,
                    "if" => TokenKind::If,
                    "else" => TokenKind::Else,
                    "return" => TokenKind::Return,
                    _ => TokenKind::Ident,
                };
                toks.push(Token::new(kind, &word));
            }
            other => {
                let lit: String = other.to_string();
                toks.push(Token::new(TokenKind::Illegal, &lit));
                i += 1;
            }
        }
    }
    toks.push(Token::new(TokenKind::Eof, ""));
    toks
}

#[test]
fn precedence_shapes_the_tree() {
    let prog = parse_program(&lex("1 + 2 * 3;")).expect("parse");
    let expected = Statement::new_expression(Expression::new_infix(
        "+",
        Expression::new_integer(1),
        Expression::new_infix("*", Expression::new_integer(2), Expression::new_integer(3)),
    ));
    assert_eq!(prog.statements, vec![expected]);
}

#[test]
fn grouping_shapes_the_tree() {
    let prog = parse_program(&lex("(1 + 2) * 3;")).expect("parse");
    let expected = Statement::new_expression(Expression::new_infix(
        "*",
        Expression::new_infix("+", Expression::new_integer(1), Expression::new_integer(2)),
        Expression::new_integer(3),
    ));
    assert_eq!(prog.statements, vec![expected]);
}

#[test]
fn same_precedence_groups_left() {
    let prog = parse_program(&lex("10 - 2 - 3;")).expect("parse");
    let expected = Statement::new_expression(Expression::new_infix(
        "-",
        Expression::new_infix("-", Expression::new_integer(10), Expression::new_integer(2)),
        Expression::new_integer(3),
    ));
    assert_eq!(prog.statements, vec![expected]);
}

#[test]
fn let_statement_parses() {
    let prog = parse_program(&lex("let answer = 42;")).expect("parse");
    let expected = Statement::new_let("answer", Expression::new_integer(42));
    assert_eq!(prog.statements, vec![expected]);
}

#[test]
fn return_statement_parses() {
    let prog = parse_program(&lex("return 2 < 3;")).expect("parse");
    let expected = Statement::new_return(Expression::new_infix(
        "<",
        Expression::new_integer(2),
        Expression::new_integer(3),
    ));
    assert_eq!(prog.statements, vec![expected]);
}

#[test]
fn if_else_parses() {
    let prog = parse_program(&lex("if (x < y) { x; } else { y; }")).expect("parse");
    let expected = Statement::new_expression(Expression::new_if(
        Expression::new_infix("<", Expression::new_identifier("x"), Expression::new_identifier("y")),
        BlockStatement::new(vec![Statement::new_expression(Expression::new_identifier("x"))]),
        Some(BlockStatement::new(vec![Statement::new_expression(Expression::new_identifier("y"))])),
    ));
    assert_eq!(prog.statements, vec![expected]);
}

#[test]
fn function_literal_and_call_parse() {
    let prog = parse_program(&lex("add(fn(x, y) { x + y; }, 1);")).expect("parse");
    let f = Expression::new_function_literal(
        vec!["x".to_string(), "y".to_string()],
        BlockStatement::new(vec![Statement::new_expression(Expression::new_infix(
            "+",
            Expression::new_identifier("x"),
            Expression::new_identifier("y"),
        ))]),
    );
    let expected = Statement::new_expression(Expression::new_call_expression(
        Expression::new_identifier("add"),
        vec![f, Expression::new_integer(1)],
    ));
    assert_eq!(prog.statements, vec![expected]);
}

#[test]
fn prefix_operators_parse() {
    let prog = parse_program(&lex("!true; -15;")).expect("parse");
    assert_eq!(
        prog.statements,
        vec![
            Statement::new_expression(Expression::new_prefix("!", Expression::new_boolean(true))),
            Statement::new_expression(Expression::new_prefix("-", Expression::new_integer(15))),
        ]
    );
}

#[test]
fn two_independent_faults_give_two_diagnostics() {
    let errs = parse_program(&lex("let x 5; let = 10;")).expect_err("must fail");
    assert_eq!(
        errs,
        vec![
            ParseError::UnexpectedToken { expected: TokenKind::Assign, found: TokenKind::Int },
            ParseError::UnexpectedToken { expected: TokenKind::Ident, found: TokenKind::Assign },
        ]
    );
}

#[test]
fn faults_mean_no_tree_at_all() {
    assert!(parse_program(&lex("let x 5; 1 + 2;")).is_err());
}

#[test]
fn integer_literal_out_of_range_is_a_fault() {
    let errs = parse_program(&lex("92233720368547758089;")).expect_err("must fail");
    assert_eq!(
        errs,
        vec![ParseError::InvalidInteger { literal: "92233720368547758089".to_string() }]
    );
}

#[test]
fn largest_integer_literal_parses() {
    let prog = parse_program(&lex("9223372036854775807;")).expect("parse");
    let expected = Statement::new_expression(Expression::new_integer(9223372036854775807));
    assert_eq!(prog.statements, vec![expected]);
}

#[test]
fn token_without_prefix_rule_is_a_fault() {
    let errs = parse_program(&lex("+;")).expect_err("must fail");
    assert_eq!(errs, vec![ParseError::NoPrefixRule { found: TokenKind::Plus }]);
}

#[test]
fn missing_closing_parenthesis_is_a_fault() {
    let errs = parse_program(&lex("(1 + 2;")).expect_err("must fail");
    assert_eq!(
        errs,
        vec![ParseError::UnexpectedToken {
            expected: TokenKind::RParen,
            found: TokenKind::Semicolon,
        }]
    );
}

#[test]
fn empty_parameter_list_parses() {
    let prog = parse_program(&lex("fn() { 1; };")).expect("parse");
    let expected = Statement::new_expression(Expression::new_function_literal(
        vec![],
        BlockStatement::new(vec![Statement::new_expression(Expression::new_integer(1))]),
    ));
    assert_eq!(prog.statements, vec![expected]);
}

#[test]
fn call_binds_tighter_than_arithmetic() {
    let prog = parse_program(&lex("1 + f(2);")).expect("parse");
    let expected = Statement::new_expression(Expression::new_infix(
        "+",
        Expression::new_integer(1),
        Expression::new_call_expression(
            Expression::new_identifier("f"),
            vec![Expression::new_integer(2)],
        ),
    ));
    assert_eq!(prog.statements, vec![expected]);
}
