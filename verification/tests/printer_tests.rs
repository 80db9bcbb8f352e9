use monkey_core::ast::BlockStatement;
use monkey_core::ast::Expression;
use monkey_core::ast::Statement;
use monkey_core::parser::parse_program;
use monkey_core::token::Token;
use monkey_core::token::TokenKind;

fn lex(src: &str) -> Vec<Token> {
    let chars: Vec<char> = src.chars().collect();
    let mut toks = Vec::new();
    let mut i = 0;
    while i < chars.len() {
        let c = chars[i];
        match c {
            ' ' | '\t' | '\n' | '\r' => {
                i += 1;
            }
            '=' => {
                if i + 1 < chars.len() && chars[i + 1] == '=' {
                    toks.push(Token::new(TokenKind::Eq, "=="));
                    i += 2;
                } else {
                    toks.push(Token::new(TokenKind::Assign, "="));
                    i += 1;
                }
            }
            '!' => {
                if i + 1 < chars.len() && chars[i + 1] == '=' {
                    toks.push(Token::new(TokenKind::NotEq, "!="));
                    i += 2;
                } else {
                    toks.push(Token::new(TokenKind::Bang, "!"));
                    i += 1;
                }
            }
            '+' => {
                toks.push(Token::new(TokenKind::Plus, "+"));
                i += 1;
            }
            '-' => {
                toks.push(Token::new(TokenKind::Minus, "-"));
                i += 1;
            }
            '*' => {
                toks.push(Token::new(TokenKind::Asterisk, "*"));
                i += 1;
            }
            '/' => {
                toks.push(Token::new(TokenKind::Slash, "/"));
                i += 1;
            }
            '<' => {
                toks.push(Token::new(TokenKind::Lt, "<"));
                i += 1;
            }
            '>' => {
                toks.push(Token::new(TokenKind::Gt, ">"));
                i += 1;
            }
            ',' => {
                toks.push(Token::new(TokenKind::Comma, ","));
                i += 1;
            }
            ';' => {
                toks.push(Token::new(TokenKind::Semicolon, ";"));
                i += 1;
            }
            '(' => {
                toks.push(Token::new(TokenKind::LParen, "("));
                i += 1;
            }
            ')' => {
                toks.push(Token::new(TokenKind::RParen, ")"));
                i += 1;
            }
            '{' => {
                toks.push(Token::new(TokenKind::LBrace, "{"));
                i += 1;
            }
            '}' => {
                toks.push(Token::new(TokenKind::RBrace, "}"));
                i += 1;
            }
            d if d.is_ascii_digit() => {
                let start = i;
                while i < chars.len() && chars[i].is_ascii_digit() {
                    i += 1;
                }
                let lit: String = chars[start..i].iter().collect();
                toks.push(Token::new(TokenKind::Int, &lit));
            }
            a if a.is_ascii_alphabetic() || a == '_' => {
                let start = i;
                while i < chars.len() && (chars[i].is_ascii_alphanumeric() || chars[i] == '_') {
                    i += 1;
                }
                let word: String = chars[start..i].iter().collect();
                let kind = match word.as_str() {
                    "fn" => TokenKind::Function,
                    "let" => TokenKind::Let,
                    "true" => TokenKind::True,
                    "false" => TokenKind::False,
                    "if" => TokenKind::If,
                    "else" => TokenKind::Else,
                    "return" => TokenKind::Return,
                    _ => TokenKind::Ident,
                };
                toks.push(Token::new(kind, &word));
            }
            other => {
                let lit: String = other.to_string();
                toks.push(Token::new(TokenKind::Illegal, &lit));
                i += 1;
            }
        }
    }
    toks.push(Token::new(TokenKind::Eof, ""));
    toks
}

#[test]
fn infix_prints_parenthesized() {
    let e = Expression::new_infix(
        "+",
        Expression::new_integer(1),
        Expression::new_infix("*", Expression::new_integer(2), Expression::new_integer(3)),
    );
    assert_eq!(e.to_text(), "(1 + (2 * 3))");
}

#[test]
fn prefix_prints_parenthesized() {
    let e = Expression::new_prefix("-", Expression::new_integer(15));
    assert_eq!(e.to_text(), "(-15)");
}

#[test]
fn negative_integer_prints_with_sign() {
    assert_eq!(Expression::new_integer(-42).to_text(), "-42");
    assert_eq!(Expression::new_integer(0).to_text(), "0");
    assert_eq!(
        Expression::new_integer(-9223372036854775808).to_text(),
        "-9223372036854775808"
    );
}

#[test]
fn let_statement_prints() {
    let s = Statement::new_let("x", Expression::new_integer(5));
    assert_eq!(s.to_text(), "let x = 5;");
}

#[test]
fn return_statement_prints() {
    let s = Statement::new_return(Expression::new_boolean(true));
    assert_eq!(s.to_text(), "return true;");
}

#[test]
fn function_literal_prints() {
    let e = Expression::new_function_literal(
        vec!["x".to_string(), "y".to_string()],
        BlockStatement::new(vec![Statement::new_expression(Expression::new_infix(
            "+",
            Expression::new_identifier("x"),
            Expression::new_identifier("y"),
        ))]),
    );
    assert_eq!(e.to_text(), "fn (x, y) { (x + y); }");
}

#[test]
fn if_else_prints() {
    let e = Expression::new_if(
        Expression::new_boolean(true),
        BlockStatement::new(vec![Statement::new_expression(Expression::new_integer(1))]),
        Some(BlockStatement::new(vec![Statement::new_expression(Expression::new_integer(2))])),
    );
    assert_eq!(e.to_text(), "if (true) { 1; } else { 2; }");
}

fn round_trips(src: &str) {
    let first = parse_program(&lex(src)).expect("first parse");
    let text = first.to_text();
    let second = parse_program(&lex(&text)).expect("second parse");
    assert_eq!(first.statements, second.statements, "round trip of {:?}", text);
}

#[test]
fn round_trip_arithmetic() {
    round_trips("1 + 2 * 3; (1 + 2) * 3; 10 - 2 - 3;");
}

#[test]
fn round_trip_let_and_return() {
    round_trips("let x = 5; return x < 10;");
}

#[test]
fn round_trip_closures() {
    round_trips("let newAdder = fn(x) { fn(y) { x + y }; }; let addTwo = newAdder(2); addTwo(3);");
}

#[test]
fn round_trip_conditionals() {
    round_trips("if (1 < 2) { 1; } else { if (true) { 2; } }; !true; -5;");
}

#[test]
fn round_trip_calls() {
    round_trips("f(); g(1); h(1, 2 + 3, fn() { 0; });");
}

#[test]
fn round_trip_is_idempotent_on_printed_text() {
    let first = parse_program(&lex("let x = 1 + 2 * 3;")).expect("parse");
    let text = first.to_text();
    let second = parse_program(&lex(&text)).expect("reparse");
    assert_eq!(second.to_text(), text);
}
