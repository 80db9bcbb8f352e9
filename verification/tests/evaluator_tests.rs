use monkey_core::environment::Environment;
use monkey_core::evaluator::eval_program;
use monkey_core::object::Object;
use monkey_core::object::RuntimeError;
use monkey_core::object::TypeName;
use monkey_core::parser::parse_program;
use monkey_core::ast::Program;
use monkey_core::token::Token;
use monkey_core::token::TokenKind;

fn lex(src: &str) -> Vec<Token> {
    let chars: Vec<char> = src.chars().collect();
    let mut toks = Vec::new();
    let mut i = 0;
    while i < chars.len() {
        let c = chars[i];
        match c {
            ' ' | '\t' | '\n' | '\r' => {
                i += 1;
            }
            '=' => {
                if i + 1 < chars.len() && chars[i + 1] == '=' {
                    toks.push(Token::new(TokenKind::Eq, "=="));
                    i += 2;
                } else {
                    toks.push(Token::new(TokenKind::Assign, "="));
                    i += 1;
                }
            }
            '!' => {
                if i + 1 < chars.len() && chars[i + 1] == '=' {
                    toks.push(Token::new(TokenKind::NotEq, "!="));
                    i += 2;
                } else {
                    toks.push(Token::new(TokenKind::Bang, "!"));
                    i += 1;
                }
            }
            '+' => {
                toks.push(Token::new(TokenKind::Plus, "+"));
                i += 1;
            }
            '-' => {
                toks.push(Token::new(TokenKind::Minus, "-"));
                i += 1;
            }
            '*' => {
                toks.push(Token::new(TokenKind::Asterisk, "*"));
                i += 1;
            }
            '/' => {
                toks.push(Token::new(TokenKind::Slash, "/"));
                i += 1;
            }
            '<' => {
                toks.push(Token::new(TokenKind::Lt, "<"));
                i += 1;
            }
            '>' => {
                toks.push(Token::new(TokenKind::Gt, ">"));
                i += 1;
            }
            ',' => {
                toks.push(Token::new(TokenKind::Comma, ","));
                i += 1;
            }
            ';' => {
                toks.push(Token::new(TokenKind::Semicolon, ";"));
                i += 1;
            }
            '(' => {
                toks.push(Token::new(TokenKind::LParen, "("));
                i += 1;
            }
            ')' => {
                toks.push(Token::new(TokenKind::RParen, ")"));
                i += 1;
            }
            '{' => {
                toks.push(Token::new(TokenKind::LBrace, "{"));
                i += 1;
            }
            '}' => {
                toks.push(Token::new(TokenKind::RBrace, "}"));
                i += 1;
            }
            d if d.is_ascii_digit() => {
                let start = i;
                while i < chars.len() && chars[i].is_ascii_digit() {
                    i += 1;
                }
                let lit: String = chars[start..i].iter().collect();
                toks.push(Token::new(TokenKind::Int, &lit));
            }
            a if a.is_ascii_alphabetic() || a == '_' => {
                let start = i;
                while i < chars.len() && (chars[i].is_ascii_alphanumeric() || chars[i] == '_') {
                    i += 1;
                }
                let word: String = chars[start..i].iter().collect();
                let kind = match word.as_str() {
                    "fn" => TokenKind::Function,
                    "let" => TokenKind::Let,
                    "true" => TokenKind::True,
                    "false" => TokenKind::False,
                    "if" => TokenKind::If,
                    "else" => TokenKind::Else,
                    "return" => TokenKind::Return,
                    _ => TokenKind::Ident,
                };
                toks.push(Token::new(kind, &word));
            }
            other => {
                let lit: String = other.to_string();
                toks.push(Token::new(TokenKind::Illegal, &lit));
                i += 1;
            }
        }
    }
    toks.push(Token::new(TokenKind::Eof, ""));
    toks
}

fn parse(src: &str) -> Program {
    match parse_program(&lex(src)) {
        Ok(p) => p,
        Err(es) => panic!("parse failed: {:?}", es),
    }
}

fn run(src: &str) -> Result<Object, RuntimeError> {
    let prog = parse(src);
    let mut env = Environment::new();
    eval_program(&prog, 0, &mut env, 1000)
}

#[test]
fn precedence_product_binds_tighter_than_sum() {
    assert_eq!(run("1 + 2 * 3;"), Ok(Object::Integer(7)));
}

#[test]
fn precedence_grouping_overrides() {
    assert_eq!(run("(1 + 2) * 3;"), Ok(Object::Integer(9)));
}

#[test]
fn precedence_relational_binds_tighter_than_equality() {
    assert_eq!(run("1 < 2 == true;"), Ok(Object::Boolean(true)));
}

#[test]
fn closures_capture_their_scope() {
    let src = "let newAdder = fn(x) { fn(y) { x + y }; }; let addTwo = newAdder(2); addTwo(3);";
    assert_eq!(run(src), Ok(Object::Integer(5)));
}

#[test]
fn shadowing_leaves_outer_binding_alone() {
    let src = "let x = 5; let f = fn() { let x = 9; x; }; f(); x;";
    assert_eq!(run(src), Ok(Object::Integer(5)));
}

#[test]
fn shadowed_binding_is_seen_inside() {
    let src = "let x = 5; let f = fn() { let x = 9; x; }; f();";
    assert_eq!(run(src), Ok(Object::Integer(9)));
}

#[test]
fn return_short_circuits_a_block() {
    assert_eq!(run("if (true) { return 10; 1; }"), Ok(Object::Integer(10)));
}

#[test]
fn type_mismatch_error() {
    assert_eq!(
        run("5 + true;"),
        Err(RuntimeError::TypeMismatch {
            operator: "+".to_string(),
            left: TypeName::Integer,
            right: TypeName::Boolean,
        })
    );
}

#[test]
fn error_propagates_through_condition() {
    assert_eq!(
        run("if (5 + true) { 1; }"),
        Err(RuntimeError::TypeMismatch {
            operator: "+".to_string(),
            left: TypeName::Integer,
            right: TypeName::Boolean,
        })
    );
}

#[test]
fn environment_survives_an_error() {
    let mut env = Environment::new();
    let first = eval_program(&parse("let a = 7; 5 + true;"), 0, &mut env, 1000);
    assert!(matches!(first, Err(RuntimeError::TypeMismatch { .. })));
    let second = eval_program(&parse("a + 1;"), 0, &mut env, 1000);
    assert_eq!(second, Ok(Object::Integer(8)));
}

#[test]
fn truthiness_of_bang() {
    assert_eq!(run("!true;"), Ok(Object::Boolean(false)));
    assert_eq!(run("!false;"), Ok(Object::Boolean(true)));
    assert_eq!(run("!5;"), Ok(Object::Boolean(false)));
    assert_eq!(run("!!5;"), Ok(Object::Boolean(true)));
}

#[test]
fn prefix_minus_on_integers_only() {
    assert_eq!(run("-5;"), Ok(Object::Integer(-5)));
    assert_eq!(
        run("-true;"),
        Err(RuntimeError::UnknownPrefixOperator {
            operator: "-".to_string(),
            operand: TypeName::Boolean,
        })
    );
}

#[test]
fn division_truncates_toward_zero() {
    assert_eq!(run("5 / 2;"), Ok(Object::Integer(2)));
    assert_eq!(run("(-7) / 2;"), Ok(Object::Integer(-3)));
    assert_eq!(run("7 / (-2);"), Ok(Object::Integer(-3)));
}

#[test]
fn division_by_zero_is_an_error() {
    assert_eq!(run("1 / 0;"), Err(RuntimeError::DivisionByZero));
}

#[test]
fn addition_overflow_is_an_error() {
    assert_eq!(
        run("9223372036854775807 + 1;"),
        Err(RuntimeError::IntegerOverflow { operator: "+".to_string() })
    );
}

#[test]
fn unresolved_identifier_is_an_error() {
    assert_eq!(
        run("foobar;"),
        Err(RuntimeError::IdentifierNotFound { name: "foobar".to_string() })
    );
}

#[test]
fn calling_a_non_function_is_an_error() {
    assert_eq!(
        run("let x = 5; x(3);"),
        Err(RuntimeError::NotAFunction { callee: TypeName::Integer })
    );
}

#[test]
fn arity_mismatch_is_an_error() {
    assert_eq!(
        run("let f = fn(x) { x; }; f(1, 2);"),
        Err(RuntimeError::WrongNumberOfArguments { expected: 1, found: 2 })
    );
}

#[test]
fn unbounded_recursion_exhausts_call_depth() {
    assert_eq!(
        run("let f = fn() { f(); }; f();"),
        Err(RuntimeError::CallDepthExceeded)
    );
}

#[test]
fn booleans_compare_by_value() {
    assert_eq!(run("true == true;"), Ok(Object::Boolean(true)));
    assert_eq!(run("true != false;"), Ok(Object::Boolean(true)));
    assert_eq!(
        run("true < false;"),
        Err(RuntimeError::UnknownInfixOperator {
            operator: "<".to_string(),
            left: TypeName::Boolean,
            right: TypeName::Boolean,
        })
    );
}

#[test]
fn if_without_alternative_yields_null() {
    assert_eq!(run("if (false) { 1; }"), Ok(Object::Null));
}

#[test]
fn if_takes_the_alternative() {
    assert_eq!(run("if (1 > 2) { 1; } else { 2; }"), Ok(Object::Integer(2)));
}

#[test]
fn let_binds_and_persists() {
    assert_eq!(run("let a = 5; let b = a * 2; a + b;"), Ok(Object::Integer(15)));
}

#[test]
fn function_body_falls_through_to_last_value() {
    assert_eq!(run("let f = fn(x) { x * 2; }; f(4);"), Ok(Object::Integer(8)));
}

#[test]
fn return_unwraps_only_at_call_boundary() {
    let src = "let f = fn() { if (true) { return 3; }; 9; }; f();";
    assert_eq!(run(src), Ok(Object::Integer(3)));
}

#[test]
fn empty_program_yields_null() {
    assert_eq!(run(""), Ok(Object::Null));
}

#[test]
fn rebinding_a_name_shadows_in_the_same_scope() {
    assert_eq!(run("let x = 1; let x = x + 1; x;"), Ok(Object::Integer(2)));
}

#[test]
fn empty_consequence_block_yields_null() {
    assert_eq!(run("if (true) {}"), Ok(Object::Null));
}

#[test]
fn let_as_last_statement_yields_null() {
    assert_eq!(run("let f = fn() { let a = 1; }; f();"), Ok(Object::Null));
}

#[test]
fn closures_see_bindings_made_after_capture_in_the_same_scope() {
    let src = "let f = fn() { g(); }; let g = fn() { 4; }; f();";
    assert_eq!(run(src), Ok(Object::Integer(4)));
}

#[test]
fn function_value_from_another_environment_is_rejected() {
    let mut first = Environment::new();
    let made = eval_program(
        &parse("let mk = fn() { fn() { 1; }; }; mk();"),
        0,
        &mut first,
        1000,
    )
    .expect("make closure");
    assert!(matches!(made, Object::Function { .. }));
    let mut second = Environment::new();
    second.set(0, "alien".to_string(), made);
    assert_eq!(
        eval_program(&parse("alien();"), 0, &mut second, 1000),
        Err(RuntimeError::InvalidEnvironment)
    );
}
