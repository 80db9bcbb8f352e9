use vstd::prelude::*;
use vstd::string::*;
use crate::ast::ExprV;
use crate::ast::Expression;
use crate::ast::Identifier;
use crate::ast::Program;
use crate::ast::Statement;
use crate::ast::StmtV;
use crate::ast::BlockStatement;
use crate::ast::block_view;
use crate::ast::exprs_view;
use crate::ast::idents_view;
use crate::ast::expr_view;
use crate::ast::stmt_view;
use crate::ast::stmts_view;
use crate::token::Token;
use crate::token::TokenKind;

verus! {

/// A syntax fault: what category was required and what stood there, a token
/// that no expression can begin with, or an integer literal out of range.
#[derive(PartialEq, Debug)]
pub enum ParseError {
    UnexpectedToken { expected: TokenKind, found: TokenKind },
    NoPrefixRule { found: TokenKind },
    InvalidInteger { literal: String },
}

pub const PREC_LOWEST: u8 = 0;

pub const PREC_EQUALS: u8 = 1;

pub const PREC_LESSGREATER: u8 = 2;

pub const PREC_SUM: u8 = 3;

pub const PREC_PRODUCT: u8 = 4;

pub const PREC_PREFIX: u8 = 5;

pub const PREC_CALL: u8 = 6;

/// The binding power of a token when it continues an expression: equality
/// binds loosest, then relational, additive, multiplicative, and a call's
/// opening parenthesis binds tightest.
pub open spec fn spec_precedence(k: TokenKind) -> u8 {
    match k {
        TokenKind::Eq => PREC_EQUALS,
        TokenKind::NotEq => PREC_EQUALS,
        TokenKind::Lt => PREC_LESSGREATER,
        TokenKind::Gt => PREC_LESSGREATER,
        TokenKind::Plus => PREC_SUM,
        TokenKind::Minus => PREC_SUM,
        TokenKind::Slash => PREC_PRODUCT,
        TokenKind::Asterisk => PREC_PRODUCT,
        TokenKind::LParen => PREC_CALL,
        _ => PREC_LOWEST,
    }
}

/// The category at `pos`, and end-of-input outside the stream.
pub open spec fn kind_at(toks: Seq<Token>, pos: int) -> TokenKind {
    if 0 <= pos < toks.len() {
        toks[pos].kind
    } else {
        TokenKind::Eof
    }
}

/// The position a sub-parse ended at, sanitized so that it always lies past
/// `pos` and within the stream; a well-behaved sub-parse is passed through.
pub open spec fn adv(toks: Seq<Token>, pos: int, p: int) -> int {
    if pos < p <= toks.len() {
        p
    } else if pos < toks.len() {
        pos + 1
    } else {
        toks.len() as int
    }
}

/// The value of the decimal digits of `s` from `i` on, accumulated onto
/// `acc`; `None` on a non-digit or when the value would pass `i64::MAX`.
pub open spec fn spec_digits(s: Seq<char>, i: int, acc: int) -> Option<int>
    decreases s.len() - i,
{
    if !(0 <= i <= s.len()) {
        None
    } else if i == s.len() {
        Some(acc)
    } else {
        let c = s[i] as u32;
        if 48 <= c <= 57 {
            let d = c - 48;
            if acc > (i64::MAX as int - d) / 10 {
                None
            } else {
                spec_digits(s, i + 1, acc * 10 + d)
            }
        } else {
            None
        }
    }
}

/// The integer an integer-literal token denotes: one or more decimal digits
/// whose value fits in an `i64`.
pub open spec fn spec_i64_from(s: Seq<char>) -> Option<i64> {
    if s.len() == 0 {
        None
    } else {
        match spec_digits(s, 0, 0) {
            Some(v) => Some(v as i64),
            None => None,
        }
    }
}

proof fn lemma_digits_extend(s: Seq<char>, c: char, i: int, acc: int)
    requires
        0 <= i <= s.len(),
    ensures
        spec_digits(s.push(c), i, acc) == (match spec_digits(s, i, acc) {
            Some(v) => {
                let d = c as u32;
                if 48 <= d <= 57 && v <= (i64::MAX as int - (d - 48)) / 10 {
                    Some(10 * v + (d - 48))
                } else {
                    None
                }
            },
            None => None,
        }),
    decreases s.len() - i,
{
    if i == s.len() {
        assert(s.push(c)[i] == c);
        let d = c as u32;
        if 48 <= d <= 57 && acc <= (i64::MAX as int - (d - 48)) / 10 {
            assert(spec_digits(s.push(c), i + 1, acc * 10 + (d - 48)) == Some(
                acc * 10 + (d - 48),
            ));
        }
    } else {
        assert(s.push(c)[i] == s[i]);
        let dc = s[i] as u32;
        if 48 <= dc <= 57 && acc <= (i64::MAX as int - (dc - 48)) / 10 {
            lemma_digits_extend(s, c, i + 1, acc * 10 + (dc - 48));
            assert(spec_digits(s.push(c), i, acc) == spec_digits(
                s.push(c),
                i + 1,
                acc * 10 + (dc - 48),
            ));
            assert(spec_digits(s, i, acc) == spec_digits(s, i + 1, acc * 10 + (dc - 48)));
        }
    }
}

proof fn lemma_dec_digits_reparse(n: int)
    requires
        0 <= n <= i64::MAX,
    ensures
        spec_digits(crate::support::dec_digits(n as nat), 0, 0) == Some(n),
    decreases n,
{
    let d = n % 10;
    assert(crate::support::digit_char(d) as u32 == 48 + d);
    if n < 10 {
        assert(crate::support::dec_digits(n as nat) =~= seq![crate::support::digit_char(n)]);
        assert(spec_digits(seq![crate::support::digit_char(n)], 1, n) == Some(n));
        assert(spec_digits(crate::support::dec_digits(n as nat), 0, 0) == Some(n));
    } else {
        lemma_dec_digits_reparse(n / 10);
        assert(n / 10 <= (i64::MAX as int - d) / 10) by (nonlinear_arith)
            requires
                n <= i64::MAX as int,
                d == n % 10,
                n >= 10,
        ;
        lemma_digits_extend(
            crate::support::dec_digits((n / 10) as nat),
            crate::support::digit_char(d),
            0,
            0,
        );
        assert(crate::support::dec_digits(n as nat) =~= crate::support::dec_digits(
            (n / 10) as nat,
        ).push(crate::support::digit_char(d)));
        assert(10 * (n / 10) + d == n);
    }
}

/// A piece of the print-then-reparse law at the token level: the decimal
/// rendering of a non-negative integer, handed back as an integer-literal
/// token, parses to the very same value.
pub proof fn lemma_integer_text_reparses(v: i64)
    requires
        v >= 0,
    ensures
        spec_i64_from(crate::support::i64_text(v)) == Some(v),
{
    lemma_dec_digits_reparse(v as int);
    if v < 10 {
        assert(crate::support::dec_digits(v as nat).len() == 1);
    } else {
        assert(crate::support::dec_digits(v as nat).len() >= 1);
    }
}

/// The position after the next semicolon at or past `pos`, or the position of
/// the end of input: where parsing resumes after a malformed statement.
pub open spec fn spec_sync(toks: Seq<Token>, pos: int) -> int
    decreases toks.len() - pos,
{
    if !(0 <= pos < toks.len()) {
        pos
    } else if toks[pos].kind == TokenKind::Semicolon {
        pos + 1
    } else if toks[pos].kind == TokenKind::Eof {
        pos
    } else {
        spec_sync(toks, pos + 1)
    }
}

/// Parse one expression from `pos` with minimum binding power `min_prec`:
/// the prefix rule for the current token yields a left operand, then every
/// following infix token that binds tighter than `min_prec` extends it.
pub open spec fn spec_parse_expression(toks: Seq<Token>, pos: int, min_prec: u8) -> (
    Result<ExprV, ParseError>,
    int,
)
    decreases toks.len() - pos, 2int,
{
    if kind_at(toks, pos) == TokenKind::Eof {
        (Err(ParseError::NoPrefixRule { found: TokenKind::Eof }), pos)
    } else {
        let (pr, p1) = spec_parse_prefix(toks, pos);
        match pr {
            Err(e) => (Err(e), p1),
            Ok(left) => spec_parse_infix_ops(toks, adv(toks, pos, p1), min_prec, left),
        }
    }
}

/// The prefix rule: integer, identifier and boolean literals, `!` and `-`
/// prefix applications, a parenthesized group, an `if`, or a function
/// literal; any other token can begin no expression.
pub open spec fn spec_parse_prefix(toks: Seq<Token>, pos: int) -> (Result<ExprV, ParseError>, int)
    decreases toks.len() - pos, 1int,
{
    match kind_at(toks, pos) {
        TokenKind::Int => {
            match spec_i64_from(toks[pos].literal@) {
                Some(v) => (Ok(ExprV::Integer(v)), pos + 1),
                None => (Err(ParseError::InvalidInteger { literal: toks[pos].literal }), pos),
            }
        },
        TokenKind::Ident => (Ok(ExprV::Ident { name: toks[pos].literal@ }), pos + 1),
        TokenKind::True => (Ok(ExprV::Boolean(true)), pos + 1),
        TokenKind::False => (Ok(ExprV::Boolean(false)), pos + 1),
        TokenKind::Bang => {
            let (rr, p1) = spec_parse_expression(toks, pos + 1, PREC_PREFIX);
            match rr {
                Ok(right) => (
                    Ok(
                        ExprV::Prefix { operator: toks[pos].literal@, right: Box::new(right) },
                    ),
                    p1,
                ),
                Err(e) => (Err(e), p1),
            }
        },
        TokenKind::Minus => {
            let (rr, p1) = spec_parse_expression(toks, pos + 1, PREC_PREFIX);
            match rr {
                Ok(right) => (
                    Ok(
                        ExprV::Prefix { operator: toks[pos].literal@, right: Box::new(right) },
                    ),
                    p1,
                ),
                Err(e) => (Err(e), p1),
            }
        },
        TokenKind::LParen => {
            let (rr, p1) = spec_parse_expression(toks, pos + 1, PREC_LOWEST);
            match rr {
                Ok(inner) => {
                    let p1c = adv(toks, pos, p1);
                    if kind_at(toks, p1c) == TokenKind::RParen {
                        (Ok(inner), p1c + 1)
                    } else {
                        (
                            Err(
                                ParseError::UnexpectedToken {
                                    expected: TokenKind::RParen,
                                    found: kind_at(toks, p1c),
                                },
                            ),
                            p1c,
                        )
                    }
                },
                Err(e) => (Err(e), p1),
            }
        },
        TokenKind::If => {
            if kind_at(toks, pos + 1) != TokenKind::LParen {
                (
                    Err(
                        ParseError::UnexpectedToken {
                            expected: TokenKind::LParen,
                            found: kind_at(toks, pos + 1),
                        },
                    ),
                    pos + 1,
                )
            } else {
                let (cr, p1) = spec_parse_expression(toks, pos + 2, PREC_LOWEST);
                match cr {
                    Err(e) => (Err(e), p1),
                    Ok(cond) => {
                        let p1c = adv(toks, pos + 1, p1);
                        if kind_at(toks, p1c) != TokenKind::RParen {
                            (
                                Err(
                                    ParseError::UnexpectedToken {
                                        expected: TokenKind::RParen,
                                        found: kind_at(toks, p1c),
                                    },
                                ),
                                p1c,
                            )
                        } else {
                            let (br, p2) = spec_parse_block(toks, p1c + 1);
                            match br {
                                Err(e) => (Err(e), p2),
                                Ok(cons) => {
                                    let p2c = adv(toks, p1c + 1, p2);
                                    if kind_at(toks, p2c) == TokenKind::Else {
                                        let (ar, p3) = spec_parse_block(toks, p2c + 1);
                                        match ar {
                                            Err(e) => (Err(e), p3),
                                            Ok(alt) => (
                                                Ok(
                                                    ExprV::If {
                                                        condition: Box::new(cond),
                                                        consequence: cons,
                                                        alternative: Some(alt),
                                                    },
                                                ),
                                                p3,
                                            ),
                                        }
                                    } else {
                                        (
                                            Ok(
                                                ExprV::If {
                                                    condition: Box::new(cond),
                                                    consequence: cons,
                                                    alternative: None,
                                                },
                                            ),
                                            p2c,
                                        )
                                    }
                                },
                            }
                        }
                    },
                }
            }
        },
        TokenKind::Function => {
            if kind_at(toks, pos + 1) != TokenKind::LParen {
                (
                    Err(
                        ParseError::UnexpectedToken {
                            expected: TokenKind::LParen,
                            found: kind_at(toks, pos + 1),
                        },
                    ),
                    pos + 1,
                )
            } else {
                let (prr, p1) = spec_parse_params(toks, pos + 2);
                match prr {
                    Err(e) => (Err(e), p1),
                    Ok(params) => {
                        let p1c = adv(toks, pos + 1, p1);
                        let (br, p2) = spec_parse_block(toks, p1c);
                        match br {
                            Err(e) => (Err(e), p2),
                            Ok(body) => (
                                Ok(ExprV::Function { parameters: params, body }),
                                p2,
                            ),
                        }
                    },
                }
            }
        },
        k => (Err(ParseError::NoPrefixRule { found: k }), pos),
    }
}

/// Extend `left` with every infix application whose operator binds tighter
/// than `min_prec`: a `(` makes a call of `left` on an argument list, any
/// other operator takes a right operand parsed at the operator's own binding
/// power, which makes same-power operators group to the left.
pub open spec fn spec_parse_infix_ops(
    toks: Seq<Token>,
    pos: int,
    min_prec: u8,
    left: ExprV,
) -> (Result<ExprV, ParseError>, int)
    decreases toks.len() - pos, 0int,
{
    let k = kind_at(toks, pos);
    let prec = spec_precedence(k);
    if prec > min_prec {
        if k == TokenKind::LParen {
            let (ar, p1) = spec_parse_args(toks, pos + 1);
            match ar {
                Err(e) => (Err(e), p1),
                Ok(args) => spec_parse_infix_ops(
                    toks,
                    adv(toks, pos, p1),
                    min_prec,
                    ExprV::Call { function: Box::new(left), arguments: args },
                ),
            }
        } else {
            let (rr, p1) = spec_parse_expression(toks, pos + 1, prec);
            match rr {
                Err(e) => (Err(e), p1),
                Ok(right) => spec_parse_infix_ops(
                    toks,
                    adv(toks, pos, p1),
                    min_prec,
                    ExprV::Infix {
                        left: Box::new(left),
                        operator: toks[pos].literal@,
                        right: Box::new(right),
                    },
                ),
            }
        }
    } else {
        (Ok(left), pos)
    }
}

/// A call's argument list, after its `(`: empty, or expressions separated by
/// commas, closed by `)`.
pub open spec fn spec_parse_args(toks: Seq<Token>, pos: int) -> (
    Result<Seq<ExprV>, ParseError>,
    int,
)
    decreases toks.len() - pos, 3int,
{
    if kind_at(toks, pos) == TokenKind::RParen {
        (Ok(Seq::empty()), pos + 1)
    } else if kind_at(toks, pos) == TokenKind::Eof {
        (
            Err(
                ParseError::UnexpectedToken { expected: TokenKind::RParen, found: TokenKind::Eof },
            ),
            pos,
        )
    } else {
        let (er, p1) = spec_parse_expression(toks, pos, PREC_LOWEST);
        match er {
            Err(e) => (Err(e), p1),
            Ok(first) => spec_parse_args_rest(toks, adv(toks, pos, p1), seq![first]),
        }
    }
}

pub open spec fn spec_parse_args_rest(toks: Seq<Token>, pos: int, acc: Seq<ExprV>) -> (
    Result<Seq<ExprV>, ParseError>,
    int,
)
    decreases toks.len() - pos, 3int,
{
    match kind_at(toks, pos) {
        TokenKind::RParen => (Ok(acc), pos + 1),
        TokenKind::Comma => {
            let (er, p1) = spec_parse_expression(toks, pos + 1, PREC_LOWEST);
            match er {
                Err(e) => (Err(e), p1),
                Ok(next) => spec_parse_args_rest(toks, adv(toks, pos, p1), acc.push(next)),
            }
        },
        k => (
            Err(ParseError::UnexpectedToken { expected: TokenKind::RParen, found: k }),
            pos,
        ),
    }
}

/// A function literal's parameter list, after its `(`: empty, or identifiers
/// separated by commas, closed by `)`.
pub open spec fn spec_parse_params(toks: Seq<Token>, pos: int) -> (
    Result<Seq<Seq<char>>, ParseError>,
    int,
)
    decreases toks.len() - pos, 0int,
{
    match kind_at(toks, pos) {
        TokenKind::RParen => (Ok(Seq::empty()), pos + 1),
        TokenKind::Ident => spec_parse_params_rest(toks, pos + 1, seq![toks[pos].literal@]),
        k => (
            Err(ParseError::UnexpectedToken { expected: TokenKind::Ident, found: k }),
            pos,
        ),
    }
}

pub open spec fn spec_parse_params_rest(toks: Seq<Token>, pos: int, acc: Seq<Seq<char>>) -> (
    Result<Seq<Seq<char>>, ParseError>,
    int,
)
    decreases toks.len() - pos, 0int,
{
    match kind_at(toks, pos) {
        TokenKind::RParen => (Ok(acc), pos + 1),
        TokenKind::Comma => {
            if kind_at(toks, pos + 1) == TokenKind::Ident {
                spec_parse_params_rest(toks, pos + 2, acc.push(toks[pos + 1].literal@))
            } else {
                (
                    Err(
                        ParseError::UnexpectedToken {
                            expected: TokenKind::Ident,
                            found: kind_at(toks, pos + 1),
                        },
                    ),
                    pos + 1,
                )
            }
        },
        k => (
            Err(ParseError::UnexpectedToken { expected: TokenKind::RParen, found: k }),
            pos,
        ),
    }
}

/// Parse one statement: `let <identifier> = <expression>;`,
/// `return <expression>;`, or a bare expression statement; the trailing
/// semicolon is optional and consumed when present.
pub open spec fn spec_parse_statement(toks: Seq<Token>, pos: int) -> (
    Result<StmtV, ParseError>,
    int,
)
    decreases toks.len() - pos, 4int,
{
    match kind_at(toks, pos) {
        TokenKind::Let => {
            if kind_at(toks, pos + 1) != TokenKind::Ident {
                (
                    Err(
                        ParseError::UnexpectedToken {
                            expected: TokenKind::Ident,
                            found: kind_at(toks, pos + 1),
                        },
                    ),
                    pos + 1,
                )
            } else if kind_at(toks, pos + 2) != TokenKind::Assign {
                (
                    Err(
                        ParseError::UnexpectedToken {
                            expected: TokenKind::Assign,
                            found: kind_at(toks, pos + 2),
                        },
                    ),
                    pos + 2,
                )
            } else {
                let (vr, p) = spec_parse_expression(toks, pos + 3, PREC_LOWEST);
                match vr {
                    Err(e) => (Err(e), p),
                    Ok(value) => {
                        let pf = if kind_at(toks, p) == TokenKind::Semicolon {
                            p + 1
                        } else {
                            p
                        };
                        (Ok(StmtV::Let { name: toks[pos + 1].literal@, value }), pf)
                    },
                }
            }
        },
        TokenKind::Return => {
            let (vr, p) = spec_parse_expression(toks, pos + 1, PREC_LOWEST);
            match vr {
                Err(e) => (Err(e), p),
                Ok(value) => {
                    let pf = if kind_at(toks, p) == TokenKind::Semicolon {
                        p + 1
                    } else {
                        p
                    };
                    (Ok(StmtV::Return { value }), pf)
                },
            }
        },
        _ => {
            let (vr, p) = spec_parse_expression(toks, pos, PREC_LOWEST);
            match vr {
                Err(e) => (Err(e), p),
                Ok(value) => {
                    let pf = if kind_at(toks, p) == TokenKind::Semicolon {
                        p + 1
                    } else {
                        p
                    };
                    (Ok(StmtV::Expr { value }), pf)
                },
            }
        },
    }
}

/// A block: `{`, statements until the matching `}`. A statement fault inside
/// a block ends the block's parse at once.
pub open spec fn spec_parse_block(toks: Seq<Token>, pos: int) -> (
    Result<Seq<StmtV>, ParseError>,
    int,
)
    decreases toks.len() - pos, 0int,
{
    if kind_at(toks, pos) != TokenKind::LBrace {
        (
            Err(
                ParseError::UnexpectedToken {
                    expected: TokenKind::LBrace,
                    found: kind_at(toks, pos),
                },
            ),
            pos,
        )
    } else {
        spec_parse_block_stmts(toks, pos + 1)
    }
}

pub open spec fn spec_parse_block_stmts(toks: Seq<Token>, pos: int) -> (
    Result<Seq<StmtV>, ParseError>,
    int,
)
    decreases toks.len() - pos, 5int,
{
    match kind_at(toks, pos) {
        TokenKind::RBrace => (Ok(Seq::empty()), pos + 1),
        TokenKind::Eof => (
            Err(
                ParseError::UnexpectedToken { expected: TokenKind::RBrace, found: TokenKind::Eof },
            ),
            pos,
        ),
        _ => {
            let (sr, p) = spec_parse_statement(toks, pos);
            match sr {
                Err(e) => (Err(e), p),
                Ok(s) => {
                    let (rr, p2) = spec_parse_block_stmts(toks, adv(toks, pos, p));
                    match rr {
                        Err(e) => (Err(e), p2),
                        Ok(rest) => (Ok(seq![s] + rest), p2),
                    }
                },
            }
        },
    }
}

/// The top level: statements until end of input. A malformed statement's
/// fault is recorded and parsing resumes past the next semicolon, so one
/// parse surfaces every independent fault.
pub open spec fn spec_parse_top(toks: Seq<Token>, pos: int) -> (
    Seq<StmtV>,
    Seq<ParseError>,
    int,
)
    decreases toks.len() - pos, 6int,
{
    if kind_at(toks, pos) == TokenKind::Eof {
        (Seq::empty(), Seq::empty(), pos)
    } else {
        let (sr, p) = spec_parse_statement(toks, pos);
        match sr {
            Ok(s) => {
                let (ss, es, p2) = spec_parse_top(toks, adv(toks, pos, p));
                (seq![s] + ss, es, p2)
            },
            Err(e) => {
                let (ss, es, p2) = spec_parse_top(toks, adv(toks, pos, spec_sync(toks, pos + 1)));
                (ss, seq![e] + es, p2)
            },
        }
    }
}

/// The parse result of a whole token stream: the statements when no fault
/// was found, and the accumulated fault list (never empty) otherwise.
pub open spec fn spec_parse_program(toks: Seq<Token>) -> Result<Seq<StmtV>, Seq<ParseError>> {
    let (ss, es, p) = spec_parse_top(toks, 0);
    if es.len() == 0 {
        Ok(ss)
    } else {
        Err(es)
    }
}

fn tok_kind(toks: &Vec<Token>, pos: usize) -> (k: TokenKind)
    ensures
        k == kind_at(toks@, pos as int),
{
    if pos < toks.len() {
        toks[pos].kind
    } else {
        TokenKind::Eof
    }
}

fn advance(toks: &Vec<Token>, pos: usize, p: usize) -> (r: usize)
    requires
        pos <= toks@.len(),
    ensures
        r as int == adv(toks@, pos as int, p as int),
        r <= toks@.len(),
{
    if pos < p && p <= toks.len() {
        p
    } else if pos < toks.len() {
        pos + 1
    } else {
        toks.len()
    }
}

fn precedence(k: TokenKind) -> (p: u8)
    ensures
        p == spec_precedence(k),
{
    match k {
        TokenKind::Eq => PREC_EQUALS,
        TokenKind::NotEq => PREC_EQUALS,
        TokenKind::Lt => PREC_LESSGREATER,
        TokenKind::Gt => PREC_LESSGREATER,
        TokenKind::Plus => PREC_SUM,
        TokenKind::Minus => PREC_SUM,
        TokenKind::Slash => PREC_PRODUCT,
        TokenKind::Asterisk => PREC_PRODUCT,
        TokenKind::LParen => PREC_CALL,
        _ => PREC_LOWEST,
    }
}

fn digits_value(s: &String, i: usize, acc: u64) -> (r: Option<u64>)
    requires
        i <= s@.len(),
        acc <= i64::MAX as u64,
    ensures
        match r {
            Some(v) => spec_digits(s@, i as int, acc as int) == Some(v as int) && v <= i64::MAX
                as u64,
            None => spec_digits(s@, i as int, acc as int) is None,
        },
    decreases s@.len() - i,
{
    if i >= s.unicode_len() {
        Some(acc)
    } else {
        let c = s.get_char(i) as u32;
        if 48 <= c && c <= 57 {
            let d = (c - 48) as u64;
            if acc > ((i64::MAX as u64) - d) / 10 {
                None
            } else {
                proof {
                    assert(acc * 10 + d <= i64::MAX as u64) by (nonlinear_arith)
                        requires
                            acc <= ((i64::MAX as u64) - d) / 10,
                            d <= 9,
                    ;
                }
                digits_value(s, i + 1, acc * 10 + d)
            }
        } else {
            None
        }
    }
}

fn parse_i64(lit: &String) -> (r: Option<i64>)
    ensures
        r == spec_i64_from(lit@),
{
    if lit.unicode_len() == 0 {
        None
    } else {
        match digits_value(lit, 0, 0) {
            Some(v) => Some(v as i64),
            None => None,
        }
    }
}

fn sync_from(toks: &Vec<Token>, pos: usize) -> (r: usize)
    requires
        pos <= toks@.len(),
    ensures
        r as int == spec_sync(toks@, pos as int),
        r <= toks@.len(),
    decreases toks@.len() - pos,
{
    if pos >= toks.len() {
        pos
    } else if toks[pos].kind == TokenKind::Semicolon {
        pos + 1
    } else if toks[pos].kind == TokenKind::Eof {
        pos
    } else {
        sync_from(toks, pos + 1)
    }
}

/// Parse one expression starting at `pos` with minimum binding power
/// `min_prec`, returning the expression or the first fault, and the position
/// the parse ended at.
pub fn parse_expression(toks: &Vec<Token>, pos: usize, min_prec: u8) -> (r: (
    Result<Expression, ParseError>,
    usize,
))
    requires
        pos <= toks@.len(),
        toks@.len() < usize::MAX - 8,
    ensures
        r.1 as int == spec_parse_expression(toks@, pos as int, min_prec).1,
        match r.0 {
            Ok(e) => spec_parse_expression(toks@, pos as int, min_prec).0 == Ok::<
                ExprV,
                ParseError,
            >(expr_view(e)),
            Err(pe) => spec_parse_expression(toks@, pos as int, min_prec).0 == Err::<
                ExprV,
                ParseError,
            >(pe),
        },
    decreases toks@.len() - pos, 2int,
{
    if tok_kind(toks, pos) == TokenKind::Eof {
        (Err(ParseError::NoPrefixRule { found: TokenKind::Eof }), pos)
    } else {
        let (pr, p1) = parse_prefix(toks, pos);
        match pr {
            Err(e) => (Err(e), p1),
            Ok(left) => {
                let p1c = advance(toks, pos, p1);
                parse_infix_ops(toks, p1c, min_prec, left)
            },
        }
    }
}

#[verifier::rlimit(100)]
fn parse_prefix(toks: &Vec<Token>, pos: usize) -> (r: (Result<Expression, ParseError>, usize))
    requires
        pos <= toks@.len(),
        toks@.len() < usize::MAX - 8,
    ensures
        r.1 as int == spec_parse_prefix(toks@, pos as int).1,
        match r.0 {
            Ok(e) => spec_parse_prefix(toks@, pos as int).0 == Ok::<ExprV, ParseError>(
                expr_view(e),
            ),
            Err(pe) => spec_parse_prefix(toks@, pos as int).0 == Err::<ExprV, ParseError>(pe),
        },
    decreases toks@.len() - pos, 1int,
{
    match tok_kind(toks, pos) {
        TokenKind::Int => {
            match parse_i64(&toks[pos].literal) {
                Some(v) => (Ok(Expression::IntegerLiteral(v)), pos + 1),
                None => (
                    Err(ParseError::InvalidInteger { literal: toks[pos].literal.clone() }),
                    pos,
                ),
            }
        },
        TokenKind::Ident => (Ok(Expression::Identifier(toks[pos].literal.clone())), pos + 1),
        TokenKind::True => (Ok(Expression::Boolean(true)), pos + 1),
        TokenKind::False => (Ok(Expression::Boolean(false)), pos + 1),
        TokenKind::Bang => {
            let op = toks[pos].literal.clone();
            let (rr, p1) = parse_expression(toks, pos + 1, PREC_PREFIX);
            match rr {
                Ok(right) => (
                    Ok(Expression::Prefix { operator: op, right: Box::new(right) }),
                    p1,
                ),
                Err(e) => (Err(e), p1),
            }
        },
        TokenKind::Minus => {
            let op = toks[pos].literal.clone();
            let (rr, p1) = parse_expression(toks, pos + 1, PREC_PREFIX);
            match rr {
                Ok(right) => (
                    Ok(Expression::Prefix { operator: op, right: Box::new(right) }),
                    p1,
                ),
                Err(e) => (Err(e), p1),
            }
        },
        TokenKind::LParen => {
            let (rr, p1) = parse_expression(toks, pos + 1, PREC_LOWEST);
            match rr {
                Ok(inner) => {
                    let p1c = advance(toks, pos, p1);
                    if tok_kind(toks, p1c) == TokenKind::RParen {
                        (Ok(inner), p1c + 1)
                    } else {
                        (
                            Err(
                                ParseError::UnexpectedToken {
                                    expected: TokenKind::RParen,
                                    found: tok_kind(toks, p1c),
                                },
                            ),
                            p1c,
                        )
                    }
                },
                Err(e) => (Err(e), p1),
            }
        },
        TokenKind::If => {
            let k1 = tok_kind(toks, pos + 1);
            if k1 != TokenKind::LParen {
                (
                    Err(
                        ParseError::UnexpectedToken { expected: TokenKind::LParen, found: k1 },
                    ),
                    pos + 1,
                )
            } else {
                let (cr, p1) = parse_expression(toks, pos + 2, PREC_LOWEST);
                match cr {
                    Err(e) => (Err(e), p1),
                    Ok(cond) => {
                        let p1c = advance(toks, pos + 1, p1);
                        if tok_kind(toks, p1c) != TokenKind::RParen {
                            (
                                Err(
                                    ParseError::UnexpectedToken {
                                        expected: TokenKind::RParen,
                                        found: tok_kind(toks, p1c),
                                    },
                                ),
                                p1c,
                            )
                        } else {
                            let (br, p2) = parse_block(toks, p1c + 1);
                            match br {
                                Err(e) => (Err(e), p2),
                                Ok(cons) => {
                                    let p2c = advance(toks, p1c + 1, p2);
                                    if tok_kind(toks, p2c) == TokenKind::Else {
                                        let (ar, p3) = parse_block(toks, p2c + 1);
                                        match ar {
                                            Err(e) => (Err(e), p3),
                                            Ok(alt) => (
                                                Ok(
                                                    Expression::IfExpression {
                                                        condition: Box::new(cond),
                                                        consequence: cons,
                                                        alternative: Some(alt),
                                                    },
                                                ),
                                                p3,
                                            ),
                                        }
                                    } else {
                                        (
                                            Ok(
                                                Expression::IfExpression {
                                                    condition: Box::new(cond),
                                                    consequence: cons,
                                                    alternative: None,
                                                },
                                            ),
                                            p2c,
                                        )
                                    }
                                },
                            }
                        }
                    },
                }
            }
        },
        TokenKind::Function => {
            let k1 = tok_kind(toks, pos + 1);
            if k1 != TokenKind::LParen {
                (
                    Err(
                        ParseError::UnexpectedToken { expected: TokenKind::LParen, found: k1 },
                    ),
                    pos + 1,
                )
            } else {
                let (prr, p1) = parse_params(toks, pos + 2);
                match prr {
                    Err(e) => (Err(e), p1),
                    Ok(params) => {
                        let p1c = advance(toks, pos + 1, p1);
                        let (br, p2) = parse_block(toks, p1c);
                        match br {
                            Err(e) => (Err(e), p2),
                            Ok(body) => (
                                Ok(
                                    Expression::FunctionLiteral {
                                        parameters: std::rc::Rc::new(params),
                                        body: std::rc::Rc::new(body),
                                    },
                                ),
                                p2,
                            ),
                        }
                    },
                }
            }
        },
        k => (Err(ParseError::NoPrefixRule { found: k }), pos),
    }
}

fn parse_infix_ops(toks: &Vec<Token>, pos: usize, min_prec: u8, left: Expression) -> (r: (
    Result<Expression, ParseError>,
    usize,
))
    requires
        pos <= toks@.len(),
        toks@.len() < usize::MAX - 8,
    ensures
        r.1 as int == spec_parse_infix_ops(toks@, pos as int, min_prec, expr_view(left)).1,
        match r.0 {
            Ok(e) => spec_parse_infix_ops(toks@, pos as int, min_prec, expr_view(left)).0 == Ok::<
                ExprV,
                ParseError,
            >(expr_view(e)),
            Err(pe) => spec_parse_infix_ops(toks@, pos as int, min_prec, expr_view(left)).0
                == Err::<ExprV, ParseError>(pe),
        },
    decreases toks@.len() - pos, 0int,
{
    let k = tok_kind(toks, pos);
    let prec = precedence(k);
    if prec > min_prec {
        if k == TokenKind::LParen {
            let (ar, p1) = parse_args(toks, pos + 1);
            match ar {
                Err(e) => (Err(e), p1),
                Ok(args) => {
                    let p1c = advance(toks, pos, p1);
                    parse_infix_ops(
                        toks,
                        p1c,
                        min_prec,
                        Expression::CallExpression {
                            function: Box::new(left),
                            arguments: args,
                        },
                    )
                },
            }
        } else {
            let op = toks[pos].literal.clone();
            let (rr, p1) = parse_expression(toks, pos + 1, prec);
            match rr {
                Err(e) => (Err(e), p1),
                Ok(right) => {
                    let p1c = advance(toks, pos, p1);
                    parse_infix_ops(
                        toks,
                        p1c,
                        min_prec,
                        Expression::Infix {
                            left: Box::new(left),
                            right: Box::new(right),
                            operator: op,
                        },
                    )
                },
            }
        }
    } else {
        (Ok(left), pos)
    }
}

fn parse_args(toks: &Vec<Token>, pos: usize) -> (r: (Result<Vec<Expression>, ParseError>, usize))
    requires
        pos <= toks@.len(),
        toks@.len() < usize::MAX - 8,
    ensures
        r.1 as int == spec_parse_args(toks@, pos as int).1,
        match r.0 {
            Ok(v) => spec_parse_args(toks@, pos as int).0 == Ok::<Seq<ExprV>, ParseError>(
                exprs_view(v@),
            ),
            Err(pe) => spec_parse_args(toks@, pos as int).0 == Err::<Seq<ExprV>, ParseError>(pe),
        },
    decreases toks@.len() - pos, 3int,
{
    if tok_kind(toks, pos) == TokenKind::RParen {
        proof {
            assert(exprs_view(Seq::<Expression>::empty()) =~= Seq::<ExprV>::empty());
        }
        (Ok(Vec::new()), pos + 1)
    } else if tok_kind(toks, pos) == TokenKind::Eof {
        (
            Err(
                ParseError::UnexpectedToken { expected: TokenKind::RParen, found: TokenKind::Eof },
            ),
            pos,
        )
    } else {
        let (er, p1) = parse_expression(toks, pos, PREC_LOWEST);
        match er {
            Err(e) => (Err(e), p1),
            Ok(first) => {
                let p1c = advance(toks, pos, p1);
                let mut acc: Vec<Expression> = Vec::new();
                acc.push(first);
                proof {
                    crate::ast::lemma_exprs_view_push(Seq::<Expression>::empty(), first);
                    assert(exprs_view(Seq::<Expression>::empty()) =~= Seq::<ExprV>::empty());
                    assert(exprs_view(acc@) =~= seq![expr_view(first)]);
                }
                parse_args_rest(toks, p1c, acc)
            },
        }
    }
}

fn parse_args_rest(toks: &Vec<Token>, pos: usize, acc: Vec<Expression>) -> (r: (
    Result<Vec<Expression>, ParseError>,
    usize,
))
    requires
        pos <= toks@.len(),
        toks@.len() < usize::MAX - 8,
    ensures
        r.1 as int == spec_parse_args_rest(toks@, pos as int, exprs_view(acc@)).1,
        match r.0 {
            Ok(v) => spec_parse_args_rest(toks@, pos as int, exprs_view(acc@)).0 == Ok::<
                Seq<ExprV>,
                ParseError,
            >(exprs_view(v@)),
            Err(pe) => spec_parse_args_rest(toks@, pos as int, exprs_view(acc@)).0 == Err::<
                Seq<ExprV>,
                ParseError,
            >(pe),
        },
    decreases toks@.len() - pos, 3int,
{
    match tok_kind(toks, pos) {
        TokenKind::RParen => (Ok(acc), pos + 1),
        TokenKind::Comma => {
            let (er, p1) = parse_expression(toks, pos + 1, PREC_LOWEST);
            match er {
                Err(e) => (Err(e), p1),
                Ok(next) => {
                    let p1c = advance(toks, pos, p1);
                    let ghost pre = acc@;
                    let mut acc2 = acc;
                    acc2.push(next);
                    proof {
                        crate::ast::lemma_exprs_view_push(pre, next);
                        assert(exprs_view(acc2@) =~= exprs_view(pre).push(expr_view(next)));
                    }
                    parse_args_rest(toks, p1c, acc2)
                },
            }
        },
        k => (
            Err(ParseError::UnexpectedToken { expected: TokenKind::RParen, found: k }),
            pos,
        ),
    }
}

fn parse_params(toks: &Vec<Token>, pos: usize) -> (r: (
    Result<Vec<Identifier>, ParseError>,
    usize,
))
    requires
        pos <= toks@.len(),
        toks@.len() < usize::MAX - 8,
    ensures
        r.1 as int == spec_parse_params(toks@, pos as int).1,
        match r.0 {
            Ok(v) => spec_parse_params(toks@, pos as int).0 == Ok::<Seq<Seq<char>>, ParseError>(
                idents_view(v@),
            ),
            Err(pe) => spec_parse_params(toks@, pos as int).0 == Err::<Seq<Seq<char>>, ParseError>(
                pe,
            ),
        },
    decreases toks@.len() - pos, 0int,
{
    match tok_kind(toks, pos) {
        TokenKind::RParen => {
            proof {
                assert(idents_view(Seq::<Identifier>::empty()) =~= Seq::<Seq<char>>::empty());
            }
            (Ok(Vec::new()), pos + 1)
        },
        TokenKind::Ident => {
            let mut acc: Vec<Identifier> = Vec::new();
            acc.push(toks[pos].literal.clone());
            proof {
                assert(idents_view(acc@) =~= seq![acc@[0]@]);
            }
            parse_params_rest(toks, pos + 1, acc)
        },
        k => (
            Err(ParseError::UnexpectedToken { expected: TokenKind::Ident, found: k }),
            pos,
        ),
    }
}

fn parse_params_rest(toks: &Vec<Token>, pos: usize, acc: Vec<Identifier>) -> (r: (
    Result<Vec<Identifier>, ParseError>,
    usize,
))
    requires
        pos <= toks@.len(),
        toks@.len() < usize::MAX - 8,
    ensures
        r.1 as int == spec_parse_params_rest(toks@, pos as int, idents_view(acc@)).1,
        match r.0 {
            Ok(v) => spec_parse_params_rest(toks@, pos as int, idents_view(acc@)).0 == Ok::<
                Seq<Seq<char>>,
                ParseError,
            >(idents_view(v@)),
            Err(pe) => spec_parse_params_rest(toks@, pos as int, idents_view(acc@)).0 == Err::<
                Seq<Seq<char>>,
                ParseError,
            >(pe),
        },
    decreases toks@.len() - pos, 0int,
{
    match tok_kind(toks, pos) {
        TokenKind::RParen => (Ok(acc), pos + 1),
        TokenKind::Comma => {
            let k1 = tok_kind(toks, pos + 1);
            if k1 == TokenKind::Ident {
                let ghost pre = acc@;
                let mut acc2 = acc;
                acc2.push(toks[pos + 1].literal.clone());
                proof {
                    assert(idents_view(acc2@) =~= idents_view(pre).push(
                        toks@[pos as int + 1].literal@,
                    ));
                }
                parse_params_rest(toks, pos + 2, acc2)
            } else {
                (
                    Err(
                        ParseError::UnexpectedToken { expected: TokenKind::Ident, found: k1 },
                    ),
                    pos + 1,
                )
            }
        },
        k => (
            Err(ParseError::UnexpectedToken { expected: TokenKind::RParen, found: k }),
            pos,
        ),
    }
}

/// Parse one statement starting at `pos`.
#[verifier::rlimit(60)]
pub fn parse_statement(toks: &Vec<Token>, pos: usize) -> (r: (
    Result<Statement, ParseError>,
    usize,
))
    requires
        pos <= toks@.len(),
        toks@.len() < usize::MAX - 8,
    ensures
        r.1 as int == spec_parse_statement(toks@, pos as int).1,
        match r.0 {
            Ok(s) => spec_parse_statement(toks@, pos as int).0 == Ok::<StmtV, ParseError>(
                stmt_view(s),
            ),
            Err(pe) => spec_parse_statement(toks@, pos as int).0 == Err::<StmtV, ParseError>(pe),
        },
    decreases toks@.len() - pos, 4int,
{
    match tok_kind(toks, pos) {
        TokenKind::Let => {
            let k1 = tok_kind(toks, pos + 1);
            if k1 != TokenKind::Ident {
                (
                    Err(
                        ParseError::UnexpectedToken { expected: TokenKind::Ident, found: k1 },
                    ),
                    pos + 1,
                )
            } else {
                let k2 = tok_kind(toks, pos + 2);
                if k2 != TokenKind::Assign {
                    (
                        Err(
                            ParseError::UnexpectedToken { expected: TokenKind::Assign, found: k2 },
                        ),
                        pos + 2,
                    )
                } else {
                    let (vr, p) = parse_expression(toks, pos + 3, PREC_LOWEST);
                    match vr {
                        Err(e) => (Err(e), p),
                        Ok(value) => {
                            let pf = if tok_kind(toks, p) == TokenKind::Semicolon {
                                p + 1
                            } else {
                                p
                            };
                            (
                                Ok(
                                    Statement::Let {
                                        name: toks[pos + 1].literal.clone(),
                                        value,
                                    },
                                ),
                                pf,
                            )
                        },
                    }
                }
            }
        },
        TokenKind::Return => {
            let (vr, p) = parse_expression(toks, pos + 1, PREC_LOWEST);
            match vr {
                Err(e) => (Err(e), p),
                Ok(value) => {
                    let pf = if tok_kind(toks, p) == TokenKind::Semicolon {
                        p + 1
                    } else {
                        p
                    };
                    (Ok(Statement::Return(value)), pf)
                },
            }
        },
        _ => {
            let (vr, p) = parse_expression(toks, pos, PREC_LOWEST);
            match vr {
                Err(e) => (Err(e), p),
                Ok(value) => {
                    let pf = if tok_kind(toks, p) == TokenKind::Semicolon {
                        p + 1
                    } else {
                        p
                    };
                    (Ok(Statement::Expression(value)), pf)
                },
            }
        },
    }
}

fn parse_block(toks: &Vec<Token>, pos: usize) -> (r: (Result<BlockStatement, ParseError>, usize))
    requires
        pos <= toks@.len(),
        toks@.len() < usize::MAX - 8,
    ensures
        r.1 as int == spec_parse_block(toks@, pos as int).1,
        match r.0 {
            Ok(b) => spec_parse_block(toks@, pos as int).0 == Ok::<Seq<StmtV>, ParseError>(
                block_view(b),
            ),
            Err(pe) => spec_parse_block(toks@, pos as int).0 == Err::<Seq<StmtV>, ParseError>(pe),
        },
    decreases toks@.len() - pos, 0int,
{
    let k = tok_kind(toks, pos);
    if k != TokenKind::LBrace {
        (
            Err(ParseError::UnexpectedToken { expected: TokenKind::LBrace, found: k }),
            pos,
        )
    } else {
        let (sr, p) = parse_block_stmts(toks, pos + 1);
        match sr {
            Ok(stmts) => (Ok(BlockStatement(stmts)), p),
            Err(e) => (Err(e), p),
        }
    }
}

fn parse_block_stmts(toks: &Vec<Token>, pos: usize) -> (r: (
    Result<Vec<Statement>, ParseError>,
    usize,
))
    requires
        pos <= toks@.len(),
        toks@.len() < usize::MAX - 8,
    ensures
        r.1 as int == spec_parse_block_stmts(toks@, pos as int).1,
        match r.0 {
            Ok(v) => spec_parse_block_stmts(toks@, pos as int).0 == Ok::<Seq<StmtV>, ParseError>(
                stmts_view(v@),
            ),
            Err(pe) => spec_parse_block_stmts(toks@, pos as int).0 == Err::<Seq<StmtV>, ParseError>(
                pe,
            ),
        },
    decreases toks@.len() - pos, 5int,
{
    match tok_kind(toks, pos) {
        TokenKind::RBrace => {
            proof {
                assert(stmts_view(Seq::<Statement>::empty()) =~= Seq::<StmtV>::empty());
            }
            (Ok(Vec::new()), pos + 1)
        },
        TokenKind::Eof => (
            Err(
                ParseError::UnexpectedToken { expected: TokenKind::RBrace, found: TokenKind::Eof },
            ),
            pos,
        ),
        _ => {
            let (sr, p) = parse_statement(toks, pos);
            match sr {
                Err(e) => (Err(e), p),
                Ok(s) => {
                    let pc = advance(toks, pos, p);
                    let (rr, p2) = parse_block_stmts(toks, pc);
                    match rr {
                        Err(e) => (Err(e), p2),
                        Ok(mut rest) => {
                            let ghost pre = rest@;
                            rest.insert(0, s);
                            proof {
                                assert(rest@.drop_first() =~= pre);
                                assert(stmts_view(rest@) =~= seq![stmt_view(s)] + stmts_view(pre));
                            }
                            (Ok(rest), p2)
                        },
                    }
                },
            }
        },
    }
}

#[verifier::rlimit(100)]
#[verifier::spinoff_prover]
fn parse_top(toks: &Vec<Token>, pos: usize) -> (r: (Vec<Statement>, Vec<ParseError>, usize))
    requires
        pos <= toks@.len(),
        toks@.len() < usize::MAX - 8,
    ensures
        stmts_view(r.0@) == spec_parse_top(toks@, pos as int).0,
        r.1@ == spec_parse_top(toks@, pos as int).1,
        r.2 as int == spec_parse_top(toks@, pos as int).2,
    decreases toks@.len() - pos, 6int,
{
    if tok_kind(toks, pos) == TokenKind::Eof {
        proof {
            assert(stmts_view(Seq::<Statement>::empty()) =~= Seq::<StmtV>::empty());
        }
        (Vec::new(), Vec::new(), pos)
    } else {
        let (sr, p) = parse_statement(toks, pos);
        match sr {
            Ok(s) => {
                let pc = advance(toks, pos, p);
                let (mut ss, es, p2) = parse_top(toks, pc);
                let ghost pre = ss@;
                ss.insert(0, s);
                proof {
                    assert(ss@.drop_first() =~= pre);
                    assert(stmts_view(ss@) =~= seq![stmt_view(s)] + stmts_view(pre));
                }
                (ss, es, p2)
            },
            Err(e) => {
                let ps = sync_from(toks, pos + 1);
                let pc = advance(toks, pos, ps);
                let (ss, mut es, p2) = parse_top(toks, pc);
                let ghost pre = es@;
                es.insert(0, e);
                proof {
                    assert(es@ =~= seq![e] + pre);
                }
                (ss, es, p2)
            },
        }
    }
}

/// Parse a whole token stream into a program. When the stream holds syntax
/// faults, every fault found is returned, in source order, and no tree is.
pub fn parse_program(toks: &Vec<Token>) -> (r: Result<Program, Vec<ParseError>>)
    requires
        toks@.len() < usize::MAX - 8,
    ensures
        match r {
            Ok(p) => spec_parse_program(toks@) == Ok::<Seq<StmtV>, Seq<ParseError>>(
                stmts_view(p.statements@),
            ),
            Err(es) => spec_parse_program(toks@) == Err::<Seq<StmtV>, Seq<ParseError>>(es@),
        },
{
    let (stmts, errs, _p) = parse_top(toks, 0);
    if errs.len() == 0 {
        Ok(Program { statements: stmts })
    } else {
        Err(errs)
    }
}


} // verus!
