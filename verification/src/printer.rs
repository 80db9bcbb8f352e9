use vstd::prelude::*;
use vstd::string::*;
use crate::ast::BlockStatement;
use crate::ast::Expression;
use crate::ast::Identifier;
use crate::ast::Program;
use crate::ast::Statement;
use crate::support::i64_text;
use crate::support::push_i64;

verus! {

/// The rendering of an expression: every prefix and infix application is
/// parenthesized, so the text re-parses without knowledge of precedence.
pub open spec fn expr_text(e: Expression) -> Seq<char>
    decreases e,
{
    match e {
        Expression::IntegerLiteral(v) => i64_text(v),
        Expression::Identifier(name) => name@,
        Expression::Prefix { operator, right } => "("@ + operator@ + expr_text(*right) + ")"@,
        Expression::Infix { left, right, operator } => "("@ + expr_text(*left) + " "@ + operator@
            + " "@ + expr_text(*right) + ")"@,
        Expression::Boolean(v) => if v {
            "true"@
        } else {
            "false"@
        },
        Expression::IfExpression { condition, consequence, alternative } => "if ("@ + expr_text(
            *condition,
        ) + ") "@ + block_text(consequence) + match alternative {
            Some(b) => " else "@ + block_text(b),
            None => Seq::empty(),
        },
        Expression::FunctionLiteral { parameters, body } => "fn ("@ + idents_text((*parameters)@)
            + ") "@ + block_text(*body),
        Expression::CallExpression { function, arguments } => expr_text(*function) + "("@
            + exprs_text(arguments@) + ")"@,
    }
}

/// A comma-separated expression list.
pub open spec fn exprs_text(s: Seq<Expression>) -> Seq<char>
    decreases s,
{
    if s.len() == 0 {
        Seq::empty()
    } else if s.len() == 1 {
        expr_text(s[0])
    } else {
        expr_text(s[0]) + ", "@ + exprs_text(s.drop_first())
    }
}

/// A comma-separated identifier list.
pub open spec fn idents_text(s: Seq<Identifier>) -> Seq<char>
    decreases s.len(),
{
    if s.len() == 0 {
        Seq::empty()
    } else if s.len() == 1 {
        s[0]@
    } else {
        s[0]@ + ", "@ + idents_text(s.drop_first())
    }
}

/// The rendering of a statement; every statement ends with a semicolon.
pub open spec fn stmt_text(s: Statement) -> Seq<char>
    decreases s,
{
    match s {
        Statement::Let { name, value } => "let "@ + name@ + " = "@ + expr_text(value) + ";"@,
        Statement::Return(value) => "return "@ + expr_text(value) + ";"@,
        Statement::Expression(value) => expr_text(value) + ";"@,
    }
}

/// The renderings of the statements, one after another, separated by spaces.
pub open spec fn stmts_text(s: Seq<Statement>) -> Seq<char>
    decreases s,
{
    if s.len() == 0 {
        Seq::empty()
    } else {
        stmt_text(s[0]) + " "@ + stmts_text(s.drop_first())
    }
}

/// The rendering of a block: its statements inside braces.
pub open spec fn block_text(b: BlockStatement) -> Seq<char>
    decreases b,
{
    "{ "@ + stmts_text(b.0@) + "}"@
}

/// The rendering of a whole program.
pub open spec fn program_text(p: Program) -> Seq<char> {
    stmts_text(p.statements@)
}

#[verifier::rlimit(40)]
fn push_expr(out: &mut String, e: &Expression)
    ensures
        final(out)@ == old(out)@ + expr_text(*e),
    decreases *e,
{
    match e {
        Expression::IntegerLiteral(v) => {
            push_i64(out, *v);
        },
        Expression::Identifier(name) => {
            out.append(name.as_str());
        },
        Expression::Prefix { operator, right } => {
            out.append("(");
            out.append(operator.as_str());
            push_expr(out, right);
            out.append(")");
            proof {
                assert(out@ =~= old(out)@ + expr_text(*e));
            }
        },
        Expression::Infix { left, right, operator } => {
            out.append("(");
            push_expr(out, left);
            out.append(" ");
            out.append(operator.as_str());
            out.append(" ");
            push_expr(out, right);
            out.append(")");
            proof {
                assert(out@ =~= old(out)@ + expr_text(*e));
            }
        },
        Expression::Boolean(v) => {
            if *v {
                out.append("true");
            } else {
                out.append("false");
            }
        },
        Expression::IfExpression { condition, consequence, alternative } => {
            out.append("if (");
            push_expr(out, condition);
            out.append(") ");
            push_block(out, consequence);
            match alternative {
                Some(b) => {
                    out.append(" else ");
                    push_block(out, b);
                },
                None => {},
            }
            proof {
                assert(out@ =~= old(out)@ + expr_text(*e));
            }
        },
        Expression::FunctionLiteral { parameters, body } => {
            out.append("fn (");
            push_idents_from(out, parameters, 0);
            out.append(") ");
            push_block(out, body);
            proof {
                assert((*parameters)@.skip(0) =~= (*parameters)@);
                assert(out@ =~= old(out)@ + expr_text(*e));
            }
        },
        Expression::CallExpression { function, arguments } => {
            push_expr(out, function);
            out.append("(");
            proof {
                assert(decreases_to!(*e => *arguments));
                assert(decreases_to!(*arguments => arguments@));
                assert(arguments@.skip(0) =~= arguments@);
            }
            push_exprs_from(out, arguments, 0);
            out.append(")");
            proof {
                assert(arguments@.skip(0) =~= arguments@);
                assert(out@ =~= old(out)@ + expr_text(*e));
            }
        },
    }
}

fn push_exprs_from(out: &mut String, v: &Vec<Expression>, i: usize)
    requires
        i <= v@.len(),
    ensures
        final(out)@ == old(out)@ + exprs_text(v@.skip(i as int)),
    decreases v@.skip(i as int),
{
    if i < v.len() {
        proof {
            assert(decreases_to!(v@.skip(i as int) => v@.skip(i as int)[0]));
            assert(v@.skip(i as int)[0] == v@[i as int]);
        }
        push_expr(out, &v[i]);
        if i + 1 < v.len() {
            out.append(", ");
            proof {
                assert(v@.skip(i as int).drop_first() =~= v@.skip(i as int + 1));
                assert(decreases_to!(v@.skip(i as int) => v@.skip(i as int).drop_first()));
            }
            push_exprs_from(out, v, i + 1);
            proof {
                assert(out@ =~= old(out)@ + exprs_text(v@.skip(i as int)));
            }
        } else {
            proof {
                assert(out@ =~= old(out)@ + exprs_text(v@.skip(i as int)));
            }
        }
    } else {
        proof {
            assert(v@.skip(i as int) =~= Seq::<Expression>::empty());
            assert(out@ =~= old(out)@ + exprs_text(v@.skip(i as int)));
        }
    }
}

fn push_idents_from(out: &mut String, v: &Vec<Identifier>, i: usize)
    requires
        i <= v@.len(),
    ensures
        final(out)@ == old(out)@ + idents_text(v@.skip(i as int)),
    decreases v@.len() - i,
{
    if i < v.len() {
        out.append(v[i].as_str());
        proof {
            assert(v@.skip(i as int)[0] == v@[i as int]);
        }
        if i + 1 < v.len() {
            out.append(", ");
            proof {
                assert(v@.skip(i as int).drop_first() =~= v@.skip(i as int + 1));
            }
            push_idents_from(out, v, i + 1);
            proof {
                assert(out@ =~= old(out)@ + idents_text(v@.skip(i as int)));
            }
        } else {
            proof {
                assert(out@ =~= old(out)@ + idents_text(v@.skip(i as int)));
            }
        }
    } else {
        proof {
            assert(v@.skip(i as int) =~= Seq::<Identifier>::empty());
            assert(out@ =~= old(out)@ + idents_text(v@.skip(i as int)));
        }
    }
}

fn push_stmt(out: &mut String, s: &Statement)
    ensures
        final(out)@ == old(out)@ + stmt_text(*s),
    decreases *s,
{
    match s {
        Statement::Let { name, value } => {
            out.append("let ");
            out.append(name.as_str());
            out.append(" = ");
            push_expr(out, value);
            out.append(";");
            proof {
                assert(out@ =~= old(out)@ + stmt_text(*s));
            }
        },
        Statement::Return(value) => {
            out.append("return ");
            push_expr(out, value);
            out.append(";");
            proof {
                assert(out@ =~= old(out)@ + stmt_text(*s));
            }
        },
        Statement::Expression(value) => {
            push_expr(out, value);
            out.append(";");
            proof {
                assert(out@ =~= old(out)@ + stmt_text(*s));
            }
        },
    }
}

fn push_stmts_from(out: &mut String, v: &Vec<Statement>, i: usize)
    requires
        i <= v@.len(),
    ensures
        final(out)@ == old(out)@ + stmts_text(v@.skip(i as int)),
    decreases v@.skip(i as int),
{
    if i < v.len() {
        proof {
            assert(decreases_to!(v@.skip(i as int) => v@.skip(i as int)[0]));
            assert(v@.skip(i as int)[0] == v@[i as int]);
        }
        push_stmt(out, &v[i]);
        out.append(" ");
        proof {
            assert(v@.skip(i as int).drop_first() =~= v@.skip(i as int + 1));
            assert(decreases_to!(v@.skip(i as int) => v@.skip(i as int).drop_first()));
        }
        push_stmts_from(out, v, i + 1);
        proof {
            assert(out@ =~= old(out)@ + stmts_text(v@.skip(i as int)));
        }
    } else {
        proof {
            assert(v@.skip(i as int) =~= Seq::<Statement>::empty());
            assert(out@ =~= old(out)@ + stmts_text(v@.skip(i as int)));
        }
    }
}

fn push_block(out: &mut String, b: &BlockStatement)
    ensures
        final(out)@ == old(out)@ + block_text(*b),
    decreases *b,
{
    out.append("{ ");
    proof {
        assert(decreases_to!(*b => b.0));
        assert(decreases_to!(b.0 => b.0@));
        assert(b.0@.skip(0) =~= b.0@);
    }
    push_stmts_from(out, &b.0, 0);
    out.append("}");
    proof {
        assert(b.0@.skip(0) =~= b.0@);
        assert(out@ =~= old(out)@ + block_text(*b));
    }
}

impl Expression {
    /// Pretty-print this expression.
    pub fn to_text(&self) -> (s: String)
        ensures
            s@ == expr_text(*self),
    {
        let mut out = String::new();
        push_expr(&mut out, self);
        proof {
            assert(out@ =~= expr_text(*self));
        }
        out
    }
}

impl Statement {
    /// Pretty-print this statement.
    pub fn to_text(&self) -> (s: String)
        ensures
            s@ == stmt_text(*self),
    {
        let mut out = String::new();
        push_stmt(&mut out, self);
        proof {
            assert(out@ =~= stmt_text(*self));
        }
        out
    }
}

impl BlockStatement {
    /// Pretty-print this block.
    pub fn to_text(&self) -> (s: String)
        ensures
            s@ == block_text(*self),
    {
        let mut out = String::new();
        push_block(&mut out, self);
        proof {
            assert(out@ =~= block_text(*self));
        }
        out
    }
}

impl Program {
    /// Pretty-print this program; parsing the text again yields an equal tree.
    pub fn to_text(&self) -> (s: String)
        ensures
            s@ == program_text(*self),
    {
        let mut out = String::new();
        push_stmts_from(&mut out, &self.statements, 0);
        proof {
            assert(self.statements@.skip(0) =~= self.statements@);
            assert(out@ =~= program_text(*self));
        }
        out
    }
}

} // verus!
