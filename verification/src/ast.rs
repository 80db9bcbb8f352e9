use vstd::prelude::*;
use std::rc::Rc;

verus! {

/// A parsed source unit: the ordered top-level statements.
#[derive(Debug)]
pub struct Program {
    pub statements: Vec<Statement>,
}

pub type Identifier = String;

#[derive(PartialEq, Debug)]
pub enum Statement {
    Let { name: Identifier, value: Expression },
    Return(Expression),
    Expression(Expression),
}

#[derive(PartialEq, Debug)]
pub enum Expression {
    IntegerLiteral(i64),
    Identifier(Identifier),
    Prefix { operator: String, right: Box<Expression> },
    Infix { left: Box<Expression>, right: Box<Expression>, operator: String },
    Boolean(bool),
    IfExpression {
        condition: Box<Expression>,
        consequence: BlockStatement,
        alternative: Option<BlockStatement>,
    },
    /// The parameter list and body sit behind `Rc` so that a function object
    /// produced by the evaluator can share them with the tree it came from.
    FunctionLiteral { parameters: Rc<Vec<Identifier>>, body: Rc<BlockStatement> },
    CallExpression { function: Box<Expression>, arguments: Vec<Expression> },
}

/// A brace-delimited statement sequence, used as `if` and function bodies.
#[derive(PartialEq, Debug)]
pub struct BlockStatement(pub Vec<Statement>);

/// Mathematical model of an expression: the same tree over `Seq` and `int`,
/// free of `Vec`, `String` and `Rc`, so that specifications can build one.
pub enum ExprV {
    Integer(i64),
    Ident { name: Seq<char> },
    Prefix { operator: Seq<char>, right: Box<ExprV> },
    Infix { left: Box<ExprV>, operator: Seq<char>, right: Box<ExprV> },
    Boolean(bool),
    If { condition: Box<ExprV>, consequence: Seq<StmtV>, alternative: Option<Seq<StmtV>> },
    Function { parameters: Seq<Seq<char>>, body: Seq<StmtV> },
    Call { function: Box<ExprV>, arguments: Seq<ExprV> },
}

/// Mathematical model of a statement.
pub enum StmtV {
    Let { name: Seq<char>, value: ExprV },
    Return { value: ExprV },
    Expr { value: ExprV },
}

pub open spec fn expr_view(e: Expression) -> ExprV
    decreases e,
{
    match e {
        Expression::IntegerLiteral(v) => ExprV::Integer(v),
        Expression::Identifier(name) => ExprV::Ident { name: name@ },
        Expression::Prefix { operator, right } => ExprV::Prefix {
            operator: operator@,
            right: Box::new(expr_view(*right)),
        },
        Expression::Infix { left, right, operator } => ExprV::Infix {
            left: Box::new(expr_view(*left)),
            operator: operator@,
            right: Box::new(expr_view(*right)),
        },
        Expression::Boolean(v) => ExprV::Boolean(v),
        Expression::IfExpression { condition, consequence, alternative } => ExprV::If {
            condition: Box::new(expr_view(*condition)),
            consequence: block_view(consequence),
            alternative: match alternative {
                Some(b) => Some(block_view(b)),
                None => None,
            },
        },
        Expression::FunctionLiteral { parameters, body } => ExprV::Function {
            parameters: params_view(*parameters),
            body: block_view(*body),
        },
        Expression::CallExpression { function, arguments } => ExprV::Call {
            function: Box::new(expr_view(*function)),
            arguments: exprs_view(arguments@),
        },
    }
}

pub open spec fn exprs_view(s: Seq<Expression>) -> Seq<ExprV>
    decreases s,
{
    if s.len() == 0 {
        Seq::empty()
    } else {
        seq![expr_view(s[0])] + exprs_view(s.drop_first())
    }
}

pub open spec fn stmt_view(s: Statement) -> StmtV
    decreases s,
{
    match s {
        Statement::Let { name, value } => StmtV::Let { name: name@, value: expr_view(value) },
        Statement::Return(value) => StmtV::Return { value: expr_view(value) },
        Statement::Expression(value) => StmtV::Expr { value: expr_view(value) },
    }
}

pub open spec fn stmts_view(s: Seq<Statement>) -> Seq<StmtV>
    decreases s,
{
    if s.len() == 0 {
        Seq::empty()
    } else {
        seq![stmt_view(s[0])] + stmts_view(s.drop_first())
    }
}

pub open spec fn block_view(b: BlockStatement) -> Seq<StmtV>
    decreases b,
{
    stmts_view(b.0@)
}

pub open spec fn idents_view(s: Seq<Identifier>) -> Seq<Seq<char>> {
    s.map_values(|x: Identifier| x@)
}

pub open spec fn params_view(p: Vec<Identifier>) -> Seq<Seq<char>> {
    idents_view(p@)
}

pub open spec fn program_view(p: Program) -> Seq<StmtV> {
    stmts_view(p.statements@)
}


/// Appending an expression to a sequence appends its model to the model.
pub proof fn lemma_exprs_view_push(s: Seq<Expression>, e: Expression)
    ensures
        exprs_view(s.push(e)) == exprs_view(s).push(expr_view(e)),
    decreases s.len(),
{
    if s.len() == 0 {
        assert(s.push(e).drop_first() =~= Seq::<Expression>::empty());
        assert(exprs_view(Seq::<Expression>::empty()) =~= Seq::<ExprV>::empty());
        assert(exprs_view(s.push(e)) =~= exprs_view(s).push(expr_view(e)));
    } else {
        lemma_exprs_view_push(s.drop_first(), e);
        assert(s.push(e).drop_first() =~= s.drop_first().push(e));
        assert(s.push(e)[0] == s[0]);
        assert(exprs_view(s.push(e)) =~= exprs_view(s).push(expr_view(e)));
    }
}

impl Statement {
    pub fn new_let(identifier: &str, value: Expression) -> (s: Self)
        ensures
            stmt_view(s) == (StmtV::Let { name: identifier@, value: expr_view(value) }),
    {
        Statement::Let { name: identifier.to_owned(), value }
    }

    pub fn new_return(return_value: Expression) -> (s: Self)
        ensures
            stmt_view(s) == (StmtV::Return { value: expr_view(return_value) }),
    {
        Statement::Return(return_value)
    }

    pub fn new_expression(expression: Expression) -> (s: Self)
        ensures
            stmt_view(s) == (StmtV::Expr { value: expr_view(expression) }),
    {
        Statement::Expression(expression)
    }
}

impl Expression {
    pub fn new_integer(value: i64) -> (e: Expression)
        ensures
            expr_view(e) == ExprV::Integer(value),
    {
        Expression::IntegerLiteral(value)
    }

    pub fn new_identifier(value: &str) -> (e: Self)
        ensures
            expr_view(e) == (ExprV::Ident { name: value@ }),
    {
        Expression::Identifier(value.to_owned())
    }

    pub fn new_prefix(operator: &str, right: Expression) -> (e: Self)
        ensures
            expr_view(e) == (ExprV::Prefix {
                operator: operator@,
                right: Box::new(expr_view(right)),
            }),
    {
        Expression::Prefix { operator: operator.to_owned(), right: Box::new(right) }
    }

    pub fn new_infix(operator: &str, left: Expression, right: Expression) -> (e: Self)
        ensures
            expr_view(e) == (ExprV::Infix {
                left: Box::new(expr_view(left)),
                operator: operator@,
                right: Box::new(expr_view(right)),
            }),
    {
        Expression::Infix {
            left: Box::new(left),
            right: Box::new(right),
            operator: operator.to_owned(),
        }
    }

    pub fn new_boolean(value: bool) -> (e: Self)
        ensures
            expr_view(e) == ExprV::Boolean(value),
    {
        Expression::Boolean(value)
    }

    pub fn new_if(
        condition: Expression,
        consequence: BlockStatement,
        alternative: Option<BlockStatement>,
    ) -> (e: Self)
        ensures
            expr_view(e) == (ExprV::If {
                condition: Box::new(expr_view(condition)),
                consequence: block_view(consequence),
                alternative: match alternative {
                    Some(b) => Some(block_view(b)),
                    None => None,
                },
            }),
    {
        Expression::IfExpression { condition: Box::new(condition), consequence, alternative }
    }

    pub fn new_function_literal(parameters: Vec<Identifier>, body: BlockStatement) -> (e: Self)
        ensures
            expr_view(e) == (ExprV::Function {
                parameters: params_view(parameters),
                body: block_view(body),
            }),
    {
        Expression::FunctionLiteral { parameters: Rc::new(parameters), body: Rc::new(body) }
    }

    pub fn new_call_expression(function: Expression, arguments: Vec<Expression>) -> (e: Self)
        ensures
            expr_view(e) == (ExprV::Call {
                function: Box::new(expr_view(function)),
                arguments: exprs_view(arguments@),
            }),
    {
        Expression::CallExpression { function: Box::new(function), arguments }
    }
}

impl BlockStatement {
    pub fn new(statements: Vec<Statement>) -> (b: Self)
        ensures
            block_view(b) == stmts_view(statements@),
    {
        BlockStatement(statements)
    }
}

} // verus!
