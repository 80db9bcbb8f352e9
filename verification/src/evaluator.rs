use vstd::prelude::*;
use crate::ast::BlockStatement;
use crate::ast::Expression;
use crate::ast::Identifier;
use crate::ast::Program;
use crate::ast::Statement;
use crate::environment::Binding;
use crate::environment::EnvModel;
use crate::environment::Environment;
use crate::environment::env_wf;
use crate::environment::lookup;
use crate::environment::lookup_local;
use crate::object::Flow;
use crate::object::Object;
use crate::object::RuntimeError;
use crate::object::rc_clone;
use crate::support::str_eq;

verus! {

/// What a prefix operator yields on an operand: `!` negates truthiness of any
/// value, `-` negates an integer, and everything else is a fault.
pub open spec fn spec_eval_prefix(op: String, o: Object) -> Flow {
    if op@ == "!"@ {
        Flow::Value(Object::Boolean(!o.spec_truthy()))
    } else if op@ == "-"@ {
        match o {
            Object::Integer(v) => if v == i64::MIN {
                Flow::Error(RuntimeError::IntegerOverflow { operator: op })
            } else {
                Flow::Value(Object::Integer((-v) as i64))
            },
            _ => Flow::Error(
                RuntimeError::UnknownPrefixOperator { operator: op, operand: o.type_of() },
            ),
        }
    } else {
        Flow::Error(RuntimeError::UnknownPrefixOperator { operator: op, operand: o.type_of() })
    }
}

/// What an infix operator yields on two operands. Arithmetic and relational
/// operators take two integers; equality also takes two booleans; division
/// truncates toward zero; operands of two different types are a type
/// mismatch, anything else undefined is an unknown operator.
pub open spec fn spec_eval_infix(op: String, l: Object, r: Object) -> Flow {
    match (l, r) {
        (Object::Integer(a), Object::Integer(b)) => {
            if op@ == "+"@ {
                match a.checked_add(b) {
                    Some(c) => Flow::Value(Object::Integer(c)),
                    None => Flow::Error(RuntimeError::IntegerOverflow { operator: op }),
                }
            } else if op@ == "-"@ {
                match a.checked_sub(b) {
                    Some(c) => Flow::Value(Object::Integer(c)),
                    None => Flow::Error(RuntimeError::IntegerOverflow { operator: op }),
                }
            } else if op@ == "*"@ {
                match a.checked_mul(b) {
                    Some(c) => Flow::Value(Object::Integer(c)),
                    None => Flow::Error(RuntimeError::IntegerOverflow { operator: op }),
                }
            } else if op@ == "/"@ {
                if b == 0 {
                    Flow::Error(RuntimeError::DivisionByZero)
                } else {
                    match a.checked_div(b) {
                        Some(c) => Flow::Value(Object::Integer(c)),
                        None => Flow::Error(RuntimeError::IntegerOverflow { operator: op }),
                    }
                }
            } else if op@ == "<"@ {
                Flow::Value(Object::Boolean(a < b))
            } else if op@ == ">"@ {
                Flow::Value(Object::Boolean(a > b))
            } else if op@ == "=="@ {
                Flow::Value(Object::Boolean(a == b))
            } else if op@ == "!="@ {
                Flow::Value(Object::Boolean(a != b))
            } else {
                Flow::Error(
                    RuntimeError::UnknownInfixOperator {
                        operator: op,
                        left: l.type_of(),
                        right: r.type_of(),
                    },
                )
            }
        },
        (Object::Boolean(a), Object::Boolean(b)) => {
            if op@ == "=="@ {
                Flow::Value(Object::Boolean(a == b))
            } else if op@ == "!="@ {
                Flow::Value(Object::Boolean(a != b))
            } else {
                Flow::Error(
                    RuntimeError::UnknownInfixOperator {
                        operator: op,
                        left: l.type_of(),
                        right: r.type_of(),
                    },
                )
            }
        },
        (lo, ro) => {
            if lo.type_of() == ro.type_of() {
                Flow::Error(
                    RuntimeError::UnknownInfixOperator {
                        operator: op,
                        left: lo.type_of(),
                        right: ro.type_of(),
                    },
                )
            } else {
                Flow::Error(
                    RuntimeError::TypeMismatch {
                        operator: op,
                        left: lo.type_of(),
                        right: ro.type_of(),
                    },
                )
            }
        },
    }
}

/// The environment after binding each parameter to its argument, in order,
/// in scope `scope`.
pub open spec fn spec_bind_params(
    m: EnvModel,
    scope: usize,
    names: Seq<Identifier>,
    vals: Seq<Object>,
) -> EnvModel
    decreases names.len(),
{
    if names.len() == 0 || vals.len() == 0 {
        m
    } else {
        spec_bind_params(
            EnvModel {
                bindings: m.bindings.push(
                    Binding { scope, name: names[0], value: vals[0] },
                ),
                outer: m.outer,
            },
            scope,
            names.drop_first(),
            vals.drop_first(),
        )
    }
}

/// One evaluation step of an expression in scope `env` against environment
/// model `m`, with `fuel` bounding the depth of function calls still allowed.
/// The result is the flow of control and the environment afterwards.
pub open spec fn spec_eval_expr(e: Expression, env: usize, m: EnvModel, fuel: nat) -> (Flow, EnvModel)
    decreases fuel, e, 2int,
{
    match e {
        Expression::IntegerLiteral(v) => (Flow::Value(Object::Integer(v)), m),
        Expression::Boolean(v) => (Flow::Value(Object::Boolean(v)), m),
        Expression::Identifier(name) => (
            match lookup(m, env as int, name@) {
                Some(o) => Flow::Value(o),
                None => Flow::Error(RuntimeError::IdentifierNotFound { name }),
            },
            m,
        ),
        Expression::Prefix { operator, right } => {
            let (f, m1) = spec_eval_expr(*right, env, m, fuel);
            match f {
                Flow::Value(o) => (spec_eval_prefix(operator, o), m1),
                _ => (f, m1),
            }
        },
        Expression::Infix { left, right, operator } => {
            let (lf, m1) = spec_eval_expr(*left, env, m, fuel);
            match lf {
                Flow::Value(lo) => {
                    let (rf, m2) = spec_eval_expr(*right, env, m1, fuel);
                    match rf {
                        Flow::Value(ro) => (spec_eval_infix(operator, lo, ro), m2),
                        _ => (rf, m2),
                    }
                },
                _ => (lf, m1),
            }
        },
        Expression::IfExpression { condition, consequence, alternative } => {
            let (cf, m1) = spec_eval_expr(*condition, env, m, fuel);
            match cf {
                Flow::Value(c) => {
                    if c.spec_truthy() {
                        spec_eval_block(consequence, env, m1, fuel)
                    } else {
                        match alternative {
                            Some(b) => spec_eval_block(b, env, m1, fuel),
                            None => (Flow::Value(Object::Null), m1),
                        }
                    }
                },
                _ => (cf, m1),
            }
        },
        Expression::FunctionLiteral { parameters, body } => (
            Flow::Value(Object::Function { parameters, body, env }),
            m,
        ),
        Expression::CallExpression { function, arguments } => {
            let (ff, m1) = spec_eval_expr(*function, env, m, fuel);
            match ff {
                Flow::Value(callee) => {
                    let (ar, m2) = spec_eval_args(arguments@, env, m1, fuel);
                    match ar {
                        Ok(vals) => match callee {
                            Object::Function { parameters, body, env: fenv } => {
                                if fuel == 0 {
                                    (Flow::Error(RuntimeError::CallDepthExceeded), m2)
                                } else if fenv >= m2.outer.len() {
                                    (Flow::Error(RuntimeError::InvalidEnvironment), m2)
                                } else if (*parameters)@.len() != vals.len() {
                                    (
                                        Flow::Error(
                                            RuntimeError::WrongNumberOfArguments {
                                                expected: (*parameters)@.len() as usize,
                                                found: vals.len() as usize,
                                            },
                                        ),
                                        m2,
                                    )
                                } else {
                                    let scope = m2.outer.len() as usize;
                                    let m3 = EnvModel {
                                        bindings: m2.bindings,
                                        outer: m2.outer.push(Some(fenv)),
                                    };
                                    let m4 = spec_bind_params(m3, scope, (*parameters)@, vals);
                                    let (bf, m5) = spec_eval_block(
                                        *body,
                                        scope,
                                        m4,
                                        (fuel - 1) as nat,
                                    );
                                    match bf {
                                        Flow::ReturnSignal(v) => (Flow::Value(v), m5),
                                        _ => (bf, m5),
                                    }
                                }
                            },
                            _ => (
                                Flow::Error(
                                    RuntimeError::NotAFunction { callee: callee.type_of() },
                                ),
                                m2,
                            ),
                        },
                        Err(f) => (f, m2),
                    }
                },
                _ => (ff, m1),
            }
        },
    }
}

/// The argument expressions evaluated left to right; the first non-value
/// flow, if any, is propagated and the remaining arguments are not evaluated.
pub open spec fn spec_eval_args(args: Seq<Expression>, env: usize, m: EnvModel, fuel: nat) -> (
    Result<Seq<Object>, Flow>,
    EnvModel,
)
    decreases fuel, args, 0int,
{
    if args.len() == 0 {
        (Ok(Seq::empty()), m)
    } else {
        let (f, m1) = spec_eval_expr(args[0], env, m, fuel);
        match f {
            Flow::Value(o) => {
                let (r, m2) = spec_eval_args(args.drop_first(), env, m1, fuel);
                match r {
                    Ok(rest) => (Ok(seq![o] + rest), m2),
                    Err(ff) => (Err(ff), m2),
                }
            },
            _ => (Err(f), m1),
        }
    }
}

/// One statement: `let` evaluates and binds in the current scope and itself
/// yields `Null`; `return` wraps its value in a return signal; an expression
/// statement yields its value. Faults propagate unchanged.
pub open spec fn spec_eval_stmt(s: Statement, env: usize, m: EnvModel, fuel: nat) -> (
    Flow,
    EnvModel,
)
    decreases fuel, s, 0int,
{
    match s {
        Statement::Let { name, value } => {
            let (f, m1) = spec_eval_expr(value, env, m, fuel);
            match f {
                Flow::Value(o) => (
                    Flow::Value(Object::Null),
                    EnvModel {
                        bindings: m1.bindings.push(Binding { scope: env, name, value: o }),
                        outer: m1.outer,
                    },
                ),
                _ => (f, m1),
            }
        },
        Statement::Return(value) => {
            let (f, m1) = spec_eval_expr(value, env, m, fuel);
            match f {
                Flow::Value(o) => (Flow::ReturnSignal(o), m1),
                _ => (f, m1),
            }
        },
        Statement::Expression(value) => spec_eval_expr(value, env, m, fuel),
    }
}

/// A statement sequence: statements run in order; a return signal or a fault
/// stops the sequence at once and is the sequence's result; otherwise the
/// result is the last statement's value, `Null` when there are none.
pub open spec fn spec_eval_stmts(stmts: Seq<Statement>, env: usize, m: EnvModel, fuel: nat) -> (
    Flow,
    EnvModel,
)
    decreases fuel, stmts, 1int,
{
    if stmts.len() == 0 {
        (Flow::Value(Object::Null), m)
    } else {
        let (f, m1) = spec_eval_stmt(stmts[0], env, m, fuel);
        if stmts.len() == 1 {
            (f, m1)
        } else {
            match f {
                Flow::Value(_) => spec_eval_stmts(stmts.drop_first(), env, m1, fuel),
                _ => (f, m1),
            }
        }
    }
}

pub open spec fn spec_eval_block(b: BlockStatement, env: usize, m: EnvModel, fuel: nat) -> (
    Flow,
    EnvModel,
)
    decreases fuel, b, 2int,
{
    spec_eval_stmts(b.0@, env, m, fuel)
}

/// A whole program: its statements run in order; a return signal is unwrapped
/// to its carried value, and a fault is the program's error result.
pub open spec fn spec_eval_program(p: Program, env: usize, m: EnvModel, fuel: nat) -> (
    Result<Object, RuntimeError>,
    EnvModel,
) {
    let (f, m1) = spec_eval_stmts(p.statements@, env, m, fuel);
    match f {
        Flow::Value(o) => (Ok(o), m1),
        Flow::ReturnSignal(o) => (Ok(o), m1),
        Flow::Error(e) => (Err(e), m1),
    }
}

/// A value whose captured scope, if it has one, lies below `n`.
pub open spec fn obj_scoped(o: Object, n: int) -> bool {
    match o {
        Object::Function { env, .. } => (env as int) < n,
        _ => true,
    }
}

/// A flow whose carried value is scoped below `n`; a fault never reports a
/// missing scope.
pub open spec fn flow_scoped(f: Flow, n: int) -> bool {
    match f {
        Flow::Value(o) => obj_scoped(o, n),
        Flow::ReturnSignal(o) => obj_scoped(o, n),
        Flow::Error(e) => e != RuntimeError::InvalidEnvironment,
    }
}

/// Every value stored anywhere in the environment captures a live scope.
pub open spec fn env_scoped(m: EnvModel) -> bool {
    forall|i: int|
        0 <= i < m.bindings.len() ==> obj_scoped(
            #[trigger] m.bindings[i].value,
            m.outer.len() as int,
        )
}

proof fn lemma_lookup_local_scoped(bindings: Seq<Binding>, scope: int, name: Seq<char>, n: int)
    requires
        forall|i: int| 0 <= i < bindings.len() ==> obj_scoped(#[trigger] bindings[i].value, n),
    ensures
        lookup_local(bindings, scope, name) matches Some(o) ==> obj_scoped(o, n),
    decreases bindings.len(),
{
    if bindings.len() > 0 {
        lemma_lookup_local_scoped(bindings.drop_last(), scope, name, n);
    }
}

proof fn lemma_lookup_scoped(m: EnvModel, scope: int, name: Seq<char>)
    requires
        env_scoped(m),
    ensures
        lookup(m, scope, name) matches Some(o) ==> obj_scoped(o, m.outer.len() as int),
    decreases scope,
{
    lemma_lookup_local_scoped(m.bindings, scope, name, m.outer.len() as int);
    if lookup_local(m.bindings, scope, name) is None {
        if 0 <= scope < m.outer.len() {
            match m.outer[scope] {
                Some(o) => {
                    if 0 <= o < scope {
                        lemma_lookup_scoped(m, o as int, name);
                    }
                },
                None => {},
            }
        }
    }
}

proof fn lemma_bind_params_scoped(m: EnvModel, scope: usize, names: Seq<Identifier>, vals: Seq<Object>)
    requires
        env_wf(m),
        env_scoped(m),
        scope < m.outer.len(),
        forall|i: int| 0 <= i < vals.len() ==> obj_scoped(#[trigger] vals[i], m.outer.len() as int),
    ensures
        ({
            let m2 = spec_bind_params(m, scope, names, vals);
            &&& m2.outer == m.outer
            &&& env_wf(m2)
            &&& env_scoped(m2)
        }),
    decreases names.len(),
{
    if names.len() != 0 && vals.len() != 0 {
        let m1 = EnvModel {
            bindings: m.bindings.push(Binding { scope, name: names[0], value: vals[0] }),
            outer: m.outer,
        };
        assert(env_scoped(m1));
        assert(forall|i: int|
            0 <= i < vals.drop_first().len() ==> obj_scoped(
                #[trigger] vals.drop_first()[i],
                m1.outer.len() as int,
            ));
        lemma_bind_params_scoped(m1, scope, names.drop_first(), vals.drop_first());
    }
}

/// Within one environment, every function value that evaluation makes, binds
/// or returns captures a scope of that same environment, so a call never
/// meets a function whose scope is missing: the missing-scope fault arises
/// only when a function value is carried into some other environment.
pub proof fn lemma_eval_expr_scoped(e: Expression, env: usize, m: EnvModel, fuel: nat)
    requires
        env_wf(m),
        env_scoped(m),
        env < m.outer.len(),
    ensures
        ({
            let (f, m2) = spec_eval_expr(e, env, m, fuel);
            &&& env_wf(m2)
            &&& env_scoped(m2)
            &&& m2.outer.len() >= m.outer.len()
            &&& flow_scoped(f, m2.outer.len() as int)
        }),
    decreases fuel, e, 2int,
{
    match e {
        Expression::IntegerLiteral(_) => {},
        Expression::Boolean(_) => {},
        Expression::Identifier(name) => {
            lemma_lookup_scoped(m, env as int, name@);
        },
        Expression::Prefix { operator, right } => {
            lemma_eval_expr_scoped(*right, env, m, fuel);
        },
        Expression::Infix { left, right, operator } => {
            lemma_eval_expr_scoped(*left, env, m, fuel);
            let (lf, m1) = spec_eval_expr(*left, env, m, fuel);
            if lf is Value {
                lemma_eval_expr_scoped(*right, env, m1, fuel);
            }
        },
        Expression::IfExpression { condition, consequence, alternative } => {
            lemma_eval_expr_scoped(*condition, env, m, fuel);
            let (cf, m1) = spec_eval_expr(*condition, env, m, fuel);
            if cf is Value {
                let c = cf->Value_0;
                if c.spec_truthy() {
                    lemma_eval_block_scoped(&consequence, env, m1, fuel);
                } else {
                    match alternative {
                        Some(b) => {
                            lemma_eval_block_scoped(&b, env, m1, fuel);
                        },
                        None => {},
                    }
                }
            }
        },
        Expression::FunctionLiteral { .. } => {},
        Expression::CallExpression { function, arguments } => {
            lemma_eval_expr_scoped(*function, env, m, fuel);
            let (ff, m1) = spec_eval_expr(*function, env, m, fuel);
            if ff is Value {
                let callee = ff->Value_0;
                lemma_eval_args_scoped(arguments@, env, m1, fuel);
                let (ar, m2) = spec_eval_args(arguments@, env, m1, fuel);
                if ar is Ok {
                    let vals = ar->Ok_0;
                    match &callee {
                        Object::Function { parameters, body, env: fenv } => {
                            if fuel != 0 && (**parameters)@.len() == vals.len() {
                                let scope = m2.outer.len() as usize;
                                let m3 = EnvModel {
                                    bindings: m2.bindings,
                                    outer: m2.outer.push(Some(*fenv)),
                                };
                                assert(env_wf(m3));
                                assert(env_scoped(m3));
                                lemma_bind_params_scoped(m3, scope, (**parameters)@, vals);
                                let m4 = spec_bind_params(m3, scope, (**parameters)@, vals);
                                lemma_eval_block_scoped(&**body, scope, m4, (fuel - 1) as nat);
                            }
                        },
                        _ => {},
                    }
                }
            }
        },
    }
}

proof fn lemma_eval_args_scoped(args: Seq<Expression>, env: usize, m: EnvModel, fuel: nat)
    requires
        env_wf(m),
        env_scoped(m),
        env < m.outer.len(),
    ensures
        ({
            let (r, m2) = spec_eval_args(args, env, m, fuel);
            &&& env_wf(m2)
            &&& env_scoped(m2)
            &&& m2.outer.len() >= m.outer.len()
            &&& match r {
                Ok(vals) => forall|i: int|
                    0 <= i < vals.len() ==> obj_scoped(#[trigger] vals[i], m2.outer.len() as int),
                Err(f) => flow_scoped(f, m2.outer.len() as int),
            }
        }),
    decreases fuel, args, 0int,
{
    if args.len() != 0 {
        lemma_eval_expr_scoped(args[0], env, m, fuel);
        let (f, m1) = spec_eval_expr(args[0], env, m, fuel);
        if f matches Flow::Value(o) {
            lemma_eval_args_scoped(args.drop_first(), env, m1, fuel);
        }
    }
}

proof fn lemma_eval_stmt_scoped(s: Statement, env: usize, m: EnvModel, fuel: nat)
    requires
        env_wf(m),
        env_scoped(m),
        env < m.outer.len(),
    ensures
        ({
            let (f, m2) = spec_eval_stmt(s, env, m, fuel);
            &&& env_wf(m2)
            &&& env_scoped(m2)
            &&& m2.outer.len() >= m.outer.len()
            &&& flow_scoped(f, m2.outer.len() as int)
        }),
    decreases fuel, s, 0int,
{
    match s {
        Statement::Let { name, value } => {
            lemma_eval_expr_scoped(value, env, m, fuel);
        },
        Statement::Return(value) => {
            lemma_eval_expr_scoped(value, env, m, fuel);
        },
        Statement::Expression(value) => {
            lemma_eval_expr_scoped(value, env, m, fuel);
        },
    }
}

proof fn lemma_eval_stmts_scoped(stmts: Seq<Statement>, env: usize, m: EnvModel, fuel: nat)
    requires
        env_wf(m),
        env_scoped(m),
        env < m.outer.len(),
    ensures
        ({
            let (f, m2) = spec_eval_stmts(stmts, env, m, fuel);
            &&& env_wf(m2)
            &&& env_scoped(m2)
            &&& m2.outer.len() >= m.outer.len()
            &&& flow_scoped(f, m2.outer.len() as int)
        }),
    decreases fuel, stmts, 1int,
{
    if stmts.len() != 0 {
        lemma_eval_stmt_scoped(stmts[0], env, m, fuel);
        let (f, m1) = spec_eval_stmt(stmts[0], env, m, fuel);
        if stmts.len() > 1 && f is Value {
            lemma_eval_stmts_scoped(stmts.drop_first(), env, m1, fuel);
        }
    }
}

proof fn lemma_eval_block_scoped(b: &BlockStatement, env: usize, m: EnvModel, fuel: nat)
    requires
        env_wf(m),
        env_scoped(m),
        env < m.outer.len(),
    ensures
        ({
            let (f, m2) = spec_eval_block(*b, env, m, fuel);
            &&& env_wf(m2)
            &&& env_scoped(m2)
            &&& m2.outer.len() >= m.outer.len()
            &&& flow_scoped(f, m2.outer.len() as int)
        }),
    decreases fuel, *b, 2int,
{
    lemma_eval_stmts_scoped(b.0@, env, m, fuel);
}

/// Return and error short-circuit: when a statement sequence's first
/// statement yields anything but an ordinary value — a return signal or a
/// fault — that flow is the whole sequence's result, and no later statement
/// has any effect on it or on the environment.
pub proof fn lemma_stmts_short_circuit(stmts: Seq<Statement>, env: usize, m: EnvModel, fuel: nat)
    requires
        stmts.len() > 0,
        !(spec_eval_stmt(stmts[0], env, m, fuel).0 is Value),
    ensures
        spec_eval_stmts(stmts, env, m, fuel) == spec_eval_stmt(stmts[0], env, m, fuel),
{
}

/// Error propagation through a conditional: when the condition evaluates to
/// a fault, the whole `if` evaluates to that same fault, and neither branch
/// is evaluated.
pub proof fn lemma_if_error_propagates(
    cond: Expression,
    cons: BlockStatement,
    alt: Option<BlockStatement>,
    env: usize,
    m: EnvModel,
    fuel: nat,
)
    requires
        spec_eval_expr(cond, env, m, fuel).0 is Error,
    ensures
        spec_eval_expr(
            Expression::IfExpression {
                condition: Box::new(cond),
                consequence: cons,
                alternative: alt,
            },
            env,
            m,
            fuel,
        ) == spec_eval_expr(cond, env, m, fuel),
{
}

/// Mixing an integer and a boolean under any infix operator is always a
/// type-mismatch fault naming the two operand types.
pub proof fn lemma_mixed_operands_mismatch(op: String, a: i64, b: bool)
    ensures
        spec_eval_infix(op, Object::Integer(a), Object::Boolean(b)) == Flow::Error(
            RuntimeError::TypeMismatch {
                operator: op,
                left: crate::object::TypeName::Integer,
                right: crate::object::TypeName::Boolean,
            },
        ),
{
}

fn apply_prefix(op: &String, o: Object) -> (r: Flow)
    ensures
        r == spec_eval_prefix(*op, o),
{
    if str_eq(op.as_str(), "!") {
        Flow::Value(Object::Boolean(!o.is_truthy()))
    } else if str_eq(op.as_str(), "-") {
        match o {
            Object::Integer(v) => {
                if v == i64::MIN {
                    Flow::Error(RuntimeError::IntegerOverflow { operator: op.clone() })
                } else {
                    Flow::Value(Object::Integer(-v))
                }
            },
            _ => Flow::Error(
                RuntimeError::UnknownPrefixOperator { operator: op.clone(), operand: o.kind() },
            ),
        }
    } else {
        Flow::Error(
            RuntimeError::UnknownPrefixOperator { operator: op.clone(), operand: o.kind() },
        )
    }
}

#[verifier::rlimit(40)]
fn apply_infix(op: &String, l: Object, r: Object) -> (res: Flow)
    ensures
        res == spec_eval_infix(*op, l, r),
{
    let lk = l.kind();
    let rk = r.kind();
    match (l, r) {
        (Object::Integer(a), Object::Integer(b)) => {
            if str_eq(op.as_str(), "+") {
                match a.checked_add(b) {
                    Some(c) => Flow::Value(Object::Integer(c)),
                    None => Flow::Error(RuntimeError::IntegerOverflow { operator: op.clone() }),
                }
            } else if str_eq(op.as_str(), "-") {
                match a.checked_sub(b) {
                    Some(c) => Flow::Value(Object::Integer(c)),
                    None => Flow::Error(RuntimeError::IntegerOverflow { operator: op.clone() }),
                }
            } else if str_eq(op.as_str(), "*") {
                match a.checked_mul(b) {
                    Some(c) => Flow::Value(Object::Integer(c)),
                    None => Flow::Error(RuntimeError::IntegerOverflow { operator: op.clone() }),
                }
            } else if str_eq(op.as_str(), "/") {
                if b == 0 {
                    Flow::Error(RuntimeError::DivisionByZero)
                } else {
                    match a.checked_div(b) {
                        Some(c) => Flow::Value(Object::Integer(c)),
                        None => Flow::Error(
                            RuntimeError::IntegerOverflow { operator: op.clone() },
                        ),
                    }
                }
            } else if str_eq(op.as_str(), "<") {
                Flow::Value(Object::Boolean(a < b))
            } else if str_eq(op.as_str(), ">") {
                Flow::Value(Object::Boolean(a > b))
            } else if str_eq(op.as_str(), "==") {
                Flow::Value(Object::Boolean(a == b))
            } else if str_eq(op.as_str(), "!=") {
                Flow::Value(Object::Boolean(a != b))
            } else {
                Flow::Error(
                    RuntimeError::UnknownInfixOperator { operator: op.clone(), left: lk, right: rk },
                )
            }
        },
        (Object::Boolean(a), Object::Boolean(b)) => {
            if str_eq(op.as_str(), "==") {
                Flow::Value(Object::Boolean(a == b))
            } else if str_eq(op.as_str(), "!=") {
                Flow::Value(Object::Boolean(a != b))
            } else {
                Flow::Error(
                    RuntimeError::UnknownInfixOperator { operator: op.clone(), left: lk, right: rk },
                )
            }
        },
        (_, _) => {
            if lk == rk {
                Flow::Error(
                    RuntimeError::UnknownInfixOperator { operator: op.clone(), left: lk, right: rk },
                )
            } else {
                Flow::Error(
                    RuntimeError::TypeMismatch { operator: op.clone(), left: lk, right: rk },
                )
            }
        },
    }
}

fn bind_parameters(
    env: &mut Environment,
    scope: usize,
    names: &Vec<Identifier>,
    vals: &Vec<Object>,
    i: usize,
)
    requires
        old(env).wf(),
        scope < old(env)@.outer.len(),
        i <= names@.len(),
        names@.len() == vals@.len(),
    ensures
        final(env).wf(),
        final(env)@ == spec_bind_params(old(env)@, scope, names@.skip(i as int), vals@.skip(i as int)),
        final(env)@.outer == old(env)@.outer,
    decreases names@.len() - i,
{
    if i < names.len() {
        env.set(scope, names[i].clone(), vals[i].duplicate());
        proof {
            assert(names@.skip(i as int)[0] == names@[i as int]);
            assert(vals@.skip(i as int)[0] == vals@[i as int]);
            assert(names@.skip(i as int).drop_first() =~= names@.skip(i as int + 1));
            assert(vals@.skip(i as int).drop_first() =~= vals@.skip(i as int + 1));
        }
        bind_parameters(env, scope, names, vals, i + 1);
    } else {
        proof {
            assert(names@.skip(i as int).len() == 0);
        }
    }
}

/// Evaluate one expression in scope `scope`. `fuel` bounds how deeply
/// function calls may still nest; each call spends one unit.
#[verifier::rlimit(80)]
pub fn eval_expression(e: &Expression, scope: usize, env: &mut Environment, fuel: u64) -> (r: Flow)
    requires
        old(env).wf(),
        scope < old(env)@.outer.len(),
    ensures
        final(env).wf(),
        final(env)@.outer.len() >= old(env)@.outer.len(),
        r == spec_eval_expr(*e, scope, old(env)@, fuel as nat).0,
        final(env)@ == spec_eval_expr(*e, scope, old(env)@, fuel as nat).1,
    decreases fuel, *e, 2int,
{
    match e {
        Expression::IntegerLiteral(v) => Flow::Value(Object::Integer(*v)),
        Expression::Boolean(v) => Flow::Value(Object::Boolean(*v)),
        Expression::Identifier(name) => {
            match env.get(scope, name.as_str()) {
                Some(o) => Flow::Value(o),
                None => Flow::Error(RuntimeError::IdentifierNotFound { name: name.clone() }),
            }
        },
        Expression::Prefix { operator, right } => {
            let f = eval_expression(right, scope, env, fuel);
            match f {
                Flow::Value(o) => apply_prefix(operator, o),
                other => other,
            }
        },
        Expression::Infix { left, right, operator } => {
            let lf = eval_expression(left, scope, env, fuel);
            match lf {
                Flow::Value(lo) => {
                    let rf = eval_expression(right, scope, env, fuel);
                    match rf {
                        Flow::Value(ro) => apply_infix(operator, lo, ro),
                        other => other,
                    }
                },
                other => other,
            }
        },
        Expression::IfExpression { condition, consequence, alternative } => {
            let cf = eval_expression(condition, scope, env, fuel);
            match cf {
                Flow::Value(c) => {
                    if c.is_truthy() {
                        eval_block(consequence, scope, env, fuel)
                    } else {
                        match alternative {
                            Some(b) => eval_block(b, scope, env, fuel),
                            None => Flow::Value(Object::Null),
                        }
                    }
                },
                other => other,
            }
        },
        Expression::FunctionLiteral { parameters, body } => Flow::Value(
            Object::Function {
                parameters: rc_clone(parameters),
                body: rc_clone(body),
                env: scope,
            },
        ),
        Expression::CallExpression { function, arguments } => {
            let ff = eval_expression(function, scope, env, fuel);
            match ff {
                Flow::Value(callee) => {
                    proof {
                        assert(decreases_to!(*e => *arguments));
                        assert(decreases_to!(*arguments => arguments@));
                        assert(arguments@.skip(0) =~= arguments@);
                    }
                    match eval_arguments(arguments, 0, scope, env, fuel) {
                        Ok(vals) => match callee {
                            Object::Function { parameters, body, env: fenv } => {
                                if fuel == 0 {
                                    Flow::Error(RuntimeError::CallDepthExceeded)
                                } else if fenv >= env.scope_count() {
                                    Flow::Error(RuntimeError::InvalidEnvironment)
                                } else if parameters.len() != vals.len() {
                                    Flow::Error(
                                        RuntimeError::WrongNumberOfArguments {
                                            expected: parameters.len(),
                                            found: vals.len(),
                                        },
                                    )
                                } else {
                                    let inner = env.new_enclosed_environment(fenv);
                                    proof {
                                        assert((*parameters)@.skip(0) =~= (*parameters)@);
                                        assert(vals@.skip(0) =~= vals@);
                                    }
                                    bind_parameters(env, inner, &parameters, &vals, 0);
                                    let bf = eval_block(&body, inner, env, fuel - 1);
                                    match bf {
                                        Flow::ReturnSignal(v) => Flow::Value(v),
                                        other => other,
                                    }
                                }
                            },
                            other_callee => Flow::Error(
                                RuntimeError::NotAFunction { callee: other_callee.kind() },
                            ),
                        },
                        Err(f) => f,
                    }
                },
                other => other,
            }
        },
    }
}

fn eval_arguments(
    args: &Vec<Expression>,
    i: usize,
    scope: usize,
    env: &mut Environment,
    fuel: u64,
) -> (r: Result<Vec<Object>, Flow>)
    requires
        old(env).wf(),
        scope < old(env)@.outer.len(),
        i <= args@.len(),
    ensures
        final(env).wf(),
        final(env)@.outer.len() >= old(env)@.outer.len(),
        final(env)@ == spec_eval_args(args@.skip(i as int), scope, old(env)@, fuel as nat).1,
        match r {
            Ok(vals) => spec_eval_args(args@.skip(i as int), scope, old(env)@, fuel as nat).0
                == Ok::<Seq<Object>, Flow>(vals@),
            Err(f) => spec_eval_args(args@.skip(i as int), scope, old(env)@, fuel as nat).0
                == Err::<Seq<Object>, Flow>(f),
        },
    decreases fuel, args@.skip(i as int), 0int,
{
    if i >= args.len() {
        proof {
            assert(args@.skip(i as int).len() == 0);
        }
        Ok(Vec::new())
    } else {
        proof {
            assert(decreases_to!(args@.skip(i as int) => args@.skip(i as int)[0]));
            assert(args@.skip(i as int)[0] == args@[i as int]);
        }
        let f = eval_expression(&args[i], scope, env, fuel);
        match f {
            Flow::Value(o) => {
                proof {
                    assert(args@.skip(i as int).drop_first() =~= args@.skip(i as int + 1));
                    assert(decreases_to!(args@.skip(i as int) => args@.skip(i as int).drop_first()));
                }
                match eval_arguments(args, i + 1, scope, env, fuel) {
                    Ok(mut rest) => {
                        let ghost pre = rest@;
                        rest.insert(0, o);
                        proof {
                            assert(rest@ =~= seq![o] + pre);
                        }
                        Ok(rest)
                    },
                    Err(ff) => Err(ff),
                }
            },
            other => Err(other),
        }
    }
}

/// Evaluate one statement in scope `scope`.
pub fn eval_statement(s: &Statement, scope: usize, env: &mut Environment, fuel: u64) -> (r: Flow)
    requires
        old(env).wf(),
        scope < old(env)@.outer.len(),
    ensures
        final(env).wf(),
        final(env)@.outer.len() >= old(env)@.outer.len(),
        r == spec_eval_stmt(*s, scope, old(env)@, fuel as nat).0,
        final(env)@ == spec_eval_stmt(*s, scope, old(env)@, fuel as nat).1,
    decreases fuel, *s, 0int,
{
    match s {
        Statement::Let { name, value } => {
            let f = eval_expression(value, scope, env, fuel);
            match f {
                Flow::Value(o) => {
                    env.set(scope, name.clone(), o);
                    Flow::Value(Object::Null)
                },
                other => other,
            }
        },
        Statement::Return(value) => {
            let f = eval_expression(value, scope, env, fuel);
            match f {
                Flow::Value(o) => Flow::ReturnSignal(o),
                other => other,
            }
        },
        Statement::Expression(value) => eval_expression(value, scope, env, fuel),
    }
}

fn eval_statements_from(
    v: &Vec<Statement>,
    i: usize,
    scope: usize,
    env: &mut Environment,
    fuel: u64,
) -> (r: Flow)
    requires
        old(env).wf(),
        scope < old(env)@.outer.len(),
        i <= v@.len(),
    ensures
        final(env).wf(),
        final(env)@.outer.len() >= old(env)@.outer.len(),
        r == spec_eval_stmts(v@.skip(i as int), scope, old(env)@, fuel as nat).0,
        final(env)@ == spec_eval_stmts(v@.skip(i as int), scope, old(env)@, fuel as nat).1,
    decreases fuel, v@.skip(i as int), 1int,
{
    if i >= v.len() {
        proof {
            assert(v@.skip(i as int).len() == 0);
        }
        Flow::Value(Object::Null)
    } else {
        proof {
            assert(decreases_to!(v@.skip(i as int) => v@.skip(i as int)[0]));
            assert(v@.skip(i as int)[0] == v@[i as int]);
        }
        let f = eval_statement(&v[i], scope, env, fuel);
        if i + 1 >= v.len() {
            f
        } else {
            match f {
                Flow::Value(_) => {
                    proof {
                        assert(v@.skip(i as int).drop_first() =~= v@.skip(i as int + 1));
                        assert(decreases_to!(v@.skip(i as int) => v@.skip(i as int).drop_first()));
                    }
                    eval_statements_from(v, i + 1, scope, env, fuel)
                },
                other => other,
            }
        }
    }
}

/// Evaluate a block in scope `scope`.
pub fn eval_block(b: &BlockStatement, scope: usize, env: &mut Environment, fuel: u64) -> (r: Flow)
    requires
        old(env).wf(),
        scope < old(env)@.outer.len(),
    ensures
        final(env).wf(),
        final(env)@.outer.len() >= old(env)@.outer.len(),
        r == spec_eval_block(*b, scope, old(env)@, fuel as nat).0,
        final(env)@ == spec_eval_block(*b, scope, old(env)@, fuel as nat).1,
    decreases fuel, *b, 2int,
{
    proof {
        assert(decreases_to!(*b => b.0));
        assert(decreases_to!(b.0 => b.0@));
        assert(b.0@.skip(0) =~= b.0@);
    }
    eval_statements_from(&b.0, 0, scope, env, fuel)
}

/// Evaluate a whole program in scope `scope`: the statements run in order; a
/// `return` at the top level yields its value; the first fault, if any, is
/// the result, and the environment keeps the bindings made before it.
pub fn eval_program(p: &Program, scope: usize, env: &mut Environment, fuel: u64) -> (r: Result<
    Object,
    RuntimeError,
>)
    requires
        old(env).wf(),
        scope < old(env)@.outer.len(),
    ensures
        final(env).wf(),
        final(env)@.outer.len() >= old(env)@.outer.len(),
        r == spec_eval_program(*p, scope, old(env)@, fuel as nat).0,
        final(env)@ == spec_eval_program(*p, scope, old(env)@, fuel as nat).1,
{
    proof {
        assert(p.statements@.skip(0) =~= p.statements@);
    }
    let f = eval_statements_from(&p.statements, 0, scope, env, fuel);
    match f {
        Flow::Value(o) => Ok(o),
        Flow::ReturnSignal(o) => Ok(o),
        Flow::Error(e) => Err(e),
    }
}

} // verus!
