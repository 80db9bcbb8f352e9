use vstd::prelude::*;
use std::rc::Rc;
use crate::ast::BlockStatement;
use crate::ast::Identifier;

verus! {

/// The dynamic type of a runtime value, as named in error diagnostics.
#[derive(Clone, Copy, PartialEq, Eq, Structural, Debug)]
pub enum TypeName {
    Integer,
    Boolean,
    Null,
    Function,
}

/// A runtime value. A function value carries its parameter list and body,
/// shared with the syntax tree it was made from, and the index of the scope
/// it captured (lexical scoping).
#[derive(PartialEq, Debug)]
pub enum Object {
    Integer(i64),
    Boolean(bool),
    Null,
    Function { parameters: Rc<Vec<Identifier>>, body: Rc<BlockStatement>, env: usize },
}

/// A runtime fault. Once produced it propagates unchanged through every
/// enclosing evaluation step until the top level reports it.
#[derive(PartialEq, Debug)]
pub enum RuntimeError {
    IdentifierNotFound { name: String },
    TypeMismatch { operator: String, left: TypeName, right: TypeName },
    UnknownPrefixOperator { operator: String, operand: TypeName },
    UnknownInfixOperator { operator: String, left: TypeName, right: TypeName },
    NotAFunction { callee: TypeName },
    WrongNumberOfArguments { expected: usize, found: usize },
    DivisionByZero,
    /// An arithmetic result fell outside the 64-bit signed range.
    IntegerOverflow { operator: String },
    /// Function calls nested deeper than the fuel the caller allowed.
    CallDepthExceeded,
    /// A function value captured a scope of some other `Environment`; calling
    /// it here cannot reach that scope.
    InvalidEnvironment,
}

/// The outcome of one evaluation step: an ordinary value, a value wrapped by
/// `return` that unwinds to the nearest call boundary, or a fault.
#[derive(PartialEq, Debug)]
pub enum Flow {
    Value(Object),
    ReturnSignal(Object),
    Error(RuntimeError),
}

/// Relies on `Rc::clone`: the returned handle shares the same allocation,
/// hence denotes the same value.
#[verifier::external_body]
pub(crate) fn rc_clone<T>(rc: &Rc<T>) -> (res: Rc<T>)
    ensures
        res == *rc,
{
    Rc::clone(rc)
}

impl Object {
    pub open spec fn type_of(self) -> TypeName {
        match self {
            Object::Integer(_) => TypeName::Integer,
            Object::Boolean(_) => TypeName::Boolean,
            Object::Null => TypeName::Null,
            Object::Function { .. } => TypeName::Function,
        }
    }

    /// The dynamic type of this value.
    pub fn kind(&self) -> (t: TypeName)
        ensures
            t == self.type_of(),
    {
        match self {
            Object::Integer(_) => TypeName::Integer,
            Object::Boolean(_) => TypeName::Boolean,
            Object::Null => TypeName::Null,
            Object::Function { .. } => TypeName::Function,
        }
    }

    /// An equal copy of this value; a function value shares its parameter
    /// list, body and captured scope with the original.
    pub fn duplicate(&self) -> (r: Object)
        ensures
            r == *self,
    {
        match self {
            Object::Integer(v) => Object::Integer(*v),
            Object::Boolean(b) => Object::Boolean(*b),
            Object::Null => Object::Null,
            Object::Function { parameters, body, env } => Object::Function {
                parameters: rc_clone(parameters),
                body: rc_clone(body),
                env: *env,
            },
        }
    }

    /// Truthiness: every value is truthy except `false` and `Null`.
    pub open spec fn spec_truthy(self) -> bool {
        !(self == Object::Null || self == Object::Boolean(false))
    }

    /// Whether this value counts as true in a conditional position.
    pub fn is_truthy(&self) -> (r: bool)
        ensures
            r == self.spec_truthy(),
    {
        match self {
            Object::Null => false,
            Object::Boolean(b) => *b,
            _ => true,
        }
    }
}

} // verus!
