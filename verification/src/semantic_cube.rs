//! The semantic cube: the static table taking a pair of operand types and
//! an operator to the result type, or to a type error.

use vstd::prelude::*;
use crate::lang::{BinOp, Type};

verus! {

/// The content of the cube. Arithmetic on two `int`s yields `int`, except
/// division, which always yields `float`; any `float` operand promotes the
/// result to `float`. Relational operators demand equal numeric types and
/// yield `int`, used as a boolean. Assignment demands equal numeric types.
/// Strings take part in no operation.
pub open spec fn spec_result_type(left: Type, right: Type, op: BinOp) -> Option<Type> {
    match (left, right) {
        (Type::Int, Type::Int) => match op {
            BinOp::Add | BinOp::Sub | BinOp::Mul => Some(Type::Int),
            BinOp::Div => Some(Type::Float),
            BinOp::Less | BinOp::Greater | BinOp::Equal | BinOp::NotEqual => Some(Type::Int),
            BinOp::Assign => Some(Type::Int),
        },
        (Type::Float, Type::Float) => match op {
            BinOp::Add | BinOp::Sub | BinOp::Mul | BinOp::Div => Some(Type::Float),
            BinOp::Less | BinOp::Greater | BinOp::Equal | BinOp::NotEqual => Some(Type::Int),
            BinOp::Assign => Some(Type::Float),
        },
        (Type::Int, Type::Float) | (Type::Float, Type::Int) => match op {
            BinOp::Add | BinOp::Sub | BinOp::Mul | BinOp::Div => Some(Type::Float),
            _ => None,
        },
        _ => None,
    }
}

/// The semantic cube as a value, so that a translator context can own one.
/// The table itself is [`spec_result_type`].
#[derive(Clone, Copy, Debug)]
pub struct SemanticCube {}

impl SemanticCube {
    pub fn new() -> (r: SemanticCube) {
        SemanticCube {  }
    }

    /// Looks the result type up; `None` is a type error.
    pub fn get_result_type(&self, left: Type, right: Type, operator: BinOp) -> (r: Option<Type>)
        ensures
            r == spec_result_type(left, right, operator),
    {
        match (left, right) {
            (Type::Int, Type::Int) => match operator {
                BinOp::Add | BinOp::Sub | BinOp::Mul => Some(Type::Int),
                BinOp::Div => Some(Type::Float),
                BinOp::Less | BinOp::Greater | BinOp::Equal | BinOp::NotEqual => Some(Type::Int),
                BinOp::Assign => Some(Type::Int),
            },
            (Type::Float, Type::Float) => match operator {
                BinOp::Add | BinOp::Sub | BinOp::Mul | BinOp::Div => Some(Type::Float),
                BinOp::Less | BinOp::Greater | BinOp::Equal | BinOp::NotEqual => Some(Type::Int),
                BinOp::Assign => Some(Type::Float),
            },
            (Type::Int, Type::Float) | (Type::Float, Type::Int) => match operator {
                BinOp::Add | BinOp::Sub | BinOp::Mul | BinOp::Div => Some(Type::Float),
                _ => None,
            },
            _ => None,
        }
    }
}

} // verus!
