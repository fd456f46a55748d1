//! The operator mapping table, from source operators to IR primitives.
use vstd::prelude::*;

use crate::ast::{CmpOp, Operator};
use crate::ir::{BinOp, CompileError, Construct, ErrorV};

verus! {

/// The IR primitive of a binary operator; `None` for those outside the
/// supported set. Floor division maps to division.
pub open spec fn operator_spec(op: Operator) -> Option<BinOp> {
    match op {
        Operator::Add => Some(BinOp::Add),
        Operator::Sub => Some(BinOp::Sub),
        Operator::Mult => Some(BinOp::Mul),
        Operator::Div => Some(BinOp::Div),
        Operator::FloorDiv => Some(BinOp::Div),
        Operator::Pow => Some(BinOp::Pow),
        Operator::LShift => Some(BinOp::Shl),
        Operator::RShift => Some(BinOp::Shr),
        Operator::BitOr => Some(BinOp::Or),
        Operator::BitXor => Some(BinOp::Xor),
        Operator::BitAnd => Some(BinOp::And),
        Operator::MatMult => None,
        Operator::Mod => None,
    }
}

/// The IR primitive of a comparison; `None` for those outside the supported
/// set.
pub open spec fn comparison_spec(op: CmpOp) -> Option<BinOp> {
    match op {
        CmpOp::Eq => Some(BinOp::Eq),
        CmpOp::NotEq => Some(BinOp::Neq),
        CmpOp::Lt => Some(BinOp::Lt),
        CmpOp::Gt => Some(BinOp::Gt),
        _ => None,
    }
}

/// Maps a binary operator to its IR primitive.
pub fn map_operator(op: Operator) -> (r: Result<BinOp, CompileError>)
    ensures
        match r {
            Ok(b) => operator_spec(op) == Some(b),
            Err(e) => operator_spec(op) is None && e@ == ErrorV::UnsupportedConstruct(
                Construct::Operator,
            ),
        },
{
    match op {
        Operator::Add => Ok(BinOp::Add),
        Operator::Sub => Ok(BinOp::Sub),
        Operator::Mult => Ok(BinOp::Mul),
        Operator::Div => Ok(BinOp::Div),
        Operator::FloorDiv => Ok(BinOp::Div),
        Operator::Pow => Ok(BinOp::Pow),
        Operator::LShift => Ok(BinOp::Shl),
        Operator::RShift => Ok(BinOp::Shr),
        Operator::BitOr => Ok(BinOp::Or),
        Operator::BitXor => Ok(BinOp::Xor),
        Operator::BitAnd => Ok(BinOp::And),
        Operator::MatMult | Operator::Mod => Err(
            CompileError::UnsupportedConstruct(Construct::Operator),
        ),
    }
}

/// Maps a comparison to its IR primitive.
pub fn map_comparison(op: CmpOp) -> (r: Result<BinOp, CompileError>)
    ensures
        match r {
            Ok(b) => comparison_spec(op) == Some(b),
            Err(e) => comparison_spec(op) is None && e@ == ErrorV::UnsupportedConstruct(
                Construct::Comparison,
            ),
        },
{
    match op {
        CmpOp::Eq => Ok(BinOp::Eq),
        CmpOp::NotEq => Ok(BinOp::Neq),
        CmpOp::Lt => Ok(BinOp::Lt),
        CmpOp::Gt => Ok(BinOp::Gt),
        _ => Err(CompileError::UnsupportedConstruct(Construct::Comparison)),
    }
}

} // verus!
