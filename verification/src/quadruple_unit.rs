//! Quadruples: the linear four-address instructions the translator emits
//! and the virtual machine executes.

use vstd::prelude::*;
use vstd::string::*;
use crate::lang::BinOp;
use crate::virtual_memory::data_address;

verus! {

/// Numeric opcodes of the stable interchange format.
pub const OP_ADD: u32 = 1;

pub const OP_SUB: u32 = 2;

pub const OP_MUL: u32 = 3;

pub const OP_DIV: u32 = 4;

pub const OP_LT: u32 = 5;

pub const OP_GT: u32 = 6;

pub const OP_EQ: u32 = 7;

pub const OP_NEQ: u32 = 8;

pub const OP_ASSIGN: u32 = 9;

pub const OP_GOTO: u32 = 10;

pub const OP_GOTOF: u32 = 11;

pub const OP_ERA: u32 = 12;

pub const OP_PARAM: u32 = 13;

pub const OP_GOSUB: u32 = 14;

pub const OP_PRINT: u32 = 15;

pub const OP_END: u32 = 16;

pub const OP_ENDFUNC: u32 = 17;

/// The opcode number of a binary operator.
pub open spec fn bin_op_code(op: BinOp) -> u32 {
    match op {
        BinOp::Add => 1,
        BinOp::Sub => 2,
        BinOp::Mul => 3,
        BinOp::Div => 4,
        BinOp::Less => 5,
        BinOp::Greater => 6,
        BinOp::Equal => 7,
        BinOp::NotEqual => 8,
        BinOp::Assign => 9,
    }
}

/// The opcode number of a binary operator.
pub fn op_code(op: BinOp) -> (c: u32)
    ensures
        c == bin_op_code(op),
{
    match op {
        BinOp::Add => 1,
        BinOp::Sub => 2,
        BinOp::Mul => 3,
        BinOp::Div => 4,
        BinOp::Less => 5,
        BinOp::Greater => 6,
        BinOp::Equal => 7,
        BinOp::NotEqual => 8,
        BinOp::Assign => 9,
    }
}

/// One slot of a quadruple: a display name, for human readers, and the
/// number the machine uses. For the operator slot the number is the
/// opcode; for operand and destination slots it is an absolute address, a
/// jump target, a function's entry point, or a parameter index; `0` with
/// name `_` marks an unused slot.
#[derive(Clone, Debug)]
pub struct QuadrupleUnit {
    pub name: String,
    pub memory: u32,
}

impl QuadrupleUnit {
    pub fn new(name: String, memory: u32) -> (r: QuadrupleUnit)
        ensures
            r.name == name,
            r.memory == memory,
    {
        QuadrupleUnit { name, memory }
    }

    /// The unused slot.
    pub fn unused() -> (r: QuadrupleUnit)
        ensures
            r.memory == 0,
            r.name@ == "_"@,
    {
        QuadrupleUnit { name: String::from_str("_"), memory: 0 }
    }
}

/// One four-address instruction.
#[derive(Clone, Debug)]
pub struct Quad {
    pub op: QuadrupleUnit,
    pub arg1: QuadrupleUnit,
    pub arg2: QuadrupleUnit,
    pub dest: QuadrupleUnit,
}

/// An operand or destination slot that carries an address: either unused
/// (`0`, shown as `_`) or within a declared segment.
pub open spec fn addr_slot_ok(u: QuadrupleUnit) -> bool {
    u.memory == 0 || data_address(u.memory as int)
}

/// The address discipline of one quadruple: every slot that holds an
/// address is unused or lies within a declared segment. Which slots hold
/// addresses depends on the opcode: all three for arithmetic, relational
/// and assignment quads, the first for `gotof` and `param`, the last for
/// `print`. Jump targets, entry points and parameter indices are not
/// addresses.
pub open spec fn quad_slots_ok(q: Quad) -> bool {
    let c = q.op.memory;
    &&& (1 <= c <= 9 || c == 11 || c == 13) ==> addr_slot_ok(q.arg1)
    &&& (1 <= c <= 9) ==> addr_slot_ok(q.arg2)
    &&& (1 <= c <= 9 || c == 15) ==> addr_slot_ok(q.dest)
}

} // verus!
