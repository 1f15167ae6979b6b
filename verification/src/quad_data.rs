//! The translator's working state: the operand, operator and jump stacks,
//! the counters, and the semantic cube.

use vstd::prelude::*;
use crate::lang::{Kind, OpStackItem, Type};
use crate::semantic_cube::SemanticCube;
use crate::text::str_eq;
use crate::var_info::VarInfo;
use crate::virtual_memory::{seg_lo, segment_for};

verus! {

/// Base address of the segment serving a type, scope and kind; `999999`
/// for combinations no segment serves.
pub open spec fn spec_segment_base(var_type: Type, is_global: bool, kind: Kind) -> u32 {
    match segment_for(var_type, is_global, kind) {
        Some(s) => seg_lo(s) as u32,
        None => 999999,
    }
}

/// The mutable working state of one translation: the two stacks of the
/// expression translator, the stack of pending jumps, the counters, and
/// the semantic cube.
#[derive(Debug)]
pub struct QuadData {
    pub operator_stack: Vec<OpStackItem>,
    pub operand_stack: Vec<VarInfo>,
    pub jump_stack: Vec<usize>,
    /// 1-based index of the next quadruple to be emitted.
    pub quad_counter: usize,
    /// Index of the next parameter of the call being translated.
    pub param_counter: usize,
    /// Running number for temporary display names.
    pub temp_counter: usize,
    pub semantic_cube: SemanticCube,
}

impl QuadData {
    /// Fresh state: empty stacks, the quadruple and temporary counters at
    /// one, the parameter counter at zero.
    pub fn new() -> (r: QuadData)
        ensures
            r.operator_stack@.len() == 0,
            r.operand_stack@.len() == 0,
            r.jump_stack@.len() == 0,
            r.quad_counter == 1,
            r.param_counter == 0,
            r.temp_counter == 1,
    {
        QuadData {
            operator_stack: Vec::new(),
            operand_stack: Vec::new(),
            jump_stack: Vec::new(),
            quad_counter: 1,
            param_counter: 0,
            temp_counter: 1,
            semantic_cube: SemanticCube::new(),
        }
    }

    /// Base address of the segment serving a type and kind in the scope of
    /// `current_func` (the scope named `global`, or a local one).
    pub fn get_memory_segment(&self, var_type: Type, current_func: &str, kind: Kind) -> (r: u32)
        ensures
            r == spec_segment_base(var_type, current_func@ == "global"@, kind),
    {
        let is_global = str_eq(current_func, "global");
        match (var_type, kind) {
            (Type::Int, Kind::Regular) => if is_global {
                1000
            } else {
                11000
            },
            (Type::Float, Kind::Regular) => if is_global {
                3000
            } else {
                13000
            },
            (Type::Int, Kind::Temporal) => if is_global {
                5000
            } else {
                15000
            },
            (Type::Float, Kind::Temporal) => if is_global {
                7000
            } else {
                17000
            },
            (Type::Int, Kind::Constant) => 21000,
            (Type::Float, Kind::Constant) => 23000,
            (Type::Str, Kind::Constant) => 25000,
            _ => 999999,
        }
    }
}

} // verus!
