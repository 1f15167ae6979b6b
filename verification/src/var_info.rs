//! The record of one declared variable, temporary or interned constant.

use vstd::prelude::*;
use crate::lang::Type;

verus! {

/// A name bound to a type and an absolute address. Immutable after
/// declaration. For constants the name is the literal text (strings
/// stripped of their quotes).
#[derive(Clone, Debug)]
pub struct VarInfo {
    pub name: String,
    pub var_type: Type,
    pub location: u32,
}

impl VarInfo {
    pub fn new(name: String, var_type: Type, location: u32) -> (r: VarInfo)
        ensures
            r.name == name,
            r.var_type == var_type,
            r.location == location,
    {
        VarInfo { name, var_type, location }
    }
}

} // verus!
