//! Per-function resource counters: how many cells of each class the
//! function's frame needs.

use vstd::prelude::*;

verus! {

/// Counts of regular and temporary cells, by type, allocated so far in one
/// function. The counts drive both address allocation during translation
/// and frame sizing at each call.
#[derive(Clone, Copy, Debug)]
pub struct Resources {
    pub int_count: u32,
    pub float_count: u32,
    pub temp_i_count: u32,
    pub temp_f_count: u32,
}

impl Resources {
    pub fn new() -> (r: Resources)
        ensures
            r.int_count == 0,
            r.float_count == 0,
            r.temp_i_count == 0,
            r.temp_f_count == 0,
    {
        Resources { int_count: 0, float_count: 0, temp_i_count: 0, temp_f_count: 0 }
    }
}

} // verus!
