//! The segmented address space and the frames of the virtual machine.
//!
//! Addresses are absolute nonnegative integers partitioned into eleven
//! fixed segments, each 2,000 addresses wide, so that an address alone
//! encodes its storage class (global, local, constant), its value type,
//! and its kind (regular or temporary).
//!
//! Float cells hold IEEE-754 single-precision bit patterns as `u32`; the
//! library never computes with them, it only stores and routes them.

use vstd::prelude::*;
use crate::lang::{Kind, Type};

verus! {

/// The eleven segments of the address space.
#[derive(Clone, Copy, PartialEq, Eq, Structural, Debug)]
pub enum MemorySegment {
    Ints,
    IntTemps,
    Floats,
    FloatTemps,
    IntLocal,
    FloatLocal,
    IntLocalTemps,
    FloatLocalTemps,
    IntConsts,
    FloatConsts,
    StringConsts,
}

/// Lowest address of a segment.
pub open spec fn seg_lo(seg: MemorySegment) -> int {
    match seg {
        MemorySegment::Ints => 1000,
        MemorySegment::Floats => 3000,
        MemorySegment::IntTemps => 5000,
        MemorySegment::FloatTemps => 7000,
        MemorySegment::IntLocal => 11000,
        MemorySegment::FloatLocal => 13000,
        MemorySegment::IntLocalTemps => 15000,
        MemorySegment::FloatLocalTemps => 17000,
        MemorySegment::IntConsts => 21000,
        MemorySegment::FloatConsts => 23000,
        MemorySegment::StringConsts => 25000,
    }
}

/// Number of addresses in every segment.
pub const SEGMENT_SIZE: u32 = 2000;

/// Highest address of a segment (inclusive).
pub open spec fn seg_hi(seg: MemorySegment) -> int {
    seg_lo(seg) + 1999
}

/// Whether `a` lies within segment `seg`.
pub open spec fn in_segment(a: int, seg: MemorySegment) -> bool {
    seg_lo(seg) <= a <= seg_hi(seg)
}

/// Whether `a` lies within some declared segment.
pub open spec fn data_address(a: int) -> bool {
    (1000 <= a <= 2999) || (3000 <= a <= 4999) || (5000 <= a <= 6999) || (7000 <= a <= 8999) || (
    11000 <= a <= 12999) || (13000 <= a <= 14999) || (15000 <= a <= 16999) || (17000 <= a <= 18999)
        || (21000 <= a <= 22999) || (23000 <= a <= 24999) || (25000 <= a <= 26999)
}

/// The segment an address belongs to, if any.
pub open spec fn spec_segment_of(a: int) -> Option<MemorySegment> {
    if 1000 <= a <= 2999 {
        Some(MemorySegment::Ints)
    } else if 3000 <= a <= 4999 {
        Some(MemorySegment::Floats)
    } else if 5000 <= a <= 6999 {
        Some(MemorySegment::IntTemps)
    } else if 7000 <= a <= 8999 {
        Some(MemorySegment::FloatTemps)
    } else if 11000 <= a <= 12999 {
        Some(MemorySegment::IntLocal)
    } else if 13000 <= a <= 14999 {
        Some(MemorySegment::FloatLocal)
    } else if 15000 <= a <= 16999 {
        Some(MemorySegment::IntLocalTemps)
    } else if 17000 <= a <= 18999 {
        Some(MemorySegment::FloatLocalTemps)
    } else if 21000 <= a <= 22999 {
        Some(MemorySegment::IntConsts)
    } else if 23000 <= a <= 24999 {
        Some(MemorySegment::FloatConsts)
    } else if 25000 <= a <= 26999 {
        Some(MemorySegment::StringConsts)
    } else {
        None
    }
}

/// Every address lies in at most one segment.
pub proof fn lemma_segments_disjoint(a: int, s1: MemorySegment, s2: MemorySegment)
    requires
        in_segment(a, s1),
        in_segment(a, s2),
    ensures
        s1 == s2,
{
}

/// An address lies in some segment exactly when it is a data address.
pub proof fn lemma_data_address_segment(a: int)
    ensures
        data_address(a) <==> spec_segment_of(a) is Some,
        spec_segment_of(a) matches Some(s) ==> in_segment(a, s),
{
}

/// Splits an absolute address into its segment and its offset inside the
/// segment. Returns `None` exactly on addresses outside every segment.
pub fn map_address(address: usize) -> (r: Option<(MemorySegment, usize)>)
    ensures
        match r {
            Some((seg, off)) => data_address(address as int) && in_segment(address as int, seg)
                && off == address as int - seg_lo(seg),
            None => !data_address(address as int),
        },
{
    if 1000 <= address && address <= 2999 {
        Some((MemorySegment::Ints, address - 1000))
    } else if 3000 <= address && address <= 4999 {
        Some((MemorySegment::Floats, address - 3000))
    } else if 5000 <= address && address <= 6999 {
        Some((MemorySegment::IntTemps, address - 5000))
    } else if 7000 <= address && address <= 8999 {
        Some((MemorySegment::FloatTemps, address - 7000))
    } else if 11000 <= address && address <= 12999 {
        Some((MemorySegment::IntLocal, address - 11000))
    } else if 13000 <= address && address <= 14999 {
        Some((MemorySegment::FloatLocal, address - 13000))
    } else if 15000 <= address && address <= 16999 {
        Some((MemorySegment::IntLocalTemps, address - 15000))
    } else if 17000 <= address && address <= 18999 {
        Some((MemorySegment::FloatLocalTemps, address - 17000))
    } else if 21000 <= address && address <= 22999 {
        Some((MemorySegment::IntConsts, address - 21000))
    } else if 23000 <= address && address <= 24999 {
        Some((MemorySegment::FloatConsts, address - 23000))
    } else if 25000 <= address && address <= 26999 {
        Some((MemorySegment::StringConsts, address - 25000))
    } else {
        None
    }
}

/// Value type stored in a segment.
pub open spec fn seg_type(seg: MemorySegment) -> Type {
    match seg {
        MemorySegment::Ints => Type::Int,
        MemorySegment::IntTemps => Type::Int,
        MemorySegment::IntLocal => Type::Int,
        MemorySegment::IntLocalTemps => Type::Int,
        MemorySegment::IntConsts => Type::Int,
        MemorySegment::Floats => Type::Float,
        MemorySegment::FloatTemps => Type::Float,
        MemorySegment::FloatLocal => Type::Float,
        MemorySegment::FloatLocalTemps => Type::Float,
        MemorySegment::FloatConsts => Type::Float,
        MemorySegment::StringConsts => Type::Str,
    }
}

/// The segment that serves a given type, scope and kind, if any: string
/// values exist only as constants, and constants have no scope.
pub open spec fn segment_for(var_type: Type, is_global: bool, kind: Kind) -> Option<
    MemorySegment,
> {
    match (var_type, kind) {
        (Type::Int, Kind::Regular) => Some(
            if is_global {
                MemorySegment::Ints
            } else {
                MemorySegment::IntLocal
            },
        ),
        (Type::Float, Kind::Regular) => Some(
            if is_global {
                MemorySegment::Floats
            } else {
                MemorySegment::FloatLocal
            },
        ),
        (Type::Int, Kind::Temporal) => Some(
            if is_global {
                MemorySegment::IntTemps
            } else {
                MemorySegment::IntLocalTemps
            },
        ),
        (Type::Float, Kind::Temporal) => Some(
            if is_global {
                MemorySegment::FloatTemps
            } else {
                MemorySegment::FloatLocalTemps
            },
        ),
        (Type::Int, Kind::Constant) => Some(MemorySegment::IntConsts),
        (Type::Float, Kind::Constant) => Some(MemorySegment::FloatConsts),
        (Type::Str, Kind::Constant) => Some(MemorySegment::StringConsts),
        _ => None,
    }
}

/// A vector of `n` copies of `v`.
fn filled_i32(n: usize, v: i32) -> (r: Vec<i32>)
    ensures
        r@.len() == n,
        forall|i: int| 0 <= i < n ==> r@[i] == v,
{
    let mut r: Vec<i32> = Vec::new();
    let mut k: usize = 0;
    while k < n
        invariant
            k <= n,
            r@.len() == k,
            forall|i: int| 0 <= i < k ==> r@[i] == v,
        decreases n - k,
    {
        r.push(v);
        k += 1;
    }
    r
}

/// A vector of `n` copies of `v`.
fn filled_u32(n: usize, v: u32) -> (r: Vec<u32>)
    ensures
        r@.len() == n,
        forall|i: int| 0 <= i < n ==> r@[i] == v,
{
    let mut r: Vec<u32> = Vec::new();
    let mut k: usize = 0;
    while k < n
        invariant
            k <= n,
            r@.len() == k,
            forall|i: int| 0 <= i < k ==> r@[i] == v,
        decreases n - k,
    {
        r.push(v);
        k += 1;
    }
    r
}

/// A vector of `n` empty strings.
fn filled_strings(n: usize) -> (r: Vec<String>)
    ensures
        r@.len() == n,
        forall|i: int| 0 <= i < n ==> (#[trigger] r@[i])@.len() == 0,
{
    let mut r: Vec<String> = Vec::new();
    let mut k: usize = 0;
    while k < n
        invariant
            k <= n,
            r@.len() == k,
            forall|i: int| 0 <= i < k ==> (#[trigger] r@[i])@.len() == 0,
        decreases n - k,
    {
        r.push(String::new());
        k += 1;
    }
    r
}

/// Fill value of uninitialized integer cells: the lowest `i32`.
pub const INT_FILL: i32 = -2147483648;

/// Fill value of uninitialized float cells: the bit pattern of the lowest
/// finite single-precision float.
pub const FLOAT_FILL_BITS: u32 = 0xFF7F_FFFF;

/// The memory of one activation record: regular and temporary cells for
/// each numeric type. Float cells hold bit patterns.
#[derive(Debug)]
pub struct LocalMemory {
    pub ints: Vec<i32>,
    pub int_temps: Vec<i32>,
    pub floats: Vec<u32>,
    pub float_temps: Vec<u32>,
}

impl LocalMemory {
    /// A local frame with the given cell counts, every cell on its fill
    /// value.
    pub fn new(i_size: usize, it_size: usize, f_size: usize, ft_size: usize) -> (r: LocalMemory)
        ensures
            r.ints@.len() == i_size,
            r.int_temps@.len() == it_size,
            r.floats@.len() == f_size,
            r.float_temps@.len() == ft_size,
    {
        LocalMemory {
            ints: filled_i32(i_size, INT_FILL),
            int_temps: filled_i32(it_size, INT_FILL),
            floats: filled_u32(f_size, FLOAT_FILL_BITS),
            float_temps: filled_u32(ft_size, FLOAT_FILL_BITS),
        }
    }
}

/// The whole machine memory: the global frame, the constant segments, the
/// stack of local frames, and the stack of return addresses.
#[derive(Debug)]
pub struct GlobalMemory {
    pub ints: Vec<i32>,
    pub int_temps: Vec<i32>,
    pub floats: Vec<u32>,
    pub float_temps: Vec<u32>,
    pub int_consts: Vec<i32>,
    pub float_consts: Vec<u32>,
    pub string_const: Vec<String>,
    pub memory_stack: Vec<LocalMemory>,
    pub jump_stack: Vec<usize>,
}

impl GlobalMemory {
    /// A machine memory with the given cell counts, no local frames and no
    /// pending returns.
    pub fn new(
        i_size: usize,
        it_size: usize,
        f_size: usize,
        ft_size: usize,
        ic_size: usize,
        fc_size: usize,
        sc_size: usize,
    ) -> (r: GlobalMemory)
        ensures
            r.ints@.len() == i_size,
            r.int_temps@.len() == it_size,
            r.floats@.len() == f_size,
            r.float_temps@.len() == ft_size,
            r.int_consts@.len() == ic_size,
            r.float_consts@.len() == fc_size,
            r.string_const@.len() == sc_size,
            r.memory_stack@.len() == 0,
            r.jump_stack@.len() == 0,
    {
        GlobalMemory {
            ints: filled_i32(i_size, INT_FILL),
            int_temps: filled_i32(it_size, INT_FILL),
            floats: filled_u32(f_size, FLOAT_FILL_BITS),
            float_temps: filled_u32(ft_size, FLOAT_FILL_BITS),
            int_consts: filled_i32(ic_size, INT_FILL),
            float_consts: filled_u32(fc_size, FLOAT_FILL_BITS),
            string_const: filled_strings(sc_size),
            memory_stack: Vec::new(),
            jump_stack: Vec::new(),
        }
    }
}

} // verus!
