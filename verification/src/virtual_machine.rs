//! The execution engine: a dispatch step over the quadruple vector against
//! the segmented memory.
//!
//! The machine is driven one quadruple at a time. Everything the machine
//! decides — routing, control flow, the call protocol, integer arithmetic,
//! division-by-zero and write-to-constant checks — happens here. What only
//! the outside world can do comes back to the caller as an event: a value
//! to print, or a float operation to compute; the caller hands the float
//! result back through [`supply_float`]. A `while` over [`vm_step`] until
//! [`VmEvent::Halted`] runs a program to completion.

use vstd::prelude::*;
use vstd::string::*;
use crate::dusty_context::{clone_string, DustyContext};
use crate::lang::{BinOp, RuntimeError, Type};
use crate::quadruple_unit::Quad;
use crate::text::{all_digits, check_float_literal, digits_val, is_float_literal, parse_int_const, str_eq};
use crate::var_info::VarInfo;
use crate::virtual_memory::{map_address, GlobalMemory, LocalMemory, MemorySegment};

verus! {

/// A runtime value: a native integer, the bit pattern of a
/// single-precision float, or an interned string.
#[derive(Debug, Clone, PartialEq)]
pub enum Value {
    IntVal(i32),
    FloatBits(u32),
    StrVal(String),
}

/// A float constant the caller must materialize: parse `text` and hand the
/// bits to [`Vm::set_float_const`] at `offset`.
#[derive(Debug)]
pub struct FloatConstRequest {
    pub offset: usize,
    pub text: String,
}

/// What one step of the machine asks of its caller.
#[derive(Debug)]
pub enum VmEvent {
    /// The quadruple ran; nothing to do.
    Ran,
    /// A `print` produced this value: format it and write one line.
    Output(Value),
    /// An arithmetic quadruple needs float arithmetic: promote both
    /// operands to floats, apply `op`, and hand the result's bits to
    /// [`supply_float`] for `dest`.
    FloatOp { op: BinOp, left: Value, right: Value, dest: u32 },
    /// An integer result must be stored into the float cell `dest`:
    /// convert and hand the bits to [`supply_float`].
    StoreFloatOfInt { value: i32, dest: u32 },
    /// The `end` quadruple was reached.
    Halted,
}

/// The machine: its memory, the activation record under construction
/// between `era` and `gosub` (with the callee's parameter types, for slot
/// routing), and the instruction pointer (0-based).
#[derive(Debug)]
pub struct Vm {
    pub mem: GlobalMemory,
    pub pending: Vec<LocalMemory>,
    pub pending_params: Vec<Type>,
    pub ip: usize,
}

/// `1` for true, `0` for false: relational results are `int`s.
pub fn bool_to_int(value: bool) -> (r: i32)
    ensures
        r == if value {
            1int
        } else {
            0int
        },
{
    if value {
        1
    } else {
        0
    }
}

/// Sizes of the seven global arrays: the global frame's four counters and
/// the three constant counts.
pub fn get_memory_size_main(
    function_info: &crate::function_info::FunctionInfo,
    const_count: [u32; 3],
) -> (r: [usize; 7])
    ensures
        r@[0] == function_info.resources.int_count as usize,
        r@[1] == function_info.resources.temp_i_count as usize,
        r@[2] == function_info.resources.float_count as usize,
        r@[3] == function_info.resources.temp_f_count as usize,
        r@[4] == const_count@[0] as usize,
        r@[5] == const_count@[1] as usize,
        r@[6] == const_count@[2] as usize,
{
    [
        function_info.resources.int_count as usize,
        function_info.resources.temp_i_count as usize,
        function_info.resources.float_count as usize,
        function_info.resources.temp_f_count as usize,
        const_count[0] as usize,
        const_count[1] as usize,
        const_count[2] as usize,
    ]
}

/// The value a read at `a` yields, if any: global segments from the global
/// arrays, local segments from the top local frame, constant segments from
/// the pool. `None` on addresses outside every segment, offsets past the
/// allocated cells, and local reads without a frame.
pub open spec fn spec_read(m: GlobalMemory, a: int) -> Option<Value> {
    match crate::virtual_memory::spec_segment_of(a) {
        None => None,
        Some(seg) => {
            let off = a - crate::virtual_memory::seg_lo(seg);
            match seg {
                MemorySegment::Ints => if off < m.ints@.len() {
                    Some(Value::IntVal(m.ints@[off]))
                } else {
                    None
                },
                MemorySegment::IntTemps => if off < m.int_temps@.len() {
                    Some(Value::IntVal(m.int_temps@[off]))
                } else {
                    None
                },
                MemorySegment::Floats => if off < m.floats@.len() {
                    Some(Value::FloatBits(m.floats@[off]))
                } else {
                    None
                },
                MemorySegment::FloatTemps => if off < m.float_temps@.len() {
                    Some(Value::FloatBits(m.float_temps@[off]))
                } else {
                    None
                },
                MemorySegment::IntLocal => if m.memory_stack@.len() > 0 && off
                    < m.memory_stack@.last().ints@.len() {
                    Some(Value::IntVal(m.memory_stack@.last().ints@[off]))
                } else {
                    None
                },
                MemorySegment::IntLocalTemps => if m.memory_stack@.len() > 0 && off
                    < m.memory_stack@.last().int_temps@.len() {
                    Some(Value::IntVal(m.memory_stack@.last().int_temps@[off]))
                } else {
                    None
                },
                MemorySegment::FloatLocal => if m.memory_stack@.len() > 0 && off
                    < m.memory_stack@.last().floats@.len() {
                    Some(Value::FloatBits(m.memory_stack@.last().floats@[off]))
                } else {
                    None
                },
                MemorySegment::FloatLocalTemps => if m.memory_stack@.len() > 0 && off
                    < m.memory_stack@.last().float_temps@.len() {
                    Some(Value::FloatBits(m.memory_stack@.last().float_temps@[off]))
                } else {
                    None
                },
                MemorySegment::IntConsts => if off < m.int_consts@.len() {
                    Some(Value::IntVal(m.int_consts@[off]))
                } else {
                    None
                },
                MemorySegment::FloatConsts => if off < m.float_consts@.len() {
                    Some(Value::FloatBits(m.float_consts@[off]))
                } else {
                    None
                },
                MemorySegment::StringConsts => if off < m.string_const@.len() {
                    Some(Value::StrVal(m.string_const@[off]))
                } else {
                    None
                },
            }
        },
    }
}

/// Whether `a` maps to a constant cell: those are read-only.
pub open spec fn spec_const_address(a: int) -> bool {
    match crate::virtual_memory::spec_segment_of(a) {
        Some(MemorySegment::IntConsts) => true,
        Some(MemorySegment::FloatConsts) => true,
        Some(MemorySegment::StringConsts) => true,
        _ => false,
    }
}

/// Whether a write of `v` at `a` is legal: the address maps to an existing
/// non-constant cell whose segment stores values of `v`'s kind.
pub open spec fn spec_write_ok(m: GlobalMemory, a: int, v: Value) -> bool {
    match crate::virtual_memory::spec_segment_of(a) {
        None => false,
        Some(seg) => {
            let off = a - crate::virtual_memory::seg_lo(seg);
            match seg {
                MemorySegment::Ints => v is IntVal && off < m.ints@.len(),
                MemorySegment::IntTemps => v is IntVal && off < m.int_temps@.len(),
                MemorySegment::Floats => v is FloatBits && off < m.floats@.len(),
                MemorySegment::FloatTemps => v is FloatBits && off < m.float_temps@.len(),
                MemorySegment::IntLocal => v is IntVal && m.memory_stack@.len() > 0 && off
                    < m.memory_stack@.last().ints@.len(),
                MemorySegment::IntLocalTemps => v is IntVal && m.memory_stack@.len() > 0 && off
                    < m.memory_stack@.last().int_temps@.len(),
                MemorySegment::FloatLocal => v is FloatBits && m.memory_stack@.len() > 0 && off
                    < m.memory_stack@.last().floats@.len(),
                MemorySegment::FloatLocalTemps => v is FloatBits && m.memory_stack@.len() > 0 && off
                    < m.memory_stack@.last().float_temps@.len(),
                MemorySegment::IntConsts => false,
                MemorySegment::FloatConsts => false,
                MemorySegment::StringConsts => false,
            }
        },
    }
}

/// The top local frame of `post` is that of `pre` with exactly one array
/// replaced as given; the lower frames are unchanged.
pub open spec fn top_frame_updated(
    pre: GlobalMemory,
    post: GlobalMemory,
    ints: Seq<i32>,
    int_temps: Seq<i32>,
    floats: Seq<u32>,
    float_temps: Seq<u32>,
) -> bool {
    &&& pre.memory_stack@.len() > 0
    &&& post.memory_stack@.len() == pre.memory_stack@.len()
    &&& forall|j: int|
        0 <= j < pre.memory_stack@.len() - 1 ==> post.memory_stack@[j] == pre.memory_stack@[j]
    &&& post.memory_stack@.last().ints@ == ints
    &&& post.memory_stack@.last().int_temps@ == int_temps
    &&& post.memory_stack@.last().floats@ == floats
    &&& post.memory_stack@.last().float_temps@ == float_temps
}

/// `post` is `pre` with exactly the cell at `a` holding `v`: every other
/// cell of every segment, every lower frame, the constant pool and the
/// return stack are as they were.
pub open spec fn mem_updated(pre: GlobalMemory, post: GlobalMemory, a: int, v: Value) -> bool {
    let seg = crate::virtual_memory::spec_segment_of(a).unwrap();
    let off = a - crate::virtual_memory::seg_lo(seg);
    &&& post.int_consts == pre.int_consts
    &&& post.float_consts == pre.float_consts
    &&& post.string_const == pre.string_const
    &&& post.jump_stack == pre.jump_stack
    &&& match seg {
        MemorySegment::Ints => v matches Value::IntVal(x) && post.ints@ == pre.ints@.update(off, x)
            && post.int_temps == pre.int_temps && post.floats == pre.floats && post.float_temps
            == pre.float_temps && post.memory_stack == pre.memory_stack,
        MemorySegment::IntTemps => v matches Value::IntVal(x) && post.int_temps@
            == pre.int_temps@.update(off, x) && post.ints == pre.ints && post.floats == pre.floats
            && post.float_temps == pre.float_temps && post.memory_stack == pre.memory_stack,
        MemorySegment::Floats => v matches Value::FloatBits(b) && post.floats@
            == pre.floats@.update(off, b) && post.ints == pre.ints && post.int_temps
            == pre.int_temps && post.float_temps == pre.float_temps && post.memory_stack
            == pre.memory_stack,
        MemorySegment::FloatTemps => v matches Value::FloatBits(b) && post.float_temps@
            == pre.float_temps@.update(off, b) && post.ints == pre.ints && post.int_temps
            == pre.int_temps && post.floats == pre.floats && post.memory_stack
            == pre.memory_stack,
        MemorySegment::IntLocal => v matches Value::IntVal(x) && post.ints == pre.ints
            && post.int_temps == pre.int_temps && post.floats == pre.floats && post.float_temps
            == pre.float_temps && top_frame_updated(
            pre,
            post,
            pre.memory_stack@.last().ints@.update(off, x),
            pre.memory_stack@.last().int_temps@,
            pre.memory_stack@.last().floats@,
            pre.memory_stack@.last().float_temps@,
        ),
        MemorySegment::IntLocalTemps => v matches Value::IntVal(x) && post.ints == pre.ints
            && post.int_temps == pre.int_temps && post.floats == pre.floats && post.float_temps
            == pre.float_temps && top_frame_updated(
            pre,
            post,
            pre.memory_stack@.last().ints@,
            pre.memory_stack@.last().int_temps@.update(off, x),
            pre.memory_stack@.last().floats@,
            pre.memory_stack@.last().float_temps@,
        ),
        MemorySegment::FloatLocal => v matches Value::FloatBits(b) && post.ints == pre.ints
            && post.int_temps == pre.int_temps && post.floats == pre.floats && post.float_temps
            == pre.float_temps && top_frame_updated(
            pre,
            post,
            pre.memory_stack@.last().ints@,
            pre.memory_stack@.last().int_temps@,
            pre.memory_stack@.last().floats@.update(off, b),
            pre.memory_stack@.last().float_temps@,
        ),
        MemorySegment::FloatLocalTemps => v matches Value::FloatBits(b) && post.ints == pre.ints
            && post.int_temps == pre.int_temps && post.floats == pre.floats && post.float_temps
            == pre.float_temps && top_frame_updated(
            pre,
            post,
            pre.memory_stack@.last().ints@,
            pre.memory_stack@.last().int_temps@,
            pre.memory_stack@.last().floats@,
            pre.memory_stack@.last().float_temps@.update(off, b),
        ),
        MemorySegment::IntConsts => false,
        MemorySegment::FloatConsts => false,
        MemorySegment::StringConsts => false,
    }
}

/// Reads the value at an absolute address: global segments from the global
/// frame, local segments from the top local frame, constant segments from
/// the pool.
pub fn get_value(memory: &GlobalMemory, address: usize) -> (r: Result<Value, RuntimeError>)
    ensures
        match r {
            Ok(v) => spec_read(*memory, address as int) == Some(v),
            Err(e) => spec_read(*memory, address as int) is None && (e matches
            RuntimeError::AddressOutOfRange { address: a } && a == address as u32),
        },
{
    let (seg, off) = match map_address(address) {
        Some(p) => p,
        None => {
            return Err(RuntimeError::AddressOutOfRange { address: address as u32 });
        },
    };
    match seg {
        MemorySegment::Ints => {
            if off >= memory.ints.len() {
                return Err(RuntimeError::AddressOutOfRange { address: address as u32 });
            }
            Ok(Value::IntVal(memory.ints[off]))
        },
        MemorySegment::IntTemps => {
            if off >= memory.int_temps.len() {
                return Err(RuntimeError::AddressOutOfRange { address: address as u32 });
            }
            Ok(Value::IntVal(memory.int_temps[off]))
        },
        MemorySegment::Floats => {
            if off >= memory.floats.len() {
                return Err(RuntimeError::AddressOutOfRange { address: address as u32 });
            }
            Ok(Value::FloatBits(memory.floats[off]))
        },
        MemorySegment::FloatTemps => {
            if off >= memory.float_temps.len() {
                return Err(RuntimeError::AddressOutOfRange { address: address as u32 });
            }
            Ok(Value::FloatBits(memory.float_temps[off]))
        },
        MemorySegment::IntLocal => {
            if memory.memory_stack.len() == 0 {
                return Err(RuntimeError::AddressOutOfRange { address: address as u32 });
            }
            let top = memory.memory_stack.len() - 1;
            if off >= memory.memory_stack[top].ints.len() {
                return Err(RuntimeError::AddressOutOfRange { address: address as u32 });
            }
            Ok(Value::IntVal(memory.memory_stack[top].ints[off]))
        },
        MemorySegment::IntLocalTemps => {
            if memory.memory_stack.len() == 0 {
                return Err(RuntimeError::AddressOutOfRange { address: address as u32 });
            }
            let top = memory.memory_stack.len() - 1;
            if off >= memory.memory_stack[top].int_temps.len() {
                return Err(RuntimeError::AddressOutOfRange { address: address as u32 });
            }
            Ok(Value::IntVal(memory.memory_stack[top].int_temps[off]))
        },
        MemorySegment::FloatLocal => {
            if memory.memory_stack.len() == 0 {
                return Err(RuntimeError::AddressOutOfRange { address: address as u32 });
            }
            let top = memory.memory_stack.len() - 1;
            if off >= memory.memory_stack[top].floats.len() {
                return Err(RuntimeError::AddressOutOfRange { address: address as u32 });
            }
            Ok(Value::FloatBits(memory.memory_stack[top].floats[off]))
        },
        MemorySegment::FloatLocalTemps => {
            if memory.memory_stack.len() == 0 {
                return Err(RuntimeError::AddressOutOfRange { address: address as u32 });
            }
            let top = memory.memory_stack.len() - 1;
            if off >= memory.memory_stack[top].float_temps.len() {
                return Err(RuntimeError::AddressOutOfRange { address: address as u32 });
            }
            Ok(Value::FloatBits(memory.memory_stack[top].float_temps[off]))
        },
        MemorySegment::IntConsts => {
            if off >= memory.int_consts.len() {
                return Err(RuntimeError::AddressOutOfRange { address: address as u32 });
            }
            Ok(Value::IntVal(memory.int_consts[off]))
        },
        MemorySegment::FloatConsts => {
            if off >= memory.float_consts.len() {
                return Err(RuntimeError::AddressOutOfRange { address: address as u32 });
            }
            Ok(Value::FloatBits(memory.float_consts[off]))
        },
        MemorySegment::StringConsts => {
            if off >= memory.string_const.len() {
                return Err(RuntimeError::AddressOutOfRange { address: address as u32 });
            }
            Ok(Value::StrVal(clone_string(&memory.string_const[off])))
        },
    }
}

/// Writes a value at an absolute address. The constant segments are
/// read-only: a write aimed there is the fatal `WriteToConstant`. The
/// value's type must match the segment's.
pub fn set_value(memory: &mut GlobalMemory, address: usize, value: Value) -> (r: Result<
    (),
    RuntimeError,
>)
    ensures
        final(memory).int_consts@ == old(memory).int_consts@,
        final(memory).float_consts@ == old(memory).float_consts@,
        final(memory).string_const@ == old(memory).string_const@,
        final(memory).jump_stack@ == old(memory).jump_stack@,
        final(memory).memory_stack@.len() == old(memory).memory_stack@.len(),
        spec_write_ok(*old(memory), address as int, value) ==> r is Ok,
        r is Ok ==> spec_write_ok(*old(memory), address as int, value) && mem_updated(
            *old(memory),
            *final(memory),
            address as int,
            value,
        ),
        r is Err ==> *final(memory) == *old(memory) && !spec_write_ok(
            *old(memory),
            address as int,
            value,
        ),
        r matches Err(e) ==> (e is WriteToConstant <==> spec_const_address(address as int)),
{
    let (seg, off) = match map_address(address) {
        Some(p) => p,
        None => {
            return Err(RuntimeError::AddressOutOfRange { address: address as u32 });
        },
    };
    match seg {
        MemorySegment::IntConsts | MemorySegment::FloatConsts | MemorySegment::StringConsts => Err(
            RuntimeError::WriteToConstant { address: address as u32 },
        ),
        MemorySegment::Ints => {
            match value {
                Value::IntVal(x) => {
                    if off >= memory.ints.len() {
                        return Err(RuntimeError::AddressOutOfRange { address: address as u32 });
                    }
                    memory.ints[off] = x;
                    Ok(())
                },
                _ => Err(RuntimeError::AddressOutOfRange { address: address as u32 }),
            }
        },
        MemorySegment::IntTemps => {
            match value {
                Value::IntVal(x) => {
                    if off >= memory.int_temps.len() {
                        return Err(RuntimeError::AddressOutOfRange { address: address as u32 });
                    }
                    memory.int_temps[off] = x;
                    Ok(())
                },
                _ => Err(RuntimeError::AddressOutOfRange { address: address as u32 }),
            }
        },
        MemorySegment::Floats => {
            match value {
                Value::FloatBits(b) => {
                    if off >= memory.floats.len() {
                        return Err(RuntimeError::AddressOutOfRange { address: address as u32 });
                    }
                    memory.floats[off] = b;
                    Ok(())
                },
                _ => Err(RuntimeError::AddressOutOfRange { address: address as u32 }),
            }
        },
        MemorySegment::FloatTemps => {
            match value {
                Value::FloatBits(b) => {
                    if off >= memory.float_temps.len() {
                        return Err(RuntimeError::AddressOutOfRange { address: address as u32 });
                    }
                    memory.float_temps[off] = b;
                    Ok(())
                },
                _ => Err(RuntimeError::AddressOutOfRange { address: address as u32 }),
            }
        },
        MemorySegment::IntLocal => {
            match value {
                Value::IntVal(x) => {
                    if memory.memory_stack.len() == 0 {
                        return Err(RuntimeError::AddressOutOfRange { address: address as u32 });
                    }
                    let top = memory.memory_stack.len() - 1;
                    if off >= memory.memory_stack[top].ints.len() {
                        return Err(RuntimeError::AddressOutOfRange { address: address as u32 });
                    }
                    memory.memory_stack[top].ints[off] = x;
                    Ok(())
                },
                _ => Err(RuntimeError::AddressOutOfRange { address: address as u32 }),
            }
        },
        MemorySegment::IntLocalTemps => {
            match value {
                Value::IntVal(x) => {
                    if memory.memory_stack.len() == 0 {
                        return Err(RuntimeError::AddressOutOfRange { address: address as u32 });
                    }
                    let top = memory.memory_stack.len() - 1;
                    if off >= memory.memory_stack[top].int_temps.len() {
                        return Err(RuntimeError::AddressOutOfRange { address: address as u32 });
                    }
                    memory.memory_stack[top].int_temps[off] = x;
                    Ok(())
                },
                _ => Err(RuntimeError::AddressOutOfRange { address: address as u32 }),
            }
        },
        MemorySegment::FloatLocal => {
            match value {
                Value::FloatBits(b) => {
                    if memory.memory_stack.len() == 0 {
                        return Err(RuntimeError::AddressOutOfRange { address: address as u32 });
                    }
                    let top = memory.memory_stack.len() - 1;
                    if off >= memory.memory_stack[top].floats.len() {
                        return Err(RuntimeError::AddressOutOfRange { address: address as u32 });
                    }
                    memory.memory_stack[top].floats[off] = b;
                    Ok(())
                },
                _ => Err(RuntimeError::AddressOutOfRange { address: address as u32 }),
            }
        },
        MemorySegment::FloatLocalTemps => {
            match value {
                Value::FloatBits(b) => {
                    if memory.memory_stack.len() == 0 {
                        return Err(RuntimeError::AddressOutOfRange { address: address as u32 });
                    }
                    let top = memory.memory_stack.len() - 1;
                    if off >= memory.memory_stack[top].float_temps.len() {
                        return Err(RuntimeError::AddressOutOfRange { address: address as u32 });
                    }
                    memory.memory_stack[top].float_temps[off] = b;
                    Ok(())
                },
                _ => Err(RuntimeError::AddressOutOfRange { address: address as u32 }),
            }
        },
    }
}

/// An owned copy of a parameter type list.
fn copy_params(params: &Vec<Type>) -> (r: Vec<Type>)
    ensures
        r@ == params@,
{
    let mut r: Vec<Type> = Vec::new();
    let mut i: usize = 0;
    while i < params.len()
        invariant
            i <= params@.len(),
            r@ =~= params@.take(i as int),
        decreases params@.len() - i,
    {
        r.push(params[i]);
        i += 1;
    }
    proof {
        assert(r@ =~= params@);
    }
    r
}

/// How many of the first `n` declared parameters have type `t`: the slot
/// offset of parameter `n` within its typed array.
pub open spec fn count_type_before(params: Seq<Type>, n: int, t: Type) -> int
    decreases n,
{
    if n <= 0 {
        0
    } else {
        count_type_before(params, n - 1, t) + if params[n - 1] == t {
            1int
        } else {
            0int
        }
    }
}

/// Whether an argument value can fill parameter slot `n` of the record
/// under construction: a record exists, the slot is declared, the value's
/// kind is the declared type's, and the typed array has the cell.
pub open spec fn spec_param_write_ok(vm: Vm, n: int, v: Value) -> bool {
    &&& vm.pending@.len() > 0
    &&& 0 <= n < vm.pending_params@.len()
    &&& match (vm.pending_params@[n], v) {
        (Type::Int, Value::IntVal(_)) => count_type_before(vm.pending_params@, n, Type::Int)
            < vm.pending@.last().ints@.len(),
        (Type::Float, Value::FloatBits(_)) => count_type_before(vm.pending_params@, n, Type::Float)
            < vm.pending@.last().floats@.len(),
        _ => false,
    }
}

/// The record under construction of `post` is that of `pre` with exactly
/// parameter slot `n` filled with `v` — the cell at offset "same-typed
/// parameters before `n`" of the typed array — and nothing else changed.
pub open spec fn pending_updated(pre: Vm, post: Vm, n: int, v: Value) -> bool {
    let ty = pre.pending_params@[n];
    let off = count_type_before(pre.pending_params@, n, ty);
    &&& spec_param_write_ok(pre, n, v)
    &&& post.pending@.len() == pre.pending@.len()
    &&& (forall|j: int| 0 <= j < pre.pending@.len() - 1 ==> post.pending@[j] == pre.pending@[j])
    &&& (match (ty, v) {
        (Type::Int, Value::IntVal(x)) => post.pending@.last().ints@
            == pre.pending@.last().ints@.update(off, x) && post.pending@.last().int_temps
            == pre.pending@.last().int_temps && post.pending@.last().floats
            == pre.pending@.last().floats && post.pending@.last().float_temps
            == pre.pending@.last().float_temps,
        (Type::Float, Value::FloatBits(b)) => post.pending@.last().floats@
            == pre.pending@.last().floats@.update(off, b) && post.pending@.last().ints
            == pre.pending@.last().ints && post.pending@.last().int_temps
            == pre.pending@.last().int_temps && post.pending@.last().float_temps
            == pre.pending@.last().float_temps,
        _ => false,
    })
}

/// Writes an argument value into parameter slot `n` of the activation
/// record under construction: the slot's offset within its typed array is
/// the number of same-typed parameters before it.
pub fn set_param_value(vm: &mut Vm, n: usize, value: Value) -> (r: Result<(), RuntimeError>)
    ensures
        final(vm).mem == old(vm).mem,
        final(vm).pending_params == old(vm).pending_params,
        final(vm).ip == old(vm).ip,
        spec_param_write_ok(*old(vm), n as int, value) ==> r is Ok,
        r is Err ==> final(vm).pending@ == old(vm).pending@ && !spec_param_write_ok(
            *old(vm),
            n as int,
            value,
        ),
        r is Ok ==> pending_updated(*old(vm), *final(vm), n as int, value),
    {
    if vm.pending.len() == 0 {
        return Err(RuntimeError::BrokenCallSequence);
    }
    if n >= vm.pending_params.len() {
        return Err(RuntimeError::BrokenCallSequence);
    }
    let ty = vm.pending_params[n];
    let mut off: usize = 0;
    let mut k: usize = 0;
    while k < n
        invariant
            k <= n,
            n < vm.pending_params@.len(),
            *vm == *old(vm),
            ty == vm.pending_params@[n as int],
            off == count_type_before(vm.pending_params@, k as int, ty),
            off <= k,
        decreases n - k,
    {
        if vm.pending_params[k] == ty {
            off += 1;
        }
        k += 1;
    }
    let mut frame = match vm.pending.pop() {
        Some(f) => f,
        None => {
            proof {
                assert(false);
            }
            return Err(RuntimeError::BrokenCallSequence);
        },
    };
    let ok: bool = match (ty, &value) {
        (Type::Int, Value::IntVal(_)) => true,
        (Type::Float, Value::FloatBits(_)) => true,
        _ => false,
    };
    if !ok {
        vm.pending.push(frame);
        proof {
            assert(vm.pending@ =~= old(vm).pending@);
        }
        return Err(RuntimeError::BrokenCallSequence);
    }
    match value {
        Value::IntVal(x) => {
            if off >= frame.ints.len() {
                vm.pending.push(frame);
                proof {
                    assert(vm.pending@ =~= old(vm).pending@);
                }
                return Err(RuntimeError::AddressOutOfRange { address: n as u32 });
            }
            frame.ints[off] = x;
        },
        Value::FloatBits(b) => {
            if off >= frame.floats.len() {
                vm.pending.push(frame);
                proof {
                    assert(vm.pending@ =~= old(vm).pending@);
                }
                return Err(RuntimeError::AddressOutOfRange { address: n as u32 });
            }
            frame.floats[off] = b;
        },
        Value::StrVal(_) => {
            vm.pending.push(frame);
            proof {
                assert(vm.pending@ =~= old(vm).pending@);
            }
            return Err(RuntimeError::BrokenCallSequence);
        },
    }
    vm.pending.push(frame);
    proof {
        assert(vm.pending@.last() == vm.pending@[vm.pending@.len() - 1]);
        assert(forall|j: int|
            0 <= j < old(vm).pending@.len() - 1 ==> vm.pending@[j] == old(vm).pending@[j]);
    }
    Ok(())
}

impl Vm {
    /// Builds the machine for a translated program: sizes the global frame
    /// from the global scope's counters and the constant counts, and
    /// materializes the integer and string constants. Float constants come
    /// back as requests for the caller to parse and supply through
    /// [`Vm::set_float_const`].
    #[verifier::rlimit(100)]
    #[verifier::spinoff_prover]
    pub fn new(ctx: &DustyContext) -> (r: Result<(Vm, Vec<FloatConstRequest>), RuntimeError>)
        requires
            ctx.wf(),
        ensures
            r matches Err(e) ==> (e is UnknownFunction || e is MalformedLiteral || e
                is AddressOutOfRange),
            ctx.spec_has_func("global"@) && (forall|j: int|
                0 <= j < ctx.const_dir@.len() && (#[trigger] ctx.const_dir@[j]).var_type
                    == Type::Int ==> all_digits(ctx.const_dir@[j].name@) && digits_val(
                    ctx.const_dir@[j].name@,
                ) <= i32::MAX) && (forall|j: int|
                0 <= j < ctx.const_dir@.len() && (#[trigger] ctx.const_dir@[j]).var_type
                    == Type::Float ==> is_float_literal(ctx.const_dir@[j].name@)) ==> r is Ok,
            r matches Ok(p) ==> ({
                let vm = p.0;
                let requests = p.1;
                let g = ctx.spec_func("global"@);
                &&& ctx.spec_has_func("global"@)
                &&& vm.ip == 0
                &&& vm.pending@.len() == 0
                &&& vm.mem.ints@.len() == g.resources.int_count
                &&& vm.mem.int_temps@.len() == g.resources.temp_i_count
                &&& vm.mem.floats@.len() == g.resources.float_count
                &&& vm.mem.float_temps@.len() == g.resources.temp_f_count
                &&& vm.mem.int_consts@.len() == ctx.constants.int_count
                &&& vm.mem.float_consts@.len() == ctx.constants.float_count
                &&& vm.mem.string_const@.len() == ctx.constants.string_count
                &&& vm.mem.memory_stack@.len() == 0
                &&& vm.mem.jump_stack@.len() == 0
                &&& (forall|j: int|
                    0 <= j < ctx.const_dir@.len() && (#[trigger] ctx.const_dir@[j]).var_type
                        == Type::Int ==> all_digits(ctx.const_dir@[j].name@) && digits_val(
                        ctx.const_dir@[j].name@,
                    ) <= i32::MAX && 0 <= ctx.const_dir@[j].location - 21000
                        < vm.mem.int_consts@.len() && vm.mem.int_consts@[ctx.const_dir@[j].location
                        - 21000] == digits_val(ctx.const_dir@[j].name@))
                &&& (forall|j: int|
                    0 <= j < ctx.const_dir@.len() && (#[trigger] ctx.const_dir@[j]).var_type
                        == Type::Str ==> 0 <= ctx.const_dir@[j].location - 25000
                        < vm.mem.string_const@.len() && vm.mem.string_const@[ctx.const_dir@[
                    j].location - 25000] == ctx.const_dir@[j].name)
                &&& (forall|j: int|
                    0 <= j < ctx.const_dir@.len() && (#[trigger] ctx.const_dir@[j]).var_type
                        == Type::Float ==> is_float_literal(ctx.const_dir@[j].name@))
                &&& requests@.len() == crate::dusty_context::count_consts(
                    ctx.const_dir@,
                    Type::Float,
                )
                &&& (forall|k: int|
                    0 <= k < requests@.len() ==> float_request_matches(
                        #[trigger] requests@[k],
                        ctx.const_dir@,
                        ctx.const_dir@.len() as int,
                    ))
            }),
    {
        let gidx = match ctx.find_func("global") {
            Some(i) => i,
            None => {
                return Err(RuntimeError::UnknownFunction { name: String::from_str("global") });
            },
        };
        proof {
            ctx.lemma_func_unique("global"@, gidx as int);
        }
        let sizes = get_memory_size_main(
            &ctx.func_dir[gidx],
            [ctx.constants.int_count, ctx.constants.float_count, ctx.constants.string_count],
        );
        let mut mem = GlobalMemory::new(
            sizes[0],
            sizes[1],
            sizes[2],
            sizes[3],
            sizes[4],
            sizes[5],
            sizes[6],
        );
        let mut requests: Vec<FloatConstRequest> = Vec::new();
        let mut i: usize = 0;
        while i < ctx.const_dir.len()
            invariant
                ctx.wf(),
                i <= ctx.const_dir@.len(),
                mem.ints@.len() == ctx.spec_func("global"@).resources.int_count,
                mem.int_temps@.len() == ctx.spec_func("global"@).resources.temp_i_count,
                mem.floats@.len() == ctx.spec_func("global"@).resources.float_count,
                mem.float_temps@.len() == ctx.spec_func("global"@).resources.temp_f_count,
                mem.int_consts@.len() == ctx.constants.int_count,
                mem.float_consts@.len() == ctx.constants.float_count,
                mem.string_const@.len() == ctx.constants.string_count,
                mem.memory_stack@.len() == 0,
                mem.jump_stack@.len() == 0,
                forall|j: int|
                    0 <= j < i && (#[trigger] ctx.const_dir@[j]).var_type == Type::Int
                        ==> all_digits(ctx.const_dir@[j].name@) && digits_val(
                        ctx.const_dir@[j].name@,
                    ) <= i32::MAX && 0 <= ctx.const_dir@[j].location - 21000
                        < mem.int_consts@.len() && mem.int_consts@[ctx.const_dir@[j].location
                        - 21000] == digits_val(ctx.const_dir@[j].name@),
                forall|j: int|
                    0 <= j < i && (#[trigger] ctx.const_dir@[j]).var_type == Type::Str ==> 0
                        <= ctx.const_dir@[j].location - 25000 < mem.string_const@.len()
                        && mem.string_const@[ctx.const_dir@[j].location - 25000]
                        == ctx.const_dir@[j].name,
                forall|j: int|
                    0 <= j < i && (#[trigger] ctx.const_dir@[j]).var_type == Type::Float
                        ==> is_float_literal(ctx.const_dir@[j].name@),
                requests@.len() == crate::dusty_context::count_consts(
                    ctx.const_dir@.take(i as int),
                    Type::Float,
                ),
                forall|k: int|
                    0 <= k < requests@.len() ==> float_request_matches(
                        #[trigger] requests@[k],
                        ctx.const_dir@,
                        i as int,
                    ),
            decreases ctx.const_dir@.len() - i,
        {
            let entry: &VarInfo = &ctx.const_dir[i];
            proof {
                let d = ctx.const_dir@;
                let ii = i as int;
                assert(d[ii].location as int == crate::dusty_context::const_base(d[ii].var_type)
                    + crate::dusty_context::count_consts(d.take(ii), d[ii].var_type));
                crate::dusty_context::lemma_count_consts_nonneg(d.take(ii), d[ii].var_type);
                crate::dusty_context::lemma_count_consts_strict(d, ii, d[ii].var_type);
                assert forall|j: int|
                    0 <= j < ii && (#[trigger] d[j]).var_type == d[ii].var_type implies d[
                j].location != d[ii].location by {
                    crate::dusty_context::lemma_count_consts_strict(d.take(ii), j, d[ii].var_type);
                    assert(d.take(ii).take(j) =~= d.take(j));
                    assert(d.take(ii)[j] == d[j]);
                }
            }
            match entry.var_type {
                Type::Int => {
                    let v = match parse_int_const(entry.name.as_str()) {
                        Some(v) => v,
                        None => {
                            return Err(
                                RuntimeError::MalformedLiteral { text: clone_string(&entry.name) },
                            );
                        },
                    };
                    if entry.location < 21000 || (entry.location - 21000) as usize
                        >= mem.int_consts.len() {
                        proof {
                            assert(false);
                        }
                        return Err(RuntimeError::AddressOutOfRange { address: entry.location });
                    }
                    let off = (entry.location - 21000) as usize;
                    mem.int_consts[off] = v;
                },
                Type::Float => {
                    if !check_float_literal(entry.name.as_str()) {
                        return Err(
                            RuntimeError::MalformedLiteral { text: clone_string(&entry.name) },
                        );
                    }
                    if entry.location < 23000 || (entry.location - 23000) as usize
                        >= mem.float_consts.len() {
                        proof {
                            assert(false);
                        }
                        return Err(RuntimeError::AddressOutOfRange { address: entry.location });
                    }
                    let off = (entry.location - 23000) as usize;
                    requests.push(
                        FloatConstRequest { offset: off, text: clone_string(&entry.name) },
                    );
                    proof {
                        assert(ctx.const_dir@.take(i + 1).drop_last() =~= ctx.const_dir@.take(
                            i as int,
                        ));
                        assert(requests@.last().offset == ctx.const_dir@[i as int].location
                            - 23000);
                    }
                },
                Type::Str => {
                    if entry.location < 25000 || (entry.location - 25000) as usize
                        >= mem.string_const.len() {
                        proof {
                            assert(false);
                        }
                        return Err(RuntimeError::AddressOutOfRange { address: entry.location });
                    }
                    let off = (entry.location - 25000) as usize;
                    mem.string_const[off] = clone_string(&entry.name);
                },
            }
            i += 1;
            proof {
                assert(ctx.const_dir@.take(i as int).drop_last() =~= ctx.const_dir@.take(
                    i - 1,
                ));
            }
        }
        proof {
            assert(ctx.const_dir@.take(ctx.const_dir@.len() as int) =~= ctx.const_dir@);
        }
        Ok((Vm { mem, pending: Vec::new(), pending_params: Vec::new(), ip: 0 }, requests))
    }

    /// Stores a parsed float constant's bits at its offset in the float
    /// constant segment; part of startup materialization.
    pub fn set_float_const(&mut self, offset: usize, bits: u32) -> (r: Result<(), RuntimeError>)
        ensures
            final(self).mem.int_consts@ == old(self).mem.int_consts@,
            final(self).mem.string_const@ == old(self).mem.string_const@,
            offset < old(self).mem.float_consts@.len() ==> r is Ok,
            r is Ok ==> final(self).mem.float_consts@ == old(self).mem.float_consts@.update(
                offset as int,
                bits,
            ),
            r is Err ==> *final(self) == *old(self) && offset >= old(self).mem.float_consts@.len(),
    {
        if offset >= self.mem.float_consts.len() {
            return Err(RuntimeError::AddressOutOfRange { address: offset as u32 });
        }
        self.mem.float_consts[offset] = bits;
        Ok(())
    }

    /// Stores the bits a [`VmEvent::FloatOp`] or
    /// [`VmEvent::StoreFloatOfInt`] asked for. The destination is a float
    /// cell, never a constant.
    pub fn supply_float(&mut self, dest: u32, bits: u32) -> (r: Result<(), RuntimeError>)
        ensures
            final(self).mem.int_consts@ == old(self).mem.int_consts@,
            final(self).mem.float_consts@ == old(self).mem.float_consts@,
            final(self).mem.string_const@ == old(self).mem.string_const@,
            final(self).ip == old(self).ip,
            final(self).pending == old(self).pending,
            final(self).pending_params == old(self).pending_params,
            spec_write_ok(old(self).mem, dest as int, Value::FloatBits(bits)) ==> r is Ok,
            r is Ok ==> mem_updated(
                old(self).mem,
                final(self).mem,
                dest as int,
                Value::FloatBits(bits),
            ),
            r is Err ==> final(self).mem == old(self).mem,
    {
        set_value(&mut self.mem, dest as usize, Value::FloatBits(bits))
    }
}

/// The opcode of the quadruple the instruction pointer names, or zero past
/// the end of the program.
pub open spec fn cur_code(vm: Vm, ctx: DustyContext) -> u32 {
    if vm.ip < ctx.quadruples@.len() {
        ctx.quadruples@[vm.ip as int].op.memory
    } else {
        0
    }
}

/// The machine's memory and pending record are as they were; only the
/// instruction pointer may have moved.
pub open spec fn vm_same_mem(pre: Vm, post: Vm) -> bool {
    &&& post.mem == pre.mem
    &&& post.pending == pre.pending
    &&& post.pending_params == pre.pending_params
}

/// The binary operator an arithmetic opcode stands for.
pub open spec fn code_bin_op(c: u32) -> BinOp {
    if c == 1 {
        BinOp::Add
    } else if c == 2 {
        BinOp::Sub
    } else if c == 3 {
        BinOp::Mul
    } else {
        BinOp::Div
    }
}

/// Whether a float-constant request names some float entry of the pool's
/// first `upto` entries, with the entry's segment offset.
pub open spec fn float_request_matches(req: FloatConstRequest, dir: Seq<VarInfo>, upto: int) -> bool {
    exists|j: int|
        0 <= j < upto <= dir.len() && (#[trigger] dir[j]).var_type == Type::Float && req.text
            == dir[j].name && req.offset == dir[j].location - 23000
}

/// A pair of numeric operands of which at least one is a float: the pair
/// an arithmetic quadruple hands out for float arithmetic.
pub open spec fn float_pair(l: Value, r: Value) -> bool {
    !(l is IntVal && r is IntVal) && !(l is StrVal) && !(r is StrVal)
}

/// Whether a runtime value is a zero divisor: the integer zero, or float
/// bits whose magnitude is zero (either sign).
pub open spec fn val_is_zero(v: Value) -> bool {
    match v {
        Value::IntVal(x) => x == 0,
        Value::FloatBits(b) => b & 0x7FFF_FFFF == 0,
        Value::StrVal(_) => false,
    }
}

/// Executes the quadruple the instruction pointer names and advances.
///
/// The constant segments never change: a write aimed there fails with
/// `WriteToConstant`. A `gosub` pushes the return address and `endfunc`
/// restores exactly the address its matching `gosub` pushed — the one on
/// top — and discards the call's frame.
#[verifier::rlimit(100)]
#[verifier::spinoff_prover]
pub fn vm_step(vm: &mut Vm, ctx: &DustyContext) -> (r: Result<VmEvent, RuntimeError>)
    ensures
        final(vm).mem.int_consts@ == old(vm).mem.int_consts@,
        final(vm).mem.float_consts@ == old(vm).mem.float_consts@,
        final(vm).mem.string_const@ == old(vm).mem.string_const@,
        old(vm).ip >= ctx.quadruples@.len() ==> (r matches Ok(e) && e is Halted && *final(vm)
            == *old(vm)),
        old(vm).ip < ctx.quadruples@.len() && cur_code(*old(vm), *ctx) == 10 ==> ({
            let q = ctx.quadruples@[old(vm).ip as int];
            &&& (q.dest.memory >= 1 ==> (r matches Ok(e) && e is Ran) && vm_same_mem(
                *old(vm),
                *final(vm),
            ) && final(vm).ip == q.dest.memory - 1)
            &&& (q.dest.memory == 0 ==> r is Err)
        }),
        old(vm).ip < ctx.quadruples@.len() && cur_code(*old(vm), *ctx) == 11 ==> ({
            let q = ctx.quadruples@[old(vm).ip as int];
            &&& (spec_read(old(vm).mem, q.arg1.memory as int) matches Some(Value::IntVal(x))
                ==> {
                &&& (x == 0 && q.dest.memory >= 1 ==> (r matches Ok(e) && e is Ran)
                    && vm_same_mem(*old(vm), *final(vm)) && final(vm).ip == q.dest.memory - 1)
                &&& (x != 0 ==> (r matches Ok(e) && e is Ran) && vm_same_mem(
                    *old(vm),
                    *final(vm),
                ) && final(vm).ip == old(vm).ip + 1)
                &&& (x == 0 && q.dest.memory == 0 ==> r is Err)
            })
            &&& (!(spec_read(old(vm).mem, q.arg1.memory as int) matches Some(v) && v is IntVal)
                ==> r is Err)
        }),
        old(vm).ip < ctx.quadruples@.len() && cur_code(*old(vm), *ctx) == 9 ==> ({
            let q = ctx.quadruples@[old(vm).ip as int];
            &&& (spec_read(old(vm).mem, q.arg1.memory as int) matches Some(v) ==> {
                &&& (spec_write_ok(old(vm).mem, q.dest.memory as int, v) ==> (r matches Ok(e)
                    && e is Ran) && mem_updated(
                    old(vm).mem,
                    final(vm).mem,
                    q.dest.memory as int,
                    v,
                ) && final(vm).pending == old(vm).pending && final(vm).pending_params == old(
                    vm,
                ).pending_params && final(vm).ip == old(vm).ip + 1)
                &&& (!spec_write_ok(old(vm).mem, q.dest.memory as int, v) ==> r is Err)
            })
            &&& (spec_read(old(vm).mem, q.arg1.memory as int) is None ==> r is Err)
        }),
        old(vm).ip < ctx.quadruples@.len() && 1 <= cur_code(*old(vm), *ctx) <= 3 ==> ({
            let q = ctx.quadruples@[old(vm).ip as int];
            let c = cur_code(*old(vm), *ctx);
            let rl = spec_read(old(vm).mem, q.arg1.memory as int);
            let rr = spec_read(old(vm).mem, q.arg2.memory as int);
            &&& (rl matches Some(Value::IntVal(a)) ==> rr matches Some(Value::IntVal(b)) ==> ({
                let v = if c == 1 {
                    vstd::wrapping::i32_specs::wrapping_add(a, b)
                } else if c == 2 {
                    vstd::wrapping::i32_specs::wrapping_sub(a, b)
                } else {
                    vstd::wrapping::i32_specs::wrapping_mul(a, b)
                };
                &&& (spec_write_ok(old(vm).mem, q.dest.memory as int, Value::IntVal(v)) ==> (
                r matches Ok(e) && e is Ran) && mem_updated(
                    old(vm).mem,
                    final(vm).mem,
                    q.dest.memory as int,
                    Value::IntVal(v),
                ) && final(vm).pending == old(vm).pending && final(vm).ip == old(vm).ip + 1)
                &&& (!spec_write_ok(old(vm).mem, q.dest.memory as int, Value::IntVal(v)) ==> r
                    is Err)
            }))
            &&& (rl matches Some(l) ==> rr matches Some(rv) ==> (float_pair(l, rv) ==> (r matches
            Ok(e) && (e matches VmEvent::FloatOp { op, left, right, dest } && op == code_bin_op(c)
                && left == l && right == rv && dest == q.dest.memory)) && vm_same_mem(
                *old(vm),
                *final(vm),
            ) && final(vm).ip == old(vm).ip + 1))
            &&& (rl is None || rr is None ==> r is Err)
        }),
        old(vm).ip < ctx.quadruples@.len() && cur_code(*old(vm), *ctx) == 4 ==> ({
            let q = ctx.quadruples@[old(vm).ip as int];
            let rl = spec_read(old(vm).mem, q.arg1.memory as int);
            let rr = spec_read(old(vm).mem, q.arg2.memory as int);
            &&& (rl matches Some(Value::IntVal(a)) ==> rr matches Some(Value::IntVal(b)) ==> {
                &&& (a.checked_div(b) matches Some(v) ==> (r matches Ok(e) && (e matches
                VmEvent::StoreFloatOfInt { value, dest } && value == v && dest == q.dest.memory))
                    && vm_same_mem(*old(vm), *final(vm)) && final(vm).ip == old(vm).ip + 1)
                &&& (a.checked_div(b) is None ==> (r matches Err(e) && e is DivideByZero))
            })
            &&& (rl matches Some(l) ==> rr matches Some(rv) ==> float_pair(l, rv) ==> {
                &&& (val_is_zero(rv) ==> (r matches Err(e) && e is DivideByZero))
                &&& (!val_is_zero(rv) ==> (r matches Ok(e) && (e matches VmEvent::FloatOp {
                    op,
                    left,
                    right,
                    dest,
                } && op == BinOp::Div && left == l && right == rv && dest == q.dest.memory))
                    && vm_same_mem(*old(vm), *final(vm)) && final(vm).ip == old(vm).ip + 1)
            })
            &&& (rl is None || rr is None ==> r is Err)
        }),
        old(vm).ip < ctx.quadruples@.len() && 5 <= cur_code(*old(vm), *ctx) <= 8 ==> ({
            let q = ctx.quadruples@[old(vm).ip as int];
            let c = cur_code(*old(vm), *ctx);
            let rl = spec_read(old(vm).mem, q.arg1.memory as int);
            let rr = spec_read(old(vm).mem, q.arg2.memory as int);
            &&& (rl matches Some(Value::IntVal(a)) ==> rr matches Some(Value::IntVal(b)) ==> ({
                let v: i32 = if (c == 5 && a < b) || (c == 6 && a > b) || (c == 7 && a == b) || (
                c == 8 && a != b) {
                    1
                } else {
                    0
                };
                &&& (spec_write_ok(old(vm).mem, q.dest.memory as int, Value::IntVal(v)) ==> (
                r matches Ok(e) && e is Ran) && mem_updated(
                    old(vm).mem,
                    final(vm).mem,
                    q.dest.memory as int,
                    Value::IntVal(v),
                ) && final(vm).pending == old(vm).pending && final(vm).ip == old(vm).ip + 1)
                &&& (!spec_write_ok(old(vm).mem, q.dest.memory as int, Value::IntVal(v)) ==> r
                    is Err)
            }))
            &&& (!(rl matches Some(v1) && v1 is IntVal) || !(rr matches Some(v2) && v2 is IntVal)
                ==> r is Err)
        }),
        old(vm).ip < ctx.quadruples@.len() && cur_code(*old(vm), *ctx) == 15 ==> ({
            let q = ctx.quadruples@[old(vm).ip as int];
            &&& (spec_read(old(vm).mem, q.dest.memory as int) matches Some(v) ==> (r matches Ok(
                e,
            ) && (e matches VmEvent::Output(ov) && ov == v)) && vm_same_mem(*old(vm), *final(vm))
                && final(vm).ip == old(vm).ip + 1)
            &&& (spec_read(old(vm).mem, q.dest.memory as int) is None ==> r is Err)
        }),
        old(vm).ip < ctx.quadruples@.len() && cur_code(*old(vm), *ctx) == 12 ==> ({
            let q = ctx.quadruples@[old(vm).ip as int];
            &&& (old(vm).pending@.len() == 0 && (exists|i: int|
                0 <= i < ctx.func_dir@.len() && (#[trigger] ctx.func_dir@[i]).name@
                    == q.dest.name@) ==> r is Ok)
            &&& (r is Ok ==> (r matches Ok(e) && e is Ran) && old(vm).pending@.len() == 0 && final(vm).pending@.len() == 1 && (exists|i: int|
                0 <= i < ctx.func_dir@.len() && (#[trigger] ctx.func_dir@[i]).name@
                    == q.dest.name@ && final(vm).pending@[0].ints@.len()
                    == ctx.func_dir@[i].resources.int_count && final(vm).pending@[0].int_temps@.len() == ctx.func_dir@[i].resources.temp_i_count && final(vm).pending@[0].floats@.len() == ctx.func_dir@[i].resources.float_count && final(vm).pending@[0].float_temps@.len() == ctx.func_dir@[i].resources.temp_f_count
                    && final(vm).pending_params@ == ctx.func_dir@[i].params@) && final(vm).mem
                == old(vm).mem && final(vm).ip == old(vm).ip + 1)
        }),
        old(vm).ip < ctx.quadruples@.len() && cur_code(*old(vm), *ctx) == 13 ==> ({
            let q = ctx.quadruples@[old(vm).ip as int];
            &&& (spec_read(old(vm).mem, q.arg1.memory as int) matches Some(v) ==> {
                &&& (spec_param_write_ok(*old(vm), q.dest.memory as int, v) ==> r is Ok)
                &&& (r is Ok ==> (r matches Ok(e) && e is Ran) && final(vm).mem == old(vm).mem
                    && final(vm).pending_params == old(vm).pending_params && pending_updated(
                    *old(vm),
                    *final(vm),
                    q.dest.memory as int,
                    v,
                ) && final(vm).ip == old(vm).ip + 1)
            })
            &&& (spec_read(old(vm).mem, q.arg1.memory as int) is None ==> r is Err)
        }),
        old(vm).ip < ctx.quadruples@.len() && cur_code(*old(vm), *ctx) == 14 ==> ({
            let q = ctx.quadruples@[old(vm).ip as int];
            &&& (old(vm).pending@.len() > 0 && q.dest.memory >= 1 ==> r is Ok)
            &&& (r is Ok ==> (r matches Ok(e) && e is Ran) && old(vm).pending@.len() > 0
                && q.dest.memory >= 1 && final(vm).mem.memory_stack@ == old(
                vm,
            ).mem.memory_stack@.push(old(vm).pending@.last()) && final(vm).mem.jump_stack@ == old(
                vm,
            ).mem.jump_stack@.push((old(vm).ip + 1) as usize) && final(vm).pending@ == old(
                vm,
            ).pending@.drop_last() && final(vm).pending_params == old(vm).pending_params && final(vm).mem.ints == old(vm).mem.ints && final(vm).mem.int_temps == old(vm).mem.int_temps
                && final(vm).mem.floats == old(vm).mem.floats && final(vm).mem.float_temps == old(
                vm,
            ).mem.float_temps && final(vm).ip == q.dest.memory - 1)
        }),
        old(vm).ip < ctx.quadruples@.len() && cur_code(*old(vm), *ctx) == 17 ==> ({
            &&& (old(vm).mem.jump_stack@.len() > 0 && old(vm).mem.memory_stack@.len() > 0 ==> r
                is Ok)
            &&& (r is Ok ==> (r matches Ok(e) && e is Ran) && old(vm).mem.jump_stack@.len() > 0
                && old(vm).mem.memory_stack@.len() > 0 && final(vm).ip == old(
                vm,
            ).mem.jump_stack@.last() && final(vm).mem.jump_stack@ == old(
                vm,
            ).mem.jump_stack@.drop_last() && final(vm).mem.memory_stack@ == old(
                vm,
            ).mem.memory_stack@.drop_last() && final(vm).pending == old(vm).pending && final(vm).pending_params == old(vm).pending_params && final(vm).mem.ints == old(vm).mem.ints
                && final(vm).mem.int_temps == old(vm).mem.int_temps && final(vm).mem.floats == old(
                vm,
            ).mem.floats && final(vm).mem.float_temps == old(vm).mem.float_temps)
        }),
        old(vm).ip < ctx.quadruples@.len() && cur_code(*old(vm), *ctx) == 16 ==> (r matches Ok(e)
            && e is Halted && *final(vm) == *old(vm)),
        old(vm).ip < ctx.quadruples@.len() && (cur_code(*old(vm), *ctx) == 0 || cur_code(
            *old(vm),
            *ctx,
        ) > 17) ==> (r matches Ok(e) && e is Ran) && vm_same_mem(*old(vm), *final(vm)) && final(vm).ip == old(vm).ip + 1,
{
    if vm.ip >= ctx.quadruples.len() {
        return Ok(VmEvent::Halted);
    }
    let q: &Quad = &ctx.quadruples[vm.ip];
    let code = q.op.memory;
    if code == 10 {
        // goto: the destination is a 1-based quadruple index
        let dest = q.dest.memory as usize;
        if dest == 0 {
            return Err(RuntimeError::AddressOutOfRange { address: q.dest.memory });
        }
        vm.ip = dest - 1;
        Ok(VmEvent::Ran)
    } else if code == 11 {
        // gotof: jump when the condition is zero
        let v = get_value(&vm.mem, q.arg1.memory as usize)?;
        let x = match v {
            Value::IntVal(x) => x,
            _ => {
                return Err(RuntimeError::AddressOutOfRange { address: q.arg1.memory });
            },
        };
        if x == 0 {
            let dest = q.dest.memory as usize;
            if dest == 0 {
                return Err(RuntimeError::AddressOutOfRange { address: q.dest.memory });
            }
            vm.ip = dest - 1;
        } else {
            vm.ip = vm.ip + 1;
        }
        Ok(VmEvent::Ran)
    } else if code == 12 {
        // era: allocate the callee's activation record
        if vm.pending.len() != 0 {
            return Err(RuntimeError::BrokenCallSequence);
        }
        let fidx = match ctx.find_func(q.dest.name.as_str()) {
            Some(i) => i,
            None => {
                return Err(RuntimeError::UnknownFunction { name: clone_string(&q.dest.name) });
            },
        };
        let res = &ctx.func_dir[fidx].resources;
        let frame = LocalMemory::new(
            res.int_count as usize,
            res.temp_i_count as usize,
            res.float_count as usize,
            res.temp_f_count as usize,
        );
        vm.pending.push(frame);
        let params = copy_params(&ctx.func_dir[fidx].params);
        vm.pending_params = params;
        vm.ip = vm.ip + 1;
        Ok(VmEvent::Ran)
    } else if code == 13 {
        // param: fill one slot of the record under construction
        let v = get_value(&vm.mem, q.arg1.memory as usize)?;
        set_param_value(vm, q.dest.memory as usize, v)?;
        vm.ip = vm.ip + 1;
        Ok(VmEvent::Ran)
    } else if code == 14 {
        // gosub: push the return address and enter the callee
        let frame = match vm.pending.pop() {
            Some(f) => f,
            None => {
                return Err(RuntimeError::BrokenCallSequence);
            },
        };
        let dest = q.dest.memory as usize;
        if dest == 0 {
            vm.pending.push(frame);
            return Err(RuntimeError::AddressOutOfRange { address: q.dest.memory });
        }
        vm.mem.memory_stack.push(frame);
        vm.mem.jump_stack.push(vm.ip + 1);
        vm.ip = dest - 1;
        Ok(VmEvent::Ran)
    } else if code == 15 {
        // print
        let v = get_value(&vm.mem, q.dest.memory as usize)?;
        vm.ip = vm.ip + 1;
        Ok(VmEvent::Output(v))
    } else if code == 16 {
        // end: halt; the pointer stays put
        Ok(VmEvent::Halted)
    } else if code == 17 {
        // endfunc: tear the frame down and return
        let ret = match vm.mem.jump_stack.pop() {
            Some(p) => p,
            None => {
                return Err(RuntimeError::BrokenCallSequence);
            },
        };
        match vm.mem.memory_stack.pop() {
            Some(_) => {},
            None => {
                vm.mem.jump_stack.push(ret);
                return Err(RuntimeError::BrokenCallSequence);
            },
        }
        vm.ip = ret;
        Ok(VmEvent::Ran)
    } else if code == 9 {
        // =: copy a value
        let v = get_value(&vm.mem, q.arg1.memory as usize)?;
        set_value(&mut vm.mem, q.dest.memory as usize, v)?;
        vm.ip = vm.ip + 1;
        Ok(VmEvent::Ran)
    } else if 1 <= code && code <= 4 {
        // + - * /: integer arithmetic here, float arithmetic by the caller
        let left = get_value(&vm.mem, q.arg1.memory as usize)?;
        let right = get_value(&vm.mem, q.arg2.memory as usize)?;
        let op = if code == 1 {
            BinOp::Add
        } else if code == 2 {
            BinOp::Sub
        } else if code == 3 {
            BinOp::Mul
        } else {
            BinOp::Div
        };
        match (left, right) {
            (Value::IntVal(a), Value::IntVal(b)) => {
                if code == 4 {
                    // integer division truncates; its result lands in a
                    // float cell, so the caller converts it
                    match a.checked_div(b) {
                        Some(v) => {
                            vm.ip = vm.ip + 1;
                            Ok(VmEvent::StoreFloatOfInt { value: v, dest: q.dest.memory })
                        },
                        None => Err(RuntimeError::DivideByZero),
                    }
                } else {
                    let v = if code == 1 {
                        a.wrapping_add(b)
                    } else if code == 2 {
                        a.wrapping_sub(b)
                    } else {
                        a.wrapping_mul(b)
                    };
                    set_value(&mut vm.mem, q.dest.memory as usize, Value::IntVal(v))?;
                    vm.ip = vm.ip + 1;
                    Ok(VmEvent::Ran)
                }
            },
            (Value::StrVal(_), _) | (_, Value::StrVal(_)) => Err(
                RuntimeError::AddressOutOfRange { address: q.arg1.memory },
            ),
            (l, r2) => {
                if code == 4 {
                    let zero = match &r2 {
                        Value::IntVal(x) => *x == 0,
                        Value::FloatBits(b) => (*b & 0x7FFF_FFFF) == 0,
                        Value::StrVal(_) => false,
                    };
                    if zero {
                        return Err(RuntimeError::DivideByZero);
                    }
                }
                vm.ip = vm.ip + 1;
                Ok(VmEvent::FloatOp { op, left: l, right: r2, dest: q.dest.memory })
            },
        }
    } else if 5 <= code && code <= 8 {
        // < > == !=: integer-only in this profile
        let left = get_value(&vm.mem, q.arg1.memory as usize)?;
        let right = get_value(&vm.mem, q.arg2.memory as usize)?;
        let a = match left {
            Value::IntVal(x) => x,
            _ => {
                return Err(RuntimeError::AddressOutOfRange { address: q.arg1.memory });
            },
        };
        let b = match right {
            Value::IntVal(x) => x,
            _ => {
                return Err(RuntimeError::AddressOutOfRange { address: q.arg2.memory });
            },
        };
        let v = if code == 5 {
            bool_to_int(a < b)
        } else if code == 6 {
            bool_to_int(a > b)
        } else if code == 7 {
            bool_to_int(a == b)
        } else {
            bool_to_int(a != b)
        };
        set_value(&mut vm.mem, q.dest.memory as usize, Value::IntVal(v))?;
        vm.ip = vm.ip + 1;
        Ok(VmEvent::Ran)
    } else {
        // an opcode outside the instruction set: skipped
        vm.ip = vm.ip + 1;
        Ok(VmEvent::Ran)
    }
}

} // verus!
