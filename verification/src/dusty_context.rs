//! The translator context: the function directory, the constant pool, the
//! working stacks, and the growing quadruple vector, together with the
//! primitives that emit and backpatch quadruples.

use vstd::prelude::*;
use vstd::string::*;
use crate::function_info::{spec_bump, var_names_unique, FunctionInfo};
use crate::lang::{BinOp, CompileError, Kind, OpStackItem, Type};
use crate::quad_data::{spec_segment_base, QuadData};
use crate::quadruple_unit::{bin_op_code, op_code, quad_slots_ok, Quad, QuadrupleUnit};
use crate::semantic_cube::spec_result_type;
use crate::text::{counted_name, dec_chars, decimal_string, str_eq};
use crate::var_info::VarInfo;
use crate::virtual_memory::{data_address, in_segment, segment_for, SEGMENT_SIZE};

verus! {

/// No two functions of a directory share a name.
pub open spec fn func_names_unique(d: Seq<FunctionInfo>) -> bool {
    forall|i: int, j: int| 0 <= i < j < d.len() ==> d[i].name@ != d[j].name@
}

/// The directories have the same functions (names, entry points, variables
/// and parameters); only resource counters may differ.
pub open spec fn same_func_shape(pre: Seq<FunctionInfo>, post: Seq<FunctionInfo>) -> bool {
    &&& post.len() == pre.len()
    &&& forall|i: int|
        0 <= i < pre.len() ==> {
            &&& (#[trigger] post[i]).name == pre[i].name
            &&& post[i].location == pre[i].location
            &&& post[i].vars == pre[i].vars
            &&& post[i].params == pre[i].params
        }
}

/// How many constants of type `t` the pool holds.
pub open spec fn count_consts(dir: Seq<VarInfo>, t: Type) -> int
    decreases dir.len(),
{
    if dir.len() == 0 {
        0
    } else {
        count_consts(dir.drop_last(), t) + if dir.last().var_type == t {
            1int
        } else {
            0int
        }
    }
}

/// Base address of the constant segment for a type.
pub open spec fn const_base(t: Type) -> u32 {
    match t {
        Type::Int => 21000,
        Type::Float => 23000,
        Type::Str => 25000,
    }
}

/// Counts of interned constants by type; they size the constant segments
/// of the virtual machine.
#[derive(Clone, Copy, Debug)]
pub struct ConstCounts {
    pub int_count: u32,
    pub float_count: u32,
    pub string_count: u32,
}

/// The one owner of all state a translation mutates.
#[derive(Debug)]
pub struct DustyContext {
    /// One record per declared function; the scope named `global` is the
    /// program itself.
    pub func_dir: Vec<FunctionInfo>,
    /// The interned constants; an entry's name is its literal text.
    pub const_dir: Vec<VarInfo>,
    /// The type named by the most recent type token.
    pub current_type: Type,
    /// Name of the scope being translated.
    pub current_func: String,
    /// Name of the function being called, between `era` and `gosub`.
    pub current_call: String,
    /// Identifiers waiting for their type token.
    pub id_stack: Vec<String>,
    pub quad_data: QuadData,
    /// The growing program, 1-indexed by the quadruple counter.
    pub quadruples: Vec<Quad>,
    pub constants: ConstCounts,
}

impl DustyContext {
    /// Whether a function of this name is declared.
    pub open spec fn spec_has_func(self, name: Seq<char>) -> bool {
        exists|i: int| 0 <= i < self.func_dir@.len() && self.func_dir@[i].name@ == name
    }

    /// The index of the function of this name.
    pub open spec fn spec_func_idx(self, name: Seq<char>) -> int {
        choose|i: int| 0 <= i < self.func_dir@.len() && self.func_dir@[i].name@ == name
    }

    /// The function of this name.
    pub open spec fn spec_func(self, name: Seq<char>) -> FunctionInfo {
        self.func_dir@[self.spec_func_idx(name)]
    }

    /// Whether the current scope is the program's own.
    pub open spec fn current_is_global(self) -> bool {
        self.current_func@ == "global"@
    }

    /// Whether the pool holds a constant with this literal text and type.
    pub open spec fn spec_has_const(self, name: Seq<char>, t: Type) -> bool {
        exists|i: int|
            0 <= i < self.const_dir@.len() && self.const_dir@[i].name@ == name
                && self.const_dir@[i].var_type == t
    }

    /// The constant pool's shape: every entry sits at its segment's base
    /// plus the number of earlier entries of its type, segments never
    /// overflow, no literal is interned twice at one type, and the counts
    /// track the pool.
    pub open spec fn const_wf(self) -> bool {
        &&& forall|i: int|
            0 <= i < self.const_dir@.len() ==> (#[trigger] self.const_dir@[i]).location as int
                == const_base(self.const_dir@[i].var_type) + count_consts(
                self.const_dir@.take(i),
                self.const_dir@[i].var_type,
            )
        &&& forall|i: int|
            0 <= i < self.const_dir@.len() ==> count_consts(
                self.const_dir@.take(i),
                (#[trigger] self.const_dir@[i]).var_type,
            ) < 2000
        &&& forall|i: int, j: int|
            0 <= i < j < self.const_dir@.len() ==> !(self.const_dir@[i].name@
                == self.const_dir@[j].name@ && self.const_dir@[i].var_type
                == self.const_dir@[j].var_type)
        &&& self.constants.int_count == count_consts(self.const_dir@, Type::Int)
        &&& self.constants.float_count == count_consts(self.const_dir@, Type::Float)
        &&& self.constants.string_count == count_consts(self.const_dir@, Type::Str)
    }

    /// The context invariant: the quadruple counter names the next
    /// quadruple and fits an address slot; every emitted quadruple obeys
    /// the address discipline; function names are unique and each record
    /// is well formed; the constant pool is well shaped; and every operand
    /// on the stack carries an address within a declared segment.
    pub open spec fn wf(self) -> bool {
        &&& self.quad_data.quad_counter == self.quadruples@.len() + 1
        &&& self.quad_data.quad_counter <= 0xFFFF_FFFF
        &&& self.quad_data.temp_counter <= self.quad_data.quad_counter
        &&& forall|i: int|
            0 <= i < self.quadruples@.len() ==> quad_slots_ok(#[trigger] self.quadruples@[i])
        &&& func_names_unique(self.func_dir@)
        &&& forall|i: int| 0 <= i < self.func_dir@.len() ==> (#[trigger] self.func_dir@[i]).wf()
        &&& self.const_wf()
        &&& forall|i: int|
            0 <= i < self.quad_data.operand_stack@.len() ==> data_address(
                (#[trigger] self.quad_data.operand_stack@[i]).location as int,
            )
    }

    /// A fresh context: no functions, no constants, no quadruples, empty
    /// stacks.
    pub fn new() -> (r: DustyContext)
        ensures
            r.wf(),
            r.func_dir@.len() == 0,
            r.const_dir@.len() == 0,
            r.quadruples@.len() == 0,
            r.quad_data.operator_stack@.len() == 0,
            r.quad_data.operand_stack@.len() == 0,
            r.quad_data.jump_stack@.len() == 0,
            r.quad_data.quad_counter == 1,
            r.quad_data.param_counter == 0,
            r.quad_data.temp_counter == 1,
            r.id_stack@.len() == 0,
            r.current_func@ == Seq::<char>::empty(),
            r.current_call@ == Seq::<char>::empty(),
            r.constants.int_count == 0,
            r.constants.float_count == 0,
            r.constants.string_count == 0,
    {
        DustyContext {
            func_dir: Vec::new(),
            const_dir: Vec::new(),
            current_type: Type::Int,
            current_func: String::new(),
            current_call: String::new(),
            id_stack: Vec::new(),
            quad_data: QuadData::new(),
            quadruples: Vec::new(),
            constants: ConstCounts { int_count: 0, float_count: 0, string_count: 0 },
        }
    }

    /// The index of the function of this name, if declared.
    pub fn find_func(&self, name: &str) -> (r: Option<usize>)
        ensures
            match r {
                Some(i) => i < self.func_dir@.len() && self.func_dir@[i as int].name@ == name@
                    && self.spec_has_func(name@),
                None => !self.spec_has_func(name@),
            },
    {
        let mut i: usize = 0;
        while i < self.func_dir.len()
            invariant
                i <= self.func_dir@.len(),
                forall|j: int| 0 <= j < i ==> self.func_dir@[j].name@ != name@,
            decreases self.func_dir@.len() - i,
        {
            if str_eq(self.func_dir[i].name.as_str(), name) {
                return Some(i);
            }
            i += 1;
        }
        None
    }

    /// Whether a function of this name is declared.
    pub fn has_function(&self, name: &str) -> (r: bool)
        ensures
            r == self.spec_has_func(name@),
    {
        self.find_func(name).is_some()
    }

    /// With unique names, the declared function of a name is the one
    /// `spec_func` denotes.
    pub proof fn lemma_func_unique(self, name: Seq<char>, i: int)
        requires
            func_names_unique(self.func_dir@),
            0 <= i < self.func_dir@.len(),
            self.func_dir@[i].name@ == name,
        ensures
            self.spec_has_func(name),
            self.spec_func_idx(name) == i,
            self.spec_func(name) == self.func_dir@[i],
    {
        assert(self.spec_has_func(name));
        let k = self.spec_func_idx(name);
        if k != i {
            if k < i {
                assert(self.func_dir@[k].name@ != self.func_dir@[i].name@);
            } else {
                assert(self.func_dir@[i].name@ != self.func_dir@[k].name@);
            }
        }
    }

    /// Whether the current scope declares this identifier.
    pub fn contains_id(&self, id: &str) -> (r: bool)
        requires
            self.spec_has_func(self.current_func@),
            func_names_unique(self.func_dir@),
        ensures
            r == self.spec_func(self.current_func@).spec_contains_key(id@),
    {
        let idx = match self.find_func(self.current_func.as_str()) {
            Some(i) => i,
            None => {
                proof {
                    assert(false);
                }
                0
            },
        };
        proof {
            self.lemma_func_unique(self.current_func@, idx as int);
        }
        self.func_dir[idx].contains_key(id)
    }

    /// Whether the global scope declares this identifier.
    pub fn id_in_global_scope(&self, id: &str) -> (r: bool)
        requires
            self.spec_has_func("global"@),
            func_names_unique(self.func_dir@),
        ensures
            r == self.spec_func("global"@).spec_contains_key(id@),
    {
        let idx = match self.find_func("global") {
            Some(i) => i,
            None => {
                proof {
                    assert(false);
                }
                0
            },
        };
        proof {
            self.lemma_func_unique("global"@, idx as int);
        }
        self.func_dir[idx].contains_key(id)
    }

    /// Whether the operator stack's top is `*` or `/`.
    pub fn top_is_multiplication_or_division(&self) -> (r: bool)
        ensures
            r == (self.quad_data.operator_stack@.len() > 0 && {
                ||| self.quad_data.operator_stack@.last() == OpStackItem::Bin(BinOp::Mul)
                ||| self.quad_data.operator_stack@.last() == OpStackItem::Bin(BinOp::Div)
            }),
    {
        if self.quad_data.operator_stack.len() == 0 {
            return false;
        }
        let top = self.quad_data.operator_stack[self.quad_data.operator_stack.len() - 1];
        top == OpStackItem::Bin(BinOp::Mul) || top == OpStackItem::Bin(BinOp::Div)
    }

    /// Whether the operator stack's top is `+` or `-`.
    pub fn top_is_addition_or_subtraction(&self) -> (r: bool)
        ensures
            r == (self.quad_data.operator_stack@.len() > 0 && {
                ||| self.quad_data.operator_stack@.last() == OpStackItem::Bin(BinOp::Add)
                ||| self.quad_data.operator_stack@.last() == OpStackItem::Bin(BinOp::Sub)
            }),
    {
        if self.quad_data.operator_stack.len() == 0 {
            return false;
        }
        let top = self.quad_data.operator_stack[self.quad_data.operator_stack.len() - 1];
        top == OpStackItem::Bin(BinOp::Add) || top == OpStackItem::Bin(BinOp::Sub)
    }

    /// Whether the operator stack's top is a relational operator.
    pub fn top_is_logical_operator(&self) -> (r: bool)
        ensures
            r == (self.quad_data.operator_stack@.len() > 0 && {
                ||| self.quad_data.operator_stack@.last() == OpStackItem::Bin(BinOp::Less)
                ||| self.quad_data.operator_stack@.last() == OpStackItem::Bin(BinOp::Greater)
                ||| self.quad_data.operator_stack@.last() == OpStackItem::Bin(BinOp::Equal)
                ||| self.quad_data.operator_stack@.last() == OpStackItem::Bin(BinOp::NotEqual)
            }),
    {
        if self.quad_data.operator_stack.len() == 0 {
            return false;
        }
        let top = self.quad_data.operator_stack[self.quad_data.operator_stack.len() - 1];
        top == OpStackItem::Bin(BinOp::Less) || top == OpStackItem::Bin(BinOp::Greater) || top
            == OpStackItem::Bin(BinOp::Equal) || top == OpStackItem::Bin(BinOp::NotEqual)
    }

    /// Whether the operator stack's top is the assignment operator.
    pub fn top_is_equals(&self) -> (r: bool)
        ensures
            r == (self.quad_data.operator_stack@.len() > 0 && self.quad_data.operator_stack@.last()
                == OpStackItem::Bin(BinOp::Assign)),
    {
        if self.quad_data.operator_stack.len() == 0 {
            return false;
        }
        let top = self.quad_data.operator_stack[self.quad_data.operator_stack.len() - 1];
        top == OpStackItem::Bin(BinOp::Assign)
    }

    /// Appends one quadruple and advances the counter. Fails only when the
    /// counter would no longer fit an address slot.
    fn push_quad(&mut self, q: Quad) -> (r: Result<(), CompileError>)
        requires
            old(self).wf(),
            quad_slots_ok(q),
        ensures
            final(self).wf(),
            old(self).quad_data.quad_counter < 0xFFFF_FFFF ==> r is Ok,
            r matches Err(e) ==> e is ProgramTooLong,
            match r {
                Ok(()) => {
                    &&& final(self).quadruples@ == old(self).quadruples@.push(q)
                    &&& appended_one(*old(self), *final(self))
                    &&& final(self).quadruples@.last() == q
                    &&& unchanged_but_quads(*old(self), *final(self))
                },
                Err(_) => *final(self) == *old(self),
            },
    {
        if self.quad_data.quad_counter >= 0xFFFF_FFFFusize {
            return Err(CompileError::ProgramTooLong);
        }
        self.quadruples.push(q);
        self.quad_data.quad_counter = self.quad_data.quad_counter + 1;
        proof {
            assert(self.quadruples@.drop_last() =~= old(self).quadruples@);
            assert(forall|i: int|
                0 <= i < self.quadruples@.len() - 1 ==> self.quadruples@[i] == old(
                    self,
                ).quadruples@[i]);
        }
        Ok(())
    }

    /// Pops a pending jump and points it at the quadruple the counter
    /// names: the next one to be emitted.
    pub fn fill_jump(&mut self)
        requires
            old(self).wf(),
            old(self).quad_data.jump_stack@.len() > 0,
            1 <= old(self).quad_data.jump_stack@.last() <= old(self).quadruples@.len(),
            is_jump_quad(old(self).quadruples@[old(self).quad_data.jump_stack@.last() - 1]),
        ensures
            final(self).wf(),
            final(self).quad_data.jump_stack@ == old(self).quad_data.jump_stack@.drop_last(),
            quad_patched(
                old(self).quadruples@,
                final(self).quadruples@,
                old(self).quad_data.jump_stack@.last() - 1,
                old(self).quad_data.quad_counter as u32,
            ),
            unchanged_but_quads_and_jumps(*old(self), *final(self)),
            final(self).quad_data.quad_counter == old(self).quad_data.quad_counter,
    {
        let target = self.quad_data.quad_counter;
        self.fill_jump_to(target);
    }

    /// Pops a pending jump and points it one past the quadruple the
    /// counter names: the jump lands just after the quadruple about to be
    /// emitted. Used where an exit jump must skip the `goto` that closes a
    /// `while` condition or an `if` branch.
    pub fn fill_while_start(&mut self)
        requires
            old(self).wf(),
            old(self).quad_data.quad_counter < 0xFFFF_FFFF,
            old(self).quad_data.jump_stack@.len() > 0,
            1 <= old(self).quad_data.jump_stack@.last() <= old(self).quadruples@.len(),
            is_jump_quad(old(self).quadruples@[old(self).quad_data.jump_stack@.last() - 1]),
        ensures
            final(self).wf(),
            final(self).quad_data.jump_stack@ == old(self).quad_data.jump_stack@.drop_last(),
            quad_patched(
                old(self).quadruples@,
                final(self).quadruples@,
                old(self).quad_data.jump_stack@.last() - 1,
                (old(self).quad_data.quad_counter + 1) as u32,
            ),
            unchanged_but_quads_and_jumps(*old(self), *final(self)),
            final(self).quad_data.quad_counter == old(self).quad_data.quad_counter,
    {
        let target = self.quad_data.quad_counter + 1;
        self.fill_jump_to(target);
    }

    /// Pops a pending loop-start index and points the quadruple emitted
    /// last — the `goto` that closes a `while` — back at it.
    pub fn fill_while_end(&mut self)
        requires
            old(self).wf(),
            old(self).quad_data.jump_stack@.len() > 0,
            old(self).quad_data.jump_stack@.last() <= 0xFFFF_FFFF,
            old(self).quadruples@.len() >= 1,
            is_jump_quad(old(self).quadruples@.last()),
        ensures
            final(self).wf(),
            final(self).quad_data.jump_stack@ == old(self).quad_data.jump_stack@.drop_last(),
            quad_patched(
                old(self).quadruples@,
                final(self).quadruples@,
                old(self).quadruples@.len() - 1,
                old(self).quad_data.jump_stack@.last() as u32,
            ),
            unchanged_but_quads_and_jumps(*old(self), *final(self)),
            final(self).quad_data.quad_counter == old(self).quad_data.quad_counter,
    {
        let jump = match self.quad_data.jump_stack.pop() {
            Some(j) => j,
            None => {
                proof {
                    assert(false);
                }
                0
            },
        };
        let idx = self.quadruples.len() - 1;
        self.patch_dest_at(idx, jump);
    }

    /// Shared body of the two pending-jump fills.
    fn fill_jump_to(&mut self, target: usize)
        requires
            old(self).wf(),
            target <= 0xFFFF_FFFF,
            old(self).quad_data.jump_stack@.len() > 0,
            1 <= old(self).quad_data.jump_stack@.last() <= old(self).quadruples@.len(),
            is_jump_quad(old(self).quadruples@[old(self).quad_data.jump_stack@.last() - 1]),
        ensures
            final(self).wf(),
            final(self).quad_data.jump_stack@ == old(self).quad_data.jump_stack@.drop_last(),
            quad_patched(
                old(self).quadruples@,
                final(self).quadruples@,
                old(self).quad_data.jump_stack@.last() - 1,
                target as u32,
            ),
            unchanged_but_quads_and_jumps(*old(self), *final(self)),
            final(self).quad_data.quad_counter == old(self).quad_data.quad_counter,
    {
        let jump = match self.quad_data.jump_stack.pop() {
            Some(j) => j,
            None => {
                proof {
                    assert(false);
                }
                0
            },
        };
        let idx = jump - 1;
        self.patch_dest_at(idx, target);
    }

    /// Replaces the destination slot of the quadruple at `idx` (0-based)
    /// with the target `t`, leaving every other slot as it was.
    fn patch_dest_at(&mut self, idx: usize, t: usize)
        requires
            old(self).wf(),
            t <= 0xFFFF_FFFF,
            idx < old(self).quadruples@.len(),
            is_jump_quad(old(self).quadruples@[idx as int]),
        ensures
            final(self).wf(),
            quad_patched(old(self).quadruples@, final(self).quadruples@, idx as int, t as u32),
            unchanged_but_quads_and_jumps(*old(self), *final(self)),
            final(self).quad_data.jump_stack == old(self).quad_data.jump_stack,
            final(self).quad_data.quad_counter == old(self).quad_data.quad_counter,
    {
        let name = decimal_string(t as u64);
        let dest = QuadrupleUnit::new(name, t as u32);
        let op = QuadrupleUnit::new(clone_string(&self.quadruples[idx].op.name), self.quadruples[idx].op.memory);
        let arg1 = QuadrupleUnit::new(
            clone_string(&self.quadruples[idx].arg1.name),
            self.quadruples[idx].arg1.memory,
        );
        let arg2 = QuadrupleUnit::new(
            clone_string(&self.quadruples[idx].arg2.name),
            self.quadruples[idx].arg2.memory,
        );
        let patched = Quad { op, arg1, arg2, dest };
        self.quadruples[idx] = patched;
        proof {
            assert(self.quadruples@[idx as int].op == old(self).quadruples@[idx as int].op);
            assert(forall|k: int|
                0 <= k < old(self).quadruples@.len() && k != idx ==> self.quadruples@[k] == old(
                    self,
                ).quadruples@[k]);
        }
    }
}

/// A quadruple whose operand slots are all unused.
pub open spec fn is_plain_quad(q: Quad, code: u32) -> bool {
    q.op.memory == code && q.arg1.memory == 0 && q.arg2.memory == 0 && q.dest.memory == 0
}

/// Fields of the context an emission never touches: the directories, the
/// current names, the pending identifiers and the constant counts.
pub open spec fn emit_frame(pre: DustyContext, post: DustyContext) -> bool {
    &&& post.func_dir == pre.func_dir
    &&& post.const_dir == pre.const_dir
    &&& post.current_type == pre.current_type
    &&& post.current_func == pre.current_func
    &&& post.current_call == pre.current_call
    &&& post.id_stack == pre.id_stack
    &&& post.constants == pre.constants
}

/// One quadruple was appended: the old program is a prefix and the counter
/// moved up by one.
pub open spec fn appended_one(pre: DustyContext, post: DustyContext) -> bool {
    &&& post.quadruples@.len() == pre.quadruples@.len() + 1
    &&& post.quadruples@.drop_last() == pre.quadruples@
    &&& post.quad_data.quad_counter == pre.quad_data.quad_counter + 1
}

impl DustyContext {
    /// Emits an incomplete `goto` and records it as pending. Its
    /// destination is filled later by a backpatch.
    pub fn generate_goto_quad(&mut self) -> (r: Result<(), CompileError>)
        requires
            old(self).wf(),
        ensures
            final(self).wf(),
            r is Err ==> *final(self) == *old(self),
            r matches Err(e) ==> e is ProgramTooLong,
            old(self).quad_data.quad_counter < 0xFFFF_FFFF ==> r is Ok,
            r is Ok ==> {
                &&& appended_one(*old(self), *final(self))
                &&& is_plain_quad(final(self).quadruples@.last(), 10)
                &&& final(self).quad_data.jump_stack@ == old(self).quad_data.jump_stack@.push(
                    old(self).quad_data.quad_counter,
                )
                &&& emit_frame(*old(self), *final(self))
                &&& final(self).quad_data.operator_stack == old(self).quad_data.operator_stack
                &&& final(self).quad_data.operand_stack == old(self).quad_data.operand_stack
                &&& final(self).quad_data.param_counter == old(self).quad_data.param_counter
                &&& final(self).quad_data.temp_counter == old(self).quad_data.temp_counter
            },
    {
        let idx = self.quad_data.quad_counter;
        let q = Quad {
            op: QuadrupleUnit::new(String::from_str("goto"), 10),
            arg1: QuadrupleUnit::unused(),
            arg2: QuadrupleUnit::unused(),
            dest: QuadrupleUnit::unused(),
        };
        self.push_quad(q)?;
        self.quad_data.jump_stack.push(idx);
        Ok(())
    }

    /// Emits the `goto` that closes a `while` body; its destination (the
    /// loop start) is filled at once by `fill_while_end`, so nothing is
    /// recorded as pending.
    pub fn generate_gotow_quad(&mut self) -> (r: Result<(), CompileError>)
        requires
            old(self).wf(),
        ensures
            final(self).wf(),
            r is Err ==> *final(self) == *old(self),
            r matches Err(e) ==> e is ProgramTooLong,
            old(self).quad_data.quad_counter < 0xFFFF_FFFF ==> r is Ok,
            r is Ok ==> {
                &&& appended_one(*old(self), *final(self))
                &&& is_plain_quad(final(self).quadruples@.last(), 10)
                &&& emit_frame(*old(self), *final(self))
                &&& final(self).quad_data.operator_stack == old(self).quad_data.operator_stack
                &&& final(self).quad_data.operand_stack == old(self).quad_data.operand_stack
                &&& final(self).quad_data.jump_stack == old(self).quad_data.jump_stack
                &&& final(self).quad_data.param_counter == old(self).quad_data.param_counter
                &&& final(self).quad_data.temp_counter == old(self).quad_data.temp_counter
            },
    {
        let q = Quad {
            op: QuadrupleUnit::new(String::from_str("goto"), 10),
            arg1: QuadrupleUnit::unused(),
            arg2: QuadrupleUnit::unused(),
            dest: QuadrupleUnit::unused(),
        };
        self.push_quad(q)
    }

    /// Emits the `endfunc` that closes a function body.
    pub fn generate_endfunc_quad(&mut self) -> (r: Result<(), CompileError>)
        requires
            old(self).wf(),
        ensures
            final(self).wf(),
            r is Err ==> *final(self) == *old(self),
            r matches Err(e) ==> e is ProgramTooLong,
            old(self).quad_data.quad_counter < 0xFFFF_FFFF ==> r is Ok,
            r is Ok ==> {
                &&& appended_one(*old(self), *final(self))
                &&& is_plain_quad(final(self).quadruples@.last(), 17)
                &&& emit_frame(*old(self), *final(self))
                &&& final(self).quad_data.operator_stack == old(self).quad_data.operator_stack
                &&& final(self).quad_data.operand_stack == old(self).quad_data.operand_stack
                &&& final(self).quad_data.jump_stack == old(self).quad_data.jump_stack
                &&& final(self).quad_data.param_counter == old(self).quad_data.param_counter
                &&& final(self).quad_data.temp_counter == old(self).quad_data.temp_counter
            },
    {
        let q = Quad {
            op: QuadrupleUnit::new(String::from_str("endfunc"), 17),
            arg1: QuadrupleUnit::unused(),
            arg2: QuadrupleUnit::unused(),
            dest: QuadrupleUnit::unused(),
        };
        self.push_quad(q)
    }

    /// Emits the `end` that halts the program.
    pub fn generate_end_quad(&mut self) -> (r: Result<(), CompileError>)
        requires
            old(self).wf(),
        ensures
            final(self).wf(),
            r is Err ==> *final(self) == *old(self),
            r matches Err(e) ==> e is ProgramTooLong,
            old(self).quad_data.quad_counter < 0xFFFF_FFFF ==> r is Ok,
            r is Ok ==> {
                &&& appended_one(*old(self), *final(self))
                &&& is_plain_quad(final(self).quadruples@.last(), 16)
                &&& emit_frame(*old(self), *final(self))
                &&& final(self).quad_data.operator_stack == old(self).quad_data.operator_stack
                &&& final(self).quad_data.operand_stack == old(self).quad_data.operand_stack
                &&& final(self).quad_data.jump_stack == old(self).quad_data.jump_stack
                &&& final(self).quad_data.param_counter == old(self).quad_data.param_counter
                &&& final(self).quad_data.temp_counter == old(self).quad_data.temp_counter
            },
    {
        let q = Quad {
            op: QuadrupleUnit::new(String::from_str("end"), 16),
            arg1: QuadrupleUnit::unused(),
            arg2: QuadrupleUnit::unused(),
            dest: QuadrupleUnit::unused(),
        };
        self.push_quad(q)
    }

    /// Emits the `era` that sizes and allocates the callee's activation
    /// record. The destination carries the callee's name for the machine
    /// and its entry point.
    pub fn generate_era_quad(&mut self, func_name: &str) -> (r: Result<(), CompileError>)
        requires
            old(self).wf(),
        ensures
            final(self).wf(),
            r is Err ==> *final(self) == *old(self),
            r matches Err(e) ==> (e is ProgramTooLong || e is UndeclaredIdentifier),
            old(self).quad_data.quad_counter < 0xFFFF_FFFF && old(self).spec_has_func(
                old(self).current_call@,
            ) ==> r is Ok,
            r is Ok ==> {
                &&& old(self).spec_has_func(old(self).current_call@)
                &&& appended_one(*old(self), *final(self))
                &&& ({
                    let q = final(self).quadruples@.last();
                    &&& q.op.memory == 12
                    &&& q.arg1.memory == 0
                    &&& q.arg2.memory == 0
                    &&& q.dest.memory == old(self).spec_func(old(self).current_call@).location
                    &&& q.dest.name@ == func_name@
                })
                &&& emit_frame(*old(self), *final(self))
                &&& final(self).quad_data.operator_stack == old(self).quad_data.operator_stack
                &&& final(self).quad_data.operand_stack == old(self).quad_data.operand_stack
                &&& final(self).quad_data.jump_stack == old(self).quad_data.jump_stack
                &&& final(self).quad_data.param_counter == old(self).quad_data.param_counter
                &&& final(self).quad_data.temp_counter == old(self).quad_data.temp_counter
            },
    {
        let idx = match self.find_func(self.current_call.as_str()) {
            Some(i) => i,
            None => {
                return Err(
                    CompileError::UndeclaredIdentifier {
                        name: String::from_str(func_name),
                        line: 0,
                        col: 0,
                    },
                );
            },
        };
        proof {
            self.lemma_func_unique(self.current_call@, idx as int);
        }
        let location = self.func_dir[idx].location;
        let q = Quad {
            op: QuadrupleUnit::new(String::from_str("era"), 12),
            arg1: QuadrupleUnit::unused(),
            arg2: QuadrupleUnit::unused(),
            dest: QuadrupleUnit::new(String::from_str(func_name), location),
        };
        self.push_quad(q)
    }

    /// Emits the `gosub` that transfers control to the function being
    /// called, once its parameters are populated.
    pub fn generate_gosub_quad(&mut self) -> (r: Result<(), CompileError>)
        requires
            old(self).wf(),
        ensures
            final(self).wf(),
            r is Err ==> *final(self) == *old(self),
            r matches Err(e) ==> (e is ProgramTooLong || e is UndeclaredIdentifier),
            old(self).quad_data.quad_counter < 0xFFFF_FFFF && old(self).spec_has_func(
                old(self).current_call@,
            ) ==> r is Ok,
            r is Ok ==> {
                &&& old(self).spec_has_func(old(self).current_call@)
                &&& appended_one(*old(self), *final(self))
                &&& ({
                    let q = final(self).quadruples@.last();
                    &&& q.op.memory == 14
                    &&& q.arg1.memory == 0
                    &&& q.arg2.memory == 0
                    &&& q.dest.memory == old(self).spec_func(old(self).current_call@).location
                    &&& q.dest.name@ == old(self).current_call@
                })
                &&& emit_frame(*old(self), *final(self))
                &&& final(self).quad_data.operator_stack == old(self).quad_data.operator_stack
                &&& final(self).quad_data.operand_stack == old(self).quad_data.operand_stack
                &&& final(self).quad_data.jump_stack == old(self).quad_data.jump_stack
                &&& final(self).quad_data.param_counter == old(self).quad_data.param_counter
                &&& final(self).quad_data.temp_counter == old(self).quad_data.temp_counter
            },
    {
        let idx = match self.find_func(self.current_call.as_str()) {
            Some(i) => i,
            None => {
                return Err(
                    CompileError::UndeclaredIdentifier {
                        name: clone_string(&self.current_call),
                        line: 0,
                        col: 0,
                    },
                );
            },
        };
        proof {
            self.lemma_func_unique(self.current_call@, idx as int);
        }
        let location = self.func_dir[idx].location;
        let q = Quad {
            op: QuadrupleUnit::new(String::from_str("gosub"), 14),
            arg1: QuadrupleUnit::unused(),
            arg2: QuadrupleUnit::unused(),
            dest: QuadrupleUnit::new(clone_string(&self.current_call), location),
        };
        self.push_quad(q)
    }

    /// Emits a `print` of the operand on top of the stack; the operand is
    /// read, not consumed.
    pub fn generate_print_quad(&mut self) -> (r: Result<(), CompileError>)
        requires
            old(self).wf(),
        ensures
            final(self).wf(),
            r is Err ==> *final(self) == *old(self),
            r matches Err(e) ==> (e is ProgramTooLong || e is StackUnderflow),
            old(self).quad_data.quad_counter < 0xFFFF_FFFF && old(
                self,
            ).quad_data.operand_stack@.len() > 0 ==> r is Ok,
            r is Ok ==> {
                &&& old(self).quad_data.operand_stack@.len() > 0
                &&& appended_one(*old(self), *final(self))
                &&& ({
                    let q = final(self).quadruples@.last();
                    &&& q.op.memory == 15
                    &&& q.arg1.memory == 0
                    &&& q.arg2.memory == 0
                    &&& q.dest.memory == old(self).quad_data.operand_stack@.last().location
                })
                &&& emit_frame(*old(self), *final(self))
                &&& final(self).quad_data.operand_stack == old(self).quad_data.operand_stack
                &&& final(self).quad_data.operator_stack == old(self).quad_data.operator_stack
                &&& final(self).quad_data.jump_stack == old(self).quad_data.jump_stack
                &&& final(self).quad_data.param_counter == old(self).quad_data.param_counter
                &&& final(self).quad_data.temp_counter == old(self).quad_data.temp_counter
            },
    {
        if self.quad_data.operand_stack.len() == 0 {
            return Err(CompileError::StackUnderflow);
        }
        let elem_name = clone_string(
            &self.quad_data.operand_stack[self.quad_data.operand_stack.len() - 1].name,
        );
        let elem_loc = self.quad_data.operand_stack[self.quad_data.operand_stack.len() - 1].location;
        let q = Quad {
            op: QuadrupleUnit::new(String::from_str("print"), 15),
            arg1: QuadrupleUnit::unused(),
            arg2: QuadrupleUnit::unused(),
            dest: QuadrupleUnit::new(elem_name, elem_loc),
        };
        self.push_quad(q)
    }

    /// Emits an incomplete `gotof` reading the condition on top of the
    /// operand stack, consumes the condition, and records the jump as
    /// pending. The condition must be of type `int`.
    pub fn generate_gotof_quad(&mut self) -> (r: Result<(), CompileError>)
        requires
            old(self).wf(),
        ensures
            final(self).wf(),
            r is Err ==> *final(self) == *old(self),
            r matches Err(e) ==> (e is ProgramTooLong || e is StackUnderflow || e is BadConditionType),
            old(self).quad_data.quad_counter < 0xFFFF_FFFF && old(
                self,
            ).quad_data.operand_stack@.len() > 0 && old(
                self,
            ).quad_data.operand_stack@.last().var_type == Type::Int ==> r is Ok,
            r is Ok ==> {
                &&& old(self).quad_data.operand_stack@.len() > 0
                &&& old(self).quad_data.operand_stack@.last().var_type == Type::Int
                &&& appended_one(*old(self), *final(self))
                &&& ({
                    let q = final(self).quadruples@.last();
                    &&& q.op.memory == 11
                    &&& q.arg1.memory == old(self).quad_data.operand_stack@.last().location
                    &&& q.arg2.memory == 0
                    &&& q.dest.memory == 0
                })
                &&& final(self).quad_data.jump_stack@ == old(self).quad_data.jump_stack@.push(
                    old(self).quad_data.quad_counter,
                )
                &&& emit_frame(*old(self), *final(self))
                &&& final(self).quad_data.operand_stack == old(self).quad_data.operand_stack
                &&& final(self).quad_data.operator_stack == old(self).quad_data.operator_stack
                &&& final(self).quad_data.param_counter == old(self).quad_data.param_counter
                &&& final(self).quad_data.temp_counter == old(self).quad_data.temp_counter
            },
    {
        if self.quad_data.operand_stack.len() == 0 {
            return Err(CompileError::StackUnderflow);
        }
        let top = self.quad_data.operand_stack.len() - 1;
        if self.quad_data.operand_stack[top].var_type != Type::Int {
            return Err(
                CompileError::BadConditionType { found: self.quad_data.operand_stack[top].var_type },
            );
        }
        let cond_name = clone_string(&self.quad_data.operand_stack[top].name);
        let cond_loc = self.quad_data.operand_stack[top].location;
        let idx = self.quad_data.quad_counter;
        let q = Quad {
            op: QuadrupleUnit::new(String::from_str("gotof"), 11),
            arg1: QuadrupleUnit::new(cond_name, cond_loc),
            arg2: QuadrupleUnit::unused(),
            dest: QuadrupleUnit::unused(),
        };
        self.push_quad(q)?;
        self.quad_data.jump_stack.push(idx);
        Ok(())
    }
}

/// The binary operator on top of the operator stack, if any.
pub open spec fn top_bin_op(d: DustyContext) -> Option<BinOp> {
    if d.quad_data.operator_stack@.len() > 0 {
        match d.quad_data.operator_stack@.last() {
            OpStackItem::Bin(op) => Some(op),
            OpStackItem::Paren => None,
        }
    } else {
        None
    }
}

/// An owned copy of a variable record.
pub fn clone_var(v: &VarInfo) -> (r: VarInfo)
    ensures
        r == *v,
{
    VarInfo { name: clone_string(&v.name), var_type: v.var_type, location: v.location }
}

/// Display text of a binary operator.
fn bin_op_str(op: BinOp) -> &'static str {
    match op {
        BinOp::Add => "+",
        BinOp::Sub => "-",
        BinOp::Mul => "*",
        BinOp::Div => "/",
        BinOp::Less => "<",
        BinOp::Greater => ">",
        BinOp::Equal => "==",
        BinOp::NotEqual => "!=",
        BinOp::Assign => "=",
    }
}

impl DustyContext {
    /// Pops the two operands and the operator on top of the stacks,
    /// consults the semantic cube, allocates a temporary of the result
    /// type in the current scope, emits the full quadruple, and pushes the
    /// temporary as the reduction's result.
    pub fn generate_full_quad(&mut self) -> (r: Result<(), CompileError>)
        requires
            old(self).wf(),
            old(self).spec_has_func(old(self).current_func@),
        ensures
            final(self).wf(),
            r is Err ==> *final(self) == *old(self),
            r matches Err(e) ==> (e is ProgramTooLong || e is StackUnderflow || e is TypeMismatch || e is SegmentExhausted),
            ({
                let n = old(self).quad_data.operand_stack@.len() as int;
                &&& old(self).quad_data.quad_counter < 0xFFFF_FFFF
                &&& n >= 2
                &&& top_bin_op(*old(self)) is Some
                &&& spec_result_type(
                    old(self).quad_data.operand_stack@[n - 2].var_type,
                    old(self).quad_data.operand_stack@[n - 1].var_type,
                    top_bin_op(*old(self)).unwrap(),
                ) is Some
                &&& old(self).spec_func(old(self).current_func@).spec_counter(
                    spec_result_type(
                        old(self).quad_data.operand_stack@[n - 2].var_type,
                        old(self).quad_data.operand_stack@[n - 1].var_type,
                        top_bin_op(*old(self)).unwrap(),
                    ).unwrap(),
                    Kind::Temporal,
                ) < SEGMENT_SIZE
            }) ==> r is Ok,
            r is Ok ==> ({
                let n = old(self).quad_data.operand_stack@.len() as int;
                let left = old(self).quad_data.operand_stack@[n - 2];
                let right = old(self).quad_data.operand_stack@[n - 1];
                let op = top_bin_op(*old(self)).unwrap();
                let rt = spec_result_type(left.var_type, right.var_type, op).unwrap();
                let dest = final(self).quad_data.operand_stack@.last();
                &&& n >= 2
                &&& top_bin_op(*old(self)) is Some
                &&& spec_result_type(left.var_type, right.var_type, op) is Some
                &&& appended_one(*old(self), *final(self))
                &&& ({
                    let q = final(self).quadruples@.last();
                    &&& q.op.memory == bin_op_code(op)
                    &&& q.arg1.memory == left.location
                    &&& q.arg2.memory == right.location
                    &&& q.dest.memory == dest.location
                })
                &&& dest.var_type == rt
                &&& segment_for(rt, old(self).current_is_global(), Kind::Temporal) is Some
                &&& in_segment(
                    dest.location as int,
                    segment_for(rt, old(self).current_is_global(), Kind::Temporal).unwrap(),
                )
                &&& dest.location == spec_segment_base(
                    rt,
                    old(self).current_is_global(),
                    Kind::Temporal,
                ) + old(self).spec_func(old(self).current_func@).spec_counter(rt, Kind::Temporal)
                &&& final(self).quad_data.operand_stack@ == old(
                    self,
                ).quad_data.operand_stack@.take(n - 2).push(dest)
                &&& final(self).quad_data.operator_stack@ == old(
                    self,
                ).quad_data.operator_stack@.drop_last()
                &&& final(self).quad_data.jump_stack == old(self).quad_data.jump_stack
                &&& final(self).quad_data.param_counter == old(self).quad_data.param_counter
                &&& final(self).quad_data.temp_counter == old(self).quad_data.temp_counter + 1
                &&& same_func_shape(old(self).func_dir@, final(self).func_dir@)
                &&& final(self).spec_func(old(self).current_func@).resources == spec_bump(
                    old(self).spec_func(old(self).current_func@).resources,
                    rt,
                    Kind::Temporal,
                )
                &&& final(self).const_dir == old(self).const_dir
                &&& final(self).constants == old(self).constants
                &&& final(self).current_type == old(self).current_type
                &&& final(self).current_func == old(self).current_func
                &&& final(self).current_call == old(self).current_call
                &&& final(self).id_stack == old(self).id_stack
            }),
    {
        let n = self.quad_data.operand_stack.len();
        if n < 2 {
            return Err(CompileError::StackUnderflow);
        }
        let olen = self.quad_data.operator_stack.len();
        if olen == 0 {
            return Err(CompileError::StackUnderflow);
        }
        let op = match self.quad_data.operator_stack[olen - 1] {
            OpStackItem::Bin(op) => op,
            OpStackItem::Paren => {
                return Err(CompileError::StackUnderflow);
            },
        };
        let left = clone_var(&self.quad_data.operand_stack[n - 2]);
        let right = clone_var(&self.quad_data.operand_stack[n - 1]);
        let result_type = match self.quad_data.semantic_cube.get_result_type(
            left.var_type,
            right.var_type,
            op,
        ) {
            Some(t) => t,
            None => {
                return Err(
                    CompileError::TypeMismatch { op, left: left.var_type, right: right.var_type },
                );
            },
        };
        let fidx = match self.find_func(self.current_func.as_str()) {
            Some(i) => i,
            None => {
                proof {
                    assert(false);
                }
                0
            },
        };
        proof {
            self.lemma_func_unique(self.current_func@, fidx as int);
        }
        let counter = self.func_dir[fidx].get_counter(result_type, Kind::Temporal);
        if counter >= SEGMENT_SIZE {
            return Err(CompileError::SegmentExhausted { var_type: result_type, kind: Kind::Temporal });
        }
        let base = self.quad_data.get_memory_segment(
            result_type,
            self.current_func.as_str(),
            Kind::Temporal,
        );
        let location = base + counter;
        proof {
            assert(segment_for(result_type, self.current_is_global(), Kind::Temporal) is Some);
            assert(data_address(location as int));
        }
        let temp_name = counted_name("t", self.quad_data.temp_counter as u64);
        let result = VarInfo::new(temp_name, result_type, location);
        let q = Quad {
            op: QuadrupleUnit::new(String::from_str(bin_op_str(op)), op_code(op)),
            arg1: QuadrupleUnit::new(left.name, left.location),
            arg2: QuadrupleUnit::new(right.name, right.location),
            dest: QuadrupleUnit::new(clone_string(&result.name), result.location),
        };
        self.push_quad(q)?;
        self.quad_data.operand_stack.pop();
        self.quad_data.operand_stack.pop();
        self.quad_data.operator_stack.pop();
        self.quad_data.operand_stack.push(result);
        self.quad_data.temp_counter = self.quad_data.temp_counter + 1;
        self.func_dir[fidx].add_to_counter(result_type, Kind::Temporal);
        proof {
            assert(self.quad_data.operand_stack@ =~= old(self).quad_data.operand_stack@.take(
                n - 2,
            ).push(self.quad_data.operand_stack@.last()));
            assert(func_names_unique(self.func_dir@));
            self.lemma_func_unique(old(self).current_func@, fidx as int);
            assert(forall|i: int|
                0 <= i < self.func_dir@.len() ==> (#[trigger] self.func_dir@[i]).wf());
        }
        Ok(())
    }

    /// Pops the assigned value, the target and the operator, checks the
    /// cube, and emits the assignment quadruple. Assignments push no
    /// result.
    pub fn generate_assign_quad(&mut self) -> (r: Result<(), CompileError>)
        requires
            old(self).wf(),
        ensures
            final(self).wf(),
            r is Err ==> *final(self) == *old(self),
            r matches Err(e) ==> (e is ProgramTooLong || e is StackUnderflow || e is TypeMismatch),
            ({
                let n = old(self).quad_data.operand_stack@.len() as int;
                &&& old(self).quad_data.quad_counter < 0xFFFF_FFFF
                &&& n >= 2
                &&& top_bin_op(*old(self)) is Some
                &&& spec_result_type(
                    old(self).quad_data.operand_stack@[n - 2].var_type,
                    old(self).quad_data.operand_stack@[n - 1].var_type,
                    top_bin_op(*old(self)).unwrap(),
                ) is Some
            }) ==> r is Ok,
            r is Ok ==> ({
                let n = old(self).quad_data.operand_stack@.len() as int;
                let left = old(self).quad_data.operand_stack@[n - 2];
                let right = old(self).quad_data.operand_stack@[n - 1];
                let op = top_bin_op(*old(self)).unwrap();
                &&& n >= 2
                &&& top_bin_op(*old(self)) is Some
                &&& spec_result_type(left.var_type, right.var_type, op) is Some
                &&& appended_one(*old(self), *final(self))
                &&& ({
                    let q = final(self).quadruples@.last();
                    &&& q.op.memory == bin_op_code(op)
                    &&& q.arg1.memory == right.location
                    &&& q.arg2.memory == 0
                    &&& q.dest.memory == left.location
                })
                &&& final(self).quad_data.operand_stack@ == old(
                    self,
                ).quad_data.operand_stack@.take(n - 2)
                &&& final(self).quad_data.operator_stack@ == old(
                    self,
                ).quad_data.operator_stack@.drop_last()
                &&& final(self).quad_data.jump_stack == old(self).quad_data.jump_stack
                &&& final(self).quad_data.param_counter == old(self).quad_data.param_counter
                &&& final(self).quad_data.temp_counter == old(self).quad_data.temp_counter
                &&& emit_frame(*old(self), *final(self))
            }),
    {
        let n = self.quad_data.operand_stack.len();
        if n < 2 {
            return Err(CompileError::StackUnderflow);
        }
        let olen = self.quad_data.operator_stack.len();
        if olen == 0 {
            return Err(CompileError::StackUnderflow);
        }
        let op = match self.quad_data.operator_stack[olen - 1] {
            OpStackItem::Bin(op) => op,
            OpStackItem::Paren => {
                return Err(CompileError::StackUnderflow);
            },
        };
        let left = clone_var(&self.quad_data.operand_stack[n - 2]);
        let right = clone_var(&self.quad_data.operand_stack[n - 1]);
        if self.quad_data.semantic_cube.get_result_type(left.var_type, right.var_type, op).is_none()
        {
            return Err(
                CompileError::TypeMismatch { op, left: left.var_type, right: right.var_type },
            );
        }
        let q = Quad {
            op: QuadrupleUnit::new(String::from_str(bin_op_str(op)), op_code(op)),
            arg1: QuadrupleUnit::new(right.name, right.location),
            arg2: QuadrupleUnit::unused(),
            dest: QuadrupleUnit::new(left.name, left.location),
        };
        self.push_quad(q)?;
        self.quad_data.operand_stack.pop();
        self.quad_data.operand_stack.pop();
        self.quad_data.operator_stack.pop();
        proof {
            assert(self.quad_data.operand_stack@ =~= old(self).quad_data.operand_stack@.take(
                n - 2,
            ));
        }
        Ok(())
    }

    /// Emits the `param` quadruple for the argument on top of the operand
    /// stack, checking its type against the callee's declared parameter at
    /// the current index, and consumes the argument.
    pub fn generate_param_quad(&mut self) -> (r: Result<(), CompileError>)
        requires
            old(self).wf(),
        ensures
            final(self).wf(),
            r is Err ==> *final(self) == *old(self),
            r matches Err(e) ==> (e is ProgramTooLong || e is StackUnderflow || e is TypeMismatch || e is UndeclaredIdentifier || e is ArityMismatch),
            ({
                let callee = old(self).spec_func(old(self).current_call@);
                &&& old(self).quad_data.quad_counter < 0xFFFF_FFFF
                &&& old(self).quad_data.operand_stack@.len() > 0
                &&& old(self).spec_has_func(old(self).current_call@)
                &&& old(self).quad_data.param_counter <= 0xFFFF_FFFE
                &&& old(self).quad_data.param_counter < callee.params@.len()
                &&& old(self).quad_data.operand_stack@.last().var_type == callee.params@[old(
                    self,
                ).quad_data.param_counter as int]
            }) ==> r is Ok,
            r is Ok ==> ({
                let arg = old(self).quad_data.operand_stack@.last();
                let callee = old(self).spec_func(old(self).current_call@);
                &&& old(self).quad_data.operand_stack@.len() > 0
                &&& old(self).spec_has_func(old(self).current_call@)
                &&& old(self).quad_data.param_counter < callee.params@.len()
                &&& arg.var_type == callee.params@[old(self).quad_data.param_counter as int]
                &&& appended_one(*old(self), *final(self))
                &&& ({
                    let q = final(self).quadruples@.last();
                    &&& q.op.memory == 13
                    &&& q.arg1.memory == arg.location
                    &&& q.arg2.memory == 0
                    &&& q.dest.memory == old(self).quad_data.param_counter as u32
                })
                &&& final(self).quad_data.operand_stack == old(self).quad_data.operand_stack
                &&& final(self).quad_data.param_counter == old(self).quad_data.param_counter + 1
                &&& final(self).quad_data.operator_stack == old(self).quad_data.operator_stack
                &&& final(self).quad_data.jump_stack == old(self).quad_data.jump_stack
                &&& final(self).quad_data.temp_counter == old(self).quad_data.temp_counter
                &&& emit_frame(*old(self), *final(self))
            }),
    {
        let n = self.quad_data.operand_stack.len();
        if n == 0 {
            return Err(CompileError::StackUnderflow);
        }
        let cidx = match self.find_func(self.current_call.as_str()) {
            Some(i) => i,
            None => {
                return Err(
                    CompileError::UndeclaredIdentifier {
                        name: clone_string(&self.current_call),
                        line: 0,
                        col: 0,
                    },
                );
            },
        };
        proof {
            self.lemma_func_unique(self.current_call@, cidx as int);
        }
        if self.quad_data.param_counter > 0xFFFF_FFFEusize {
            return Err(CompileError::ProgramTooLong);
        }
        let arity = self.func_dir[cidx].params.len();
        if self.quad_data.param_counter >= arity {
            return Err(
                CompileError::ArityMismatch {
                    name: clone_string(&self.current_call),
                    expected: arity,
                    got: self.quad_data.param_counter + 1,
                    line: 0,
                    col: 0,
                },
            );
        }
        let expected = self.func_dir[cidx].params[self.quad_data.param_counter];
        let arg = clone_var(&self.quad_data.operand_stack[n - 1]);
        if arg.var_type != expected {
            return Err(
                CompileError::TypeMismatch {
                    op: BinOp::Assign,
                    left: expected,
                    right: arg.var_type,
                },
            );
        }
        let slot_name = counted_name("param", self.quad_data.param_counter as u64);
        let q = Quad {
            op: QuadrupleUnit::new(String::from_str("param"), 13),
            arg1: QuadrupleUnit::new(arg.name, arg.location),
            arg2: QuadrupleUnit::unused(),
            dest: QuadrupleUnit::new(slot_name, self.quad_data.param_counter as u32),
        };
        self.push_quad(q)?;
        self.quad_data.param_counter = self.quad_data.param_counter + 1;
        Ok(())
    }

    /// Declares a function. The caller has checked that the name is free.
    pub fn declare_function(&mut self, name: &str, location: u32)
        requires
            old(self).wf(),
            !old(self).spec_has_func(name@),
        ensures
            final(self).wf(),
            final(self).func_dir@.len() == old(self).func_dir@.len() + 1,
            final(self).func_dir@.drop_last() == old(self).func_dir@,
            ({
                let f = final(self).func_dir@.last();
                &&& f.name@ == name@
                &&& f.location == location
                &&& f.vars@.len() == 0
                &&& f.params@.len() == 0
                &&& f.resources.int_count == 0 && f.resources.float_count == 0
                    && f.resources.temp_i_count == 0 && f.resources.temp_f_count == 0
            }),
            final(self).spec_has_func(name@),
            final(self).spec_func(name@) == final(self).func_dir@.last(),
            forall|n: Seq<char>|
                old(self).spec_has_func(n) ==> #[trigger] final(self).spec_has_func(n),
            unchanged_but_funcs(*old(self), *final(self)),
    {
        let f = FunctionInfo::new(String::from_str(name), location);
        self.func_dir.push(f);
        proof {
            assert(self.func_dir@.drop_last() =~= old(self).func_dir@);
            let k = self.func_dir@.len() - 1;
            assert(forall|i: int| 0 <= i < k ==> self.func_dir@[i] == old(self).func_dir@[i]);
            assert forall|i: int, j: int|
                0 <= i < j < self.func_dir@.len() implies self.func_dir@[i].name@
                != self.func_dir@[j].name@ by {
                if j < k {
                    assert(old(self).func_dir@[i].name@ != old(self).func_dir@[j].name@);
                } else {
                    if self.func_dir@[i].name@ == name@ {
                        assert(old(self).spec_has_func(name@));
                    }
                }
            }
            self.lemma_func_unique(name@, k);
            assert forall|n: Seq<char>|
                old(self).spec_has_func(n) implies #[trigger] final(self).spec_has_func(n) by {
                let i = choose|i: int|
                    0 <= i < old(self).func_dir@.len() && old(self).func_dir@[i].name@ == n;
                assert(self.func_dir@[i].name@ == n);
            }
        }
    }

    /// Declares a variable of the current type in the current scope,
    /// allocating the next regular address of that type there. The caller
    /// has checked that the name is free in the current scope.
    pub fn declare_var_in_current(&mut self, name: String) -> (r: Result<(), CompileError>)
        requires
            old(self).wf(),
            old(self).spec_has_func(old(self).current_func@),
            !old(self).spec_func(old(self).current_func@).spec_contains_key(name@),
            old(self).current_type != Type::Str,
        ensures
            final(self).wf(),
            r is Err ==> *final(self) == *old(self),
            r matches Err(e) ==> e is SegmentExhausted,
            old(self).spec_func(old(self).current_func@).spec_counter(
                old(self).current_type,
                Kind::Regular,
            ) < SEGMENT_SIZE ==> r is Ok,
            r is Ok ==> ({
                let f = old(self).spec_func(old(self).current_func@);
                let addr = spec_segment_base(
                    old(self).current_type,
                    old(self).current_is_global(),
                    Kind::Regular,
                ) + f.spec_counter(old(self).current_type, Kind::Regular);
                &&& same_names(old(self).func_dir@, final(self).func_dir@)
                &&& final(self).spec_func(old(self).current_func@).vars@ == f.vars@.push(
                    VarInfo { name: name, var_type: old(self).current_type, location: addr as u32 },
                )
                &&& final(self).spec_func(old(self).current_func@).resources == spec_bump(
                    f.resources,
                    old(self).current_type,
                    Kind::Regular,
                )
                &&& final(self).spec_func(old(self).current_func@).params == f.params
                &&& final(self).spec_func(old(self).current_func@).location == f.location
                &&& forall|j: int|
                    0 <= j < old(self).func_dir@.len() && old(self).func_dir@[j].name@ != old(
                        self,
                    ).current_func@ ==> final(self).func_dir@[j] == old(self).func_dir@[j]
                &&& unchanged_but_funcs(*old(self), *final(self))
            }),
    {
        let fidx = match self.find_func(self.current_func.as_str()) {
            Some(i) => i,
            None => {
                proof {
                    assert(false);
                }
                0
            },
        };
        proof {
            self.lemma_func_unique(self.current_func@, fidx as int);
        }
        let counter = self.func_dir[fidx].get_counter(self.current_type, Kind::Regular);
        if counter >= SEGMENT_SIZE {
            return Err(
                CompileError::SegmentExhausted { var_type: self.current_type, kind: Kind::Regular },
            );
        }
        let base = self.quad_data.get_memory_segment(
            self.current_type,
            self.current_func.as_str(),
            Kind::Regular,
        );
        let location = base + counter;
        proof {
            assert(segment_for(self.current_type, self.current_is_global(), Kind::Regular) is Some);
            assert(data_address(location as int));
        }
        self.func_dir[fidx].insert(name, self.current_type, location);
        self.func_dir[fidx].add_to_counter(self.current_type, Kind::Regular);
        proof {
            assert(func_names_unique(self.func_dir@));
            self.lemma_func_unique(old(self).current_func@, fidx as int);
            assert(forall|i: int|
                0 <= i < self.func_dir@.len() ==> (#[trigger] self.func_dir@[i]).wf());
        }
        Ok(())
    }

    /// Records the current quadruple counter as the current function's
    /// entry point; called when the parameter list closes, just before the
    /// body's first quadruple is emitted.
    pub fn set_current_func_location(&mut self)
        requires
            old(self).wf(),
            old(self).spec_has_func(old(self).current_func@),
        ensures
            final(self).wf(),
            same_names(old(self).func_dir@, final(self).func_dir@),
            final(self).spec_func(old(self).current_func@) == (FunctionInfo {
                location: old(self).quad_data.quad_counter as u32,
                ..old(self).spec_func(old(self).current_func@)
            }),
            forall|j: int|
                0 <= j < old(self).func_dir@.len() && old(self).func_dir@[j].name@ != old(
                    self,
                ).current_func@ ==> final(self).func_dir@[j] == old(self).func_dir@[j],
            unchanged_but_funcs(*old(self), *final(self)),
    {
        let fidx = match self.find_func(self.current_func.as_str()) {
            Some(i) => i,
            None => {
                proof {
                    assert(false);
                }
                0
            },
        };
        proof {
            self.lemma_func_unique(self.current_func@, fidx as int);
        }
        let pc = self.quad_data.quad_counter as u32;
        self.func_dir[fidx].location = pc;
        proof {
            assert(func_names_unique(self.func_dir@));
            self.lemma_func_unique(old(self).current_func@, fidx as int);
            assert(forall|i: int|
                0 <= i < self.func_dir@.len() ==> (#[trigger] self.func_dir@[i]).wf());
        }
    }

    /// Appends the current type to the current function's declared
    /// parameter list.
    pub fn add_param_to_current(&mut self)
        requires
            old(self).wf(),
            old(self).spec_has_func(old(self).current_func@),
        ensures
            final(self).wf(),
            same_names(old(self).func_dir@, final(self).func_dir@),
            final(self).spec_func(old(self).current_func@).params@ == old(self).spec_func(
                old(self).current_func@,
            ).params@.push(old(self).current_type),
            final(self).spec_func(old(self).current_func@).vars == old(self).spec_func(
                old(self).current_func@,
            ).vars,
            final(self).spec_func(old(self).current_func@).location == old(self).spec_func(
                old(self).current_func@,
            ).location,
            final(self).spec_func(old(self).current_func@).resources == old(self).spec_func(
                old(self).current_func@,
            ).resources,
            forall|j: int|
                0 <= j < old(self).func_dir@.len() && old(self).func_dir@[j].name@ != old(
                    self,
                ).current_func@ ==> final(self).func_dir@[j] == old(self).func_dir@[j],
            unchanged_but_funcs(*old(self), *final(self)),
    {
        let fidx = match self.find_func(self.current_func.as_str()) {
            Some(i) => i,
            None => {
                proof {
                    assert(false);
                }
                0
            },
        };
        proof {
            self.lemma_func_unique(self.current_func@, fidx as int);
        }
        self.func_dir[fidx].add_param(self.current_type);
        proof {
            assert(func_names_unique(self.func_dir@));
            self.lemma_func_unique(old(self).current_func@, fidx as int);
            assert(forall|i: int|
                0 <= i < self.func_dir@.len() ==> (#[trigger] self.func_dir@[i]).wf());
        }
    }

    /// Resolves an identifier: the current scope first, the global scope
    /// second.
    pub fn lookup_var(&self, id: &str) -> (r: Option<VarInfo>)
        requires
            self.wf(),
            self.spec_has_func(self.current_func@),
            self.spec_has_func("global"@),
        ensures
            match r {
                Some(v) => {
                    &&& v.name@ == id@
                    &&& data_address(v.location as int)
                    &&& (self.spec_func(self.current_func@).spec_contains_key(id@)
                        || self.spec_func("global"@).spec_contains_key(id@))
                },
                None => !self.spec_func(self.current_func@).spec_contains_key(id@)
                    && !self.spec_func("global"@).spec_contains_key(id@),
            },
    {
        let fidx = match self.find_func(self.current_func.as_str()) {
            Some(i) => i,
            None => {
                proof {
                    assert(false);
                }
                0
            },
        };
        proof {
            self.lemma_func_unique(self.current_func@, fidx as int);
        }
        match self.func_dir[fidx].get(id) {
            Some(v) => {
                let r = clone_var(v);
                proof {
                    let k = choose|k: int|
                        0 <= k < self.func_dir@[fidx as int].vars@.len()
                            && self.func_dir@[fidx as int].vars@[k] == *v;
                    assert(data_address(
                        self.func_dir@[fidx as int].vars@[k].location as int,
                    ));
                }
                Some(r)
            },
            None => {
                let gidx = match self.find_func("global") {
                    Some(i) => i,
                    None => {
                        proof {
                            assert(false);
                        }
                        0
                    },
                };
                proof {
                    self.lemma_func_unique("global"@, gidx as int);
                }
                match self.func_dir[gidx].get(id) {
                    Some(v) => {
                        let r = clone_var(v);
                        proof {
                            let k = choose|k: int|
                                0 <= k < self.func_dir@[gidx as int].vars@.len()
                                    && self.func_dir@[gidx as int].vars@[k] == *v;
                            assert(data_address(
                                self.func_dir@[gidx as int].vars@[k].location as int,
                            ));
                        }
                        Some(r)
                    },
                    None => None,
                }
            },
        }
    }

    /// Pushes an operand record.
    pub fn push_operand(&mut self, v: VarInfo)
        requires
            old(self).wf(),
            data_address(v.location as int),
        ensures
            final(self).wf(),
            final(self).quad_data.operand_stack@ == old(self).quad_data.operand_stack@.push(v),
            final(self).quad_data.operand_stack@.drop_last() == old(self).quad_data.operand_stack@,
            final(self).quad_data.operator_stack == old(self).quad_data.operator_stack,
            final(self).quad_data.jump_stack == old(self).quad_data.jump_stack,
            final(self).quad_data.quad_counter == old(self).quad_data.quad_counter,
            final(self).quad_data.param_counter == old(self).quad_data.param_counter,
            final(self).quad_data.temp_counter == old(self).quad_data.temp_counter,
            final(self).quadruples == old(self).quadruples,
            emit_frame(*old(self), *final(self)),
    {
        self.quad_data.operand_stack.push(v);
        proof {
            assert(self.quad_data.operand_stack@.drop_last() =~= old(
                self,
            ).quad_data.operand_stack@);
        }
    }

    /// Pushes an operator or a parenthesis marker.
    pub fn push_operator(&mut self, item: OpStackItem)
        requires
            old(self).wf(),
        ensures
            final(self).wf(),
            final(self).quad_data.operator_stack@ == old(self).quad_data.operator_stack@.push(
                item,
            ),
            final(self).quad_data.operator_stack@.drop_last() == old(
                self,
            ).quad_data.operator_stack@,
            final(self).quad_data.operand_stack == old(self).quad_data.operand_stack,
            final(self).quad_data.jump_stack == old(self).quad_data.jump_stack,
            final(self).quad_data.quad_counter == old(self).quad_data.quad_counter,
            final(self).quad_data.param_counter == old(self).quad_data.param_counter,
            final(self).quad_data.temp_counter == old(self).quad_data.temp_counter,
            final(self).quadruples == old(self).quadruples,
            emit_frame(*old(self), *final(self)),
    {
        self.quad_data.operator_stack.push(item);
        proof {
            assert(self.quad_data.operator_stack@.drop_last() =~= old(
                self,
            ).quad_data.operator_stack@);
        }
    }

    /// Pops the operator stack: the close parenthesis discarding its
    /// marker.
    pub fn pop_operator(&mut self) -> (r: Option<OpStackItem>)
        requires
            old(self).wf(),
        ensures
            final(self).wf(),
            old(self).quad_data.operator_stack@.len() == 0 ==> r is None
                && final(self).quad_data.operator_stack@ == old(self).quad_data.operator_stack@,
            old(self).quad_data.operator_stack@.len() > 0 ==> r == Some(
                old(self).quad_data.operator_stack@.last(),
            ) && final(self).quad_data.operator_stack@ == old(
                self,
            ).quad_data.operator_stack@.drop_last(),
            final(self).quad_data.operand_stack == old(self).quad_data.operand_stack,
            final(self).quad_data.jump_stack == old(self).quad_data.jump_stack,
            final(self).quad_data.quad_counter == old(self).quad_data.quad_counter,
            final(self).quad_data.param_counter == old(self).quad_data.param_counter,
            final(self).quad_data.temp_counter == old(self).quad_data.temp_counter,
            final(self).quadruples == old(self).quadruples,
            emit_frame(*old(self), *final(self)),
    {
        self.quad_data.operator_stack.pop()
    }

    /// Interns a literal: returns the pool's entry for this text and type,
    /// allocating the next address of the type's constant segment when the
    /// literal is new. A second occurrence of the same literal resolves to
    /// the same address.
    pub fn intern_constant(&mut self, text: &str, var_type: Type) -> (r: Result<
        VarInfo,
        CompileError,
    >)
        requires
            old(self).wf(),
        ensures
            final(self).wf(),
            r is Err ==> *final(self) == *old(self),
            r matches Err(e) ==> e is SegmentExhausted,
            old(self).spec_has_const(text@, var_type) ==> r is Ok,
            !old(self).spec_has_const(text@, var_type) && count_consts(
                old(self).const_dir@,
                var_type,
            ) < SEGMENT_SIZE ==> r is Ok,
            unchanged_but_consts(*old(self), *final(self)),
            r matches Ok(v) ==> ({
                &&& v.name@ == text@
                &&& v.var_type == var_type
                &&& data_address(v.location as int)
                &&& final(self).spec_has_const(text@, var_type)
                &&& (old(self).spec_has_const(text@, var_type) ==> *final(self) == *old(self)
                    && (exists|i: int|
                    0 <= i < old(self).const_dir@.len() && old(self).const_dir@[i] == v))
                &&& (!old(self).spec_has_const(text@, var_type) ==> {
                    &&& final(self).const_dir@ == old(self).const_dir@.push(v)
                    &&& v.location == const_base(var_type) + count_consts(
                        old(self).const_dir@,
                        var_type,
                    )
                })
            }),
    {
        let mut i: usize = 0;
        while i < self.const_dir.len()
            invariant
                *self == *old(self),
                self.wf(),
                i <= self.const_dir@.len(),
                forall|j: int|
                    0 <= j < i ==> !((#[trigger] self.const_dir@[j]).name@ == text@
                        && self.const_dir@[j].var_type == var_type),
            decreases self.const_dir@.len() - i,
        {
            if self.const_dir[i].var_type == var_type && str_eq(self.const_dir[i].name.as_str(), text) {
                let v = clone_var(&self.const_dir[i]);
                proof {
                    let ii = i as int;
                    assert(self.const_dir@[ii].name@ == text@);
                    assert(self.const_dir@[ii].var_type == var_type);
                    assert(self.spec_has_const(text@, var_type));
                    assert(data_address(v.location as int)) by {
                        assert(self.const_dir@[ii].location as int == const_base(
                            self.const_dir@[ii].var_type,
                        ) + count_consts(self.const_dir@.take(ii), self.const_dir@[ii].var_type));
                        lemma_count_consts_nonneg(self.const_dir@.take(ii), var_type);
                    }
                }
                return Ok(v);
            }
            i += 1;
        }
        let count = match var_type {
            Type::Int => self.constants.int_count,
            Type::Float => self.constants.float_count,
            Type::Str => self.constants.string_count,
        };
        if count >= SEGMENT_SIZE {
            return Err(CompileError::SegmentExhausted { var_type, kind: Kind::Constant });
        }
        let base = match var_type {
            Type::Int => 21000u32,
            Type::Float => 23000u32,
            Type::Str => 25000u32,
        };
        let location = base + count;
        let v = VarInfo::new(String::from_str(text), var_type, location);
        let ghost pre = *self;
        self.const_dir.push(clone_var(&v));
        match var_type {
            Type::Int => {
                self.constants.int_count = self.constants.int_count + 1;
            },
            Type::Float => {
                self.constants.float_count = self.constants.float_count + 1;
            },
            Type::Str => {
                self.constants.string_count = self.constants.string_count + 1;
            },
        }
        proof {
            let d = self.const_dir@;
            let k = d.len() - 1;
            assert(d.drop_last() =~= pre.const_dir@);
            assert(forall|j: int| 0 <= j < k ==> d[j] == pre.const_dir@[j]);
            lemma_count_consts_push(pre.const_dir@, d.last(), Type::Int);
            lemma_count_consts_push(pre.const_dir@, d.last(), Type::Float);
            lemma_count_consts_push(pre.const_dir@, d.last(), Type::Str);
            assert(d.take(k) =~= pre.const_dir@);
            assert forall|x: int| 0 <= x < d.len() implies (#[trigger] d[x]).location as int
                == const_base(d[x].var_type) + count_consts(d.take(x), d[x].var_type)
                && count_consts(d.take(x), d[x].var_type) < 2000 by {
                if x < k {
                    assert(d.take(x) =~= pre.const_dir@.take(x));
                }
            }
            assert(self.spec_has_const(text@, var_type)) by {
                assert(d[k].name@ == text@ && d[k].var_type == var_type);
            }
        }
        Ok(v)
    }
}

/// The function directories agree on names, in the same order.
pub open spec fn same_names(pre: Seq<FunctionInfo>, post: Seq<FunctionInfo>) -> bool {
    post.len() == pre.len() && forall|i: int|
        0 <= i < pre.len() ==> (#[trigger] post[i]).name@ == pre[i].name@
}

/// All fields but the function directory are unchanged.
pub open spec fn unchanged_but_funcs(pre: DustyContext, post: DustyContext) -> bool {
    &&& post.const_dir == pre.const_dir
    &&& post.current_type == pre.current_type
    &&& post.current_func == pre.current_func
    &&& post.current_call == pre.current_call
    &&& post.id_stack == pre.id_stack
    &&& post.constants == pre.constants
    &&& post.quad_data == pre.quad_data
    &&& post.quadruples == pre.quadruples
}

/// All fields but the constant pool and its counts are unchanged.
pub open spec fn unchanged_but_consts(pre: DustyContext, post: DustyContext) -> bool {
    &&& post.func_dir == pre.func_dir
    &&& post.current_type == pre.current_type
    &&& post.current_func == pre.current_func
    &&& post.current_call == pre.current_call
    &&& post.id_stack == pre.id_stack
    &&& post.quad_data == pre.quad_data
    &&& post.quadruples == pre.quadruples
}

/// Counting constants never yields a negative number.
pub proof fn lemma_count_consts_nonneg(dir: Seq<VarInfo>, t: Type)
    ensures
        count_consts(dir, t) >= 0,
    decreases dir.len(),
{
    if dir.len() > 0 {
        lemma_count_consts_nonneg(dir.drop_last(), t);
    }
}

/// Counting is monotone in the prefix.
pub proof fn lemma_count_consts_prefix(dir: Seq<VarInfo>, j: int, t: Type)
    requires
        0 <= j <= dir.len(),
    ensures
        count_consts(dir.take(j), t) <= count_consts(dir, t),
    decreases dir.len() - j,
{
    if j < dir.len() {
        assert(dir.take(j + 1).drop_last() =~= dir.take(j));
        assert(dir.take(j + 1).last() == dir[j]);
        lemma_count_consts_prefix(dir, j + 1, t);
    } else {
        assert(dir.take(j) =~= dir);
    }
}

/// An entry of type `t` counts: the count strictly before it is below the
/// whole count.
pub proof fn lemma_count_consts_strict(dir: Seq<VarInfo>, i: int, t: Type)
    requires
        0 <= i < dir.len(),
        dir[i].var_type == t,
    ensures
        count_consts(dir.take(i), t) < count_consts(dir, t),
{
    assert(dir.take(i + 1).drop_last() =~= dir.take(i));
    assert(dir.take(i + 1).last() == dir[i]);
    lemma_count_consts_prefix(dir, i + 1, t);
}

/// Appending one entry raises the count of its type by one and keeps the
/// others.
pub proof fn lemma_count_consts_push(dir: Seq<VarInfo>, e: VarInfo, t: Type)
    requires
        e == dir.push(e).last(),
    ensures
        count_consts(dir.push(e), t) == count_consts(dir, t) + if e.var_type == t {
            1int
        } else {
            0int
        },
{
    assert(dir.push(e).drop_last() =~= dir);
}

/// A quadruple whose destination is a jump target: `goto` or `gotof`.
pub open spec fn is_jump_quad(q: Quad) -> bool {
    q.op.memory == 10 || q.op.memory == 11
}

/// `post` is `pre` with the destination of the quadruple at `idx` pointed
/// at target `t`, every other quadruple and every other slot unchanged.
pub open spec fn quad_patched(pre: Seq<Quad>, post: Seq<Quad>, idx: int, t: u32) -> bool {
    &&& post.len() == pre.len()
    &&& forall|k: int| 0 <= k < pre.len() && k != idx ==> post[k] == pre[k]
    &&& post[idx].op == pre[idx].op
    &&& post[idx].arg1 == pre[idx].arg1
    &&& post[idx].arg2 == pre[idx].arg2
    &&& post[idx].dest.memory == t
    &&& post[idx].dest.name@ == dec_chars(t as int)
}

/// All fields but the quadruples and the quadruple counter are unchanged.
pub open spec fn unchanged_but_quads(pre: DustyContext, post: DustyContext) -> bool {
    &&& post.func_dir == pre.func_dir
    &&& post.const_dir == pre.const_dir
    &&& post.current_type == pre.current_type
    &&& post.current_func == pre.current_func
    &&& post.current_call == pre.current_call
    &&& post.id_stack == pre.id_stack
    &&& post.constants == pre.constants
    &&& post.quad_data.operator_stack == pre.quad_data.operator_stack
    &&& post.quad_data.operand_stack == pre.quad_data.operand_stack
    &&& post.quad_data.jump_stack == pre.quad_data.jump_stack
    &&& post.quad_data.param_counter == pre.quad_data.param_counter
    &&& post.quad_data.temp_counter == pre.quad_data.temp_counter
}

/// All fields but the quadruples and the jump stack are unchanged.
pub open spec fn unchanged_but_quads_and_jumps(pre: DustyContext, post: DustyContext) -> bool {
    &&& post.func_dir == pre.func_dir
    &&& post.const_dir == pre.const_dir
    &&& post.current_type == pre.current_type
    &&& post.current_func == pre.current_func
    &&& post.current_call == pre.current_call
    &&& post.id_stack == pre.id_stack
    &&& post.constants == pre.constants
    &&& post.quad_data.operator_stack == pre.quad_data.operator_stack
    &&& post.quad_data.operand_stack == pre.quad_data.operand_stack
    &&& post.quad_data.param_counter == pre.quad_data.param_counter
    &&& post.quad_data.temp_counter == pre.quad_data.temp_counter
}

/// An owned copy of a string.
pub fn clone_string(s: &String) -> (r: String)
    ensures
        r == *s,
{
    s.clone()
}

/// Interning law: within one pool, a literal text at a given type has
/// exactly one entry, so two occurrences of the same literal resolve to
/// the same address.
pub proof fn lemma_interning_unique(d: DustyContext, i: int, j: int)
    requires
        d.wf(),
        0 <= i < d.const_dir@.len(),
        0 <= j < d.const_dir@.len(),
        d.const_dir@[i].name@ == d.const_dir@[j].name@,
        d.const_dir@[i].var_type == d.const_dir@[j].var_type,
    ensures
        i == j,
        d.const_dir@[i].location == d.const_dir@[j].location,
{
    if i < j {
        assert(!(d.const_dir@[i].name@ == d.const_dir@[j].name@ && d.const_dir@[i].var_type
            == d.const_dir@[j].var_type));
    }
    if j < i {
        assert(!(d.const_dir@[j].name@ == d.const_dir@[i].name@ && d.const_dir@[j].var_type
            == d.const_dir@[i].var_type));
    }
}

/// Address-discipline law: in a well-formed context, every address slot of
/// every emitted quadruple is unused or lies within a declared segment
/// (and, by `lemma_segments_disjoint`, within exactly one).
pub proof fn lemma_quads_addressed(d: DustyContext, i: int)
    requires
        d.wf(),
        0 <= i < d.quadruples@.len(),
    ensures
        quad_slots_ok(d.quadruples@[i]),
{
}

} // verus!
