//! The syntax-directed translator: one recursive walk over the parse tree.
//!
//! Each function consumes one kind of node, checks that its children
//! follow the grammar shape, and drives the context's emission primitives.
//! The walk enforces the tree contract: a node whose children do not fit
//! is rejected as a malformed tree.

use vstd::prelude::*;
use vstd::string::*;
use crate::dusty_context::{
    same_func_shape, same_names, top_bin_op, DustyContext,
};
use crate::function_info::FunctionInfo;
use crate::lang::{BinOp, CompileError, Node, OpStackItem, Rule, Type};
use crate::quadruple_unit::Quad;
use crate::text::{str_eq, strip_quotes};
use crate::var_info::VarInfo;
use crate::virtual_memory::data_address;

verus! {


/// The error kinds an expression can raise: a malformed tree, an unknown
/// name, exhausted capacity, a missing operand or operator, or a type
/// error. Expressions never raise redeclaration, arity or condition-type
/// errors.
pub open spec fn expr_error(e: CompileError) -> bool {
    ||| e is MalformedTree
    ||| e is UndeclaredIdentifier
    ||| e is SegmentExhausted
    ||| e is StackUnderflow
    ||| e is TypeMismatch
    ||| e is ProgramTooLong
}

/// The error kinds a statement can raise: an expression's, a bad condition
/// type, or an arity error. Statements never raise redeclarations.
pub open spec fn stmt_error(e: CompileError) -> bool {
    expr_error(e) || e is BadConditionType || e is ArityMismatch
}

/// The error kinds a declaration section can raise.
pub open spec fn decl_error(e: CompileError) -> bool {
    e is MalformedTree || e is RedeclaredIdentifier || e is SegmentExhausted
}

/// The old program is a prefix of the new one: translation only appends
/// quadruples and patches destinations within what it appended itself.
pub open spec fn quads_extended(pre: DustyContext, post: DustyContext) -> bool {
    &&& post.quadruples@.len() >= pre.quadruples@.len()
    &&& post.quadruples@.subrange(0, pre.quadruples@.len() as int) == pre.quadruples@
}

/// Every quadruple appended is an arithmetic, relational or assignment
/// reduction: expressions emit no jumps and no call protocol.
pub open spec fn appended_expr_ops(pre: DustyContext, post: DustyContext) -> bool {
    forall|i: int|
        pre.quadruples@.len() <= i < post.quadruples@.len() ==> 1 <= (#[trigger] post.quadruples@[
            i
        ]).op.memory <= 8
}

/// What every expression-family function preserves: the jump stack, the
/// parameter counter, the current names, the pending identifiers, and the
/// shape of the function directory.
pub open spec fn expr_frame(pre: DustyContext, post: DustyContext) -> bool {
    &&& post.wf()
    &&& quads_extended(pre, post)
    &&& appended_expr_ops(pre, post)
    &&& post.quad_data.jump_stack == pre.quad_data.jump_stack
    &&& post.quad_data.param_counter == pre.quad_data.param_counter
    &&& post.current_func == pre.current_func
    &&& post.current_call == pre.current_call
    &&& post.current_type == pre.current_type
    &&& post.id_stack == pre.id_stack
    &&& same_func_shape(pre.func_dir@, post.func_dir@)
}

/// The translation pushed exactly one operand — the expression's value —
/// and left the operator stack as it found it.
pub open spec fn pushes_one_operand(pre: DustyContext, post: DustyContext) -> bool {
    &&& post.quad_data.operand_stack@.len() == pre.quad_data.operand_stack@.len() + 1
    &&& post.quad_data.operand_stack@.drop_last() == pre.quad_data.operand_stack@
    &&& post.quad_data.operator_stack@ == pre.quad_data.operator_stack@
}

/// The operator on top of the stack (if any) cannot be mistaken for a
/// pending reduction of any expression level: an open parenthesis or an
/// assignment.
pub open spec fn top_blocks_reduction(d: DustyContext) -> bool {
    d.quad_data.operator_stack@.len() == 0 || d.quad_data.operator_stack@.last()
        == OpStackItem::Paren || d.quad_data.operator_stack@.last() == OpStackItem::Bin(
        BinOp::Assign,
    )
}

/// Extension composes.
pub proof fn lemma_extend_trans(a: DustyContext, b: DustyContext, c: DustyContext)
    requires
        quads_extended(a, b),
        quads_extended(b, c),
    ensures
        quads_extended(a, c),
{
    let la = a.quadruples@.len() as int;
    let lb = b.quadruples@.len() as int;
    assert forall|i: int| 0 <= i < la implies c.quadruples@[i] == a.quadruples@[i] by {
        assert(b.quadruples@.subrange(0, la)[i] == b.quadruples@[i]);
        assert(c.quadruples@.subrange(0, lb)[i] == c.quadruples@[i]);
    }
    assert(c.quadruples@.subrange(0, la) =~= a.quadruples@);
}

/// The expression frame composes.
pub proof fn lemma_expr_frame_trans(a: DustyContext, b: DustyContext, c: DustyContext)
    requires
        expr_frame(a, b),
        expr_frame(b, c),
    ensures
        expr_frame(a, c),
{
    lemma_extend_trans(a, b, c);
    let la = a.quadruples@.len() as int;
    let lb = b.quadruples@.len() as int;
    assert forall|i: int|
        la <= i < c.quadruples@.len() implies 1 <= (#[trigger] c.quadruples@[i]).op.memory
        <= 8 by {
        if i < lb {
            assert(c.quadruples@.subrange(0, lb)[i] == c.quadruples@[i]);
            assert(c.quadruples@[i] == b.quadruples@[i]);
        }
    }
}

/// A context whose quadruples and directory did not change keeps the
/// expression frame reflexively.
pub proof fn lemma_expr_frame_refl(pre: DustyContext, post: DustyContext)
    requires
        post.wf(),
        post.quadruples == pre.quadruples,
        post.func_dir == pre.func_dir,
        post.quad_data.jump_stack == pre.quad_data.jump_stack,
        post.quad_data.param_counter == pre.quad_data.param_counter,
        post.current_func == pre.current_func,
        post.current_call == pre.current_call,
        post.current_type == pre.current_type,
        post.id_stack == pre.id_stack,
    ensures
        expr_frame(pre, post),
{
    assert(post.quadruples@.subrange(0, pre.quadruples@.len() as int) =~= pre.quadruples@);
}

/// A directory of the same shape declares the same functions, with the
/// same record up to resource counters.
pub proof fn lemma_shape_preserves_func(pre: DustyContext, post: DustyContext, name: Seq<char>)
    requires
        same_func_shape(pre.func_dir@, post.func_dir@),
        crate::dusty_context::func_names_unique(pre.func_dir@),
        crate::dusty_context::func_names_unique(post.func_dir@),
        pre.spec_has_func(name),
    ensures
        post.spec_has_func(name),
        post.spec_func(name).name@ == pre.spec_func(name).name@,
        post.spec_func(name).location == pre.spec_func(name).location,
        post.spec_func(name).vars == pre.spec_func(name).vars,
        post.spec_func(name).params == pre.spec_func(name).params,
{
    let i = pre.spec_func_idx(name);
    assert(pre.func_dir@[i].name@ == name);
    assert(post.func_dir@[i].name@ == name);
    pre.lemma_func_unique(name, i);
    post.lemma_func_unique(name, i);
}

/// Translates a `Value` node: an identifier, resolved in the current scope
/// first and the global scope second, or a literal constant; pushes its
/// record onto the operand stack.
pub fn translate_value(node: &Node, ctx: &mut DustyContext) -> (r: Result<(), CompileError>)
    requires
        old(ctx).wf(),
        old(ctx).spec_has_func(old(ctx).current_func@),
        old(ctx).spec_has_func("global"@),
    ensures
        final(ctx).wf(),
        r matches Err(e) ==> expr_error(e),
        r is Ok ==> expr_frame(*old(ctx), *final(ctx)) && pushes_one_operand(
            *old(ctx),
            *final(ctx),
        ) && final(ctx).quadruples == old(ctx).quadruples,
    decreases *node,
{
    if node.rule != Rule::Value || node.children.len() != 1 {
        return Err(CompileError::MalformedTree { line: node.line, col: node.col });
    }
    let child = &node.children[0];
    if child.rule == Rule::Id {
        let var = match ctx.lookup_var(child.text.as_str()) {
            Some(v) => v,
            None => {
                return Err(
                    CompileError::UndeclaredIdentifier {
                        name: crate::dusty_context::clone_string(&child.text),
                        line: child.line,
                        col: child.col,
                    },
                );
            },
        };
        ctx.push_operand(var);
        proof {
            lemma_expr_frame_refl(*old(ctx), *ctx);
        }
        Ok(())
    } else if child.rule == Rule::Cte {
        proof {
            assert(decreases_to!(*node => node.children));
            assert(decreases_to!(node.children => node.children@[0]));
        }
        translate_cte(child, ctx)
    } else {
        Err(CompileError::MalformedTree { line: node.line, col: node.col })
    }
}

/// Translates a `Cte` node: interns the literal and pushes its record.
pub fn translate_cte(node: &Node, ctx: &mut DustyContext) -> (r: Result<(), CompileError>)
    requires
        old(ctx).wf(),
    ensures
        final(ctx).wf(),
        r matches Err(e) ==> expr_error(e),
        r is Ok ==> expr_frame(*old(ctx), *final(ctx)) && pushes_one_operand(
            *old(ctx),
            *final(ctx),
        ) && final(ctx).quadruples == old(ctx).quadruples,
    decreases *node,
{
    if node.rule != Rule::Cte || node.children.len() != 1 {
        return Err(CompileError::MalformedTree { line: node.line, col: node.col });
    }
    let child = &node.children[0];
    let var_type = if child.rule == Rule::CteInt {
        Type::Int
    } else if child.rule == Rule::CteFloat {
        Type::Float
    } else {
        return Err(CompileError::MalformedTree { line: node.line, col: node.col });
    };
    let var = ctx.intern_constant(child.text.as_str(), var_type)?;
    ctx.push_operand(var);
    proof {
        lemma_expr_frame_refl(*old(ctx), *ctx);
    }
    Ok(())
}

/// Translates a `Factor` node: a value, or a parenthesized expression. The
/// open parenthesis pushes a marker that shields the inner expression's
/// reductions from the enclosing operators; the close parenthesis pops it.
pub fn translate_factor(node: &Node, ctx: &mut DustyContext) -> (r: Result<(), CompileError>)
    requires
        old(ctx).wf(),
        old(ctx).spec_has_func(old(ctx).current_func@),
        old(ctx).spec_has_func("global"@),
    ensures
        final(ctx).wf(),
        r matches Err(e) ==> expr_error(e),
        r is Ok ==> expr_frame(*old(ctx), *final(ctx)) && pushes_one_operand(
            *old(ctx),
            *final(ctx),
        ),
    decreases *node,
{
    if node.rule != Rule::Factor {
        return Err(CompileError::MalformedTree { line: node.line, col: node.col });
    }
    if node.children.len() == 1 {
        proof {
            assert(decreases_to!(*node => node.children));
            assert(decreases_to!(node.children => node.children@[0]));
        }
        translate_value(&node.children[0], ctx)
    } else if node.children.len() == 3 {
        if node.children[0].rule != Rule::OpenP || node.children[2].rule != Rule::CloseP {
            return Err(CompileError::MalformedTree { line: node.line, col: node.col });
        }
        ctx.push_operator(OpStackItem::Paren);
        let ghost s1 = *ctx;
        proof {
            lemma_expr_frame_refl(*old(ctx), s1);
        }
        proof {
            assert(decreases_to!(*node => node.children));
            assert(decreases_to!(node.children => node.children@[1]));
        }
        translate_expression(&node.children[1], ctx)?;
        let ghost s2 = *ctx;
        ctx.pop_operator();
        proof {
            lemma_expr_frame_trans(*old(ctx), s1, s2);
            lemma_expr_frame_refl(s2, *ctx);
            lemma_expr_frame_trans(*old(ctx), s2, *ctx);
            assert(ctx.quad_data.operator_stack@ =~= old(ctx).quad_data.operator_stack@);
            assert(ctx.quad_data.operand_stack@.drop_last() =~= old(ctx).quad_data.operand_stack@);
        }
        Ok(())
    } else {
        Err(CompileError::MalformedTree { line: node.line, col: node.col })
    }
}

/// Re-establishes, at the current state, that the current scope and the
/// global scope are declared.
proof fn lemma_frame_funcs(pre: DustyContext, post: DustyContext)
    requires
        pre.wf(),
        post.wf(),
        expr_frame(pre, post),
        pre.spec_has_func(pre.current_func@),
        pre.spec_has_func("global"@),
    ensures
        post.spec_has_func(post.current_func@),
        post.spec_has_func("global"@),
{
    lemma_shape_preserves_func(pre, post, pre.current_func@);
    lemma_shape_preserves_func(pre, post, "global"@);
    assert(post.current_func@ == pre.current_func@);
}

/// Translates a `Term` node: a factor, or factors joined by `*` and `/`,
/// reduced left to right.
#[verifier::rlimit(100)]
#[verifier::spinoff_prover]
pub fn translate_term(node: &Node, ctx: &mut DustyContext) -> (r: Result<(), CompileError>)
    requires
        old(ctx).wf(),
        old(ctx).spec_has_func(old(ctx).current_func@),
        old(ctx).spec_has_func("global"@),
        top_bin_op(*old(ctx)) != Some(BinOp::Mul),
        top_bin_op(*old(ctx)) != Some(BinOp::Div),
    ensures
        final(ctx).wf(),
        r matches Err(e) ==> expr_error(e),
        r is Ok ==> expr_frame(*old(ctx), *final(ctx)) && pushes_one_operand(
            *old(ctx),
            *final(ctx),
        ),
    decreases *node,
{
    if node.rule != Rule::Term || node.children.len() == 0 || node.children.len() % 2 == 0 {
        return Err(CompileError::MalformedTree { line: node.line, col: node.col });
    }
    proof {
        assert(decreases_to!(*node => node.children));
        assert(decreases_to!(node.children => node.children@[0]));
    }
    translate_factor(&node.children[0], ctx)?;
    proof {
        assert(ctx.quad_data.operand_stack@.subrange(
            0,
            old(ctx).quad_data.operand_stack@.len() as int,
        ) =~= old(ctx).quad_data.operand_stack@);
    }
    let n = node.children.len();
    let mut i: usize = 1;
    while i < n
        invariant
            old(ctx).wf(),
            old(ctx).spec_has_func(old(ctx).current_func@),
            old(ctx).spec_has_func("global"@),
            1 <= i <= n,
            i % 2 == 1,
            n == node.children@.len(),
            node.rule == Rule::Term,
            ctx.wf(),
            expr_frame(*old(ctx), *ctx),
            ctx.quad_data.operand_stack@.len() == old(ctx).quad_data.operand_stack@.len() + (
            if i == 1 {
                1int
            } else {
                2int
            }),
            ctx.quad_data.operand_stack@.subrange(
                0,
                old(ctx).quad_data.operand_stack@.len() as int,
            ) == old(ctx).quad_data.operand_stack@,
            i == 1 ==> ctx.quad_data.operator_stack@ == old(ctx).quad_data.operator_stack@,
            i == 1 ==> top_bin_op(*old(ctx)) != Some(BinOp::Mul) && top_bin_op(*old(ctx))
                != Some(BinOp::Div),
            i > 1 ==> ctx.quad_data.operator_stack@.len() == old(
                ctx,
            ).quad_data.operator_stack@.len() + 1 && ctx.quad_data.operator_stack@.drop_last()
                == old(ctx).quad_data.operator_stack@ && (ctx.quad_data.operator_stack@.last()
                == OpStackItem::Bin(BinOp::Mul) || ctx.quad_data.operator_stack@.last()
                == OpStackItem::Bin(BinOp::Div)),
        decreases n - i,
    {
        if i + 1 >= n || node.children[i].rule != Rule::Operator || node.children[i + 1].rule
            != Rule::Factor {
            return Err(CompileError::MalformedTree { line: node.line, col: node.col });
        }
        let op = if str_eq(node.children[i].text.as_str(), "*") {
            BinOp::Mul
        } else if str_eq(node.children[i].text.as_str(), "/") {
            BinOp::Div
        } else {
            return Err(CompileError::MalformedTree { line: node.line, col: node.col });
        };
        let ghost s0 = *ctx;
        if ctx.top_is_multiplication_or_division() {
            proof {
                lemma_frame_funcs(*old(ctx), *ctx);
            }
            ctx.generate_full_quad()?;
            proof {
                assert(ctx.quadruples@.subrange(0, s0.quadruples@.len() as int) =~= s0.quadruples@);
                assert(expr_frame(s0, *ctx));
                lemma_expr_frame_trans(*old(ctx), s0, *ctx);
                assert(ctx.quad_data.operand_stack@.subrange(
                    0,
                    old(ctx).quad_data.operand_stack@.len() as int,
                ) =~= old(ctx).quad_data.operand_stack@);
            }
        }
        let ghost s1 = *ctx;
        ctx.push_operator(OpStackItem::Bin(op));
        proof {
            lemma_expr_frame_refl(s1, *ctx);
            lemma_expr_frame_trans(*old(ctx), s1, *ctx);
            lemma_frame_funcs(*old(ctx), *ctx);
        }
        let ghost s2 = *ctx;
        proof {
            assert(decreases_to!(*node => node.children));
            assert(decreases_to!(node.children => node.children@[i + 1]));
        }
        translate_factor(&node.children[i + 1], ctx)?;
        proof {
            lemma_expr_frame_trans(*old(ctx), s2, *ctx);
            assert(ctx.quad_data.operand_stack@.subrange(
                0,
                old(ctx).quad_data.operand_stack@.len() as int,
            ) =~= old(ctx).quad_data.operand_stack@);
        }
        i += 2;
    }
    let ghost s3 = *ctx;
    if ctx.top_is_multiplication_or_division() {
        proof {
            lemma_frame_funcs(*old(ctx), *ctx);
        }
        ctx.generate_full_quad()?;
        proof {
            assert(ctx.quadruples@.subrange(0, s3.quadruples@.len() as int) =~= s3.quadruples@);
            assert(expr_frame(s3, *ctx));
            lemma_expr_frame_trans(*old(ctx), s3, *ctx);
        }
    }
    proof {
        assert(ctx.quad_data.operand_stack@.drop_last() =~= old(ctx).quad_data.operand_stack@);
        assert(ctx.quad_data.operator_stack@ =~= old(ctx).quad_data.operator_stack@);
    }
    Ok(())
}

/// Translates an `Exp` node: a term, or terms joined by `+` and `-`,
/// reduced left to right.
#[verifier::rlimit(100)]
#[verifier::spinoff_prover]
pub fn translate_exp(node: &Node, ctx: &mut DustyContext) -> (r: Result<(), CompileError>)
    requires
        old(ctx).wf(),
        old(ctx).spec_has_func(old(ctx).current_func@),
        old(ctx).spec_has_func("global"@),
        top_bin_op(*old(ctx)) != Some(BinOp::Mul),
        top_bin_op(*old(ctx)) != Some(BinOp::Div),
        top_bin_op(*old(ctx)) != Some(BinOp::Add),
        top_bin_op(*old(ctx)) != Some(BinOp::Sub),
    ensures
        final(ctx).wf(),
        r matches Err(e) ==> expr_error(e),
        r is Ok ==> expr_frame(*old(ctx), *final(ctx)) && pushes_one_operand(
            *old(ctx),
            *final(ctx),
        ),
    decreases *node,
{
    if node.rule != Rule::Exp || node.children.len() == 0 || node.children.len() % 2 == 0 {
        return Err(CompileError::MalformedTree { line: node.line, col: node.col });
    }
    proof {
        assert(decreases_to!(*node => node.children));
        assert(decreases_to!(node.children => node.children@[0]));
    }
    translate_term(&node.children[0], ctx)?;
    proof {
        assert(ctx.quad_data.operand_stack@.subrange(
            0,
            old(ctx).quad_data.operand_stack@.len() as int,
        ) =~= old(ctx).quad_data.operand_stack@);
    }
    let n = node.children.len();
    let mut i: usize = 1;
    while i < n
        invariant
            old(ctx).wf(),
            old(ctx).spec_has_func(old(ctx).current_func@),
            old(ctx).spec_has_func("global"@),
            1 <= i <= n,
            i % 2 == 1,
            n == node.children@.len(),
            node.rule == Rule::Exp,
            ctx.wf(),
            expr_frame(*old(ctx), *ctx),
            ctx.quad_data.operand_stack@.len() == old(ctx).quad_data.operand_stack@.len() + (
            if i == 1 {
                1int
            } else {
                2int
            }),
            ctx.quad_data.operand_stack@.subrange(
                0,
                old(ctx).quad_data.operand_stack@.len() as int,
            ) == old(ctx).quad_data.operand_stack@,
            i == 1 ==> ctx.quad_data.operator_stack@ == old(ctx).quad_data.operator_stack@,
            i == 1 ==> top_bin_op(*old(ctx)) != Some(BinOp::Mul) && top_bin_op(*old(ctx))
                != Some(BinOp::Div) && top_bin_op(*old(ctx)) != Some(BinOp::Add) && top_bin_op(
                *old(ctx),
            ) != Some(BinOp::Sub),
            i > 1 ==> ctx.quad_data.operator_stack@.len() == old(
                ctx,
            ).quad_data.operator_stack@.len() + 1 && ctx.quad_data.operator_stack@.drop_last()
                == old(ctx).quad_data.operator_stack@ && (ctx.quad_data.operator_stack@.last()
                == OpStackItem::Bin(BinOp::Add) || ctx.quad_data.operator_stack@.last()
                == OpStackItem::Bin(BinOp::Sub)),
        decreases n - i,
    {
        if i + 1 >= n || node.children[i].rule != Rule::Sign || node.children[i + 1].rule
            != Rule::Term {
            return Err(CompileError::MalformedTree { line: node.line, col: node.col });
        }
        let op = if str_eq(node.children[i].text.as_str(), "+") {
            BinOp::Add
        } else if str_eq(node.children[i].text.as_str(), "-") {
            BinOp::Sub
        } else {
            return Err(CompileError::MalformedTree { line: node.line, col: node.col });
        };
        let ghost s0 = *ctx;
        if ctx.top_is_addition_or_subtraction() {
            proof {
                lemma_frame_funcs(*old(ctx), *ctx);
            }
            ctx.generate_full_quad()?;
            proof {
                assert(ctx.quadruples@.subrange(0, s0.quadruples@.len() as int) =~= s0.quadruples@);
                assert(expr_frame(s0, *ctx));
                lemma_expr_frame_trans(*old(ctx), s0, *ctx);
                assert(ctx.quad_data.operand_stack@.subrange(
                    0,
                    old(ctx).quad_data.operand_stack@.len() as int,
                ) =~= old(ctx).quad_data.operand_stack@);
            }
        }
        let ghost s1 = *ctx;
        ctx.push_operator(OpStackItem::Bin(op));
        proof {
            lemma_expr_frame_refl(s1, *ctx);
            lemma_expr_frame_trans(*old(ctx), s1, *ctx);
            lemma_frame_funcs(*old(ctx), *ctx);
        }
        let ghost s2 = *ctx;
        proof {
            assert(decreases_to!(*node => node.children));
            assert(decreases_to!(node.children => node.children@[i + 1]));
        }
        translate_term(&node.children[i + 1], ctx)?;
        proof {
            lemma_expr_frame_trans(*old(ctx), s2, *ctx);
            assert(ctx.quad_data.operand_stack@.subrange(
                0,
                old(ctx).quad_data.operand_stack@.len() as int,
            ) =~= old(ctx).quad_data.operand_stack@);
        }
        i += 2;
    }
    let ghost s3 = *ctx;
    if ctx.top_is_addition_or_subtraction() {
        proof {
            lemma_frame_funcs(*old(ctx), *ctx);
        }
        ctx.generate_full_quad()?;
        proof {
            assert(ctx.quadruples@.subrange(0, s3.quadruples@.len() as int) =~= s3.quadruples@);
            assert(expr_frame(s3, *ctx));
            lemma_expr_frame_trans(*old(ctx), s3, *ctx);
        }
    }
    proof {
        assert(ctx.quad_data.operand_stack@.drop_last() =~= old(ctx).quad_data.operand_stack@);
        assert(ctx.quad_data.operator_stack@ =~= old(ctx).quad_data.operator_stack@);
    }
    Ok(())
}

/// Translates an `Expression` node: an exp, or two exps joined by a
/// relational operator, whose reduction yields the boolean (an `int`).
#[verifier::rlimit(100)]
#[verifier::spinoff_prover]
pub fn translate_expression(node: &Node, ctx: &mut DustyContext) -> (r: Result<(), CompileError>)
    requires
        old(ctx).wf(),
        old(ctx).spec_has_func(old(ctx).current_func@),
        old(ctx).spec_has_func("global"@),
        top_blocks_reduction(*old(ctx)),
    ensures
        final(ctx).wf(),
        r matches Err(e) ==> expr_error(e),
        r is Ok ==> expr_frame(*old(ctx), *final(ctx)) && pushes_one_operand(
            *old(ctx),
            *final(ctx),
        ),
    decreases *node,
{
    if node.rule != Rule::Expression {
        return Err(CompileError::MalformedTree { line: node.line, col: node.col });
    }
    if node.children.len() == 1 {
        if node.children[0].rule != Rule::Exp {
            return Err(CompileError::MalformedTree { line: node.line, col: node.col });
        }
        proof {
            assert(decreases_to!(*node => node.children));
            assert(decreases_to!(node.children => node.children@[0]));
        }
        translate_exp(&node.children[0], ctx)
    } else if node.children.len() == 3 {
        if node.children[0].rule != Rule::Exp || node.children[1].rule != Rule::Comparator
            || node.children[2].rule != Rule::Exp {
            return Err(CompileError::MalformedTree { line: node.line, col: node.col });
        }
        let op = if str_eq(node.children[1].text.as_str(), "<") {
            BinOp::Less
        } else if str_eq(node.children[1].text.as_str(), ">") {
            BinOp::Greater
        } else if str_eq(node.children[1].text.as_str(), "==") {
            BinOp::Equal
        } else if str_eq(node.children[1].text.as_str(), "!=") {
            BinOp::NotEqual
        } else {
            return Err(CompileError::MalformedTree { line: node.line, col: node.col });
        };
        proof {
            assert(decreases_to!(*node => node.children));
            assert(decreases_to!(node.children => node.children@[0]));
            assert(decreases_to!(node.children => node.children@[2]));
        }
        translate_exp(&node.children[0], ctx)?;
        let ghost s1 = *ctx;
        ctx.push_operator(OpStackItem::Bin(op));
        proof {
            lemma_expr_frame_refl(s1, *ctx);
            lemma_expr_frame_trans(*old(ctx), s1, *ctx);
            lemma_frame_funcs(*old(ctx), *ctx);
        }
        let ghost s2 = *ctx;
        translate_exp(&node.children[2], ctx)?;
        proof {
            lemma_expr_frame_trans(*old(ctx), s2, *ctx);
            lemma_frame_funcs(*old(ctx), *ctx);
        }
        let ghost s3 = *ctx;
        if ctx.top_is_logical_operator() {
            ctx.generate_full_quad()?;
            proof {
                assert(ctx.quadruples@.subrange(0, s3.quadruples@.len() as int) =~= s3.quadruples@);
                assert(expr_frame(s3, *ctx));
                lemma_expr_frame_trans(*old(ctx), s3, *ctx);
            }
        } else {
            proof {
                assert(false);
            }
        }
        proof {
            assert(ctx.quad_data.operand_stack@.drop_last() =~= old(
                ctx,
            ).quad_data.operand_stack@);
            assert(ctx.quad_data.operator_stack@ =~= old(ctx).quad_data.operator_stack@);
        }
        Ok(())
    } else {
        Err(CompileError::MalformedTree { line: node.line, col: node.col })
    }
}

/// Number of quadruples with opcode `code` in `s[a..b]`.
pub open spec fn count_op_in(s: Seq<Quad>, a: int, b: int, code: u32) -> int
    decreases b - a,
{
    if a >= b {
        0
    } else {
        count_op_in(s, a, b - 1, code) + if s[b - 1].op.memory == code {
            1int
        } else {
            0int
        }
    }
}

/// Counting splits at any midpoint.
pub proof fn lemma_count_split(s: Seq<Quad>, a: int, b: int, c: int, code: u32)
    requires
        a <= b <= c,
    ensures
        count_op_in(s, a, c, code) == count_op_in(s, a, b, code) + count_op_in(s, b, c, code),
    decreases c - b,
{
    if b < c {
        lemma_count_split(s, a, b, c - 1, code);
    }
}

/// Counting reads only the region counted: sequences that agree there
/// count alike.
pub proof fn lemma_count_agree(s1: Seq<Quad>, s2: Seq<Quad>, a: int, b: int, code: u32)
    requires
        0 <= a,
        b <= s1.len(),
        b <= s2.len(),
        forall|i: int| a <= i < b ==> s1[i] == s2[i],
    ensures
        count_op_in(s1, a, b, code) == count_op_in(s2, a, b, code),
    decreases b - a,
{
    if a < b {
        lemma_count_agree(s1, s2, a, b - 1, code);
    }
}

/// A region whose opcodes all differ from `code` counts zero.
pub proof fn lemma_count_zero(s: Seq<Quad>, a: int, b: int, code: u32)
    requires
        forall|i: int| a <= i < b ==> (#[trigger] s[i]).op.memory != code,
    ensures
        count_op_in(s, a, b, code) == 0,
    decreases b - a,
{
    if a < b {
        lemma_count_zero(s, a, b - 1, code);
    }
}

/// No statement emits the `end` or `endfunc` opcode: those close programs
/// and function declarations only.
pub open spec fn appended_stmt_ops(pre: DustyContext, post: DustyContext) -> bool {
    forall|i: int|
        pre.quadruples@.len() <= i < post.quadruples@.len() ==> (#[trigger] post.quadruples@[
            i
        ]).op.memory != 16 && post.quadruples@[i].op.memory != 17
}

/// What every statement preserves: the three stacks exactly, the scope,
/// the current type, the pending identifiers, the parameter counter (at
/// zero outside calls), and the shape of the function directory. The
/// program grows only by appended quadruples, none of them `end` or
/// `endfunc`, with backpatches confined to what the statement emitted.
pub open spec fn stmt_frame(pre: DustyContext, post: DustyContext) -> bool {
    &&& post.wf()
    &&& quads_extended(pre, post)
    &&& appended_stmt_ops(pre, post)
    &&& post.quad_data.jump_stack@ == pre.quad_data.jump_stack@
    &&& post.quad_data.operand_stack@.len() >= pre.quad_data.operand_stack@.len()
    &&& post.quad_data.operand_stack@.subrange(0, pre.quad_data.operand_stack@.len() as int)
        == pre.quad_data.operand_stack@
    &&& post.quad_data.operator_stack@ == pre.quad_data.operator_stack@
    &&& post.quad_data.param_counter == 0
    &&& post.current_func == pre.current_func
    &&& post.current_type == pre.current_type
    &&& post.id_stack == pre.id_stack
    &&& same_func_shape(pre.func_dir@, post.func_dir@)
}

/// An untouched context keeps the statement frame reflexively.
pub proof fn lemma_stmt_frame_refl(pre: DustyContext, post: DustyContext)
    requires
        post.wf(),
        post.quadruples == pre.quadruples,
        post.func_dir == pre.func_dir,
        post.quad_data.jump_stack@ == pre.quad_data.jump_stack@,
        post.quad_data.operand_stack@ == pre.quad_data.operand_stack@,
        post.quad_data.operator_stack@ == pre.quad_data.operator_stack@,
        post.quad_data.param_counter == 0,
        post.current_func == pre.current_func,
        post.current_type == pre.current_type,
        post.id_stack == pre.id_stack,
    ensures
        stmt_frame(pre, post),
{
    assert(post.quadruples@.subrange(0, pre.quadruples@.len() as int) =~= pre.quadruples@);
    assert(post.quad_data.operand_stack@.subrange(
        0,
        pre.quad_data.operand_stack@.len() as int,
    ) =~= pre.quad_data.operand_stack@);
}

/// The statement frame composes.
pub proof fn lemma_stmt_frame_trans(a: DustyContext, b: DustyContext, c: DustyContext)
    requires
        stmt_frame(a, b),
        stmt_frame(b, c),
    ensures
        stmt_frame(a, c),
{
    lemma_extend_trans(a, b, c);
    let la = a.quadruples@.len() as int;
    let lb = b.quadruples@.len() as int;
    assert forall|i: int|
        la <= i < c.quadruples@.len() implies (#[trigger] c.quadruples@[i]).op.memory != 16
        && c.quadruples@[i].op.memory != 17 by {
        if i < lb {
            assert(c.quadruples@.subrange(0, lb)[i] == c.quadruples@[i]);
            assert(c.quadruples@[i] == b.quadruples@[i]);
        }
    }
    let oa = a.quad_data.operand_stack@.len() as int;
    let ob = b.quad_data.operand_stack@.len() as int;
    assert forall|i: int|
        0 <= i < oa implies c.quad_data.operand_stack@[i] == a.quad_data.operand_stack@[i] by {
        assert(b.quad_data.operand_stack@.subrange(0, oa)[i] == b.quad_data.operand_stack@[i]);
        assert(c.quad_data.operand_stack@.subrange(0, ob)[i] == c.quad_data.operand_stack@[i]);
    }
    assert(c.quad_data.operand_stack@.subrange(0, oa) =~= a.quad_data.operand_stack@);
}

/// Translates an `Assign` statement: the target identifier, the `=` token,
/// and the value expression, reduced into one assignment quadruple.
#[verifier::rlimit(60)]
pub fn translate_assign(node: &Node, ctx: &mut DustyContext) -> (r: Result<(), CompileError>)
    requires
        old(ctx).wf(),
        old(ctx).spec_has_func(old(ctx).current_func@),
        old(ctx).spec_has_func("global"@),
        old(ctx).quad_data.operator_stack@.len() == 0,
        old(ctx).quad_data.param_counter == 0,
    ensures
        final(ctx).wf(),
        r matches Err(e) ==> stmt_error(e),
        r is Ok ==> stmt_frame(*old(ctx), *final(ctx)),
    decreases *node,
{
    if node.rule != Rule::Assign || node.children.len() < 3 || node.children.len() > 4 {
        return Err(CompileError::MalformedTree { line: node.line, col: node.col });
    }
    if node.children[0].rule != Rule::Id || node.children[1].rule != Rule::Equals
        || node.children[2].rule != Rule::Expression {
        return Err(CompileError::MalformedTree { line: node.line, col: node.col });
    }
    if node.children.len() == 4 && node.children[3].rule != Rule::Delimiter {
        return Err(CompileError::MalformedTree { line: node.line, col: node.col });
    }
    let target = match ctx.lookup_var(node.children[0].text.as_str()) {
        Some(v) => v,
        None => {
            return Err(
                CompileError::UndeclaredIdentifier {
                    name: crate::dusty_context::clone_string(&node.children[0].text),
                    line: node.children[0].line,
                    col: node.children[0].col,
                },
            );
        },
    };
    ctx.push_operand(target);
    ctx.push_operator(OpStackItem::Bin(BinOp::Assign));
    let ghost s1 = *ctx;
    proof {
        assert(decreases_to!(*node => node.children));
        assert(decreases_to!(node.children => node.children@[2]));
    }
    translate_expression(&node.children[2], ctx)?;
    let ghost s2 = *ctx;
    if ctx.top_is_equals() {
        ctx.generate_assign_quad()?;
    } else {
        proof {
            assert(s2.quad_data.operator_stack@ == s1.quad_data.operator_stack@);
            assert(false);
        }
    }
    proof {
        assert(s1.quadruples@.subrange(0, old(ctx).quadruples@.len() as int) =~= old(
            ctx,
        ).quadruples@);
        lemma_extend_trans(*old(ctx), s1, s2);
        assert(ctx.quadruples@.subrange(0, s2.quadruples@.len() as int) =~= s2.quadruples@);
        lemma_extend_trans(*old(ctx), s2, *ctx);
        assert(ctx.quad_data.operand_stack@ =~= old(ctx).quad_data.operand_stack@);
        assert(ctx.quad_data.operand_stack@.subrange(
            0,
            old(ctx).quad_data.operand_stack@.len() as int,
        ) =~= old(ctx).quad_data.operand_stack@);
        assert(ctx.quad_data.operator_stack@ =~= old(ctx).quad_data.operator_stack@);
        assert(ctx.quad_data.jump_stack@ == old(ctx).quad_data.jump_stack@);
        assert forall|i: int|
            old(ctx).quadruples@.len() <= i < ctx.quadruples@.len() implies (
        #[trigger] ctx.quadruples@[i]).op.memory != 16 && ctx.quadruples@[i].op.memory != 17 by {
            if i < s2.quadruples@.len() {
                assert(ctx.quadruples@.subrange(0, s2.quadruples@.len() as int)[i]
                    == ctx.quadruples@[i]);
                assert(ctx.quadruples@[i] == s2.quadruples@[i]);
                assert(1 <= s2.quadruples@[i].op.memory <= 8);
            } else {
                assert(ctx.quadruples@[i].op.memory == 9);
            }
        }
    }
    Ok(())
}

/// Translates one `PrintElement`: an expression, or a string literal
/// interned with its quotes stripped; emits the `print` quadruple.
pub fn translate_print_element(node: &Node, ctx: &mut DustyContext) -> (r: Result<
    (),
    CompileError,
>)
    requires
        old(ctx).wf(),
        old(ctx).spec_has_func(old(ctx).current_func@),
        old(ctx).spec_has_func("global"@),
        old(ctx).quad_data.operator_stack@.len() == 0,
        old(ctx).quad_data.param_counter == 0,
    ensures
        final(ctx).wf(),
        r matches Err(e) ==> stmt_error(e),
        r is Ok ==> stmt_frame(*old(ctx), *final(ctx)),
    decreases *node,
{
    if node.rule != Rule::PrintElement || node.children.len() != 1 {
        return Err(CompileError::MalformedTree { line: node.line, col: node.col });
    }
    let ghost pre = *ctx;
    if node.children[0].rule == Rule::Expression {
        proof {
            assert(decreases_to!(*node => node.children));
            assert(decreases_to!(node.children => node.children@[0]));
        }
        translate_expression(&node.children[0], ctx)?;
    } else if node.children[0].rule == Rule::StringLit {
        let stripped = strip_quotes(node.children[0].text.as_str());
        let v = ctx.intern_constant(stripped.as_str(), Type::Str)?;
        ctx.push_operand(v);
        proof {
            lemma_expr_frame_refl(*old(ctx), *ctx);
        }
    } else {
        return Err(CompileError::MalformedTree { line: node.line, col: node.col });
    }
    let ghost s1 = *ctx;
    ctx.generate_print_quad()?;
    proof {
        lemma_extend_trans(*old(ctx), s1, *ctx);
        assert(ctx.quad_data.operand_stack@.subrange(
            0,
            old(ctx).quad_data.operand_stack@.len() as int,
        ) =~= old(ctx).quad_data.operand_stack@);
        assert forall|i: int|
            old(ctx).quadruples@.len() <= i < ctx.quadruples@.len() implies (
        #[trigger] ctx.quadruples@[i]).op.memory != 16 && ctx.quadruples@[i].op.memory != 17 by {
            if i < s1.quadruples@.len() {
                assert(ctx.quadruples@.subrange(0, s1.quadruples@.len() as int)[i]
                    == ctx.quadruples@[i]);
                assert(ctx.quadruples@[i] == s1.quadruples@[i]);
                assert(1 <= s1.quadruples@[i].op.memory <= 8);
            } else {
                assert(ctx.quadruples@[i].op.memory == 15);
            }
        }
    }
    Ok(())
}

/// Translates a `Print` statement: each element's value is printed in
/// order, one line each.
pub fn translate_print(node: &Node, ctx: &mut DustyContext) -> (r: Result<(), CompileError>)
    requires
        old(ctx).wf(),
        old(ctx).spec_has_func(old(ctx).current_func@),
        old(ctx).spec_has_func("global"@),
        old(ctx).quad_data.operator_stack@.len() == 0,
        old(ctx).quad_data.param_counter == 0,
    ensures
        final(ctx).wf(),
        r matches Err(e) ==> stmt_error(e),
        r is Ok ==> stmt_frame(*old(ctx), *final(ctx)),
    decreases *node,
{
    if node.rule != Rule::Print || node.children.len() < 3 {
        return Err(CompileError::MalformedTree { line: node.line, col: node.col });
    }
    if node.children[0].rule != Rule::OpenP {
        return Err(CompileError::MalformedTree { line: node.line, col: node.col });
    }
    proof {
        lemma_stmt_frame_refl(*old(ctx), *ctx);
    }
    let n = node.children.len();
    let mut i: usize = 1;
    let mut seen: usize = 0;
    while i < n && (node.children[i].rule == Rule::PrintElement || node.children[i].rule
        == Rule::Delimiter)
        invariant
            old(ctx).wf(),
            old(ctx).spec_has_func(old(ctx).current_func@),
            old(ctx).spec_has_func("global"@),
            old(ctx).quad_data.operator_stack@.len() == 0,
            old(ctx).quad_data.param_counter == 0,
            1 <= i <= n,
            n == node.children@.len(),
            node.rule == Rule::Print,
            seen <= i,
            ctx.wf(),
            stmt_frame(*old(ctx), *ctx),
        decreases n - i,
    {
        if node.children[i].rule == Rule::PrintElement {
            let ghost s0 = *ctx;
            proof {
                lemma_shape_preserves_func(*old(ctx), *ctx, old(ctx).current_func@);
                lemma_shape_preserves_func(*old(ctx), *ctx, "global"@);
                assert(decreases_to!(*node => node.children));
                assert(decreases_to!(node.children => node.children@[i as int]));
            }
            translate_print_element(&node.children[i], ctx)?;
            proof {
                lemma_stmt_frame_trans(*old(ctx), s0, *ctx);
            }
            if seen < n {
                seen += 1;
            }
        }
        i += 1;
    }
    if seen == 0 || i >= n || node.children[i].rule != Rule::CloseP {
        return Err(CompileError::MalformedTree { line: node.line, col: node.col });
    }
    i += 1;
    if i < n {
        if node.children[i].rule != Rule::Delimiter || i + 1 != n {
            return Err(CompileError::MalformedTree { line: node.line, col: node.col });
        }
    }
    Ok(())
}

/// A backpatch keeps every opcode: only one destination slot changes.
pub proof fn lemma_patch_keeps_ops(pre_q: Seq<Quad>, post_q: Seq<Quad>, idx: int, t: u32)
    requires
        0 <= idx < pre_q.len(),
        crate::dusty_context::quad_patched(pre_q, post_q, idx, t),
    ensures
        post_q.len() == pre_q.len(),
        forall|i: int|
            0 <= i < post_q.len() ==> (#[trigger] post_q[i]).op.memory == pre_q[i].op.memory,
{
}

/// Translates a `Condition` statement: the parenthesized condition, an
/// incomplete `gotof`, the taken branch, and — when `else` is present — a
/// `goto` that skips the other branch; both jumps are backpatched.
#[verifier::rlimit(100)]
pub fn translate_condition(node: &Node, ctx: &mut DustyContext) -> (r: Result<(), CompileError>)
    requires
        old(ctx).wf(),
        old(ctx).spec_has_func(old(ctx).current_func@),
        old(ctx).spec_has_func("global"@),
        old(ctx).quad_data.operator_stack@.len() == 0,
        old(ctx).quad_data.param_counter == 0,
    ensures
        final(ctx).wf(),
        r matches Err(e) ==> stmt_error(e),
        r is Ok ==> stmt_frame(*old(ctx), *final(ctx)),
    decreases *node,
{
    if node.rule != Rule::Condition || !(node.children.len() == 5 || node.children.len() == 7) {
        return Err(CompileError::MalformedTree { line: node.line, col: node.col });
    }
    let with_else = node.children.len() == 7;
    if node.children[0].rule != Rule::OpenP || node.children[1].rule != Rule::Expression
        || node.children[2].rule != Rule::CloseP || node.children[3].rule != Rule::Body {
        return Err(CompileError::MalformedTree { line: node.line, col: node.col });
    }
    if with_else && (node.children[4].rule != Rule::ElseKeyword || node.children[5].rule
        != Rule::Body) {
        return Err(CompileError::MalformedTree { line: node.line, col: node.col });
    }
    let last = node.children.len() - 1;
    if node.children[last].rule != Rule::Delimiter {
        return Err(CompileError::MalformedTree { line: node.line, col: node.col });
    }
    proof {
        assert(decreases_to!(*node => node.children));
        assert(decreases_to!(node.children => node.children@[1]));
        assert(decreases_to!(node.children => node.children@[3]));
    }
    translate_expression(&node.children[1], ctx)?;
    let ghost s1 = *ctx;
    ctx.generate_gotof_quad()?;
    let ghost s2 = *ctx;
    let ghost g = s1.quad_data.quad_counter;
    proof {
        assert(s2.quad_data.operand_stack@.subrange(
            0,
            old(ctx).quad_data.operand_stack@.len() as int,
        ) =~= old(ctx).quad_data.operand_stack@);
        lemma_shape_preserves_func(*old(ctx), s2, old(ctx).current_func@);
        lemma_shape_preserves_func(*old(ctx), s2, "global"@);
    }
    translate_body(&node.children[3], ctx)?;
    let ghost s3 = *ctx;
    proof {
        assert(ctx.quadruples@.subrange(0, s2.quadruples@.len() as int)[g - 1]
            == ctx.quadruples@[g - 1]);
        assert(ctx.quadruples@[g - 1].op.memory == 11);
        assert(ctx.quad_data.jump_stack@.last() == g);
    }
    if with_else {
        if ctx.quad_data.quad_counter >= 0xFFFF_FFFFusize {
            return Err(CompileError::ProgramTooLong);
        }
        ctx.fill_while_start();
        let ghost s4 = *ctx;
        proof {
            lemma_patch_keeps_ops(s3.quadruples@, s4.quadruples@, g - 1, (
            s3.quad_data.quad_counter + 1) as u32);
            assert(s4.quad_data.jump_stack@ =~= old(ctx).quad_data.jump_stack@);
        }
        ctx.generate_goto_quad()?;
        let ghost s5 = *ctx;
        let ghost g2 = s4.quad_data.quad_counter;
        proof {
            lemma_shape_preserves_func(*old(ctx), s5, old(ctx).current_func@);
            lemma_shape_preserves_func(*old(ctx), s5, "global"@);
            assert(decreases_to!(*node => node.children));
            assert(decreases_to!(node.children => node.children@[5]));
        }
        translate_body(&node.children[5], ctx)?;
        let ghost s6 = *ctx;
        proof {
            assert(ctx.quadruples@.subrange(0, s5.quadruples@.len() as int)[g2 - 1]
                == ctx.quadruples@[g2 - 1]);
            assert(ctx.quadruples@[g2 - 1].op.memory == 10);
            assert(ctx.quad_data.jump_stack@.last() == g2);
        }
        ctx.fill_jump();
        proof {
            lemma_patch_keeps_ops(s6.quadruples@, ctx.quadruples@, g2 - 1,
                s6.quad_data.quad_counter as u32);
            assert(ctx.quad_data.jump_stack@ =~= old(ctx).quad_data.jump_stack@);
            assert(ctx.quad_data.operand_stack@.subrange(
                0,
                old(ctx).quad_data.operand_stack@.len() as int,
            ) =~= old(ctx).quad_data.operand_stack@);
            assert(ctx.quad_data.operator_stack@ =~= old(ctx).quad_data.operator_stack@);
            assert(quads_extended(*old(ctx), *ctx)) by {
                assert(forall|i: int|
                    0 <= i < old(ctx).quadruples@.len() ==> #[trigger] ctx.quadruples@[i]
                        == s6.quadruples@[i]);
                assert(forall|i: int|
                    0 <= i < old(ctx).quadruples@.len() ==> s6.quadruples@[i] == old(
                        ctx,
                    ).quadruples@[i]) by {
                    assert(forall|i: int|
                        0 <= i < old(ctx).quadruples@.len() ==> s6.quadruples@.subrange(
                            0,
                            old(ctx).quadruples@.len() as int,
                        )[i] == #[trigger] s6.quadruples@[i]);
                }
                assert(ctx.quadruples@.subrange(0, old(ctx).quadruples@.len() as int) =~= old(
                    ctx,
                ).quadruples@);
            }
            assert forall|i: int|
                old(ctx).quadruples@.len() <= i < ctx.quadruples@.len() implies (
            #[trigger] ctx.quadruples@[i]).op.memory != 16 && ctx.quadruples@[i].op.memory
                != 17 by {
                assert(ctx.quadruples@[i].op.memory == s6.quadruples@[i].op.memory);
                if i < s5.quadruples@.len() {
                    if i < s4.quadruples@.len() {
                        if i < s3.quadruples@.len() {
                            assert(s4.quadruples@[i].op.memory == s3.quadruples@[i].op.memory);
                            if i < s2.quadruples@.len() {
                                if i < s1.quadruples@.len() {
                                    assert(s1.quadruples@.subrange(
                                        0,
                                        s1.quadruples@.len() as int,
                                    ) =~= s1.quadruples@);
                                    assert(1 <= s1.quadruples@[i].op.memory <= 8);
                                    assert(s2.quadruples@[i] == s1.quadruples@[i]);
                                } else {
                                    assert(s2.quadruples@[i].op.memory == 11);
                                }
                                assert(s3.quadruples@.subrange(0, s2.quadruples@.len() as int)[i]
                                    == s3.quadruples@[i]);
                            }
                        } else {
                            assert(s4.quadruples@[i].op.memory == s3.quadruples@[i].op.memory);
                        }
                        assert(s5.quadruples@[i] == s4.quadruples@[i]);
                    } else {
                        assert(s5.quadruples@[i].op.memory == 10);
                    }
                    assert(s6.quadruples@.subrange(0, s5.quadruples@.len() as int)[i]
                        == s6.quadruples@[i]);
                }
            }
        }
        Ok(())
    } else {
        ctx.fill_jump();
        proof {
            lemma_patch_keeps_ops(s3.quadruples@, ctx.quadruples@, g - 1,
                s3.quad_data.quad_counter as u32);
            assert(ctx.quad_data.jump_stack@ =~= old(ctx).quad_data.jump_stack@);
            assert(ctx.quad_data.operand_stack@.subrange(
                0,
                old(ctx).quad_data.operand_stack@.len() as int,
            ) =~= old(ctx).quad_data.operand_stack@);
            assert(ctx.quad_data.operator_stack@ =~= old(ctx).quad_data.operator_stack@);
            assert(quads_extended(*old(ctx), *ctx)) by {
                assert(forall|i: int|
                    0 <= i < old(ctx).quadruples@.len() ==> #[trigger] ctx.quadruples@[i]
                        == s3.quadruples@[i]);
                assert(forall|i: int|
                    0 <= i < old(ctx).quadruples@.len() ==> s3.quadruples@[i] == old(
                        ctx,
                    ).quadruples@[i]) by {
                    assert(forall|i: int|
                        0 <= i < old(ctx).quadruples@.len() ==> s3.quadruples@.subrange(
                            0,
                            old(ctx).quadruples@.len() as int,
                        )[i] == #[trigger] s3.quadruples@[i]);
                }
                assert(ctx.quadruples@.subrange(0, old(ctx).quadruples@.len() as int) =~= old(
                    ctx,
                ).quadruples@);
            }
            assert forall|i: int|
                old(ctx).quadruples@.len() <= i < ctx.quadruples@.len() implies (
            #[trigger] ctx.quadruples@[i]).op.memory != 16 && ctx.quadruples@[i].op.memory
                != 17 by {
                assert(ctx.quadruples@[i].op.memory == s3.quadruples@[i].op.memory);
                if i < s2.quadruples@.len() {
                    if i < s1.quadruples@.len() {
                        assert(1 <= s1.quadruples@[i].op.memory <= 8);
                        assert(s2.quadruples@[i] == s1.quadruples@[i]);
                    } else {
                        assert(s2.quadruples@[i].op.memory == 11);
                    }
                    assert(s3.quadruples@.subrange(0, s2.quadruples@.len() as int)[i]
                        == s3.quadruples@[i]);
                }
            }
        }
        Ok(())
    }
}

/// Translates a `WhileLoop` statement: the loop start is remembered before
/// the condition, the exit `gotof` is backpatched past the closing `goto`,
/// and the closing `goto` returns to the loop start.
#[verifier::rlimit(100)]
pub fn translate_while(node: &Node, ctx: &mut DustyContext) -> (r: Result<(), CompileError>)
    requires
        old(ctx).wf(),
        old(ctx).spec_has_func(old(ctx).current_func@),
        old(ctx).spec_has_func("global"@),
        old(ctx).quad_data.operator_stack@.len() == 0,
        old(ctx).quad_data.param_counter == 0,
    ensures
        final(ctx).wf(),
        r matches Err(e) ==> stmt_error(e),
        r is Ok ==> stmt_frame(*old(ctx), *final(ctx)),
    decreases *node,
{
    if node.rule != Rule::WhileLoop || node.children.len() != 6 {
        return Err(CompileError::MalformedTree { line: node.line, col: node.col });
    }
    if node.children[0].rule != Rule::OpenP || node.children[1].rule != Rule::Expression
        || node.children[2].rule != Rule::CloseP || node.children[3].rule != Rule::DoKeyword
        || node.children[4].rule != Rule::Body || node.children[5].rule != Rule::Delimiter {
        return Err(CompileError::MalformedTree { line: node.line, col: node.col });
    }
    let loop_start = ctx.quad_data.quad_counter;
    ctx.quad_data.jump_stack.push(loop_start);
    let ghost s0 = *ctx;
    proof {
        assert(decreases_to!(*node => node.children));
        assert(decreases_to!(node.children => node.children@[1]));
        assert(decreases_to!(node.children => node.children@[4]));
        assert(ctx.spec_has_func(ctx.current_func@)) by {
            let k = choose|k: int|
                0 <= k < old(ctx).func_dir@.len() && old(ctx).func_dir@[k].name@ == old(
                    ctx,
                ).current_func@;
            assert(ctx.func_dir@[k].name@ == ctx.current_func@);
        }
        assert(ctx.spec_has_func("global"@)) by {
            let k = choose|k: int|
                0 <= k < old(ctx).func_dir@.len() && old(ctx).func_dir@[k].name@ == "global"@;
            assert(ctx.func_dir@[k].name@ == "global"@);
        }
    }
    translate_expression(&node.children[1], ctx)?;
    let ghost s1 = *ctx;
    ctx.generate_gotof_quad()?;
    let ghost s2 = *ctx;
    let ghost g = s1.quad_data.quad_counter;
    proof {
        assert(s2.quad_data.operand_stack@.subrange(
            0,
            old(ctx).quad_data.operand_stack@.len() as int,
        ) =~= old(ctx).quad_data.operand_stack@);
        lemma_shape_preserves_func(*old(ctx), s2, old(ctx).current_func@);
        lemma_shape_preserves_func(*old(ctx), s2, "global"@);
    }
    translate_body(&node.children[4], ctx)?;
    let ghost s3 = *ctx;
    proof {
        assert(ctx.quadruples@.subrange(0, s2.quadruples@.len() as int)[g - 1]
            == ctx.quadruples@[g - 1]);
        assert(ctx.quadruples@[g - 1].op.memory == 11);
        assert(ctx.quad_data.jump_stack@.last() == g);
    }
    if ctx.quad_data.quad_counter >= 0xFFFF_FFFFusize {
        return Err(CompileError::ProgramTooLong);
    }
    ctx.fill_while_start();
    let ghost s4 = *ctx;
    proof {
        lemma_patch_keeps_ops(s3.quadruples@, s4.quadruples@, g - 1, (s3.quad_data.quad_counter
            + 1) as u32);
        assert(s4.quad_data.jump_stack@ =~= old(ctx).quad_data.jump_stack@.push(loop_start));
        assert(s4.quad_data.jump_stack@.last() == loop_start);
    }
    ctx.generate_gotow_quad()?;
    let ghost s5 = *ctx;
    ctx.fill_while_end();
    proof {
        lemma_patch_keeps_ops(s5.quadruples@, ctx.quadruples@, s5.quadruples@.len() - 1,
            loop_start as u32);
        assert(ctx.quad_data.jump_stack@ =~= old(ctx).quad_data.jump_stack@);
        assert(ctx.quad_data.operand_stack@.subrange(
            0,
            old(ctx).quad_data.operand_stack@.len() as int,
        ) =~= old(ctx).quad_data.operand_stack@);
        assert(ctx.quad_data.operator_stack@ =~= old(ctx).quad_data.operator_stack@);
        assert(quads_extended(*old(ctx), *ctx)) by {
            assert(forall|i: int|
                0 <= i < old(ctx).quadruples@.len() ==> #[trigger] ctx.quadruples@[i]
                    == s5.quadruples@[i]);
            assert(forall|i: int|
                0 <= i < old(ctx).quadruples@.len() ==> s5.quadruples@[i] == s4.quadruples@[i]);
            assert(forall|i: int|
                0 <= i < old(ctx).quadruples@.len() ==> s4.quadruples@[i] == s3.quadruples@[i]);
            assert(forall|i: int|
                0 <= i < old(ctx).quadruples@.len() ==> s3.quadruples@[i] == old(
                    ctx,
                ).quadruples@[i]) by {
                assert(forall|i: int|
                    0 <= i < old(ctx).quadruples@.len() ==> s3.quadruples@.subrange(
                        0,
                        old(ctx).quadruples@.len() as int,
                    )[i] == #[trigger] s3.quadruples@[i]);
            }
            assert(ctx.quadruples@.subrange(0, old(ctx).quadruples@.len() as int) =~= old(
                ctx,
            ).quadruples@);
        }
        assert forall|i: int|
            old(ctx).quadruples@.len() <= i < ctx.quadruples@.len() implies (
        #[trigger] ctx.quadruples@[i]).op.memory != 16 && ctx.quadruples@[i].op.memory != 17 by {
            assert(ctx.quadruples@[i].op.memory == s5.quadruples@[i].op.memory);
            if i < s4.quadruples@.len() {
                assert(s4.quadruples@[i].op.memory == s3.quadruples@[i].op.memory);
                if i < s2.quadruples@.len() {
                    if i < s1.quadruples@.len() {
                        assert(1 <= s1.quadruples@[i].op.memory <= 8);
                        assert(s2.quadruples@[i] == s1.quadruples@[i]);
                    } else {
                        assert(s2.quadruples@[i].op.memory == 11);
                    }
                    assert(s3.quadruples@.subrange(0, s2.quadruples@.len() as int)[i]
                        == s3.quadruples@[i]);
                }
            } else {
                assert(s5.quadruples@[i].op.memory == 10);
            }
        }
    }
    Ok(())
}

/// The shape of a translated procedure call: one `era`, the declared
/// number of `param` quadruples, and one closing `gosub`, with only
/// argument reductions in between.
pub open spec fn call_shape(pre: DustyContext, post: DustyContext, callee: Seq<char>) -> bool {
    let base = pre.quadruples@.len() as int;
    let q = post.quadruples@;
    &&& q.len() >= base + 2
    &&& q[base].op.memory == 12
    &&& q[q.len() - 1].op.memory == 14
    &&& post.spec_has_func(callee)
    &&& count_op_in(q, base, q.len() as int, 13) == post.spec_func(callee).params@.len()
    &&& count_op_in(q, base, q.len() as int, 12) == 1
    &&& count_op_in(q, base, q.len() as int, 14) == 1
}

/// Translates a `FuncCall` statement: `era` sizes the callee's record, one
/// `param` per argument fills it — each argument's type checked against
/// the callee's declaration — and `gosub` transfers control. The number of
/// `param` quadruples between the `era` and its `gosub` equals the
/// callee's declared arity.
#[verifier::rlimit(100)]
pub fn translate_func_call(node: &Node, ctx: &mut DustyContext) -> (r: Result<(), CompileError>)
    requires
        old(ctx).wf(),
        old(ctx).spec_has_func(old(ctx).current_func@),
        old(ctx).spec_has_func("global"@),
        old(ctx).quad_data.operator_stack@.len() == 0,
        old(ctx).quad_data.param_counter == 0,
    ensures
        final(ctx).wf(),
        r matches Err(e) ==> stmt_error(e),
        r is Ok ==> stmt_frame(*old(ctx), *final(ctx)) && node.children@.len() >= 1 && call_shape(
            *old(ctx),
            *final(ctx),
            node.children@[0].text@,
        ),
    decreases *node,
{
    if node.rule != Rule::FuncCall || node.children.len() < 3 {
        return Err(CompileError::MalformedTree { line: node.line, col: node.col });
    }
    let mut m = node.children.len();
    if node.children[m - 1].rule == Rule::Delimiter {
        m = m - 1;
    }
    if m < 3 || node.children[0].rule != Rule::Id || node.children[1].rule != Rule::OpenP
        || node.children[m - 1].rule != Rule::CloseP {
        return Err(CompileError::MalformedTree { line: node.line, col: node.col });
    }
    if !ctx.has_function(node.children[0].text.as_str()) {
        return Err(
            CompileError::UndeclaredIdentifier {
                name: crate::dusty_context::clone_string(&node.children[0].text),
                line: node.children[0].line,
                col: node.children[0].col,
            },
        );
    }
    ctx.current_call = crate::dusty_context::clone_string(&node.children[0].text);
    let ghost s0 = *ctx;
    ctx.generate_era_quad(node.children[0].text.as_str())?;
    let ghost s1 = *ctx;
    let ghost base = old(ctx).quadruples@.len() as int;
    proof {
        assert(s0.quadruples@ == old(ctx).quadruples@);
        assert(s1.quadruples@.len() == base + 1);
        assert(s1.quadruples@.last() == s1.quadruples@[base]);
        assert(s1.quadruples@[base].op.memory == 12);
        assert(count_op_in(s1.quadruples@, base, base, 13) == 0);
        assert(count_op_in(s1.quadruples@, base, base, 12) == 0);
        assert(count_op_in(s1.quadruples@, base, base, 14) == 0);
        assert(count_op_in(s1.quadruples@, base, base + 1, 13) == 0);
        assert(count_op_in(s1.quadruples@, base, base + 1, 12) == 1);
        assert(count_op_in(s1.quadruples@, base, base + 1, 14) == 0);
    }
    let n = node.children.len();
    let mut i: usize = 2;
    while i < m - 1
        invariant
            old(ctx).wf(),
            old(ctx).spec_has_func(old(ctx).current_func@),
            old(ctx).spec_has_func("global"@),
            old(ctx).quad_data.operator_stack@.len() == 0,
            old(ctx).quad_data.param_counter == 0,
            2 <= i <= m - 1,
            3 <= m <= n,
            n == node.children@.len(),
            node.rule == Rule::FuncCall,
            base == old(ctx).quadruples@.len(),
            ctx.wf(),
            quads_extended(*old(ctx), *ctx),
            ctx.quadruples@.len() > base,
            ctx.quadruples@[base].op.memory == 12,
            ctx.quad_data.jump_stack@ == old(ctx).quad_data.jump_stack@,
            ctx.quad_data.operand_stack@.len() >= old(ctx).quad_data.operand_stack@.len(),
            ctx.quad_data.operand_stack@.subrange(
                0,
                old(ctx).quad_data.operand_stack@.len() as int,
            ) == old(ctx).quad_data.operand_stack@,
            ctx.quad_data.operator_stack@ == old(ctx).quad_data.operator_stack@,
            ctx.current_func == old(ctx).current_func,
            ctx.current_type == old(ctx).current_type,
            ctx.id_stack == old(ctx).id_stack,
            ctx.current_call@ == node.children@[0].text@,
            same_func_shape(old(ctx).func_dir@, ctx.func_dir@),
            count_op_in(ctx.quadruples@, base, ctx.quadruples@.len() as int, 13)
                == ctx.quad_data.param_counter,
            count_op_in(ctx.quadruples@, base, ctx.quadruples@.len() as int, 12) == 1,
            count_op_in(ctx.quadruples@, base, ctx.quadruples@.len() as int, 14) == 0,
            forall|k: int|
                base <= k < ctx.quadruples@.len() ==> (#[trigger] ctx.quadruples@[k]).op.memory
                    != 16 && ctx.quadruples@[k].op.memory != 17,
        decreases m - 1 - i,
    {
        if node.children[i].rule == Rule::Delimiter {
            i += 1;
            continue;
        }
        if node.children[i].rule != Rule::Expression {
            return Err(CompileError::MalformedTree { line: node.line, col: node.col });
        }
        let ghost p0 = *ctx;
        proof {
            lemma_shape_preserves_func(*old(ctx), *ctx, old(ctx).current_func@);
            lemma_shape_preserves_func(*old(ctx), *ctx, "global"@);
            assert(decreases_to!(*node => node.children));
            assert(decreases_to!(node.children => node.children@[i as int]));
        }
        translate_expression(&node.children[i], ctx)?;
        let ghost p1 = *ctx;
        ctx.generate_param_quad()?;
        proof {
            let lp0 = p0.quadruples@.len() as int;
            let lp1 = p1.quadruples@.len() as int;
            let lp2 = ctx.quadruples@.len() as int;
            lemma_extend_trans(*old(ctx), p0, p1);
            assert(ctx.quadruples@.subrange(0, lp1) =~= p1.quadruples@);
            lemma_extend_trans(*old(ctx), p1, *ctx);
            // the argument reductions add no call opcodes
            lemma_count_agree(ctx.quadruples@, p1.quadruples@, base, lp1, 13);
            lemma_count_agree(p1.quadruples@, p0.quadruples@, base, lp0, 13);
            lemma_count_split(p1.quadruples@, base, lp0, lp1, 13);
            lemma_count_zero(p1.quadruples@, lp0, lp1, 13);
            lemma_count_split(ctx.quadruples@, base, lp1, lp2, 13);
            lemma_count_agree(ctx.quadruples@, p1.quadruples@, base, lp0, 13);
            lemma_count_agree(ctx.quadruples@, p0.quadruples@, base, lp0, 13);
            lemma_count_agree(ctx.quadruples@, p1.quadruples@, base, lp1, 12);
            lemma_count_agree(p1.quadruples@, p0.quadruples@, base, lp0, 12);
            lemma_count_split(p1.quadruples@, base, lp0, lp1, 12);
            lemma_count_zero(p1.quadruples@, lp0, lp1, 12);
            lemma_count_split(ctx.quadruples@, base, lp1, lp2, 12);
            lemma_count_agree(ctx.quadruples@, p1.quadruples@, base, lp1, 14);
            lemma_count_agree(p1.quadruples@, p0.quadruples@, base, lp0, 14);
            lemma_count_split(p1.quadruples@, base, lp0, lp1, 14);
            lemma_count_zero(p1.quadruples@, lp0, lp1, 14);
            lemma_count_split(ctx.quadruples@, base, lp1, lp2, 14);
            assert(ctx.quadruples@[base] == p1.quadruples@[base]);
            assert forall|k: int|
                base <= k < ctx.quadruples@.len() implies (#[trigger] ctx.quadruples@[
            k]).op.memory != 16 && ctx.quadruples@[k].op.memory != 17 by {
                if k < lp1 {
                    assert(ctx.quadruples@[k] == p1.quadruples@[k]);
                    if k < lp0 {
                        assert(p1.quadruples@[k] == p0.quadruples@[k]);
                    } else {
                        assert(1 <= p1.quadruples@[k].op.memory <= 8);
                    }
                } else {
                    assert(ctx.quadruples@[k].op.memory == 13);
                }
            }
        }
        i += 1;
    }
    let cidx = match ctx.find_func(ctx.current_call.as_str()) {
        Some(ix) => ix,
        None => {
            proof {
                lemma_shape_preserves_func(*old(ctx), *ctx, node.children@[0].text@);
                assert(false);
            }
            0
        },
    };
    proof {
        ctx.lemma_func_unique(ctx.current_call@, cidx as int);
    }
    let arity = ctx.func_dir[cidx].params.len();
    if ctx.quad_data.param_counter != arity {
        return Err(
            CompileError::ArityMismatch {
                name: crate::dusty_context::clone_string(&ctx.current_call),
                expected: arity,
                got: ctx.quad_data.param_counter,
                line: node.children[m - 1].line,
                col: node.children[m - 1].col,
            },
        );
    }
    let ghost s9 = *ctx;
    ctx.generate_gosub_quad()?;
    ctx.quad_data.param_counter = 0;
    proof {
        let l9 = s9.quadruples@.len() as int;
        let lf = ctx.quadruples@.len() as int;
        assert(ctx.quadruples@.subrange(0, l9) =~= s9.quadruples@);
        lemma_extend_trans(*old(ctx), s9, *ctx);
        lemma_count_agree(ctx.quadruples@, s9.quadruples@, base, l9, 13);
        lemma_count_split(ctx.quadruples@, base, l9, lf, 13);
        lemma_count_agree(ctx.quadruples@, s9.quadruples@, base, l9, 12);
        lemma_count_split(ctx.quadruples@, base, l9, lf, 12);
        lemma_count_agree(ctx.quadruples@, s9.quadruples@, base, l9, 14);
        lemma_count_split(ctx.quadruples@, base, l9, lf, 14);
        assert(ctx.quadruples@[base] == s9.quadruples@[base]);
        lemma_shape_preserves_func(*old(ctx), *ctx, node.children@[0].text@);
        s9.lemma_func_unique(node.children@[0].text@, cidx as int);
        ctx.lemma_func_unique(node.children@[0].text@, cidx as int);
        assert(count_op_in(ctx.quadruples@, base, lf, 13) == ctx.spec_func(
            node.children@[0].text@,
        ).params@.len());
        assert forall|k: int|
            base <= k < ctx.quadruples@.len() implies (#[trigger] ctx.quadruples@[k]).op.memory
                != 16 && ctx.quadruples@[k].op.memory != 17 by {
            if k < l9 {
                assert(ctx.quadruples@[k] == s9.quadruples@[k]);
            } else {
                assert(ctx.quadruples@[k].op.memory == 14);
            }
        }
    }
    Ok(())
}

/// Translates a `Statement` node: one assignment, conditional, loop,
/// print, or procedure call.
pub fn translate_statement(node: &Node, ctx: &mut DustyContext) -> (r: Result<(), CompileError>)
    requires
        old(ctx).wf(),
        old(ctx).spec_has_func(old(ctx).current_func@),
        old(ctx).spec_has_func("global"@),
        old(ctx).quad_data.operator_stack@.len() == 0,
        old(ctx).quad_data.param_counter == 0,
    ensures
        final(ctx).wf(),
        r matches Err(e) ==> stmt_error(e),
        r is Ok ==> stmt_frame(*old(ctx), *final(ctx)),
    decreases *node,
{
    if node.rule != Rule::Statement || node.children.len() != 1 {
        return Err(CompileError::MalformedTree { line: node.line, col: node.col });
    }
    proof {
        assert(decreases_to!(*node => node.children));
        assert(decreases_to!(node.children => node.children@[0]));
    }
    let child = &node.children[0];
    match child.rule {
        Rule::Assign => translate_assign(child, ctx),
        Rule::Condition => translate_condition(child, ctx),
        Rule::WhileLoop => translate_while(child, ctx),
        Rule::Print => translate_print(child, ctx),
        Rule::FuncCall => translate_func_call(child, ctx),
        _ => Err(CompileError::MalformedTree { line: node.line, col: node.col }),
    }
}

/// Translates a `Body` node: a sequence of statements.
pub fn translate_body(node: &Node, ctx: &mut DustyContext) -> (r: Result<(), CompileError>)
    requires
        old(ctx).wf(),
        old(ctx).spec_has_func(old(ctx).current_func@),
        old(ctx).spec_has_func("global"@),
        old(ctx).quad_data.operator_stack@.len() == 0,
        old(ctx).quad_data.param_counter == 0,
    ensures
        final(ctx).wf(),
        r matches Err(e) ==> stmt_error(e),
        r is Ok ==> stmt_frame(*old(ctx), *final(ctx)),
        node.children@.len() == 0 && r is Ok ==> final(ctx).quadruples == old(ctx).quadruples,
    decreases *node,
{
    if node.rule != Rule::Body {
        return Err(CompileError::MalformedTree { line: node.line, col: node.col });
    }
    proof {
        lemma_stmt_frame_refl(*old(ctx), *ctx);
    }
    if node.children.len() == 0 {
        return Ok(());
    }
    let n = node.children.len();
    let mut i: usize = 0;
    while i < n
        invariant
            old(ctx).wf(),
            old(ctx).spec_has_func(old(ctx).current_func@),
            old(ctx).spec_has_func("global"@),
            old(ctx).quad_data.operator_stack@.len() == 0,
            old(ctx).quad_data.param_counter == 0,
            i <= n,
            n == node.children@.len(),
            node.rule == Rule::Body,
            ctx.wf(),
            stmt_frame(*old(ctx), *ctx),
        decreases n - i,
    {
        if node.children[i].rule != Rule::Statement {
            return Err(CompileError::MalformedTree { line: node.line, col: node.col });
        }
        let ghost s0 = *ctx;
        proof {
            lemma_shape_preserves_func(*old(ctx), *ctx, old(ctx).current_func@);
            lemma_shape_preserves_func(*old(ctx), *ctx, "global"@);
            assert(decreases_to!(*node => node.children));
            assert(decreases_to!(node.children => node.children@[i as int]));
        }
        translate_statement(&node.children[i], ctx)?;
        proof {
            lemma_stmt_frame_trans(*old(ctx), s0, *ctx);
        }
        i += 1;
    }
    Ok(())
}

/// What declarations preserve: everything but the function directory, and
/// there all names in place.
pub open spec fn decl_frame(pre: DustyContext, post: DustyContext) -> bool {
    &&& post.wf()
    &&& post.quadruples == pre.quadruples
    &&& post.quad_data == pre.quad_data
    &&& post.const_dir == pre.const_dir
    &&& post.constants == pre.constants
    &&& post.current_func == pre.current_func
    &&& post.current_call == pre.current_call
    &&& same_names(pre.func_dir@, post.func_dir@)
}

/// A directory with the same names declares the same functions.
pub proof fn lemma_names_preserve_has(pre: DustyContext, post: DustyContext, name: Seq<char>)
    requires
        same_names(pre.func_dir@, post.func_dir@),
        pre.spec_has_func(name),
    ensures
        post.spec_has_func(name),
{
    let k = choose|k: int|
        0 <= k < pre.func_dir@.len() && pre.func_dir@[k].name@ == name;
    assert(post.func_dir@[k].name@ == name);
}

/// Translates a `Vars` section: groups of an identifier list, a type, and
/// a delimiter. Identifiers wait on a stack until their type token is
/// seen, then each is declared in the current scope at the next regular
/// address of that type.
pub fn translate_vars(node: &Node, ctx: &mut DustyContext) -> (r: Result<(), CompileError>)
    requires
        old(ctx).wf(),
        old(ctx).spec_has_func(old(ctx).current_func@),
    ensures
        final(ctx).wf(),
        r matches Err(e) ==> decl_error(e),
        r is Ok ==> decl_frame(*old(ctx), *final(ctx)) && final(ctx).id_stack@.len() == 0,
    decreases *node,
{
    if node.rule != Rule::Vars || node.children.len() < 2 {
        return Err(CompileError::MalformedTree { line: node.line, col: node.col });
    }
    let n = node.children.len();
    let mut i: usize = 0;
    let mut declared_any = false;
    while i < n
        invariant
            old(ctx).wf(),
            old(ctx).spec_has_func(old(ctx).current_func@),
            i <= n,
            n == node.children@.len(),
            node.rule == Rule::Vars,
            ctx.wf(),
            ctx.quadruples == old(ctx).quadruples,
            ctx.quad_data == old(ctx).quad_data,
            ctx.const_dir == old(ctx).const_dir,
            ctx.constants == old(ctx).constants,
            ctx.current_func == old(ctx).current_func,
            ctx.current_call == old(ctx).current_call,
            same_names(old(ctx).func_dir@, ctx.func_dir@),
            ctx.spec_has_func(ctx.current_func@),
            declared_any ==> ctx.id_stack@.len() == 0,
        decreases n - i,
    {
        if node.children[i].rule == Rule::Delimiter {
            i += 1;
            continue;
        }
        if node.children[i].rule != Rule::IdList || i + 1 >= n || node.children[i + 1].rule
            != Rule::TypeVar {
            return Err(CompileError::MalformedTree { line: node.line, col: node.col });
        }
        let id_list = &node.children[i];
        let mut k: usize = 0;
        while k < id_list.children.len()
            invariant
                k <= id_list.children@.len(),
                ctx.wf(),
                ctx.quadruples == old(ctx).quadruples,
                ctx.quad_data == old(ctx).quad_data,
                ctx.const_dir == old(ctx).const_dir,
                ctx.constants == old(ctx).constants,
                ctx.current_func == old(ctx).current_func,
                ctx.current_call == old(ctx).current_call,
                same_names(old(ctx).func_dir@, ctx.func_dir@),
                ctx.spec_has_func(ctx.current_func@),
            decreases id_list.children@.len() - k,
        {
            if id_list.children[k].rule != Rule::Id {
                return Err(CompileError::MalformedTree { line: id_list.line, col: id_list.col });
            }
            ctx.id_stack.push(crate::dusty_context::clone_string(&id_list.children[k].text));
            k += 1;
        }
        let type_var = &node.children[i + 1];
        let var_type = if str_eq(type_var.text.as_str(), "int") {
            Type::Int
        } else if str_eq(type_var.text.as_str(), "float") {
            Type::Float
        } else {
            return Err(CompileError::MalformedTree { line: type_var.line, col: type_var.col });
        };
        let ghost pre_t = *ctx;
        ctx.current_type = var_type;
        proof {
            assert(ctx.spec_has_func(ctx.current_func@)) by {
                let k = choose|k: int|
                    0 <= k < pre_t.func_dir@.len() && pre_t.func_dir@[k].name@
                        == pre_t.current_func@;
                assert(ctx.func_dir@[k].name@ == ctx.current_func@);
            }
        }
        while ctx.id_stack.len() > 0
            invariant
                ctx.wf(),
                ctx.current_type == var_type,
                var_type != Type::Str,
                ctx.quadruples == old(ctx).quadruples,
                ctx.quad_data == old(ctx).quad_data,
                ctx.const_dir == old(ctx).const_dir,
                ctx.constants == old(ctx).constants,
                ctx.current_func == old(ctx).current_func,
                ctx.current_call == old(ctx).current_call,
                same_names(old(ctx).func_dir@, ctx.func_dir@),
                ctx.spec_has_func(ctx.current_func@),
            decreases ctx.id_stack@.len(),
        {
            let ghost before = *ctx;
            let name = match ctx.id_stack.pop() {
                Some(s) => s,
                None => {
                    proof {
                        assert(false);
                    }
                    String::new()
                },
            };
            proof {
                assert(ctx.spec_has_func(ctx.current_func@)) by {
                    let k = choose|k: int|
                        0 <= k < before.func_dir@.len() && before.func_dir@[k].name@
                            == before.current_func@;
                    assert(ctx.func_dir@[k].name@ == ctx.current_func@);
                }
            }
            if ctx.contains_id(name.as_str()) {
                return Err(
                    CompileError::RedeclaredIdentifier {
                        name,
                        line: type_var.line,
                        col: type_var.col,
                    },
                );
            }
            ctx.declare_var_in_current(name)?;
            proof {
                lemma_names_preserve_has(before, *ctx, before.current_func@);
                assert(same_names(old(ctx).func_dir@, ctx.func_dir@));
            }
        }
        declared_any = true;
        i += 2;
    }
    if !declared_any {
        return Err(CompileError::MalformedTree { line: node.line, col: node.col });
    }
    Ok(())
}

/// Translates a `Parameters` list: each `IdTypeList` declares one value
/// parameter in the current function's scope and appends its type to the
/// declared parameter list, in order.
pub fn translate_parameters(node: &Node, ctx: &mut DustyContext) -> (r: Result<(), CompileError>)
    requires
        old(ctx).wf(),
        old(ctx).spec_has_func(old(ctx).current_func@),
    ensures
        final(ctx).wf(),
        r matches Err(e) ==> decl_error(e),
        r is Ok ==> decl_frame(*old(ctx), *final(ctx)) && final(ctx).id_stack == old(
            ctx,
        ).id_stack,
    decreases *node,
{
    if node.rule != Rule::Parameters || node.children.len() == 0 {
        return Err(CompileError::MalformedTree { line: node.line, col: node.col });
    }
    let n = node.children.len();
    let mut i: usize = 0;
    while i < n
        invariant
            old(ctx).wf(),
            old(ctx).spec_has_func(old(ctx).current_func@),
            i <= n,
            n == node.children@.len(),
            node.rule == Rule::Parameters,
            ctx.wf(),
            ctx.quadruples == old(ctx).quadruples,
            ctx.quad_data == old(ctx).quad_data,
            ctx.const_dir == old(ctx).const_dir,
            ctx.constants == old(ctx).constants,
            ctx.current_func == old(ctx).current_func,
            ctx.current_call == old(ctx).current_call,
            ctx.id_stack == old(ctx).id_stack,
            same_names(old(ctx).func_dir@, ctx.func_dir@),
            ctx.spec_has_func(ctx.current_func@),
        decreases n - i,
    {
        if node.children[i].rule == Rule::Delimiter {
            i += 1;
            continue;
        }
        if node.children[i].rule != Rule::IdTypeList {
            return Err(CompileError::MalformedTree { line: node.line, col: node.col });
        }
        let entry = &node.children[i];
        if entry.children.len() < 2 || entry.children[0].rule != Rule::Id
            || entry.children[1].rule != Rule::TypeVar {
            return Err(CompileError::MalformedTree { line: entry.line, col: entry.col });
        }
        let var_type = if str_eq(entry.children[1].text.as_str(), "int") {
            Type::Int
        } else if str_eq(entry.children[1].text.as_str(), "float") {
            Type::Float
        } else {
            return Err(
                CompileError::MalformedTree {
                    line: entry.children[1].line,
                    col: entry.children[1].col,
                },
            );
        };
        let ghost pre_t = *ctx;
        ctx.current_type = var_type;
        proof {
            assert(ctx.spec_has_func(ctx.current_func@)) by {
                let k = choose|k: int|
                    0 <= k < pre_t.func_dir@.len() && pre_t.func_dir@[k].name@
                        == pre_t.current_func@;
                assert(ctx.func_dir@[k].name@ == ctx.current_func@);
            }
        }
        let name = crate::dusty_context::clone_string(&entry.children[0].text);
        if ctx.contains_id(name.as_str()) {
            return Err(
                CompileError::RedeclaredIdentifier {
                    name,
                    line: entry.children[0].line,
                    col: entry.children[0].col,
                },
            );
        }
        let ghost before = *ctx;
        ctx.declare_var_in_current(name)?;
        proof {
            lemma_names_preserve_has(before, *ctx, before.current_func@);
        }
        let ghost mid = *ctx;
        ctx.add_param_to_current();
        proof {
            lemma_names_preserve_has(mid, *ctx, mid.current_func@);
            assert(same_names(old(ctx).func_dir@, ctx.func_dir@));
        }
        i += 1;
    }
    Ok(())
}

/// Translates one `Funcs` node: a function declaration. The record is
/// created at the name, parameters are declared in its scope, the entry
/// point is recorded when the parameter list closes, and the body is
/// closed by exactly one `endfunc`.
#[verifier::rlimit(100)]
pub fn translate_funcs(node: &Node, ctx: &mut DustyContext) -> (r: Result<(), CompileError>)
    requires
        old(ctx).wf(),
        old(ctx).spec_has_func("global"@),
        old(ctx).quad_data.operator_stack@.len() == 0,
        old(ctx).quad_data.param_counter == 0,
    ensures
        final(ctx).wf(),
        r is Ok ==> ({
            let base = old(ctx).quadruples@.len() as int;
            let q = final(ctx).quadruples@;
            &&& quads_extended(*old(ctx), *final(ctx))
            &&& final(ctx).quad_data.jump_stack@ == old(ctx).quad_data.jump_stack@
            &&& final(ctx).quad_data.operand_stack@.len() >= old(
                ctx,
            ).quad_data.operand_stack@.len()
            &&& final(ctx).quad_data.operand_stack@.subrange(
                0,
                old(ctx).quad_data.operand_stack@.len() as int,
            ) == old(ctx).quad_data.operand_stack@
            &&& final(ctx).quad_data.operator_stack@ == old(ctx).quad_data.operator_stack@
            &&& final(ctx).quad_data.param_counter == 0
            &&& final(ctx).current_func@ == "global"@
            &&& node.children@.len() >= 1
            &&& final(ctx).spec_has_func(node.children@[0].text@)
            &&& final(ctx).spec_has_func("global"@)
            &&& q.len() > base
            &&& q[q.len() - 1].op.memory == 17
            &&& count_op_in(q, base, q.len() as int, 17) == 1
            &&& count_op_in(q, base, q.len() as int, 16) == 0
        }),
    decreases *node,
{
    if node.rule != Rule::Funcs || !(node.children.len() == 5 || node.children.len() == 6) {
        return Err(CompileError::MalformedTree { line: node.line, col: node.col });
    }
    let with_params = node.children.len() == 6;
    if node.children[0].rule != Rule::Id || node.children[1].rule != Rule::OpenP {
        return Err(CompileError::MalformedTree { line: node.line, col: node.col });
    }
    let close_idx = if with_params {
        3
    } else {
        2
    };
    if with_params && node.children[2].rule != Rule::Parameters {
        return Err(CompileError::MalformedTree { line: node.line, col: node.col });
    }
    if node.children[close_idx].rule != Rule::CloseP || node.children[close_idx + 1].rule
        != Rule::FuncBody || node.children[close_idx + 2].rule != Rule::Delimiter {
        return Err(CompileError::MalformedTree { line: node.line, col: node.col });
    }
    if ctx.has_function(node.children[0].text.as_str()) {
        return Err(
            CompileError::RedeclaredIdentifier {
                name: crate::dusty_context::clone_string(&node.children[0].text),
                line: node.children[0].line,
                col: node.children[0].col,
            },
        );
    }
    ctx.declare_function(node.children[0].text.as_str(), 0);
    ctx.current_func = crate::dusty_context::clone_string(&node.children[0].text);
    let ghost s0 = *ctx;
    proof {
        assert(ctx.current_func@ == node.children@[0].text@);
        assert(ctx.spec_has_func(ctx.current_func@)) by {
            let k = ctx.func_dir@.len() - 1;
            assert(ctx.func_dir@[k].name@ == node.children@[0].text@);
        }
        assert(ctx.spec_has_func("global"@)) by {
            let k = choose|k: int|
                0 <= k < old(ctx).func_dir@.len() && old(ctx).func_dir@[k].name@ == "global"@;
            assert(ctx.func_dir@.drop_last() == old(ctx).func_dir@);
            assert(ctx.func_dir@[k] == old(ctx).func_dir@[k]);
            assert(ctx.func_dir@[k].name@ == "global"@);
        }
    }
    if with_params {
        proof {
            assert(decreases_to!(*node => node.children));
            assert(decreases_to!(node.children => node.children@[2]));
        }
        translate_parameters(&node.children[2], ctx)?;
        proof {
            lemma_names_preserve_has(s0, *ctx, s0.current_func@);
            lemma_names_preserve_has(s0, *ctx, "global"@);
        }
    }
    let ghost s1 = *ctx;
    ctx.set_current_func_location();
    proof {
        lemma_names_preserve_has(s1, *ctx, s1.current_func@);
        lemma_names_preserve_has(s1, *ctx, "global"@);
    }
    let body_node = &node.children[close_idx + 1];
    if body_node.children.len() < 1 || body_node.children.len() > 2 {
        return Err(CompileError::MalformedTree { line: body_node.line, col: body_node.col });
    }
    let with_vars = body_node.children.len() == 2;
    if with_vars && body_node.children[0].rule != Rule::Vars {
        return Err(CompileError::MalformedTree { line: body_node.line, col: body_node.col });
    }
    let body_idx = if with_vars {
        1
    } else {
        0
    };
    if body_node.children[body_idx].rule != Rule::Body {
        return Err(CompileError::MalformedTree { line: body_node.line, col: body_node.col });
    }
    if with_vars {
        let ghost s2 = *ctx;
        proof {
            assert(decreases_to!(*node => node.children));
            assert(decreases_to!(node.children => node.children@[close_idx as int + 1]));
            assert(decreases_to!(*body_node => body_node.children));
            assert(decreases_to!(body_node.children => body_node.children@[0]));
        }
        translate_vars(&body_node.children[0], ctx)?;
        proof {
            lemma_names_preserve_has(s2, *ctx, s2.current_func@);
            lemma_names_preserve_has(s2, *ctx, "global"@);
        }
    }
    let ghost s3 = *ctx;
    let ghost base = old(ctx).quadruples@.len() as int;
    proof {
        assert(s3.quadruples == old(ctx).quadruples);
        assert(decreases_to!(*node => node.children));
        assert(decreases_to!(node.children => node.children@[close_idx as int + 1]));
        assert(decreases_to!(*body_node => body_node.children));
        assert(decreases_to!(body_node.children => body_node.children@[body_idx as int]));
    }
    translate_body(&body_node.children[body_idx], ctx)?;
    let ghost s4 = *ctx;
    ctx.generate_endfunc_quad()?;
    ctx.current_func = String::from_str("global");
    proof {
        let l4 = s4.quadruples@.len() as int;
        let lf = ctx.quadruples@.len() as int;
        assert(ctx.quadruples@.subrange(0, l4) =~= s4.quadruples@);
        assert(quads_extended(s3, s4));
        assert(quads_extended(*old(ctx), *ctx)) by {
            assert(forall|k: int|
                0 <= k < base ==> #[trigger] s4.quadruples@[k] == s3.quadruples@[k]) by {
                assert(forall|k: int|
                    0 <= k < base ==> s4.quadruples@.subrange(0, base)[k]
                        == #[trigger] s4.quadruples@[k]);
            }
            assert(forall|k: int| 0 <= k < base ==> #[trigger] ctx.quadruples@[k] == s4.quadruples@[k]);
            assert(ctx.quadruples@.subrange(0, base) =~= old(ctx).quadruples@);
        }
        lemma_count_agree(ctx.quadruples@, s4.quadruples@, base, l4, 17);
        lemma_count_zero(s4.quadruples@, base, l4, 17);
        lemma_count_split(ctx.quadruples@, base, l4, lf, 17);
        lemma_count_agree(ctx.quadruples@, s4.quadruples@, base, l4, 16);
        lemma_count_zero(s4.quadruples@, base, l4, 16);
        lemma_count_split(ctx.quadruples@, base, l4, lf, 16);
        lemma_shape_preserves_func(s3, s4, "global"@);
        lemma_shape_preserves_func(s3, s4, node.children@[0].text@);
        assert(ctx.spec_has_func("global"@)) by {
            let k = choose|k: int|
                0 <= k < s4.func_dir@.len() && s4.func_dir@[k].name@ == "global"@;
            assert(ctx.func_dir@[k].name@ == "global"@);
        }
        assert(ctx.spec_has_func(node.children@[0].text@)) by {
            let k = choose|k: int|
                0 <= k < s4.func_dir@.len() && s4.func_dir@[k].name@ == node.children@[0].text@;
            assert(ctx.func_dir@[k].name@ == node.children@[0].text@);
        }
    }
    Ok(())
}

/// Translates a whole `Program` node into a fresh context: the program
/// name creates the global scope; the first quadruple is a `goto` whose
/// destination is backpatched at the `begin` keyword to the main body's
/// first quadruple; `end` halts the program.
#[verifier::rlimit(100)]
pub fn generate_quadruples(node: &Node, ctx: &mut DustyContext) -> (r: Result<(), CompileError>)
    requires
        old(ctx).wf(),
        old(ctx).func_dir@.len() == 0,
        old(ctx).quadruples@.len() == 0,
        old(ctx).quad_data.operator_stack@.len() == 0,
        old(ctx).quad_data.operand_stack@.len() == 0,
        old(ctx).quad_data.jump_stack@.len() == 0,
        old(ctx).quad_data.param_counter == 0,
    ensures
        final(ctx).wf(),
        r is Ok ==> ({
            &&& final(ctx).quad_data.jump_stack@.len() == 0
            &&& final(ctx).quadruples@.len() >= 2
            &&& final(ctx).quadruples@[0].op.memory == 10
            &&& final(ctx).quadruples@.last().op.memory == 16
            &&& final(ctx).spec_has_func("global"@)
        }),
{
    if node.rule != Rule::Program || node.children.len() < 5 {
        return Err(CompileError::MalformedTree { line: node.line, col: node.col });
    }
    let n = node.children.len();
    if node.children[0].rule != Rule::Id || node.children[1].rule != Rule::Delimiter {
        return Err(CompileError::MalformedTree { line: node.line, col: node.col });
    }
    ctx.declare_function("global", 0);
    ctx.current_func = String::from_str("global");
    proof {
        assert(ctx.current_func@ == "global"@);
        assert(ctx.spec_has_func("global"@)) by {
            let k = ctx.func_dir@.len() - 1;
            assert(ctx.func_dir@[k].name@ == "global"@);
        }
    }
    ctx.generate_goto_quad()?;
    let ghost s1 = *ctx;
    proof {
        assert(s1.quadruples@.len() == 1);
        assert(s1.quad_data.jump_stack@ =~= seq![1usize]);
        assert(s1.quadruples@[0].op.memory == 10);
    }
    let mut i: usize = 2;
    if i < n && node.children[i].rule == Rule::Vars {
        let ghost sv = *ctx;
        proof {
            assert(decreases_to!(*node => node.children));
            assert(decreases_to!(node.children => node.children@[i as int]));
        }
        translate_vars(&node.children[i], ctx)?;
        proof {
            lemma_names_preserve_has(sv, *ctx, "global"@);
        }
        i += 1;
    }
    while i < n && node.children[i].rule == Rule::Funcs
        invariant
            old(ctx).wf(),
            2 <= i <= n,
            n == node.children@.len(),
            node.rule == Rule::Program,
            ctx.wf(),
            ctx.spec_has_func("global"@),
            ctx.current_func@ == "global"@,
            ctx.quad_data.operator_stack@.len() == 0,
            ctx.quad_data.param_counter == 0,
            ctx.quad_data.jump_stack@ =~= seq![1usize],
            ctx.quadruples@.len() >= 1,
            ctx.quadruples@[0].op.memory == 10,
        decreases n - i,
    {
        let ghost sf = *ctx;
        proof {
            assert(decreases_to!(*node => node.children));
            assert(decreases_to!(node.children => node.children@[i as int]));
        }
        translate_funcs(&node.children[i], ctx)?;
        proof {
            assert(ctx.quadruples@.subrange(0, sf.quadruples@.len() as int)[0]
                == ctx.quadruples@[0]);
        }
        i += 1;
    }
    if i >= n || node.children[i].rule != Rule::BeginKeyword {
        return Err(CompileError::MalformedTree { line: node.line, col: node.col });
    }
    ctx.fill_jump();
    proof {
        assert(ctx.quad_data.jump_stack@.len() == 0);
        assert(ctx.quadruples@[0].op.memory == 10);
        assert(ctx.spec_has_func("global"@)) by {
            let k = choose|k: int|
                0 <= k < ctx.func_dir@.len() && ctx.func_dir@[k].name@ == "global"@;
            assert(ctx.func_dir@[k].name@ == "global"@);
        }
    }
    i += 1;
    if i >= n || node.children[i].rule != Rule::Body {
        return Err(CompileError::MalformedTree { line: node.line, col: node.col });
    }
    let ghost sb = *ctx;
    proof {
        assert(decreases_to!(*node => node.children));
        assert(decreases_to!(node.children => node.children@[i as int]));
        assert(ctx.current_func@ == "global"@);
        assert(ctx.spec_has_func(ctx.current_func@));
    }
    translate_body(&node.children[i], ctx)?;
    proof {
        assert(ctx.quadruples@.subrange(0, sb.quadruples@.len() as int)[0] == ctx.quadruples@[0]);
        assert(ctx.quad_data.jump_stack@.len() == 0);
        lemma_shape_preserves_func(sb, *ctx, "global"@);
    }
    i += 1;
    if i >= n || node.children[i].rule != Rule::EndKeyword || i + 1 != n {
        return Err(CompileError::MalformedTree { line: node.line, col: node.col });
    }
    ctx.generate_end_quad()?;
    Ok(())
}

/// Translates a well-formed program from a fresh context. On success the
/// jump stack is empty: every pending jump was backpatched.
pub fn compile(root: &Node) -> (r: Result<DustyContext, CompileError>)
    ensures
        r matches Ok(ctx) ==> {
            &&& ctx.wf()
            &&& ctx.quad_data.jump_stack@.len() == 0
            &&& ctx.quadruples@.len() >= 2
            &&& ctx.quadruples@[0].op.memory == 10
            &&& ctx.quadruples@.last().op.memory == 16
            &&& ctx.spec_has_func("global"@)
        },
{
    let mut ctx = DustyContext::new();
    generate_quadruples(root, &mut ctx)?;
    Ok(ctx)
}

} // verus!
