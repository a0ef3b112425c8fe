//! The laws the lowering guarantees, stated and proved over the
//! specification functions that the executable functions provably equal.

use vstd::prelude::*;

use crate::error::Error;
use crate::ir::StmtV;
use crate::lower::{SlotV, StateV, is_cheap, spec_else_step, spec_end_step, spec_function_body, spec_instrs, spec_locals_init, spec_materialize, spec_wimplify};
use crate::typecheck::{InferredV, spec_check};
use crate::wasm::{FuncTypeV, FunctionV, InstrV, ModuleV};

verus! {

/// Materialization leaves only duplicable slots: every slot of the
/// resulting expression stack refers to a single-assignment stack
/// temporary or holds a constant, and the stack keeps its length. This is
/// the precondition that makes the textual duplication performed by
/// `br_if`, `br_table` and `select` semantics-preserving: re-mentioning
/// such a slot neither re-evaluates side effects nor duplicates work.
pub proof fn lemma_materialize_all_cheap(stack: Seq<SlotV>, count: u32)
    requires
        spec_materialize(stack, count) is Some,
    ensures
        spec_materialize(stack, count).unwrap().0.len() == stack.len(),
        forall|i: int|
            0 <= i < stack.len() ==> is_cheap(
                #[trigger] spec_materialize(stack, count).unwrap().0[i].0,
            ),
    decreases stack.len(),
{
    if stack.len() > 0 {
        lemma_materialize_all_cheap(stack.drop_last(), count);
    }
}

/// At a successfully lowered live `end`, the expression stack holds
/// exactly the closed block's result: one pending value when the frame
/// carries a result variable, none otherwise; after consuming it the
/// stack is empty. Lowering fails on any other stack.
pub proof fn lemma_end_consumes_stack(st: StateV, stack: Seq<SlotV>, pos: int)
    requires
        spec_end_step(st, stack, pos) is Ok,
    ensures
        st.label_stack.len() > 0,
        stack.len() == if st.label_stack.last().result_var is Some {
            1int
        } else {
            0int
        },
        spec_end_step(st, stack, pos).unwrap().stack.len() == 0,
{
}

/// The same discipline at a live `else`: the then-arm's result is
/// consumed and the expression stack is empty afterwards.
pub proof fn lemma_else_consumes_stack(st: StateV, stack: Seq<SlotV>, pos: int)
    requires
        spec_else_step(st, stack, pos) is Ok,
    ensures
        st.label_stack.len() > 0,
        stack.len() == if st.label_stack.last().result_var is Some {
            1int
        } else {
            0int
        },
        spec_else_step(st, stack, pos).unwrap().stack.len() == 0,
{
}

/// No statement is lowered for an instruction the type checker classifies
/// as unreachable, unless it is the `end` or `else` that closes the
/// scope: lowering advances the checker and skips the instruction, so the
/// remaining lowering is exactly that of the tail.
pub proof fn lemma_dead_instruction_is_skipped(
    instrs: Seq<InstrV>,
    mv: ModuleV,
    fty: FuncTypeV,
    st: StateV,
    stack: Seq<SlotV>,
    pos: int,
)
    requires
        0 <= pos < instrs.len(),
        spec_check(st.checker, instrs[pos], mv, pos as usize) matches Ok(c) && c.1 is Unreachable,
        !(instrs[pos] matches InstrV::End),
        !(instrs[pos] matches InstrV::Else),
    ensures
        spec_instrs(instrs, mv, fty, st, stack, pos) == spec_instrs(
            instrs,
            mv,
            fty,
            StateV {
                checker: spec_check(st.checker, instrs[pos], mv, pos as usize).unwrap().0,
                ..st
            },
            stack,
            pos + 1,
        ),
{
}

/// Lowering is deterministic: the lowered module is a function of the
/// input module's mathematical view alone, so two runs on the same
/// module, or on two structurally identical modules, yield structurally
/// identical output. `wimplify` ensures its result equals
/// `spec_wimplify` of its argument's view.
pub proof fn lemma_lowering_deterministic(m1: ModuleV, m2: ModuleV)
    requires
        m1 == m2,
    ensures
        spec_wimplify(m1) == spec_wimplify(m2),
{
}

/// Re-lowering a function whose declared signature and body survived a
/// round trip unchanged, within an unchanged module, yields the identical
/// lowered body.
pub proof fn lemma_relowering_stable(f1: FunctionV, f2: FunctionV, mv: ModuleV)
    requires
        f1 == f2,
    ensures
        spec_function_body(f1, mv) == spec_function_body(f2, mv),
{
}

/// A function body consisting only of the terminating `end`, in a
/// function that returns nothing and has no named locals, lowers to the
/// locals initialization alone; with no declared locals the lowered body
/// is empty. No trailing return is synthesized.
pub proof fn lemma_empty_body(fv: FunctionV, mv: ModuleV)
    requires
        fv.code == Some(seq![InstrV::End]),
        fv.type_.results.len() == 0,
        forall|i: int| 0 <= i < fv.locals.len() ==> (#[trigger] fv.locals[i].name) is None,
    ensures
        spec_function_body(fv, mv) == Ok::<Seq<StmtV>, Error>(spec_locals_init(fv)),
{
    let instrs = seq![InstrV::End];
    assert(instrs[0] == InstrV::End);
    assert(spec_function_body(fv, mv) matches Ok(b) && b =~= spec_locals_init(fv));
}

} // verus!
