//! The per-function lowering: a symbolic interpretation of the input stack
//! machine that reconstructs expression trees, materializes them into named
//! temporaries exactly where evaluation order, side effects or duplication
//! demand it, reifies structured control with explicit data flow for block
//! results, and prunes unreachable tails.
//!
//! Every executable function returns exactly what its `spec_` mirror
//! computes; the top-level result of `wimplify` is therefore a function of
//! the input module's mathematical view alone.

use vstd::prelude::*;

use crate::error::{Error, ErrorKind};
use crate::ir::{Body, Expr, ExprV, FunctionId, FunctionIdV, Label, Stmt, StmtV, Var, WFunction, WFunctionV, WModule, WModuleV, view_expr, view_stmt, view_stmts};
use crate::wasm::{Function, FunctionV, Global, Table};
use crate::typecheck::{CheckerV, InferredType, InferredV, InstrSig, SigV, TypeChecker, spec_begin, spec_check};
use crate::wasm::{BinaryOp, FuncTypeV, FunctionType, Instr, InstrV, BlockType, Memarg, Module, ModuleV, Val, ValType};

verus! {

/// Shorthand for a broken-invariant error at `pos`.
pub open spec fn inv_err(pos: usize) -> Error {
    Error::spec_at(ErrorKind::Invariant, pos)
}

/// Shorthand for an unsupported-feature error at `pos`.
pub open spec fn unsup_at(pos: usize) -> Error {
    Error::spec_at(ErrorKind::Unsupported, pos)
}

/// One frame of the label stack: an enclosing structured block being
/// lowered, whether it is a loop, and the variable that carries its result,
/// if it has one.
#[derive(Clone, Copy, PartialEq, Eq, Debug)]
pub struct Frame {
    pub label: Label,
    pub is_loop: bool,
    pub result_var: Option<Var>,
}

/// The mutable state during the lowering of one function.
#[derive(Debug)]
pub struct State {
    /// The streaming type checker, driven in lockstep with the cursor.
    pub type_checker: TypeChecker,
    /// The next label to assign; label 0 is the function body.
    pub label_count: u32,
    /// The next stack temporary to assign.
    pub stack_var_count: u32,
    /// The enclosing structured blocks, innermost last.
    pub label_stack: Vec<Frame>,
}

/// Mathematical mirror of `State`.
#[verifier::ext_equal]
pub struct StateV {
    pub checker: CheckerV,
    pub label_count: u32,
    pub stack_var_count: u32,
    pub label_stack: Seq<Frame>,
}

impl View for State {
    type V = StateV;

    open spec fn view(&self) -> StateV {
        StateV {
            checker: self.type_checker@,
            label_count: self.label_count,
            stack_var_count: self.stack_var_count,
            label_stack: self.label_stack@,
        }
    }
}

/// The immutable context of one function's lowering.
#[derive(Clone, Copy)]
pub struct Context<'m> {
    pub module: &'m Module,
    pub func_ty: &'m FunctionType,
}

/// A slot of the expression stack: a pending expression tree and its type.
pub type SlotV = (ExprV, ValType);

/// Whether an expression may be referred to twice, or left on the stack
/// while a statement is emitted, without changing semantics: a reference to
/// an (effectively single-assignment) stack temporary, or a constant.
pub open spec fn is_cheap(e: ExprV) -> bool {
    (e matches ExprV::VarRef(Var::Stack(_))) || (e matches ExprV::Const(_))
}

/// Materialization: walk the expression stack in order and, for every slot
/// that is not already a stack-temporary reference or a constant, emit an
/// assignment to a fresh stack temporary and replace the slot with a
/// reference to it. Yields the new stack, the emitted statements in stack
/// order, and the advanced temporary counter; `None` on counter overflow.
pub open spec fn spec_materialize(stack: Seq<SlotV>, count: u32) -> Option<
    (Seq<SlotV>, Seq<StmtV>, u32),
>
    decreases stack.len(),
{
    if stack.len() == 0 {
        Some((stack, Seq::empty(), count))
    } else {
        match spec_materialize(stack.drop_last(), count) {
            None => None,
            Some((pstack, pstmts, pcount)) => {
                let last = stack.last();
                if is_cheap(last.0) {
                    Some((pstack.push(last), pstmts, pcount))
                } else if pcount == u32::MAX {
                    None
                } else {
                    let v = Var::Stack(pcount);
                    Some(
                        (
                            pstack.push((ExprV::VarRef(v), last.1)),
                            pstmts.push(StmtV::Assign { lhs: v, type_: last.1, rhs: last.0 }),
                            (pcount + 1) as u32,
                        ),
                    )
                }
            },
        }
    }
}

/// Allocation of a fresh label and its frame for a structured block: pushes
/// the frame, and for a block with a result pushes a reference to its
/// result variable onto the enclosing expression stack; `None` on label
/// overflow.
pub open spec fn spec_create_block(
    st: StateV,
    stack: Seq<SlotV>,
    bt: BlockType,
    is_loop: bool,
) -> Option<(StateV, Seq<SlotV>, Label)> {
    if st.label_count == u32::MAX {
        None
    } else {
        let label = Label(st.label_count);
        let result_var = match bt.0 {
            Some(_) => Some(Var::BlockResult(label.0)),
            None => None,
        };
        let stack2 = match bt.0 {
            Some(t) => stack.push((ExprV::VarRef(Var::BlockResult(label.0)), t)),
            None => stack,
        };
        let st2 = StateV {
            label_count: (st.label_count + 1) as u32,
            label_stack: st.label_stack.push(Frame { label, is_loop, result_var }),
            ..st
        };
        Some((st2, stack2, label))
    }
}

/// Resolution of a branch depth against the label stack: the target's label
/// and, when the target is a non-loop block with a result, the variable the
/// branch must assign. Branches to loops carry no value: they jump to the
/// loop's entry. `None` when the depth exceeds the label stack.
pub open spec fn spec_resolve(st: StateV, depth: u32) -> Option<(Label, Option<Var>)> {
    if depth >= st.label_stack.len() {
        None
    } else {
        let f = st.label_stack[st.label_stack.len() - 1 - depth];
        if !f.is_loop && f.result_var is Some {
            Some((f.label, f.result_var))
        } else {
            Some((f.label, None))
        }
    }
}

/// The variable that local index `i` denotes: a parameter for indices below
/// the parameter count, a declared local above it.
pub open spec fn spec_local_var(fty: FuncTypeV, i: u32) -> Var {
    if (i as int) < fty.inputs.len() {
        Var::Param(i)
    } else {
        Var::Local((i - fty.inputs.len()) as u32)
    }
}

/// The identifier of function `idx`: its debug name when present, else its
/// first export name, else the bare index.
pub open spec fn spec_function_id(mv: ModuleV, idx: u32) -> FunctionIdV {
    let f = mv.functions[idx as int];
    match f.name {
        Some(n) => FunctionIdV::Name(n),
        None => if f.export.len() > 0 {
            FunctionIdV::Name(f.export[0])
        } else {
            FunctionIdV::Idx(idx)
        },
    }
}

/// Allocate the next stack temporary.
fn create_fresh_stack_var(state: &mut State, pos: usize) -> (r: Result<Var, Error>)
    ensures
        old(state)@.stack_var_count == u32::MAX ==> (r matches Err(e) && e == inv_err(pos)),
        old(state)@.stack_var_count < u32::MAX ==> (r matches Ok(v) && v == Var::Stack(
            old(state)@.stack_var_count,
        ) && final(state)@ == (StateV {
            stack_var_count: (old(state)@.stack_var_count + 1) as u32,
            ..old(state)@
        })),
{
    if state.stack_var_count == u32::MAX {
        return Err(Error::at(ErrorKind::Invariant, pos));
    }
    let v = Var::Stack(state.stack_var_count);
    state.stack_var_count = state.stack_var_count + 1;
    Ok(v)
}

/// Copy a branch-carried expression; only stack-temporary references and
/// constants, which materialization guarantees, can be duplicated without
/// changing semantics.
fn copy_cheap_expr(e: &Expr, pos: usize) -> (r: Result<Expr, Error>)
    ensures
        is_cheap(e.deep_view()) ==> (r matches Ok(c) && c.deep_view() == e.deep_view()),
        !is_cheap(e.deep_view()) ==> (r matches Err(e2) && e2 == inv_err(pos)),
{
    match e {
        Expr::VarRef(v) => {
            if let Var::Stack(_) = v {
                Ok(Expr::VarRef(*v))
            } else {
                Err(Error::at(ErrorKind::Invariant, pos))
            }
        },
        Expr::Const(c) => Ok(Expr::Const(*c)),
        _ => Err(Error::at(ErrorKind::Invariant, pos)),
    }
}

/// Materialize the first `n` slots of the expression stack, in order.
fn materialize_rec(
    state: &mut State,
    expr_stack: &mut Vec<(Expr, ValType)>,
    out: &mut Vec<Stmt>,
    n: usize,
    pos: usize,
) -> (r: Result<(), Error>)
    requires
        n == old(expr_stack)@.len(),
    ensures
        match spec_materialize(old(expr_stack).deep_view(), old(state)@.stack_var_count) {
            None => r matches Err(e) && e == inv_err(pos),
            Some(t) => r matches Ok(u) && final(expr_stack).deep_view() == t.0 && final(out).deep_view() == old(out).deep_view() + t.1
                && final(state)@ == (StateV { stack_var_count: t.2, ..old(state)@ }),
        },
    decreases n,
{
    if n == 0 {
        proof {
            assert(old(expr_stack).deep_view() =~= Seq::<SlotV>::empty());
            assert(out.deep_view() =~= old(out).deep_view() + Seq::<StmtV>::empty());
        }
        return Ok(());
    }
    let (e, ty) = expr_stack.pop().unwrap();
    proof {
        assert(expr_stack.deep_view() =~= old(expr_stack).deep_view().drop_last());
        assert(old(expr_stack).deep_view().last() == (e.deep_view(), ty));
    }
    match materialize_rec(state, expr_stack, out, n - 1, pos) {
        Err(err) => Err(err),
        Ok(_) => {
            let keep = match &e {
                Expr::VarRef(Var::Stack(_)) => true,
                Expr::Const(_) => true,
                _ => false,
            };
            if keep {
                expr_stack.push((e, ty));
                proof {
                    let m = spec_materialize(
                        old(expr_stack).deep_view(),
                        old(state)@.stack_var_count,
                    );
                    assert(is_cheap(e.deep_view()));
                    assert(m is Some);
                    assert(expr_stack.deep_view() =~= m.unwrap().0);
                    assert(out.deep_view() =~= old(out).deep_view() + m.unwrap().1);
                }
                Ok(())
            } else {
                proof {
                    assert(!is_cheap(e.deep_view()));
                }
                match create_fresh_stack_var(state, pos) {
                    Err(err) => Err(err),
                    Ok(v) => {
                        let ghost out_mid = out.deep_view();
                        out.push(Stmt::Assign { lhs: v, type_: ty, rhs: e });
                        expr_stack.push((Expr::VarRef(v), ty));
                        proof {
                            let m = spec_materialize(
                                old(expr_stack).deep_view(),
                                old(state)@.stack_var_count,
                            );
                            assert(m is Some);
                            assert(expr_stack.deep_view() =~= m.unwrap().0);
                            assert(out.deep_view() =~= out_mid.push(
                                StmtV::Assign { lhs: v, type_: ty, rhs: e.deep_view() },
                            ));
                            assert(out.deep_view() =~= old(out).deep_view() + m.unwrap().1);
                        }
                        Ok(())
                    },
                }
            }
        },
    }
}

/// Materialize the whole expression stack.
fn materialize_all(
    state: &mut State,
    expr_stack: &mut Vec<(Expr, ValType)>,
    out: &mut Vec<Stmt>,
    pos: usize,
) -> (r: Result<(), Error>)
    ensures
        match spec_materialize(old(expr_stack).deep_view(), old(state)@.stack_var_count) {
            None => r matches Err(e) && e == inv_err(pos),
            Some(t) => r matches Ok(u) && final(expr_stack).deep_view() == t.0 && final(out).deep_view() == old(out).deep_view() + t.1
                && final(state)@ == (StateV { stack_var_count: t.2, ..old(state)@ }),
        },
{
    let n = expr_stack.len();
    materialize_rec(state, expr_stack, out, n, pos)
}


/// Whether dropping an expression needs no code at all: a variable
/// reference of any family, or a constant.
pub open spec fn is_pure_ref(e: ExprV) -> bool {
    (e matches ExprV::VarRef(_)) || (e matches ExprV::Const(_))
}

/// The outcome of lowering the instructions of one nested block: the
/// statements emitted, the state and enclosing expression stack afterwards,
/// the cursor position after the block's `end` or `else`, and whether the
/// block was closed by `else`.
#[verifier::ext_equal]
pub struct LoweredV {
    pub stmts: Seq<StmtV>,
    pub st: StateV,
    pub stack: Seq<(ExprV, ValType)>,
    pub pos: int,
    pub was_else: bool,
}

/// The address of a memory access with the static offset folded in as an
/// addition; offsets beyond the signed 32-bit range are not supported.
pub open spec fn spec_addr_with_offset(addr: ExprV, m: Memarg, pos: usize) -> Result<ExprV, Error> {
    if m.offset == 0 {
        Ok(addr)
    } else if m.offset > (i32::MAX as u32) {
        Err(unsup_at(pos))
    } else {
        Ok(
            ExprV::Binary(
                BinaryOp::I32Add,
                Box::new(addr),
                Box::new(ExprV::Const(Val::I32(m.offset as i32))),
            ),
        )
    }
}

/// Lowering of a live `end`: pop the frame, consume the block's result into
/// its result variable if it has one, and require the expression stack to
/// be empty afterwards.
pub open spec fn spec_end_step(st: StateV, stack: Seq<SlotV>, pos: int) -> Result<LoweredV, Error> {
    if st.label_stack.len() == 0 {
        Err(inv_err(pos as usize))
    } else {
        let frame = st.label_stack.last();
        let st2 = StateV { label_stack: st.label_stack.drop_last(), ..st };
        match frame.result_var {
            Some(v) => if stack.len() != 1 {
                Err(inv_err(pos as usize))
            } else {
                Ok(
                    LoweredV {
                        stmts: seq![
                            StmtV::Assign { lhs: v, type_: stack.last().1, rhs: stack.last().0 },
                        ],
                        st: st2,
                        stack: Seq::empty(),
                        pos: pos + 1,
                        was_else: false,
                    },
                )
            },
            None => if stack.len() != 0 {
                Err(inv_err(pos as usize))
            } else {
                Ok(LoweredV { stmts: Seq::empty(), st: st2, stack, pos: pos + 1, was_else: false })
            },
        }
    }
}

/// Lowering of a live `else`: consume the then-arm's result into the
/// frame's result variable, keep the frame for the else-arm, and require
/// the expression stack to be empty afterwards.
pub open spec fn spec_else_step(st: StateV, stack: Seq<SlotV>, pos: int) -> Result<LoweredV, Error> {
    if st.label_stack.len() == 0 {
        Err(inv_err(pos as usize))
    } else {
        let frame = st.label_stack.last();
        if frame.is_loop {
            Err(inv_err(pos as usize))
        } else {
            match frame.result_var {
                Some(v) => if stack.len() != 1 {
                    Err(inv_err(pos as usize))
                } else {
                    Ok(
                        LoweredV {
                            stmts: seq![
                                StmtV::Assign {
                                    lhs: v,
                                    type_: stack.last().1,
                                    rhs: stack.last().0,
                                },
                            ],
                            st,
                            stack: Seq::empty(),
                            pos: pos + 1,
                            was_else: true,
                        },
                    )
                },
                None => if stack.len() != 0 {
                    Err(inv_err(pos as usize))
                } else {
                    Ok(LoweredV { stmts: Seq::empty(), st, stack, pos: pos + 1, was_else: true })
                },
            }
        }
    }
}

/// One branch arm of a lowered `br_table`: the branch-carried assignment,
/// when the target takes a value, followed by the branch itself.
pub open spec fn spec_case(st: StateV, stack: Seq<SlotV>, depth: u32, pos: usize) -> Result<
    Seq<StmtV>,
    Error,
> {
    match spec_resolve(st, depth) {
        None => Err(inv_err(pos)),
        Some((lbl, Some(bv))) => if stack.len() == 0 {
            Err(inv_err(pos))
        } else {
            let bval = stack.last();
            if !is_cheap(bval.0) {
                Err(inv_err(pos))
            } else {
                Ok(
                    seq![
                        StmtV::Assign { lhs: bv, type_: bval.1, rhs: bval.0 },
                        StmtV::Br { target: lbl },
                    ],
                )
            }
        },
        Some((lbl, None)) => Ok(seq![StmtV::Br { target: lbl }]),
    }
}

/// All case arms of a lowered `br_table`, in table order.
pub open spec fn spec_cases(st: StateV, stack: Seq<SlotV>, table: Seq<u32>, pos: usize) -> Result<
    Seq<Seq<StmtV>>,
    Error,
>
    decreases table.len(),
{
    if table.len() == 0 {
        Ok(Seq::empty())
    } else {
        match spec_cases(st, stack, table.drop_last(), pos) {
            Err(e) => Err(e),
            Ok(cs) => match spec_case(st, stack, table.last(), pos) {
                Err(e) => Err(e),
                Ok(c) => Ok(cs.push(c)),
            },
        }
    }
}

/// The unconditional control-flow family: `unreachable`, `nop`, `return`
/// and `br`.
pub open spec fn is_flow_instr(iv: InstrV) -> bool {
    (iv matches InstrV::Unreachable) || (iv matches InstrV::Nop) || (iv matches InstrV::Return)
        || (iv matches InstrV::Br(_))
}

/// The call-like family: `call`, `call_indirect`, `drop` and `select`.
pub open spec fn is_callish_instr(iv: InstrV) -> bool {
    (iv matches InstrV::Call(_)) || (iv matches InstrV::CallIndirect(_, _)) || (iv
        matches InstrV::Drop) || (iv matches InstrV::Select)
}

/// The variable-access family: local and global reads and writes.
pub open spec fn is_varaccess_instr(iv: InstrV) -> bool {
    (iv matches InstrV::LocalGet(_)) || (iv matches InstrV::LocalSet(_)) || (iv
        matches InstrV::LocalTee(_)) || (iv matches InstrV::GlobalGet(_)) || (iv
        matches InstrV::GlobalSet(_))
}

/// The operator family: memory accesses, constants, unary and binary
/// operators.
pub open spec fn is_oplike_instr(iv: InstrV) -> bool {
    (iv matches InstrV::Load(_, _)) || (iv matches InstrV::Store(_, _)) || (iv
        matches InstrV::MemorySize(_)) || (iv matches InstrV::MemoryGrow(_)) || (iv
        matches InstrV::Const(_)) || (iv matches InstrV::Unary(_)) || (iv
        matches InstrV::Binary(_))
}

/// Lowering of one control-flow instruction: the statements emitted, the
/// state and the expression stack afterwards.
#[verifier::opaque]
pub open spec fn spec_step_flow(iv: InstrV, st: StateV, stack: Seq<SlotV>, pos: usize) -> Result<
    (Seq<StmtV>, StateV, Seq<SlotV>),
    Error,
> {
    match iv {
        InstrV::Unreachable => match spec_materialize(stack, st.stack_var_count) {
            None => Err(inv_err(pos)),
            Some(t) => Ok(
                (
                    t.1.push(StmtV::Unreachable),
                    StateV { stack_var_count: t.2, ..st },
                    t.0,
                ),
            ),
        },
        InstrV::Nop => Ok((Seq::empty(), st, stack)),
        InstrV::Return => {
            if st.label_stack.len() == 0 {
                Err(inv_err(pos))
            } else {
                let f0 = st.label_stack[0];
                if f0.label != (Label(0)) || f0.is_loop {
                    Err(inv_err(pos))
                } else {
                    match f0.result_var {
                        Some(rv) => if stack.len() == 0 {
                            Err(inv_err(pos))
                        } else {
                            let val = stack.last();
                            match spec_materialize(stack.drop_last(), st.stack_var_count) {
                                None => Err(inv_err(pos)),
                                Some(t) => Ok(
                                    (
                                        t.1 + seq![
                                            StmtV::Assign { lhs: rv, type_: val.1, rhs: val.0 },
                                            StmtV::Br { target: f0.label },
                                        ],
                                        StateV { stack_var_count: t.2, ..st },
                                        t.0,
                                    ),
                                ),
                            }
                        },
                        None => match spec_materialize(stack, st.stack_var_count) {
                            None => Err(inv_err(pos)),
                            Some(t) => Ok(
                                (
                                    t.1.push(StmtV::Br { target: f0.label }),
                                    StateV { stack_var_count: t.2, ..st },
                                    t.0,
                                ),
                            ),
                        },
                    }
                }
            }
        },
        InstrV::Br(depth) => match spec_resolve(st, depth) {
            None => Err(inv_err(pos)),
            Some((lbl, Some(bv))) => if stack.len() == 0 {
                Err(inv_err(pos))
            } else {
                let val = stack.last();
                match spec_materialize(stack.drop_last(), st.stack_var_count) {
                    None => Err(inv_err(pos)),
                    Some(t) => Ok(
                        (
                            t.1 + seq![
                                StmtV::Assign { lhs: bv, type_: val.1, rhs: val.0 },
                                StmtV::Br { target: lbl },
                            ],
                            StateV { stack_var_count: t.2, ..st },
                            t.0,
                        ),
                    ),
                }
            },
            Some((lbl, None)) => match spec_materialize(stack, st.stack_var_count) {
                None => Err(inv_err(pos)),
                Some(t) => Ok(
                    (
                        t.1.push(StmtV::Br { target: lbl }),
                        StateV { stack_var_count: t.2, ..st },
                        t.0,
                    ),
                ),
            },
        },
        InstrV::BrIf(depth) => {
            if stack.len() == 0 {
                Err(inv_err(pos))
            } else {
                let cond = stack.last();
                if cond.1 != ValType::I32 {
                    Err(inv_err(pos))
                } else {
                    match spec_resolve(st, depth) {
                        None => Err(inv_err(pos)),
                        Some((lbl, bvopt)) => match spec_materialize(
                            stack.drop_last(),
                            st.stack_var_count,
                        ) {
                            None => Err(inv_err(pos)),
                            Some(t) => {
                                let st2 = StateV { stack_var_count: t.2, ..st };
                                match bvopt {
                                    Some(bv) => if t.0.len() == 0 {
                                        Err(inv_err(pos))
                                    } else {
                                        let bval = t.0.last();
                                        if !is_cheap(bval.0) {
                                            Err(inv_err(pos))
                                        } else {
                                            let if_body = seq![
                                                StmtV::Assign {
                                                    lhs: bv,
                                                    type_: bval.1,
                                                    rhs: bval.0,
                                                },
                                                StmtV::Br { target: lbl },
                                            ];
                                            Ok(
                                                (
                                                    t.1.push(
                                                        StmtV::If {
                                                            condition: cond.0,
                                                            if_body,
                                                            else_body: None,
                                                        },
                                                    ),
                                                    st2,
                                                    t.0,
                                                ),
                                            )
                                        }
                                    },
                                    None => Ok(
                                        (
                                            t.1.push(
                                                StmtV::If {
                                                    condition: cond.0,
                                                    if_body: seq![StmtV::Br { target: lbl }],
                                                    else_body: None,
                                                },
                                            ),
                                            st2,
                                            t.0,
                                        ),
                                    ),
                                }
                            },
                        },
                    }
                }
            }
        },
        InstrV::BrTable { table, default } => {
            if stack.len() == 0 {
                Err(inv_err(pos))
            } else {
                let idx = stack.last();
                if idx.1 != ValType::I32 {
                    Err(inv_err(pos))
                } else {
                    match spec_materialize(stack.drop_last(), st.stack_var_count) {
                        None => Err(inv_err(pos)),
                        Some(t) => {
                            let st2 = StateV { stack_var_count: t.2, ..st };
                            match spec_cases(st2, t.0, table, pos) {
                                Err(e) => Err(e),
                                Ok(cases) => match spec_case(st2, t.0, default, pos) {
                                    Err(e) => Err(e),
                                    Ok(dflt) => Ok(
                                        (
                                            t.1.push(
                                                StmtV::Switch {
                                                    index: idx.0,
                                                    cases,
                                                    default: dflt,
                                                },
                                            ),
                                            st2,
                                            t.0,
                                        ),
                                    ),
                                },
                            }
                        },
                    }
                }
            }
        },
        _ => Err(inv_err(pos)),
    }
}

/// Lowering of one call-like instruction.
#[verifier::opaque]
pub open spec fn spec_step_call(
    iv: InstrV,
    sig: SigV,
    st: StateV,
    stack: Seq<SlotV>,
    mv: ModuleV,
    pos: usize,
) -> Result<(Seq<StmtV>, StateV, Seq<SlotV>), Error> {
    match iv {
        InstrV::Call(fidx) => {
            if fidx >= mv.functions.len() {
                Err(inv_err(pos))
            } else {
                let nargs = mv.functions[fidx as int].type_.inputs.len() as int;
                if stack.len() < nargs {
                    Err(inv_err(pos))
                } else {
                    let args = stack.subrange(stack.len() - nargs, stack.len() as int).map_values(
                        (|s: SlotV| s.0),
                    );
                    let front = stack.subrange(0, stack.len() - nargs);
                    let call = ExprV::Call { func: spec_function_id(mv, fidx), args };
                    match sig.result {
                        Some(t) => Ok((Seq::empty(), st, front.push((call, t)))),
                        None => match spec_materialize(front, st.stack_var_count) {
                            None => Err(inv_err(pos)),
                            Some(t2) => Ok(
                                (
                                    t2.1.push(StmtV::Expr(call)),
                                    StateV { stack_var_count: t2.2, ..st },
                                    t2.0,
                                ),
                            ),
                        },
                    }
                }
            }
        },
        InstrV::CallIndirect(fty, tidx) => {
            if tidx != 0 {
                Err(unsup_at(pos))
            } else if stack.len() == 0 {
                Err(inv_err(pos))
            } else {
                let ti = stack.last();
                if ti.1 != ValType::I32 {
                    Err(inv_err(pos))
                } else {
                    let rest = stack.drop_last();
                    let nargs = fty.inputs.len() as int;
                    if rest.len() < nargs {
                        Err(inv_err(pos))
                    } else {
                        let args = rest.subrange(rest.len() - nargs, rest.len() as int).map_values(
                            (|s: SlotV| s.0),
                        );
                        let front = rest.subrange(0, rest.len() - nargs);
                        let call = ExprV::CallIndirect {
                            type_: fty,
                            table_idx: Box::new(ti.0),
                            args,
                        };
                        match sig.result {
                            Some(t) => Ok((Seq::empty(), st, front.push((call, t)))),
                            None => match spec_materialize(front, st.stack_var_count) {
                                None => Err(inv_err(pos)),
                                Some(t2) => Ok(
                                    (
                                        t2.1.push(StmtV::Expr(call)),
                                        StateV { stack_var_count: t2.2, ..st },
                                        t2.0,
                                    ),
                                ),
                            },
                        }
                    }
                }
            }
        },
        InstrV::Drop => {
            if stack.len() == 0 {
                Err(inv_err(pos))
            } else {
                let e = stack.last();
                if is_pure_ref(e.0) {
                    Ok((Seq::empty(), st, stack.drop_last()))
                } else {
                    match spec_materialize(stack.drop_last(), st.stack_var_count) {
                        None => Err(inv_err(pos)),
                        Some(t) => Ok(
                            (
                                t.1.push(StmtV::Expr(e.0)),
                                StateV { stack_var_count: t.2, ..st },
                                t.0,
                            ),
                        ),
                    }
                }
            }
        },
        InstrV::Select => {
            if stack.len() == 0 {
                Err(inv_err(pos))
            } else {
                let cond = stack.last();
                if cond.1 != ValType::I32 {
                    Err(inv_err(pos))
                } else {
                    match sig.result {
                        None => Err(inv_err(pos)),
                        Some(t) => match spec_materialize(stack.drop_last(), st.stack_var_count) {
                            None => Err(inv_err(pos)),
                            Some(m) => if m.0.len() < 2 {
                                Err(inv_err(pos))
                            } else if m.2 == u32::MAX {
                                Err(inv_err(pos))
                            } else {
                                let else_v = m.0.last();
                                let if_v = m.0.drop_last().last();
                                let rv = Var::Stack(m.2);
                                let st2 = StateV { stack_var_count: (m.2 + 1) as u32, ..st };
                                let stmt = StmtV::If {
                                    condition: cond.0,
                                    if_body: seq![
                                        StmtV::Assign { lhs: rv, type_: t, rhs: if_v.0 },
                                    ],
                                    else_body: Some(
                                        seq![StmtV::Assign { lhs: rv, type_: t, rhs: else_v.0 }],
                                    ),
                                };
                                Ok(
                                    (
                                        m.1.push(stmt),
                                        st2,
                                        m.0.drop_last().drop_last().push((ExprV::VarRef(rv), t)),
                                    ),
                                )
                            },
                        },
                    }
                }
            }
        },
        _ => Err(inv_err(pos)),
    }
}

/// Lowering of one local or global access.
#[verifier::opaque]
pub open spec fn spec_step_var(
    iv: InstrV,
    sig: SigV,
    fty: FuncTypeV,
    st: StateV,
    stack: Seq<SlotV>,
    pos: usize,
) -> Result<(Seq<StmtV>, StateV, Seq<SlotV>), Error> {
    match iv {
        InstrV::LocalGet(i) => match sig.result {
            None => Err(inv_err(pos)),
            Some(t) => Ok(
                (
                    Seq::empty(),
                    st,
                    stack.push((ExprV::VarRef(spec_local_var(fty, i)), t)),
                ),
            ),
        },
        InstrV::LocalSet(i) => {
            if stack.len() == 0 {
                Err(inv_err(pos))
            } else {
                let val = stack.last();
                if sig.inputs.len() != 1 || val.1 != sig.inputs[0] {
                    Err(inv_err(pos))
                } else {
                    match spec_materialize(stack.drop_last(), st.stack_var_count) {
                        None => Err(inv_err(pos)),
                        Some(m) => Ok(
                            (
                                m.1.push(
                                    StmtV::Assign {
                                        lhs: spec_local_var(fty, i),
                                        type_: val.1,
                                        rhs: val.0,
                                    },
                                ),
                                StateV { stack_var_count: m.2, ..st },
                                m.0,
                            ),
                        ),
                    }
                }
            }
        },
        InstrV::LocalTee(i) => {
            if stack.len() == 0 {
                Err(inv_err(pos))
            } else {
                let val = stack.last();
                if sig.inputs.len() != 1 || val.1 != sig.inputs[0] {
                    Err(inv_err(pos))
                } else {
                    match spec_materialize(stack.drop_last(), st.stack_var_count) {
                        None => Err(inv_err(pos)),
                        Some(m) => {
                            let var = spec_local_var(fty, i);
                            Ok(
                                (
                                    m.1.push(StmtV::Assign { lhs: var, type_: val.1, rhs: val.0 }),
                                    StateV { stack_var_count: m.2, ..st },
                                    m.0.push((ExprV::VarRef(var), val.1)),
                                ),
                            )
                        },
                    }
                }
            }
        },
        InstrV::GlobalGet(i) => match sig.result {
            None => Err(inv_err(pos)),
            Some(t) => Ok(
                (Seq::empty(), st, stack.push((ExprV::VarRef(Var::Global(i)), t))),
            ),
        },
        InstrV::GlobalSet(i) => {
            if stack.len() == 0 {
                Err(inv_err(pos))
            } else {
                let val = stack.last();
                if sig.inputs.len() != 1 || val.1 != sig.inputs[0] {
                    Err(inv_err(pos))
                } else {
                    match spec_materialize(stack.drop_last(), st.stack_var_count) {
                        None => Err(inv_err(pos)),
                        Some(m) => Ok(
                            (
                                m.1.push(
                                    StmtV::Assign {
                                        lhs: Var::Global(i),
                                        type_: val.1,
                                        rhs: val.0,
                                    },
                                ),
                                StateV { stack_var_count: m.2, ..st },
                                m.0,
                            ),
                        ),
                    }
                }
            }
        },
        _ => Err(inv_err(pos)),
    }
}

/// Lowering of one memory access, constant or operator.
#[verifier::opaque]
pub open spec fn spec_step_op(
    iv: InstrV,
    sig: SigV,
    st: StateV,
    stack: Seq<SlotV>,
    pos: usize,
) -> Result<(Seq<StmtV>, StateV, Seq<SlotV>), Error> {
    match iv {
        InstrV::Load(op, memarg) => {
            if stack.len() == 0 {
                Err(inv_err(pos))
            } else {
                let addr = stack.last();
                if addr.1 != ValType::I32 {
                    Err(inv_err(pos))
                } else {
                    match sig.result {
                        None => Err(inv_err(pos)),
                        Some(t) => match spec_addr_with_offset(addr.0, memarg, pos) {
                            Err(e) => Err(e),
                            Ok(a2) => Ok(
                                (
                                    Seq::empty(),
                                    st,
                                    stack.drop_last().push(
                                        (ExprV::Load { op, addr: Box::new(a2) }, t),
                                    ),
                                ),
                            ),
                        },
                    }
                }
            }
        },
        InstrV::Store(op, memarg) => {
            if stack.len() == 0 {
                Err(inv_err(pos))
            } else {
                let val = stack.last();
                if sig.inputs.len() != 2 || val.1 != sig.inputs[1] {
                    Err(inv_err(pos))
                } else {
                    let rest = stack.drop_last();
                    if rest.len() == 0 {
                        Err(inv_err(pos))
                    } else {
                        let addr = rest.last();
                        if addr.1 != ValType::I32 {
                            Err(inv_err(pos))
                        } else {
                            match spec_addr_with_offset(addr.0, memarg, pos) {
                                Err(e) => Err(e),
                                Ok(a2) => match spec_materialize(
                                    rest.drop_last(),
                                    st.stack_var_count,
                                ) {
                                    None => Err(inv_err(pos)),
                                    Some(m) => Ok(
                                        (
                                            m.1.push(StmtV::Store { op, addr: a2, value: val.0 }),
                                            StateV { stack_var_count: m.2, ..st },
                                            m.0,
                                        ),
                                    ),
                                },
                            }
                        }
                    }
                }
            }
        },
        InstrV::MemorySize(_) => match sig.result {
            None => Err(inv_err(pos)),
            Some(t) => Ok((Seq::empty(), st, stack.push((ExprV::MemorySize, t)))),
        },
        InstrV::MemoryGrow(_) => {
            if stack.len() == 0 {
                Err(inv_err(pos))
            } else {
                let pages = stack.last();
                if pages.1 != ValType::I32 {
                    Err(inv_err(pos))
                } else {
                    match sig.result {
                        None => Err(inv_err(pos)),
                        Some(t) => Ok(
                            (
                                Seq::empty(),
                                st,
                                stack.drop_last().push(
                                    (ExprV::MemoryGrow { pages: Box::new(pages.0) }, t),
                                ),
                            ),
                        ),
                    }
                }
            }
        },
        InstrV::Const(v) => match sig.result {
            None => Err(inv_err(pos)),
            Some(t) => Ok((Seq::empty(), st, stack.push((ExprV::Const(v), t)))),
        },
        InstrV::Unary(op) => {
            if stack.len() == 0 {
                Err(inv_err(pos))
            } else {
                let arg = stack.last();
                if sig.inputs.len() != 1 || arg.1 != sig.inputs[0] {
                    Err(inv_err(pos))
                } else {
                    match sig.result {
                        None => Err(inv_err(pos)),
                        Some(t) => Ok(
                            (
                                Seq::empty(),
                                st,
                                stack.drop_last().push(
                                    (ExprV::Unary(op, Box::new(arg.0)), t),
                                ),
                            ),
                        ),
                    }
                }
            }
        },
        InstrV::Binary(op) => {
            if stack.len() == 0 {
                Err(inv_err(pos))
            } else {
                let right = stack.last();
                if sig.inputs.len() != 2 || right.1 != sig.inputs[1] {
                    Err(inv_err(pos))
                } else {
                    let rest = stack.drop_last();
                    if rest.len() == 0 {
                        Err(inv_err(pos))
                    } else {
                        let left = rest.last();
                        if left.1 != sig.inputs[0] {
                            Err(inv_err(pos))
                        } else {
                            match sig.result {
                                None => Err(inv_err(pos)),
                                Some(t) => Ok(
                                    (
                                        Seq::empty(),
                                        st,
                                        rest.drop_last().push(
                                            (
                                                ExprV::Binary(
                                                    op,
                                                    Box::new(left.0),
                                                    Box::new(right.0),
                                                ),
                                                t,
                                            ),
                                        ),
                                    ),
                                ),
                            }
                        }
                    }
                }
            }
        },
        _ => Err(inv_err(pos)),
    }
}

/// Lowering of one non-structural instruction, dispatched by family.
pub open spec fn spec_simple_step(
    iv: InstrV,
    sig: SigV,
    st: StateV,
    stack: Seq<SlotV>,
    mv: ModuleV,
    fty: FuncTypeV,
    pos: usize,
) -> Result<(Seq<StmtV>, StateV, Seq<SlotV>), Error> {
    if is_flow_instr(iv) || is_condbr_instr(iv) {
        spec_step_flow(iv, st, stack, pos)
    } else if is_callish_instr(iv) {
        spec_step_call(iv, sig, st, stack, mv, pos)
    } else if is_varaccess_instr(iv) {
        spec_step_var(iv, sig, fty, st, stack, pos)
    } else {
        spec_step_op(iv, sig, st, stack, pos)
    }
}

/// Lowering of the instruction stream from `pos` to the `end` or `else`
/// that closes the current nested block: the recursive driver.
///
/// Every instruction is first classified by the type checker. Instructions
/// in a dead tail are skipped; a dead `end` pops the label stack and
/// closes the block. Structured instructions recurse: `block` and `loop`
/// wrap the recursively lowered body, `if` additionally lowers an else-arm
/// when the then-arm was closed by `else`, and the wrapped statement gets a
/// fresh label so branches can target it. All other instructions are
/// lowered by `spec_simple_step` and lowering continues behind them.
pub open spec fn spec_instrs(
    instrs: Seq<InstrV>,
    mv: ModuleV,
    fty: FuncTypeV,
    st: StateV,
    stack: Seq<SlotV>,
    pos: int,
) -> Result<LoweredV, Error>
    decreases instrs.len() - pos,
{
    if pos < 0 || pos >= instrs.len() {
        Ok(LoweredV { stmts: Seq::empty(), st, stack, pos, was_else: false })
    } else {
        let iv = instrs[pos];
        match spec_check(st.checker, iv, mv, pos as usize) {
            Err(e) => Err(e),
            Ok((ck2, InferredV::Unreachable)) => {
                let st2 = StateV { checker: ck2, ..st };
                match iv {
                    InstrV::End => if st2.label_stack.len() == 0 {
                        Err(inv_err(pos as usize))
                    } else {
                        Ok(
                            LoweredV {
                                stmts: Seq::empty(),
                                st: StateV { label_stack: st2.label_stack.drop_last(), ..st2 },
                                stack,
                                pos: pos + 1,
                                was_else: false,
                            },
                        )
                    },
                    InstrV::Else => Ok(
                        LoweredV {
                            stmts: Seq::empty(),
                            st: st2,
                            stack,
                            pos: pos + 1,
                            was_else: true,
                        },
                    ),
                    _ => spec_instrs(instrs, mv, fty, st2, stack, pos + 1),
                }
            },
            Ok((ck2, InferredV::Reachable(sig))) => {
                let st2 = StateV { checker: ck2, ..st };
                match iv {
                    InstrV::End => spec_end_step(st2, stack, pos),
                    InstrV::Else => spec_else_step(st2, stack, pos),
                    InstrV::Block(bt) => spec_block_like(instrs, mv, fty, st2, stack, pos, bt, false),
                    InstrV::Loop(bt) => spec_block_like(instrs, mv, fty, st2, stack, pos, bt, true),
                    InstrV::If(bt) => spec_if_like(instrs, mv, fty, st2, stack, pos, bt),
                    _ => match spec_simple_step(iv, sig, st2, stack, mv, fty, pos as usize) {
                        Err(e) => Err(e),
                        Ok(t) => match spec_instrs(instrs, mv, fty, t.1, t.2, pos + 1) {
                            Err(e) => Err(e),
                            Ok(rest) => Ok(LoweredV { stmts: t.0 + rest.stmts, ..rest }),
                        },
                    },
                }
            },
        }
    }
}

/// Lowering of an `if`: pop the condition, materialize, open a fresh
/// labeled frame, lower the then-arm and, when it was closed by `else`,
/// the else-arm; wrap the conditional in a labeled block and continue
/// behind it.
pub open spec fn spec_if_like(
    instrs: Seq<InstrV>,
    mv: ModuleV,
    fty: FuncTypeV,
    st2: StateV,
    stack: Seq<SlotV>,
    pos: int,
    bt: BlockType,
) -> Result<LoweredV, Error>
    decreases instrs.len() - pos, 1int,
    when 0 <= pos < instrs.len()
{
    {
        if stack.len() == 0 {
            Err(inv_err(pos as usize))
        } else {
            let cond = stack.last();
            if cond.1 != ValType::I32 {
                Err(inv_err(pos as usize))
            } else {
                match spec_materialize(stack.drop_last(), st2.stack_var_count) {
                    None => Err(inv_err(pos as usize)),
                    Some(m) => {
                        let st3 = StateV { stack_var_count: m.2, ..st2 };
                        match spec_create_block(st3, m.0, bt, false) {
                            None => Err(inv_err(pos as usize)),
                            Some((st4, stack2, label)) => match spec_instrs(
                                instrs,
                                mv,
                                fty,
                                st4,
                                Seq::empty(),
                                pos + 1,
                            ) {
                                Err(e) => Err(e),
                                Ok(then_out) => {
                                    if !(pos < then_out.pos
                                        <= instrs.len()) {
                                        Err(inv_err(pos as usize))
                                    } else if then_out.was_else {
                                        match spec_instrs(
                                            instrs,
                                            mv,
                                            fty,
                                            then_out.st,
                                            Seq::empty(),
                                            then_out.pos,
                                        ) {
                                            Err(e) => Err(e),
                                            Ok(else_out) => {
                                                if else_out.was_else {
                                                    Err(inv_err(pos as usize))
                                                } else if !(pos < else_out.pos
                                                    <= instrs.len()) {
                                                    Err(inv_err(pos as usize))
                                                } else {
                                                    let if_stmt = StmtV::If {
                                                        condition: cond.0,
                                                        if_body: then_out.stmts,
                                                        else_body: Some(
                                                            else_out.stmts,
                                                        ),
                                                    };
                                                    let blk = StmtV::Block {
                                                        body: seq![if_stmt],
                                                        end_label: label,
                                                    };
                                                    match spec_instrs(
                                                        instrs,
                                                        mv,
                                                        fty,
                                                        else_out.st,
                                                        stack2,
                                                        else_out.pos,
                                                    ) {
                                                        Err(e) => Err(e),
                                                        Ok(rest) => Ok(
                                                            LoweredV {
                                                                stmts: m.1 + seq![
                                                                    blk,
                                                                ] + rest.stmts,
                                                                ..rest
                                                            },
                                                        ),
                                                    }
                                                }
                                            },
                                        }
                                    } else {
                                        let if_stmt = StmtV::If {
                                            condition: cond.0,
                                            if_body: then_out.stmts,
                                            else_body: None,
                                        };
                                        let blk = StmtV::Block {
                                            body: seq![if_stmt],
                                            end_label: label,
                                        };
                                        match spec_instrs(
                                            instrs,
                                            mv,
                                            fty,
                                            then_out.st,
                                            stack2,
                                            then_out.pos,
                                        ) {
                                            Err(e) => Err(e),
                                            Ok(rest) => Ok(
                                                LoweredV {
                                                    stmts: m.1 + seq![blk]
                                                        + rest.stmts,
                                                    ..rest
                                                },
                                            ),
                                        }
                                    }
                                },
                            },
                        }
                    },
                }
            }
        }
    }
}

/// Lowering of a `block` or `loop`: materialize, open a fresh labeled
/// frame, recursively lower the body to its `end`, wrap it, and continue
/// behind it.
pub open spec fn spec_block_like(
    instrs: Seq<InstrV>,
    mv: ModuleV,
    fty: FuncTypeV,
    st2: StateV,
    stack: Seq<SlotV>,
    pos: int,
    bt: BlockType,
    is_loop: bool,
) -> Result<LoweredV, Error>
    decreases instrs.len() - pos, 1int,
    when 0 <= pos < instrs.len()
{
    match spec_materialize(stack, st2.stack_var_count) {
        None => Err(inv_err(pos as usize)),
        Some(m) => {
            let st3 = StateV { stack_var_count: m.2, ..st2 };
            match spec_create_block(st3, m.0, bt, is_loop) {
                None => Err(inv_err(pos as usize)),
                Some((st4, stack2, label)) => match spec_instrs(
                    instrs,
                    mv,
                    fty,
                    st4,
                    Seq::empty(),
                    pos + 1,
                ) {
                    Err(e) => Err(e),
                    Ok(inner) => {
                        if inner.was_else {
                            Err(inv_err(pos as usize))
                        } else if !(pos < inner.pos <= instrs.len()) {
                            Err(inv_err(pos as usize))
                        } else {
                            let blk = if is_loop {
                                StmtV::Loop { begin_label: label, body: inner.stmts }
                            } else {
                                StmtV::Block { body: inner.stmts, end_label: label }
                            };
                            match spec_instrs(instrs, mv, fty, inner.st, stack2, inner.pos) {
                                Err(e) => Err(e),
                                Ok(rest) => Ok(
                                    LoweredV { stmts: m.1 + seq![blk] + rest.stmts, ..rest },
                                ),
                            }
                        }
                    },
                },
            }
        },
    }
}


/// Resolve a branch depth against the label stack.
fn resolve_label(state: &State, depth: u32) -> (r: Option<(Label, Option<Var>)>)
    ensures
        r == spec_resolve(state@, depth),
{
    let n = state.label_stack.len();
    if depth as usize >= n {
        None
    } else {
        let f = state.label_stack[n - 1 - depth as usize];
        if !f.is_loop && f.result_var.is_some() {
            Some((f.label, f.result_var))
        } else {
            Some((f.label, None))
        }
    }
}

/// Allocate a fresh label, push its frame, and for a block with a result
/// push a reference to the block's result variable onto the enclosing
/// expression stack.
fn create_block_frame(
    state: &mut State,
    expr_stack: &mut Vec<(Expr, ValType)>,
    bt: BlockType,
    is_loop: bool,
    pos: usize,
) -> (r: Result<Label, Error>)
    ensures
        match spec_create_block(old(state)@, old(expr_stack).deep_view(), bt, is_loop) {
            None => r matches Err(e) && e == inv_err(pos),
            Some(t) => r matches Ok(l) && l == t.2 && final(state)@ == t.0
                && final(expr_stack).deep_view() == t.1,
        },
{
    if state.label_count == u32::MAX {
        return Err(Error::at(ErrorKind::Invariant, pos));
    }
    let label = Label(state.label_count);
    state.label_count = state.label_count + 1;
    let result_var = match bt.0 {
        Some(t) => {
            let rv = Var::BlockResult(label.0);
            expr_stack.push((Expr::VarRef(rv), t));
            Some(rv)
        },
        None => None,
    };
    state.label_stack.push(Frame { label, is_loop, result_var });
    proof {
        let t = spec_create_block(old(state)@, old(expr_stack).deep_view(), bt, is_loop).unwrap();
        assert(expr_stack.deep_view() =~= t.1);
        assert(state@ =~= t.0);
    }
    Ok(label)
}

/// The variable that a local index denotes.
fn local_var(fty: &FunctionType, i: u32) -> (r: Var)
    ensures
        r == spec_local_var(fty.deep_view(), i),
{
    let nparams = fty.inputs.len();
    if (i as usize) < nparams {
        Var::Param(i)
    } else {
        Var::Local((i as usize - nparams) as u32)
    }
}

/// The identifier of function `idx` of the module.
fn function_id(m: &Module, idx: u32) -> (r: FunctionId)
    requires
        (idx as int) < m.functions@.len(),
    ensures
        r.deep_view() == spec_function_id(m.deep_view(), idx),
{
    let f = &m.functions[idx as usize];
    match &f.name {
        Some(n) => FunctionId::Name(n.clone()),
        None => {
            if f.export.len() > 0 {
                FunctionId::Name(f.export[0].clone())
            } else {
                FunctionId::Idx(idx)
            }
        },
    }
}

/// An elementwise copy of a function signature.
fn copy_function_type(fty: &FunctionType) -> (r: FunctionType)
    ensures
        r.deep_view() == fty.deep_view(),
{
    let mut inputs: Vec<ValType> = Vec::new();
    let mut i: usize = 0;
    while i < fty.inputs.len()
        invariant
            i <= fty.inputs@.len(),
            inputs@ == fty.inputs@.take(i as int),
        decreases fty.inputs@.len() - i,
    {
        inputs.push(fty.inputs[i]);
        proof {
            assert(inputs@ =~= fty.inputs@.take(i + 1 as int));
        }
        i += 1;
    }
    let mut results: Vec<ValType> = Vec::new();
    let mut j: usize = 0;
    while j < fty.results.len()
        invariant
            j <= fty.results@.len(),
            results@ == fty.results@.take(j as int),
        decreases fty.results@.len() - j,
    {
        results.push(fty.results[j]);
        proof {
            assert(results@ =~= fty.results@.take(j + 1 as int));
        }
        j += 1;
    }
    proof {
        assert(inputs@ =~= fty.inputs@);
        assert(results@ =~= fty.results@);
    }
    let r = FunctionType { inputs, results };
    proof {
        assert(r.deep_view() =~= fty.deep_view());
    }
    r
}

/// Remove the last `n` slots of the expression stack and return their
/// expressions in stack order.
fn pop_args(expr_stack: &mut Vec<(Expr, ValType)>, n: usize) -> (r: Vec<Expr>)
    requires
        n <= old(expr_stack)@.len(),
    ensures
        final(expr_stack).deep_view() == old(expr_stack).deep_view().subrange(
            0,
            old(expr_stack)@.len() - n,
        ),
        r.deep_view() == old(expr_stack).deep_view().subrange(
            old(expr_stack)@.len() - n,
            old(expr_stack)@.len() as int,
        ).map_values((|s: SlotV| s.0)),
    decreases n,
{
    if n == 0 {
        let r: Vec<Expr> = Vec::new();
        proof {
            assert(expr_stack.deep_view() =~= old(expr_stack).deep_view().subrange(
                0,
                old(expr_stack)@.len() as int,
            ));
            assert(r.deep_view() =~= old(expr_stack).deep_view().subrange(
                old(expr_stack)@.len() as int,
                old(expr_stack)@.len() as int,
            ).map_values((|s: SlotV| s.0)));
        }
        r
    } else {
        let ghost od = old(expr_stack).deep_view();
        let ghost l = od.len() as int;
        let (e, t2) = expr_stack.pop().unwrap();
        proof {
            assert(expr_stack.deep_view() =~= od.drop_last());
            assert(od.last() == (e.deep_view(), t2));
        }
        let mut args = pop_args(expr_stack, n - 1);
        proof {
            assert(args.deep_view() == od.drop_last().subrange(l - n, l - 1).map_values(
                (|s: SlotV| s.0),
            ));
            assert(args.deep_view().len() == n - 1);
            assert(args@.len() == n - 1);
        }
        args.push(e);
        proof {
            assert(expr_stack.deep_view() =~= od.subrange(0, l - n));
            let target = od.subrange(l - n, l).map_values((|s: SlotV| s.0));
            assert(args@.len() == n);
            assert(args.deep_view().len() == n);
            assert(target.len() == n);
            assert forall|i: int| 0 <= i < n implies args.deep_view()[i] == target[i] by {
                assert(target[i] == od.subrange(l - n, l)[i].0);
                assert(od.subrange(l - n, l)[i] == od[l - n + i]);
                if i < n - 1 {
                    assert(args.deep_view()[i] == od.drop_last().subrange(
                        l - n,
                        l - 1,
                    ).map_values((|s: SlotV| s.0))[i]);
                    assert(od.drop_last().subrange(l - n, l - 1)[i] == od[l - n + i]);
                } else {
                    assert(args.deep_view()[i] == e.deep_view());
                    assert(od[l - 1] == (e.deep_view(), t2));
                }
            }
            assert(args.deep_view() =~= target);
        }
        args
    }
}

/// Build one case arm of a `br_table`.
fn build_case(
    state: &State,
    expr_stack: &Vec<(Expr, ValType)>,
    depth: u32,
    pos: usize,
) -> (r: Result<Body, Error>)
    ensures
        match spec_case(state@, expr_stack.deep_view(), depth, pos) {
            Ok(c) => r matches Ok(b) && b.deep_view() == c,
            Err(e) => r matches Err(e2) && e2 == e,
        },
{
    match resolve_label(state, depth) {
        None => Err(Error::at(ErrorKind::Invariant, pos)),
        Some((lbl, bvopt)) => {
            match bvopt {
                Some(bv) => {
                    if expr_stack.len() == 0 {
                        return Err(Error::at(ErrorKind::Invariant, pos));
                    }
                    let last = &expr_stack[expr_stack.len() - 1];
                    match copy_cheap_expr(&last.0, pos) {
                        Err(e) => Err(e),
                        Ok(c) => {
                            let b = Body(
                                vec![
                                    Stmt::Assign { lhs: bv, type_: last.1, rhs: c },
                                    Stmt::Br { target: lbl },
                                ],
                            );
                            proof {
                                assert(b.deep_view() =~= spec_case(
                                    state@,
                                    expr_stack.deep_view(),
                                    depth,
                                    pos,
                                )->Ok_0);
                            }
                            Ok(b)
                        },
                    }
                },
                None => {
                    let b = Body(vec![Stmt::Br { target: lbl }]);
                    proof {
                        assert(b.deep_view() =~= spec_case(
                            state@,
                            expr_stack.deep_view(),
                            depth,
                            pos,
                        )->Ok_0);
                    }
                    Ok(b)
                },
            }
        },
    }
}

/// The address expression of a memory access with its offset folded in.
fn addr_with_offset(addr: Expr, memarg: Memarg, pos: usize) -> (r: Result<Expr, Error>)
    ensures
        match spec_addr_with_offset(view_expr(addr), memarg, pos) {
            Ok(a) => r matches Ok(x) && view_expr(x) == a,
            Err(e) => r matches Err(e2) && e2 == e,
        },
{
    if memarg.offset == 0 {
        Ok(addr)
    } else if memarg.offset > (i32::MAX as u32) {
        Err(Error::at(ErrorKind::Unsupported, pos))
    } else {
        let c = Expr::Const(Val::I32(memarg.offset as i32));
        proof {
            assert(view_expr(c) == ExprV::Const(Val::I32(memarg.offset as i32)));
        }
        Ok(Expr::Binary(BinaryOp::I32Add, Box::new(addr), Box::new(c)))
    }
}




/// A failed `spec_cases` always carries the broken-invariant error.
proof fn lemma_cases_err_value(
    st: StateV,
    stack: Seq<(ExprV, ValType)>,
    table: Seq<u32>,
    pos: usize,
)
    requires
        spec_cases(st, stack, table, pos) is Err,
    ensures
        spec_cases(st, stack, table, pos) == Err::<Seq<Seq<StmtV>>, Error>(inv_err(pos)),
    decreases table.len(),
{
    if table.len() > 0 {
        match spec_cases(st, stack, table.drop_last(), pos) {
            Err(_) => {
                lemma_cases_err_value(st, stack, table.drop_last(), pos);
            },
            Ok(_) => {
                assert(spec_case(st, stack, table.last(), pos) is Err);
            },
        }
    }
}

/// If any entry of the table fails to lower, the whole case list fails,
/// with the broken-invariant error.
proof fn lemma_cases_err(
    st: StateV,
    stack: Seq<(ExprV, ValType)>,
    table: Seq<u32>,
    pos: usize,
    j: int,
)
    requires
        0 <= j < table.len(),
        spec_case(st, stack, table[j], pos) is Err,
    ensures
        spec_cases(st, stack, table, pos) == Err::<Seq<Seq<StmtV>>, Error>(inv_err(pos)),
    decreases table.len(),
{
    if j < table.len() - 1 {
        assert(table.drop_last()[j] == table[j]);
        lemma_cases_err(st, stack, table.drop_last(), pos, j);
    } else {
        assert(table.last() == table[j]);
        if spec_cases(st, stack, table.drop_last(), pos) is Err {
            lemma_cases_err_value(st, stack, table.drop_last(), pos);
        }
    }
}

/// Append one statement, tracking the deep view.
fn push_stmt(out: &mut Vec<Stmt>, s: Stmt)
    ensures
        final(out).deep_view() == old(out).deep_view().push(view_stmt(s)),
{
    let ghost sv = view_stmt(s);
    out.push(s);
    proof {
        assert(out.deep_view() =~= old(out).deep_view().push(sv));
    }
}

/// Push one slot onto the expression stack, tracking the deep view.
fn push_slot(stack: &mut Vec<(Expr, ValType)>, e: Expr, t: ValType)
    ensures
        final(stack).deep_view() == old(stack).deep_view().push((view_expr(e), t)),
{
    let ghost ev = view_expr(e);
    stack.push((e, t));
    proof {
        assert(stack.deep_view() =~= old(stack).deep_view().push((ev, t)));
    }
}

/// Lower one control-flow instruction, as `spec_step_flow` prescribes.
#[verifier::rlimit(100)]
#[verifier::spinoff_prover]
fn step_flow(
    out: &mut Vec<Stmt>,
    state: &mut State,
    expr_stack: &mut Vec<(Expr, ValType)>,
    instr: &Instr,
    pos: usize,
) -> (r: Result<(), Error>)
    ensures
        is_flow_instr(instr.deep_view()) ==> (match spec_step_flow(
            instr.deep_view(),
            old(state)@,
            old(expr_stack).deep_view(),
            pos,
        ) {
            Ok(t) => r matches Ok(u) && final(out).deep_view() == old(out).deep_view() + t.0
                && final(state)@ == t.1 && final(expr_stack).deep_view() == t.2,
            Err(e) => r matches Err(e2) && e2 == e,
        }),
{
    proof {
                reveal(spec_step_flow);
        reveal(spec_step_flow);
    }
    let ghost g = spec_step_flow(instr.deep_view(), old(state)@, old(expr_stack).deep_view(), pos);
    match instr {
        Instr::Unreachable => {
            match materialize_all(state, expr_stack, out, pos) {
                Err(e) => return Err(e),
                Ok(_) => {},
            }
            push_stmt(out, Stmt::Unreachable);
            proof {
                reveal(spec_step_flow);
                assert(g is Ok);
                assert(out.deep_view() =~= old(out).deep_view() + g->Ok_0.0);
                assert(expr_stack.deep_view() =~= g->Ok_0.2);
                assert(state@ =~= g->Ok_0.1);
            }
            Ok(())
        },
        Instr::Nop => {
            proof {
                reveal(spec_step_flow);
                assert(out.deep_view() =~= old(out).deep_view() + g->Ok_0.0);
            }
            Ok(())
        },
        Instr::Return => {
            if state.label_stack.len() == 0 {
                return Err(Error::at(ErrorKind::Invariant, pos));
            }
            let f0 = state.label_stack[0];
            if f0.label != Label(0) || f0.is_loop {
                return Err(Error::at(ErrorKind::Invariant, pos));
            }
            match f0.result_var {
                Some(rv) => {
                    if expr_stack.len() == 0 {
                        return Err(Error::at(ErrorKind::Invariant, pos));
                    }
                    let (val, vty) = expr_stack.pop().unwrap();
                    proof {
                        assert(expr_stack.deep_view() =~= old(expr_stack).deep_view().drop_last());
                        assert(old(expr_stack).deep_view().last() == (val.deep_view(), vty));
                    }
                    match materialize_all(state, expr_stack, out, pos) {
                        Err(e) => return Err(e),
                        Ok(_) => {},
                    }
                    push_stmt(out, Stmt::Assign { lhs: rv, type_: vty, rhs: val });
                    push_stmt(out, Stmt::Br { target: f0.label });
                    proof {
                reveal(spec_step_flow);
                        assert(g is Ok);
                        assert(out.deep_view() =~= old(out).deep_view() + g->Ok_0.0);
                        assert(expr_stack.deep_view() =~= g->Ok_0.2);
                        assert(state@ =~= g->Ok_0.1);
                    }
                    Ok(())
                },
                None => {
                    match materialize_all(state, expr_stack, out, pos) {
                        Err(e) => return Err(e),
                        Ok(_) => {},
                    }
                    push_stmt(out, Stmt::Br { target: f0.label });
                    proof {
                reveal(spec_step_flow);
                        assert(g is Ok);
                        assert(out.deep_view() =~= old(out).deep_view() + g->Ok_0.0);
                        assert(expr_stack.deep_view() =~= g->Ok_0.2);
                        assert(state@ =~= g->Ok_0.1);
                    }
                    Ok(())
                },
            }
        },
        Instr::Br(depth) => {
            match resolve_label(state, *depth) {
                None => Err(Error::at(ErrorKind::Invariant, pos)),
                Some((lbl, bvopt)) => {
                    match bvopt {
                        Some(bv) => {
                            if expr_stack.len() == 0 {
                                return Err(Error::at(ErrorKind::Invariant, pos));
                            }
                            let (val, vty) = expr_stack.pop().unwrap();
                            proof {
                                assert(expr_stack.deep_view() =~= old(
                                    expr_stack,
                                ).deep_view().drop_last());
                                assert(old(expr_stack).deep_view().last() == (
                                    val.deep_view(),
                                    vty,
                                ));
                            }
                            match materialize_all(state, expr_stack, out, pos) {
                                Err(e) => return Err(e),
                                Ok(_) => {},
                            }
                            push_stmt(out, Stmt::Assign { lhs: bv, type_: vty, rhs: val });
                            push_stmt(out, Stmt::Br { target: lbl });
                            proof {
                reveal(spec_step_flow);
                                assert(g is Ok);
                                assert(out.deep_view() =~= old(out).deep_view() + g->Ok_0.0);
                            }
                            Ok(())
                        },
                        None => {
                            match materialize_all(state, expr_stack, out, pos) {
                                Err(e) => return Err(e),
                                Ok(_) => {},
                            }
                            push_stmt(out, Stmt::Br { target: lbl });
                            proof {
                reveal(spec_step_flow);
                                assert(g is Ok);
                                assert(out.deep_view() =~= old(out).deep_view() + g->Ok_0.0);
                            }
                            Ok(())
                        },
                    }
                },
            }
        },
        _ => Err(Error::plain(ErrorKind::Invariant)),
    }
}

/// The conditional-branch subfamily of the control-flow instructions.
pub open spec fn is_condbr_instr(iv: InstrV) -> bool {
    (iv matches InstrV::BrIf(_)) || (iv matches InstrV::BrTable { .. })
}

/// Lower one conditional branch, as `spec_step_flow` prescribes.
#[verifier::rlimit(100)]
#[verifier::spinoff_prover]
#[verifier::loop_isolation(false)]
fn step_condbr(
    out: &mut Vec<Stmt>,
    state: &mut State,
    expr_stack: &mut Vec<(Expr, ValType)>,
    instr: &Instr,
    pos: usize,
) -> (r: Result<(), Error>)
    ensures
        is_condbr_instr(instr.deep_view()) ==> (match spec_step_flow(
            instr.deep_view(),
            old(state)@,
            old(expr_stack).deep_view(),
            pos,
        ) {
            Ok(t) => r matches Ok(u) && final(out).deep_view() == old(out).deep_view() + t.0
                && final(state)@ == t.1 && final(expr_stack).deep_view() == t.2,
            Err(e) => r matches Err(e2) && e2 == e,
        }),
{
    proof {
        reveal(spec_step_flow);
    }
    let ghost g = spec_step_flow(instr.deep_view(), old(state)@, old(expr_stack).deep_view(), pos);
    match instr {
        Instr::BrIf(depth) => {
            if expr_stack.len() == 0 {
                return Err(Error::at(ErrorKind::Invariant, pos));
            }
            let (cond, condty) = expr_stack.pop().unwrap();
            proof {
                reveal(spec_step_flow);
                assert(expr_stack.deep_view() =~= old(expr_stack).deep_view().drop_last());
                assert(old(expr_stack).deep_view().last() == (cond.deep_view(), condty));
            }
            if condty != ValType::I32 {
                return Err(Error::at(ErrorKind::Invariant, pos));
            }
            let (lbl, bvopt) = match resolve_label(state, *depth) {
                None => {
                    return Err(Error::at(ErrorKind::Invariant, pos));
                },
                Some(x) => x,
            };
            match materialize_all(state, expr_stack, out, pos) {
                Err(e) => return Err(e),
                Ok(_) => {},
            }
            let mut if_body: Vec<Stmt> = Vec::new();
            proof {
                reveal(spec_step_flow);
                assert(if_body.deep_view() =~= Seq::<StmtV>::empty());
            }
            match bvopt {
                Some(bv) => {
                    if expr_stack.len() == 0 {
                        return Err(Error::at(ErrorKind::Invariant, pos));
                    }
                    let k = expr_stack.len() - 1;
                    let bty = expr_stack[k].1;
                    let c = match copy_cheap_expr(&expr_stack[k].0, pos) {
                        Err(e) => return Err(e),
                        Ok(c) => c,
                    };
                    proof {
                        reveal(spec_step_flow);
                        assert(expr_stack.deep_view().last() == (
                            expr_stack@[k as int].0.deep_view(),
                            bty,
                        ));
                    }
                    let ghost cv = view_expr(c);
                    push_stmt(&mut if_body, Stmt::Assign { lhs: bv, type_: bty, rhs: c });
                    push_stmt(&mut if_body, Stmt::Br { target: lbl });
                    proof {
                        reveal(spec_step_flow);
                        assert(if_body.deep_view() =~= seq![
                            StmtV::Assign { lhs: bv, type_: bty, rhs: cv },
                            StmtV::Br { target: lbl },
                        ]);
                        assert(cv == expr_stack.deep_view().last().0);
                    }
                },
                None => {
                    push_stmt(&mut if_body, Stmt::Br { target: lbl });
                    proof {
                        reveal(spec_step_flow);
                        assert(if_body.deep_view() =~= seq![StmtV::Br { target: lbl }]);
                    }
                },
            }
            proof {
                reveal(spec_step_flow);
                crate::ir::lemma_view_stmts(if_body);
            }
            push_stmt(out, Stmt::If { condition: cond, if_body: Body(if_body), else_body: None });
            proof {
                reveal(spec_step_flow);
                assert(g is Ok);
                assert(out.deep_view() =~~= old(out).deep_view() + g->Ok_0.0);
                assert(expr_stack.deep_view() =~= g->Ok_0.2);
                assert(state@ =~= g->Ok_0.1);
            }
            Ok(())
        },
        Instr::BrTable { table, default } => {
            if expr_stack.len() == 0 {
                return Err(Error::at(ErrorKind::Invariant, pos));
            }
            let (idx_e, ity) = expr_stack.pop().unwrap();
            proof {
                reveal(spec_step_flow);
                assert(expr_stack.deep_view() =~= old(expr_stack).deep_view().drop_last());
                assert(old(expr_stack).deep_view().last() == (idx_e.deep_view(), ity));
            }
            if ity != ValType::I32 {
                return Err(Error::at(ErrorKind::Invariant, pos));
            }
            match materialize_all(state, expr_stack, out, pos) {
                Err(e) => return Err(e),
                Ok(_) => {},
            }
            let mut cases: Vec<Body> = Vec::new();
            let mut j: usize = 0;
            while j < table.len()
                invariant
                    j <= table@.len(),
                    spec_cases(state@, expr_stack.deep_view(), table@.take(j as int), pos)
                        matches Ok(cs) && cs == cases.deep_view(),
                decreases table@.len() - j,
            {
                let c = match build_case(state, expr_stack, table[j], pos) {
                    Err(e) => {
                        proof {
                            reveal(spec_step_flow);
                            assert(spec_case(state@, expr_stack.deep_view(), table@[j as int], pos)
                                == Err::<Seq<StmtV>, Error>(inv_err(pos)));
                            lemma_cases_err(
                                state@,
                                expr_stack.deep_view(),
                                table@,
                                pos,
                                j as int,
                            );
                            assert(g is Err && g->Err_0 == inv_err(pos));
                        }
                        return Err(e);
                    },
                    Ok(c) => c,
                };
                cases.push(c);
                proof {
                reveal(spec_step_flow);
                    assert(table@.take(j + 1).drop_last() =~= table@.take(j as int));
                    assert(table@.take(j + 1).last() == table@[j as int]);
                    assert(cases.deep_view() =~= spec_cases(
                        state@,
                        expr_stack.deep_view(),
                        table@.take(j + 1),
                        pos,
                    )->Ok_0);
                }
                j += 1;
            }
            proof {
                reveal(spec_step_flow);
                assert(table@.take(table@.len() as int) =~= table@);
            }
            let dflt = match build_case(state, expr_stack, *default, pos) {
                Err(e) => return Err(e),
                Ok(b) => b,
            };
            proof {
                reveal(spec_step_flow);
                crate::ir::lemma_view_bodies(cases);
                crate::ir::lemma_view_stmts(dflt.0);
            }
            push_stmt(out, Stmt::Switch { index: idx_e, cases, default: dflt });
            proof {
                reveal(spec_step_flow);
                assert(g is Ok);
                assert(out.deep_view() =~~= old(out).deep_view() + g->Ok_0.0);
                assert(expr_stack.deep_view() =~= g->Ok_0.2);
                assert(state@ =~= g->Ok_0.1);
            }
            Ok(())
        },
        _ => Err(Error::plain(ErrorKind::Invariant)),
    }
}

/// Lower one call-like instruction, as `spec_step_call` prescribes.
#[verifier::rlimit(100)]
#[verifier::spinoff_prover]
fn step_call(
    out: &mut Vec<Stmt>,
    state: &mut State,
    expr_stack: &mut Vec<(Expr, ValType)>,
    context: Context,
    instr: &Instr,
    sig: &InstrSig,
    pos: usize,
) -> (r: Result<(), Error>)
    ensures
        is_callish_instr(instr.deep_view()) ==> (match spec_step_call(
            instr.deep_view(),
            sig@,
            old(state)@,
            old(expr_stack).deep_view(),
            context.module.deep_view(),
            pos,
        ) {
            Ok(t) => r matches Ok(u) && final(out).deep_view() == old(out).deep_view() + t.0
                && final(state)@ == t.1 && final(expr_stack).deep_view() == t.2,
            Err(e) => r matches Err(e2) && e2 == e,
        }),
{
    proof {
                reveal(spec_step_call);
        reveal(spec_step_call);
    }
    let ghost g = spec_step_call(
        instr.deep_view(),
        sig@,
        old(state)@,
        old(expr_stack).deep_view(),
        context.module.deep_view(),
        pos,
    );
    match instr {
        Instr::Call(fidx) => {
            if *fidx as usize >= context.module.functions.len() {
                return Err(Error::at(ErrorKind::Invariant, pos));
            }
            let nargs = context.module.functions[*fidx as usize].type_.inputs.len();
            if expr_stack.len() < nargs {
                return Err(Error::at(ErrorKind::Invariant, pos));
            }
            let args = pop_args(expr_stack, nargs);
            let func = function_id(context.module, *fidx);
            let call = Expr::Call { func, args };
            proof {
                crate::ir::lemma_view_exprs(call->Call_args);
            }
            match sig.result {
                Some(t) => {
                    push_slot(expr_stack, call, t);
                    proof {
                reveal(spec_step_call);
                        assert(g is Ok);
                        assert(expr_stack.deep_view() =~= g->Ok_0.2);
                        assert(out.deep_view() =~= old(out).deep_view() + g->Ok_0.0);
                        assert(state@ =~= g->Ok_0.1);
                    }
                    Ok(())
                },
                None => {
                    match materialize_all(state, expr_stack, out, pos) {
                        Err(e) => return Err(e),
                        Ok(_) => {},
                    }
                    push_stmt(out, Stmt::Expr(call));
                    proof {
                reveal(spec_step_call);
                        assert(g is Ok);
                        assert(out.deep_view() =~= old(out).deep_view() + g->Ok_0.0);
                        assert(expr_stack.deep_view() =~= g->Ok_0.2);
                        assert(state@ =~= g->Ok_0.1);
                    }
                    Ok(())
                },
            }
        },
        Instr::CallIndirect(fty, tidx) => {
            if *tidx != 0 {
                return Err(Error::at(ErrorKind::Unsupported, pos));
            }
            if expr_stack.len() == 0 {
                return Err(Error::at(ErrorKind::Invariant, pos));
            }
            let (ti, tity) = expr_stack.pop().unwrap();
            proof {
                assert(expr_stack.deep_view() =~= old(expr_stack).deep_view().drop_last());
                assert(old(expr_stack).deep_view().last() == (ti.deep_view(), tity));
            }
            if tity != ValType::I32 {
                return Err(Error::at(ErrorKind::Invariant, pos));
            }
            let nargs = fty.inputs.len();
            if expr_stack.len() < nargs {
                return Err(Error::at(ErrorKind::Invariant, pos));
            }
            let args = pop_args(expr_stack, nargs);
            let call = Expr::CallIndirect {
                type_: copy_function_type(fty),
                table_idx: Box::new(ti),
                args,
            };
            proof {
                crate::ir::lemma_view_exprs(call->CallIndirect_args);
            }
            match sig.result {
                Some(t) => {
                    push_slot(expr_stack, call, t);
                    proof {
                reveal(spec_step_call);
                        assert(g is Ok);
                        assert(expr_stack.deep_view() =~= g->Ok_0.2);
                        assert(out.deep_view() =~= old(out).deep_view() + g->Ok_0.0);
                        assert(state@ =~= g->Ok_0.1);
                    }
                    Ok(())
                },
                None => {
                    match materialize_all(state, expr_stack, out, pos) {
                        Err(e) => return Err(e),
                        Ok(_) => {},
                    }
                    push_stmt(out, Stmt::Expr(call));
                    proof {
                reveal(spec_step_call);
                        assert(g is Ok);
                        assert(out.deep_view() =~= old(out).deep_view() + g->Ok_0.0);
                        assert(expr_stack.deep_view() =~= g->Ok_0.2);
                        assert(state@ =~= g->Ok_0.1);
                    }
                    Ok(())
                },
            }
        },
        Instr::Drop => {
            if expr_stack.len() == 0 {
                return Err(Error::at(ErrorKind::Invariant, pos));
            }
            let (e, _ty) = expr_stack.pop().unwrap();
            proof {
                assert(expr_stack.deep_view() =~= old(expr_stack).deep_view().drop_last());
                assert(old(expr_stack).deep_view().last() == (e.deep_view(), _ty));
            }
            let pure_ref = match &e {
                Expr::VarRef(_) => true,
                Expr::Const(_) => true,
                _ => false,
            };
            if pure_ref {
                proof {
                reveal(spec_step_call);
                    assert(g is Ok);
                    assert(out.deep_view() =~= old(out).deep_view() + g->Ok_0.0);
                }
                Ok(())
            } else {
                match materialize_all(state, expr_stack, out, pos) {
                    Err(e2) => return Err(e2),
                    Ok(_) => {},
                }
                push_stmt(out, Stmt::Expr(e));
                proof {
                reveal(spec_step_call);
                    assert(g is Ok);
                    assert(out.deep_view() =~= old(out).deep_view() + g->Ok_0.0);
                }
                Ok(())
            }
        },
        Instr::Select => {
            if expr_stack.len() == 0 {
                return Err(Error::at(ErrorKind::Invariant, pos));
            }
            let (cond, condty) = expr_stack.pop().unwrap();
            proof {
                assert(expr_stack.deep_view() =~= old(expr_stack).deep_view().drop_last());
                assert(old(expr_stack).deep_view().last() == (cond.deep_view(), condty));
            }
            if condty != ValType::I32 {
                return Err(Error::at(ErrorKind::Invariant, pos));
            }
            let t = match sig.result {
                Some(t) => t,
                None => {
                    return Err(Error::at(ErrorKind::Invariant, pos));
                },
            };
            match materialize_all(state, expr_stack, out, pos) {
                Err(e) => return Err(e),
                Ok(_) => {},
            }
            if expr_stack.len() < 2 {
                return Err(Error::at(ErrorKind::Invariant, pos));
            }
            let (else_e, _t1) = expr_stack.pop().unwrap();
            let (if_e, _t2) = expr_stack.pop().unwrap();
            let rv = match create_fresh_stack_var(state, pos) {
                Err(e) => return Err(e),
                Ok(v) => v,
            };
            push_slot(expr_stack, Expr::VarRef(rv), t);
            let if_body = Body(vec![Stmt::Assign { lhs: rv, type_: t, rhs: if_e }]);
            let else_body = Body(vec![Stmt::Assign { lhs: rv, type_: t, rhs: else_e }]);
            proof {
                crate::ir::lemma_view_stmts(if_body.0);
                crate::ir::lemma_view_stmts(else_body.0);
                assert(if_body.deep_view() =~= seq![view_stmt(
                    Stmt::Assign { lhs: rv, type_: t, rhs: if_e },
                )]);
                assert(else_body.deep_view() =~= seq![view_stmt(
                    Stmt::Assign { lhs: rv, type_: t, rhs: else_e },
                )]);
            }
            push_stmt(out, Stmt::If { condition: cond, if_body, else_body: Some(else_body) });
            proof {
                reveal(spec_step_call);
                assert(g is Ok);
                assert(expr_stack.deep_view() =~= g->Ok_0.2);
                assert(out.deep_view() =~~= old(out).deep_view() + g->Ok_0.0);
                assert(state@ =~= g->Ok_0.1);
            }
            Ok(())
        },
        _ => Err(Error::plain(ErrorKind::Invariant)),
    }
}


/// Lower one local or global access, as `spec_step_var` prescribes.
#[verifier::rlimit(100)]
#[verifier::spinoff_prover]
fn step_var(
    out: &mut Vec<Stmt>,
    state: &mut State,
    expr_stack: &mut Vec<(Expr, ValType)>,
    context: Context,
    instr: &Instr,
    sig: &InstrSig,
    pos: usize,
) -> (r: Result<(), Error>)
    ensures
        is_varaccess_instr(instr.deep_view()) ==> (match spec_step_var(
            instr.deep_view(),
            sig@,
            context.func_ty.deep_view(),
            old(state)@,
            old(expr_stack).deep_view(),
            pos,
        ) {
            Ok(t) => r matches Ok(u) && final(out).deep_view() == old(out).deep_view() + t.0
                && final(state)@ == t.1 && final(expr_stack).deep_view() == t.2,
            Err(e) => r matches Err(e2) && e2 == e,
        }),
{
    proof {
        reveal(spec_step_var);
    }
    let ghost g = spec_step_var(
        instr.deep_view(),
        sig@,
        context.func_ty.deep_view(),
        old(state)@,
        old(expr_stack).deep_view(),
        pos,
    );
    match instr {
        Instr::LocalGet(i) => {
            let t = match sig.result {
                Some(t) => t,
                None => {
                    return Err(Error::at(ErrorKind::Invariant, pos));
                },
            };
            push_slot(expr_stack, Expr::VarRef(local_var(context.func_ty, *i)), t);
            proof {
                reveal(spec_step_var);
                assert(g is Ok);
                assert(out.deep_view() =~= old(out).deep_view() + g->Ok_0.0);
                assert(expr_stack.deep_view() =~= g->Ok_0.2);
                assert(state@ =~= g->Ok_0.1);
            }
            Ok(())
        },
        Instr::LocalSet(i) => {
            if expr_stack.len() == 0 {
                return Err(Error::at(ErrorKind::Invariant, pos));
            }
            let (rhs, ty) = expr_stack.pop().unwrap();
            proof {
                assert(expr_stack.deep_view() =~= old(expr_stack).deep_view().drop_last());
                assert(old(expr_stack).deep_view().last() == (rhs.deep_view(), ty));
            }
            if sig.inputs.len() != 1 {
                return Err(Error::at(ErrorKind::Invariant, pos));
            }
            if ty != sig.inputs[0] {
                return Err(Error::at(ErrorKind::Invariant, pos));
            }
            match materialize_all(state, expr_stack, out, pos) {
                Err(e) => return Err(e),
                Ok(_) => {},
            }
            push_stmt(
                out,
                Stmt::Assign { lhs: local_var(context.func_ty, *i), type_: ty, rhs },
            );
            proof {
                reveal(spec_step_var);
                assert(g is Ok);
                assert(out.deep_view() =~= old(out).deep_view() + g->Ok_0.0);
                assert(expr_stack.deep_view() =~= g->Ok_0.2);
                assert(state@ =~= g->Ok_0.1);
            }
            Ok(())
        },
        Instr::LocalTee(i) => {
            if expr_stack.len() == 0 {
                return Err(Error::at(ErrorKind::Invariant, pos));
            }
            let (rhs, ty) = expr_stack.pop().unwrap();
            proof {
                assert(expr_stack.deep_view() =~= old(expr_stack).deep_view().drop_last());
                assert(old(expr_stack).deep_view().last() == (rhs.deep_view(), ty));
            }
            if sig.inputs.len() != 1 {
                return Err(Error::at(ErrorKind::Invariant, pos));
            }
            if ty != sig.inputs[0] {
                return Err(Error::at(ErrorKind::Invariant, pos));
            }
            match materialize_all(state, expr_stack, out, pos) {
                Err(e) => return Err(e),
                Ok(_) => {},
            }
            let var = local_var(context.func_ty, *i);
            push_stmt(out, Stmt::Assign { lhs: var, type_: ty, rhs });
            push_slot(expr_stack, Expr::VarRef(var), ty);
            proof {
                reveal(spec_step_var);
                assert(g is Ok);
                assert(out.deep_view() =~= old(out).deep_view() + g->Ok_0.0);
                assert(expr_stack.deep_view() =~= g->Ok_0.2);
                assert(state@ =~= g->Ok_0.1);
            }
            Ok(())
        },
        Instr::GlobalGet(i) => {
            let t = match sig.result {
                Some(t) => t,
                None => {
                    return Err(Error::at(ErrorKind::Invariant, pos));
                },
            };
            push_slot(expr_stack, Expr::VarRef(Var::Global(*i)), t);
            proof {
                reveal(spec_step_var);
                assert(g is Ok);
                assert(out.deep_view() =~= old(out).deep_view() + g->Ok_0.0);
                assert(expr_stack.deep_view() =~= g->Ok_0.2);
                assert(state@ =~= g->Ok_0.1);
            }
            Ok(())
        },
        Instr::GlobalSet(i) => {
            if expr_stack.len() == 0 {
                return Err(Error::at(ErrorKind::Invariant, pos));
            }
            let (rhs, ty) = expr_stack.pop().unwrap();
            proof {
                assert(expr_stack.deep_view() =~= old(expr_stack).deep_view().drop_last());
                assert(old(expr_stack).deep_view().last() == (rhs.deep_view(), ty));
            }
            if sig.inputs.len() != 1 {
                return Err(Error::at(ErrorKind::Invariant, pos));
            }
            if ty != sig.inputs[0] {
                return Err(Error::at(ErrorKind::Invariant, pos));
            }
            match materialize_all(state, expr_stack, out, pos) {
                Err(e) => return Err(e),
                Ok(_) => {},
            }
            push_stmt(out, Stmt::Assign { lhs: Var::Global(*i), type_: ty, rhs });
            proof {
                reveal(spec_step_var);
                assert(g is Ok);
                assert(out.deep_view() =~= old(out).deep_view() + g->Ok_0.0);
                assert(expr_stack.deep_view() =~= g->Ok_0.2);
                assert(state@ =~= g->Ok_0.1);
            }
            Ok(())
        },
        _ => Err(Error::plain(ErrorKind::Invariant)),
    }
}

/// Lower one memory access, constant or operator, as `spec_step_op`
/// prescribes.
#[verifier::rlimit(100)]
#[verifier::spinoff_prover]
fn step_op(
    out: &mut Vec<Stmt>,
    state: &mut State,
    expr_stack: &mut Vec<(Expr, ValType)>,
    instr: &Instr,
    sig: &InstrSig,
    pos: usize,
) -> (r: Result<(), Error>)
    ensures
        is_oplike_instr(instr.deep_view()) ==> (match spec_step_op(
            instr.deep_view(),
            sig@,
            old(state)@,
            old(expr_stack).deep_view(),
            pos,
        ) {
            Ok(t) => r matches Ok(u) && final(out).deep_view() == old(out).deep_view() + t.0
                && final(state)@ == t.1 && final(expr_stack).deep_view() == t.2,
            Err(e) => r matches Err(e2) && e2 == e,
        }),
{
    proof {
        reveal(spec_step_op);
    }
    let ghost g = spec_step_op(
        instr.deep_view(),
        sig@,
        old(state)@,
        old(expr_stack).deep_view(),
        pos,
    );
    match instr {
        Instr::Load(op, memarg) => {
            if expr_stack.len() == 0 {
                return Err(Error::at(ErrorKind::Invariant, pos));
            }
            let (addr, aty) = expr_stack.pop().unwrap();
            proof {
                assert(expr_stack.deep_view() =~= old(expr_stack).deep_view().drop_last());
                assert(old(expr_stack).deep_view().last() == (addr.deep_view(), aty));
            }
            if aty != ValType::I32 {
                return Err(Error::at(ErrorKind::Invariant, pos));
            }
            let t = match sig.result {
                Some(t) => t,
                None => {
                    return Err(Error::at(ErrorKind::Invariant, pos));
                },
            };
            let addr2 = match addr_with_offset(addr, *memarg, pos) {
                Err(e) => return Err(e),
                Ok(a) => a,
            };
            push_slot(expr_stack, Expr::Load { op: *op, addr: Box::new(addr2) }, t);
            proof {
                reveal(spec_step_op);
                assert(g is Ok);
                assert(out.deep_view() =~= old(out).deep_view() + g->Ok_0.0);
                assert(expr_stack.deep_view() =~= g->Ok_0.2);
                assert(state@ =~= g->Ok_0.1);
            }
            Ok(())
        },
        Instr::Store(op, memarg) => {
            if expr_stack.len() == 0 {
                return Err(Error::at(ErrorKind::Invariant, pos));
            }
            let (val, vty) = expr_stack.pop().unwrap();
            proof {
                assert(expr_stack.deep_view() =~= old(expr_stack).deep_view().drop_last());
                assert(old(expr_stack).deep_view().last() == (val.deep_view(), vty));
            }
            if sig.inputs.len() != 2 {
                return Err(Error::at(ErrorKind::Invariant, pos));
            }
            if vty != sig.inputs[1] {
                return Err(Error::at(ErrorKind::Invariant, pos));
            }
            if expr_stack.len() == 0 {
                return Err(Error::at(ErrorKind::Invariant, pos));
            }
            let ghost mid = expr_stack.deep_view();
            let (addr, aty) = expr_stack.pop().unwrap();
            proof {
                assert(expr_stack.deep_view() =~= mid.drop_last());
                assert(mid.last() == (addr.deep_view(), aty));
            }
            if aty != ValType::I32 {
                return Err(Error::at(ErrorKind::Invariant, pos));
            }
            let addr2 = match addr_with_offset(addr, *memarg, pos) {
                Err(e) => return Err(e),
                Ok(a) => a,
            };
            match materialize_all(state, expr_stack, out, pos) {
                Err(e) => return Err(e),
                Ok(_) => {},
            }
            push_stmt(out, Stmt::Store { op: *op, addr: addr2, value: val });
            proof {
                reveal(spec_step_op);
                assert(g is Ok);
                assert(out.deep_view() =~= old(out).deep_view() + g->Ok_0.0);
                assert(expr_stack.deep_view() =~= g->Ok_0.2);
                assert(state@ =~= g->Ok_0.1);
            }
            Ok(())
        },
        Instr::MemorySize(_i) => {
            let t = match sig.result {
                Some(t) => t,
                None => {
                    return Err(Error::at(ErrorKind::Invariant, pos));
                },
            };
            push_slot(expr_stack, Expr::MemorySize, t);
            proof {
                reveal(spec_step_op);
                assert(g is Ok);
                assert(out.deep_view() =~= old(out).deep_view() + g->Ok_0.0);
                assert(expr_stack.deep_view() =~= g->Ok_0.2);
                assert(state@ =~= g->Ok_0.1);
            }
            Ok(())
        },
        Instr::MemoryGrow(_i) => {
            if expr_stack.len() == 0 {
                return Err(Error::at(ErrorKind::Invariant, pos));
            }
            let (pages, pty) = expr_stack.pop().unwrap();
            proof {
                assert(expr_stack.deep_view() =~= old(expr_stack).deep_view().drop_last());
                assert(old(expr_stack).deep_view().last() == (pages.deep_view(), pty));
            }
            if pty != ValType::I32 {
                return Err(Error::at(ErrorKind::Invariant, pos));
            }
            let t = match sig.result {
                Some(t) => t,
                None => {
                    return Err(Error::at(ErrorKind::Invariant, pos));
                },
            };
            push_slot(expr_stack, Expr::MemoryGrow { pages: Box::new(pages) }, t);
            proof {
                reveal(spec_step_op);
                assert(g is Ok);
                assert(out.deep_view() =~= old(out).deep_view() + g->Ok_0.0);
                assert(expr_stack.deep_view() =~= g->Ok_0.2);
                assert(state@ =~= g->Ok_0.1);
            }
            Ok(())
        },
        Instr::Const(v) => {
            let t = match sig.result {
                Some(t) => t,
                None => {
                    return Err(Error::at(ErrorKind::Invariant, pos));
                },
            };
            push_slot(expr_stack, Expr::Const(*v), t);
            proof {
                reveal(spec_step_op);
                assert(g is Ok);
                assert(out.deep_view() =~= old(out).deep_view() + g->Ok_0.0);
                assert(expr_stack.deep_view() =~= g->Ok_0.2);
                assert(state@ =~= g->Ok_0.1);
            }
            Ok(())
        },
        Instr::Unary(op) => {
            if expr_stack.len() == 0 {
                return Err(Error::at(ErrorKind::Invariant, pos));
            }
            let (arg, aty) = expr_stack.pop().unwrap();
            proof {
                assert(expr_stack.deep_view() =~= old(expr_stack).deep_view().drop_last());
                assert(old(expr_stack).deep_view().last() == (arg.deep_view(), aty));
            }
            if sig.inputs.len() != 1 {
                return Err(Error::at(ErrorKind::Invariant, pos));
            }
            if aty != sig.inputs[0] {
                return Err(Error::at(ErrorKind::Invariant, pos));
            }
            let t = match sig.result {
                Some(t) => t,
                None => {
                    return Err(Error::at(ErrorKind::Invariant, pos));
                },
            };
            push_slot(expr_stack, Expr::Unary(*op, Box::new(arg)), t);
            proof {
                reveal(spec_step_op);
                assert(g is Ok);
                assert(out.deep_view() =~= old(out).deep_view() + g->Ok_0.0);
                assert(expr_stack.deep_view() =~= g->Ok_0.2);
                assert(state@ =~= g->Ok_0.1);
            }
            Ok(())
        },
        Instr::Binary(op) => {
            if expr_stack.len() == 0 {
                return Err(Error::at(ErrorKind::Invariant, pos));
            }
            let (right, rty) = expr_stack.pop().unwrap();
            proof {
                assert(expr_stack.deep_view() =~= old(expr_stack).deep_view().drop_last());
                assert(old(expr_stack).deep_view().last() == (right.deep_view(), rty));
            }
            if sig.inputs.len() != 2 {
                return Err(Error::at(ErrorKind::Invariant, pos));
            }
            if rty != sig.inputs[1] {
                return Err(Error::at(ErrorKind::Invariant, pos));
            }
            if expr_stack.len() == 0 {
                return Err(Error::at(ErrorKind::Invariant, pos));
            }
            let ghost mid = expr_stack.deep_view();
            let (left, lty) = expr_stack.pop().unwrap();
            proof {
                assert(expr_stack.deep_view() =~= mid.drop_last());
                assert(mid.last() == (left.deep_view(), lty));
            }
            if lty != sig.inputs[0] {
                return Err(Error::at(ErrorKind::Invariant, pos));
            }
            let t = match sig.result {
                Some(t) => t,
                None => {
                    return Err(Error::at(ErrorKind::Invariant, pos));
                },
            };
            push_slot(expr_stack, Expr::Binary(*op, Box::new(left), Box::new(right)), t);
            proof {
                reveal(spec_step_op);
                assert(g is Ok);
                assert(out.deep_view() =~= old(out).deep_view() + g->Ok_0.0);
                assert(expr_stack.deep_view() =~= g->Ok_0.2);
                assert(state@ =~= g->Ok_0.1);
            }
            Ok(())
        },
        _ => Err(Error::plain(ErrorKind::Invariant)),
    }
}


/// Lower the instruction stream from `pos` to the `end` or `else` that
/// closes the current nested block, appending the produced statements to
/// `stmts_result`: the recursive driver, returning the cursor position
/// behind the block and whether it was closed by `else`. Returns exactly
/// what `spec_instrs` prescribes.
#[verifier::rlimit(100)]
#[verifier::spinoff_prover]
pub fn wimplify_instrs(
    stmts_result: &mut Vec<Stmt>,
    state: &mut State,
    context: Context,
    instrs: &Vec<Instr>,
    pos: usize,
    expr_stack: &mut Vec<(Expr, ValType)>,
) -> (r: Result<(usize, bool), Error>)
    ensures
        match spec_instrs(
            instrs.deep_view(),
            context.module.deep_view(),
            context.func_ty.deep_view(),
            old(state)@,
            old(expr_stack).deep_view(),
            pos as int,
        ) {
            Ok(o) => r matches Ok(p) && p.0 as int == o.pos && p.1 == o.was_else && final(state)@
                == o.st && final(expr_stack).deep_view() == o.stack
                && final(stmts_result).deep_view() == old(stmts_result).deep_view() + o.stmts,
            Err(e) => r matches Err(e2) && e2 == e,
        },
    decreases instrs@.len() - pos, 1int,
{
    let ghost full = spec_instrs(
        instrs.deep_view(),
        context.module.deep_view(),
        context.func_ty.deep_view(),
        old(state)@,
        old(expr_stack).deep_view(),
        pos as int,
    );
    if pos >= instrs.len() {
        proof {
            assert(stmts_result.deep_view() =~= old(stmts_result).deep_view()
                + Seq::<StmtV>::empty());
        }
        return Ok((pos, false));
    }
    let instr = &instrs[pos];
    let inferred = match state.type_checker.check_next_instr(instr, context.module, pos) {
        Ok(t) => t,
        Err(e) => {
            return Err(e);
        },
    };
    match inferred {
        InferredType::Unreachable => {
            match instr {
                Instr::End => {
                    if state.label_stack.len() == 0 {
                        return Err(Error::at(ErrorKind::Invariant, pos));
                    }
                    let _ = state.label_stack.pop();
                    proof {
                        assert(stmts_result.deep_view() =~= old(stmts_result).deep_view()
                            + Seq::<StmtV>::empty());
                        assert(state@ =~= full->Ok_0.st);
                    }
                    Ok((pos + 1, false))
                },
                Instr::Else => {
                    proof {
                        assert(stmts_result.deep_view() =~= old(stmts_result).deep_view()
                            + Seq::<StmtV>::empty());
                        assert(state@ =~= full->Ok_0.st);
                    }
                    Ok((pos + 1, true))
                },
                _ => wimplify_instrs(stmts_result, state, context, instrs, pos + 1, expr_stack),
            }
        },
        InferredType::Reachable(sig) => {
            match instr {
                Instr::End => {
                    if state.label_stack.len() == 0 {
                        return Err(Error::at(ErrorKind::Invariant, pos));
                    }
                    let frame = state.label_stack.pop().unwrap();
                    match frame.result_var {
                        Some(v) => {
                            if expr_stack.len() != 1 {
                                return Err(Error::at(ErrorKind::Invariant, pos));
                            }
                            let (val, vty) = expr_stack.pop().unwrap();
                            proof {
                                assert(old(expr_stack).deep_view().last() == (
                                    val.deep_view(),
                                    vty,
                                ));
                            }
                            push_stmt(stmts_result, Stmt::Assign { lhs: v, type_: vty, rhs: val });
                            proof {
                                assert(full is Ok);
                                assert(stmts_result.deep_view() =~= old(stmts_result).deep_view()
                                    + full->Ok_0.stmts);
                                assert(expr_stack.deep_view() =~= full->Ok_0.stack);
                                assert(state@ =~= full->Ok_0.st);
                            }
                            Ok((pos + 1, false))
                        },
                        None => {
                            if expr_stack.len() != 0 {
                                return Err(Error::at(ErrorKind::Invariant, pos));
                            }
                            proof {
                                assert(stmts_result.deep_view() =~= old(stmts_result).deep_view()
                                    + Seq::<StmtV>::empty());
                                assert(state@ =~= full->Ok_0.st);
                            }
                            Ok((pos + 1, false))
                        },
                    }
                },
                Instr::Else => {
                    if state.label_stack.len() == 0 {
                        return Err(Error::at(ErrorKind::Invariant, pos));
                    }
                    let frame = state.label_stack[state.label_stack.len() - 1];
                    if frame.is_loop {
                        return Err(Error::at(ErrorKind::Invariant, pos));
                    }
                    match frame.result_var {
                        Some(v) => {
                            if expr_stack.len() != 1 {
                                return Err(Error::at(ErrorKind::Invariant, pos));
                            }
                            let (val, vty) = expr_stack.pop().unwrap();
                            proof {
                                assert(old(expr_stack).deep_view().last() == (
                                    val.deep_view(),
                                    vty,
                                ));
                            }
                            push_stmt(stmts_result, Stmt::Assign { lhs: v, type_: vty, rhs: val });
                            proof {
                                assert(full is Ok);
                                assert(stmts_result.deep_view() =~= old(stmts_result).deep_view()
                                    + full->Ok_0.stmts);
                                assert(expr_stack.deep_view() =~= full->Ok_0.stack);
                                assert(state@ =~= full->Ok_0.st);
                            }
                            Ok((pos + 1, true))
                        },
                        None => {
                            if expr_stack.len() != 0 {
                                return Err(Error::at(ErrorKind::Invariant, pos));
                            }
                            proof {
                                assert(stmts_result.deep_view() =~= old(stmts_result).deep_view()
                                    + Seq::<StmtV>::empty());
                                assert(state@ =~= full->Ok_0.st);
                            }
                            Ok((pos + 1, true))
                        },
                    }
                },
                Instr::Block(bt) => lower_block_like(
                    stmts_result,
                    state,
                    context,
                    instrs,
                    pos,
                    expr_stack,
                    *bt,
                    false,
                ),
                Instr::Loop(bt) => lower_block_like(
                    stmts_result,
                    state,
                    context,
                    instrs,
                    pos,
                    expr_stack,
                    *bt,
                    true,
                ),
                Instr::If(bt) => lower_if(stmts_result, state, context, instrs, pos, expr_stack, *bt),
                Instr::Unreachable | Instr::Nop | Instr::Return | Instr::Br(_) => {
                    match step_flow(stmts_result, state, expr_stack, instr, pos) {
                        Err(e) => return Err(e),
                        Ok(_) => {},
                    }
                    let r2 = wimplify_instrs(stmts_result, state, context, instrs, pos + 1, expr_stack);
                    proof {
                        if r2 is Ok {
                            assert(stmts_result.deep_view() =~= old(stmts_result).deep_view()
                                + full->Ok_0.stmts);
                        } else {
                            assert(full is Err && full->Err_0 == r2->Err_0);
                        }
                    }
                    r2
                },
                Instr::BrIf(_) | Instr::BrTable { .. } => {
                    match step_condbr(stmts_result, state, expr_stack, instr, pos) {
                        Err(e) => return Err(e),
                        Ok(_) => {},
                    }
                    let r2 = wimplify_instrs(stmts_result, state, context, instrs, pos + 1, expr_stack);
                    proof {
                        if r2 is Ok {
                            assert(stmts_result.deep_view() =~= old(stmts_result).deep_view()
                                + full->Ok_0.stmts);
                        } else {
                            assert(full is Err && full->Err_0 == r2->Err_0);
                        }
                    }
                    r2
                },
                Instr::Call(_) | Instr::CallIndirect(_, _) | Instr::Drop | Instr::Select => {
                    match step_call(stmts_result, state, expr_stack, context, instr, &sig, pos) {
                        Err(e) => return Err(e),
                        Ok(_) => {},
                    }
                    let r2 = wimplify_instrs(stmts_result, state, context, instrs, pos + 1, expr_stack);
                    proof {
                        if r2 is Ok {
                            assert(stmts_result.deep_view() =~= old(stmts_result).deep_view()
                                + full->Ok_0.stmts);
                        } else {
                            assert(full is Err && full->Err_0 == r2->Err_0);
                        }
                    }
                    r2
                },
                Instr::LocalGet(_) | Instr::LocalSet(_) | Instr::LocalTee(_) | Instr::GlobalGet(_)
                | Instr::GlobalSet(_) => {
                    match step_var(stmts_result, state, expr_stack, context, instr, &sig, pos) {
                        Err(e) => return Err(e),
                        Ok(_) => {},
                    }
                    let r2 = wimplify_instrs(stmts_result, state, context, instrs, pos + 1, expr_stack);
                    proof {
                        if r2 is Ok {
                            assert(stmts_result.deep_view() =~= old(stmts_result).deep_view()
                                + full->Ok_0.stmts);
                        } else {
                            assert(full is Err && full->Err_0 == r2->Err_0);
                        }
                    }
                    r2
                },
                Instr::Load(_, _) | Instr::Store(_, _) | Instr::MemorySize(_) | Instr::MemoryGrow(_)
                | Instr::Const(_) | Instr::Unary(_) | Instr::Binary(_) => {
                    match step_op(stmts_result, state, expr_stack, instr, &sig, pos) {
                        Err(e) => return Err(e),
                        Ok(_) => {},
                    }
                    let r2 = wimplify_instrs(stmts_result, state, context, instrs, pos + 1, expr_stack);
                    proof {
                        if r2 is Ok {
                            assert(stmts_result.deep_view() =~= old(stmts_result).deep_view()
                                + full->Ok_0.stmts);
                        } else {
                            assert(full is Err && full->Err_0 == r2->Err_0);
                        }
                    }
                    r2
                },
            }
        },
    }
}


/// Lower a `block` or `loop`: materialize, open a labeled frame, lower the
/// body recursively to its `end`, wrap it, and continue behind it. Returns
/// exactly what `spec_block_like` prescribes.
#[verifier::rlimit(100)]
#[verifier::spinoff_prover]
fn lower_block_like(
    stmts_result: &mut Vec<Stmt>,
    state: &mut State,
    context: Context,
    instrs: &Vec<Instr>,
    pos: usize,
    expr_stack: &mut Vec<(Expr, ValType)>,
    bt: BlockType,
    is_loop: bool,
) -> (r: Result<(usize, bool), Error>)
    requires
        pos < instrs@.len(),
    ensures
        match spec_block_like(
            instrs.deep_view(),
            context.module.deep_view(),
            context.func_ty.deep_view(),
            old(state)@,
            old(expr_stack).deep_view(),
            pos as int,
            bt,
            is_loop,
        ) {
            Ok(o) => r matches Ok(p) && p.0 as int == o.pos && p.1 == o.was_else && final(state)@
                == o.st && final(expr_stack).deep_view() == o.stack
                && final(stmts_result).deep_view() == old(stmts_result).deep_view() + o.stmts,
            Err(e) => r matches Err(e2) && e2 == e,
        },
    decreases instrs@.len() - pos, 0int,
{
    let ghost full = spec_block_like(
        instrs.deep_view(),
        context.module.deep_view(),
        context.func_ty.deep_view(),
        old(state)@,
        old(expr_stack).deep_view(),
        pos as int,
        bt,
        is_loop,
    );
    let ilen = instrs.len();
    proof {
        assert(pos < ilen);
    }
    match materialize_all(state, expr_stack, stmts_result, pos) {
        Err(e) => {
            proof {
                assert(full is Err && full->Err_0 == e);
            }
            return Err(e);
        },
        Ok(_) => {},
    }
    let label = match create_block_frame(state, expr_stack, bt, is_loop, pos) {
        Err(e) => {
            proof {
                assert(full is Err && full->Err_0 == e);
            }
            return Err(e);
        },
        Ok(l) => l,
    };
    let mut inner_body: Vec<Stmt> = Vec::new();
    let mut inner_stack: Vec<(Expr, ValType)> = Vec::new();
    proof {
        assert(inner_body.deep_view() =~= Seq::<StmtV>::empty());
        assert(inner_stack.deep_view() =~= Seq::<(ExprV, ValType)>::empty());
    }
    let (p2, was_else) = match wimplify_instrs(
        &mut inner_body,
        state,
        context,
        instrs,
        pos + 1,
        &mut inner_stack,
    ) {
        Err(e) => {
            proof {
                assert(full is Err && full->Err_0 == e);
            }
            return Err(e);
        },
        Ok(x) => x,
    };
    if was_else {
        proof {
            assert(full is Err && full->Err_0 == inv_err(pos));
        }
        return Err(Error::at(ErrorKind::Invariant, pos));
    }
    if !(p2 > pos && p2 <= instrs.len()) {
        proof {
            assert(full is Err && full->Err_0 == inv_err(pos));
        }
        return Err(Error::at(ErrorKind::Invariant, pos));
    }
    proof {
        crate::ir::lemma_view_stmts(inner_body);
    }
    let blk = if is_loop {
        Stmt::Loop { begin_label: label, body: Body(inner_body) }
    } else {
        Stmt::Block { body: Body(inner_body), end_label: label }
    };
    push_stmt(stmts_result, blk);
    let r2 = wimplify_instrs(stmts_result, state, context, instrs, p2, expr_stack);
    proof {
        if r2 is Ok {
            assert(stmts_result.deep_view() =~~= old(stmts_result).deep_view() + full->Ok_0.stmts);
        } else {
            assert(full is Err && full->Err_0 == r2->Err_0);
        }
    }
    r2
}

/// Lower an `if`: pop the condition, materialize, open a labeled frame,
/// lower the then-arm and, when closed by `else`, the else-arm; wrap the
/// conditional in a labeled block and continue behind it. Returns exactly
/// what `spec_if_like` prescribes.
#[verifier::rlimit(100)]
#[verifier::spinoff_prover]
fn lower_if(
    stmts_result: &mut Vec<Stmt>,
    state: &mut State,
    context: Context,
    instrs: &Vec<Instr>,
    pos: usize,
    expr_stack: &mut Vec<(Expr, ValType)>,
    bt: BlockType,
) -> (r: Result<(usize, bool), Error>)
    requires
        pos < instrs@.len(),
    ensures
        match spec_if_like(
            instrs.deep_view(),
            context.module.deep_view(),
            context.func_ty.deep_view(),
            old(state)@,
            old(expr_stack).deep_view(),
            pos as int,
            bt,
        ) {
            Ok(o) => r matches Ok(p) && p.0 as int == o.pos && p.1 == o.was_else && final(state)@
                == o.st && final(expr_stack).deep_view() == o.stack
                && final(stmts_result).deep_view() == old(stmts_result).deep_view() + o.stmts,
            Err(e) => r matches Err(e2) && e2 == e,
        },
    decreases instrs@.len() - pos, 0int,
{
    let ghost full = spec_if_like(
        instrs.deep_view(),
        context.module.deep_view(),
        context.func_ty.deep_view(),
        old(state)@,
        old(expr_stack).deep_view(),
        pos as int,
        bt,
    );
    let ilen = instrs.len();
    proof {
        assert(pos < ilen);
    }
    if expr_stack.len() == 0 {
        return Err(Error::at(ErrorKind::Invariant, pos));
    }
    let (cond, condty) = expr_stack.pop().unwrap();
    proof {
        assert(expr_stack.deep_view() =~= old(expr_stack).deep_view().drop_last());
        assert(old(expr_stack).deep_view().last() == (cond.deep_view(), condty));
    }
    if condty != ValType::I32 {
        return Err(Error::at(ErrorKind::Invariant, pos));
    }
    match materialize_all(state, expr_stack, stmts_result, pos) {
        Err(e) => {
            proof {
                assert(full is Err && full->Err_0 == e);
            }
            return Err(e);
        },
        Ok(_) => {},
    }
    let label = match create_block_frame(state, expr_stack, bt, false, pos) {
        Err(e) => {
            proof {
                assert(full is Err && full->Err_0 == e);
            }
            return Err(e);
        },
        Ok(l) => l,
    };
    let mut then_body: Vec<Stmt> = Vec::new();
    let mut then_stack: Vec<(Expr, ValType)> = Vec::new();
    proof {
        assert(then_body.deep_view() =~= Seq::<StmtV>::empty());
        assert(then_stack.deep_view() =~= Seq::<(ExprV, ValType)>::empty());
    }
    let (p2, has_else) = match wimplify_instrs(
        &mut then_body,
        state,
        context,
        instrs,
        pos + 1,
        &mut then_stack,
    ) {
        Err(e) => {
            proof {
                assert(full is Err && full->Err_0 == e);
            }
            return Err(e);
        },
        Ok(x) => x,
    };
    if !(p2 > pos && p2 <= instrs.len()) {
        proof {
            assert(full is Err && full->Err_0 == inv_err(pos));
        }
        return Err(Error::at(ErrorKind::Invariant, pos));
    }
    if has_else {
        let mut else_body: Vec<Stmt> = Vec::new();
        let mut else_stack: Vec<(Expr, ValType)> = Vec::new();
        proof {
            assert(else_body.deep_view() =~= Seq::<StmtV>::empty());
            assert(else_stack.deep_view() =~= Seq::<(ExprV, ValType)>::empty());
        }
        let (p3, we2) = match wimplify_instrs(
            &mut else_body,
            state,
            context,
            instrs,
            p2,
            &mut else_stack,
        ) {
            Err(e) => {
                proof {
                    assert(full is Err && full->Err_0 == e);
                }
                return Err(e);
            },
            Ok(x) => x,
        };
        if we2 {
            proof {
                assert(full is Err && full->Err_0 == inv_err(pos));
            }
            return Err(Error::at(ErrorKind::Invariant, pos));
        }
        if !(p3 > pos && p3 <= instrs.len()) {
            proof {
                assert(full is Err && full->Err_0 == inv_err(pos));
            }
            return Err(Error::at(ErrorKind::Invariant, pos));
        }
        proof {
            crate::ir::lemma_view_stmts(then_body);
            crate::ir::lemma_view_stmts(else_body);
        }
        let if_stmt = Stmt::If {
            condition: cond,
            if_body: Body(then_body),
            else_body: Some(Body(else_body)),
        };
        let ghost ifv = view_stmt(if_stmt);
        let wrapper = Body(vec![if_stmt]);
        proof {
            crate::ir::lemma_view_stmts(wrapper.0);
            assert(wrapper.deep_view() =~= seq![ifv]);
        }
        push_stmt(stmts_result, Stmt::Block { body: wrapper, end_label: label });
        let r2 = wimplify_instrs(stmts_result, state, context, instrs, p3, expr_stack);
        proof {
            if r2 is Ok {
                assert(stmts_result.deep_view() =~~= old(stmts_result).deep_view()
                    + full->Ok_0.stmts);
            } else {
                assert(full is Err && full->Err_0 == r2->Err_0);
            }
        }
        r2
    } else {
        proof {
            crate::ir::lemma_view_stmts(then_body);
        }
        let if_stmt = Stmt::If { condition: cond, if_body: Body(then_body), else_body: None };
        let ghost ifv = view_stmt(if_stmt);
        let wrapper = Body(vec![if_stmt]);
        proof {
            crate::ir::lemma_view_stmts(wrapper.0);
            assert(wrapper.deep_view() =~= seq![ifv]);
        }
        push_stmt(stmts_result, Stmt::Block { body: wrapper, end_label: label });
        let r2 = wimplify_instrs(stmts_result, state, context, instrs, p2, expr_stack);
        proof {
            if r2 is Ok {
                assert(stmts_result.deep_view() =~~= old(stmts_result).deep_view()
                    + full->Ok_0.stmts);
            } else {
                assert(full is Err && full->Err_0 == r2->Err_0);
            }
        }
        r2
    }
}


/// The statements that initialize the declared locals to their zero values.
pub open spec fn spec_locals_init(fv: FunctionV) -> Seq<StmtV> {
    Seq::new(
        fv.locals.len(),
        |i: int| StmtV::Assign {
            lhs: Var::Local(i as u32),
            type_: fv.locals[i].type_,
            rhs: ExprV::Const(Val::spec_zero(fv.locals[i].type_)),
        },
    )
}

/// Whether any declared local carries a name; named locals are not
/// supported.
pub open spec fn spec_has_named_local(fv: FunctionV) -> bool {
    exists|i: int| 0 <= i < fv.locals.len() && fv.locals[i].name is Some
}

/// Lowering of one function: reject named locals and multi-value results,
/// seed the locals with their zero values, and, for a non-imported
/// function, drive the lowering of its instruction body under the
/// synthetic function-body frame with label 0, whose result variable is
/// the return slot when the function returns a value. An imported function
/// has no body and lowers to the locals initialization alone.
pub open spec fn spec_function_body(fv: FunctionV, mv: ModuleV) -> Result<Seq<StmtV>, Error> {
    if spec_has_named_local(fv) {
        Err(Error::spec_plain(ErrorKind::Unsupported))
    } else {
        let init = spec_locals_init(fv);
        match fv.code {
            None => Ok(init),
            Some(instrs) => {
                if fv.type_.results.len() > 1 {
                    Err(Error::spec_plain(ErrorKind::Unsupported))
                } else {
                    let return_var = if fv.type_.results.len() == 1 {
                        Some(Var::Return(0))
                    } else {
                        Option::<Var>::None
                    };
                    let st0 = StateV {
                        checker: spec_begin(fv),
                        label_count: 1,
                        stack_var_count: 0,
                        label_stack: Seq::empty().push(
                            Frame { label: Label(0), is_loop: false, result_var: return_var },
                        ),
                    };
                    match spec_instrs(instrs, mv, fv.type_, st0, Seq::empty(), 0) {
                        Err(e) => Err(e),
                        Ok(out) => if out.was_else {
                            Err(Error::spec_plain(ErrorKind::Invariant))
                        } else {
                            Ok(init + out.stmts)
                        },
                    }
                }
            },
        }
    }
}

/// The lowered functions with indices below `n`, in order; a function's
/// identifier must differ from every earlier one.
pub open spec fn spec_lowered_functions(mv: ModuleV, n: int) -> Result<Seq<WFunctionV>, Error>
    decreases n,
{
    if n <= 0 {
        Ok(Seq::empty())
    } else {
        match spec_lowered_functions(mv, n - 1) {
            Err(e) => Err(e),
            Ok(fs) => {
                let idx = (n - 1) as u32;
                let id = spec_function_id(mv, idx);
                if exists|j: int| 0 <= j < n - 1 && #[trigger] spec_function_id(mv, j as u32) == id {
                    Err(Error::spec_plain(ErrorKind::NameClash))
                } else {
                    match spec_function_body(mv.functions[n - 1], mv) {
                        Err(e) => Err(Error { func: Some(idx), ..e }),
                        Ok(b) => Ok(
                            fs.push(
                                WFunctionV {
                                    type_: mv.functions[n - 1].type_,
                                    body: b,
                                    name: id,
                                    export: mv.functions[n - 1].export,
                                },
                            ),
                        ),
                    }
                }
            },
        }
    }
}

/// Lowering of a whole module: every function lowered in order under a
/// fresh state, function identifiers pairwise distinct, globals and tables
/// copied through verbatim. Any error aborts the whole module.
pub open spec fn spec_wimplify(mv: ModuleV) -> Result<WModuleV, Error> {
    if mv.functions.len() > u32::MAX {
        Err(Error::spec_plain(ErrorKind::Unsupported))
    } else {
        match spec_lowered_functions(mv, mv.functions.len() as int) {
            Err(e) => Err(e),
            Ok(fs) => Ok(WModuleV { functions: fs, globals: mv.globals, tables: mv.tables }),
        }
    }
}


/// An error in a prefix of the function list is the whole list's error.
proof fn lemma_lowered_err(mv: ModuleV, m: int, n: int)
    requires
        0 <= m <= n,
        spec_lowered_functions(mv, m) is Err,
    ensures
        spec_lowered_functions(mv, n) == spec_lowered_functions(mv, m),
    decreases n - m,
{
    if n > m {
        lemma_lowered_err(mv, m, n - 1);
    }
}

/// Lower one function of the module, as `spec_function_body` prescribes.
#[verifier::rlimit(100)]
#[verifier::spinoff_prover]
#[verifier::loop_isolation(false)]
pub fn wimplify_function_body(function: &Function, module: &Module) -> (r: Result<Body, Error>)
    ensures
        match spec_function_body(function.deep_view(), module.deep_view()) {
            Ok(b) => r matches Ok(body) && body.deep_view() == b,
            Err(e) => r matches Err(e2) && e2 == e,
        },
{
    let ghost fv = function.deep_view();
    let mut stmts: Vec<Stmt> = Vec::new();
    proof {
        assert(stmts.deep_view() =~= spec_locals_init(fv).take(0));
    }
    let mut i: usize = 0;
    while i < function.locals.len()
        invariant
            i <= function.locals@.len(),
            forall|k: int| 0 <= k < i ==> fv.locals[k].name is None,
            stmts.deep_view() == spec_locals_init(fv).take(i as int),
        decreases function.locals@.len() - i,
    {
        let loc = &function.locals[i];
        if loc.name.is_some() {
            proof {
                assert(fv.locals[i as int].name is Some);
                assert(spec_has_named_local(fv));
            }
            return Err(Error::plain(ErrorKind::Unsupported));
        }
        push_stmt(
            &mut stmts,
            Stmt::Assign {
                lhs: Var::Local(i as u32),
                type_: loc.type_,
                rhs: Expr::Const(Val::zero(loc.type_)),
            },
        );
        proof {
            assert(stmts.deep_view() =~= spec_locals_init(fv).take(i + 1));
        }
        i += 1;
    }
    proof {
        assert(stmts.deep_view() =~= spec_locals_init(fv));
        assert(!spec_has_named_local(fv));
    }
    match &function.code {
        None => Ok(Body(stmts)),
        Some(code) => {
            if function.type_.results.len() > 1 {
                return Err(Error::plain(ErrorKind::Unsupported));
            }
            let return_var = if function.type_.results.len() == 1 {
                Some(Var::Return(0))
            } else {
                None
            };
            let mut label_stack: Vec<Frame> = Vec::new();
            label_stack.push(Frame { label: Label(0), is_loop: false, result_var: return_var });
            let state0 = State {
                type_checker: TypeChecker::begin_function(function, module),
                label_count: 1,
                stack_var_count: 0,
                label_stack,
            };
            let mut state = state0;
            proof {
                assert(state@.label_stack =~= Seq::empty().push(
                    Frame { label: Label(0), is_loop: false, result_var: return_var },
                ));
            }
            let context = Context { module, func_ty: &function.type_ };
            let mut expr_stack: Vec<(Expr, ValType)> = Vec::new();
            proof {
                assert(expr_stack.deep_view() =~= Seq::<(ExprV, ValType)>::empty());
            }
            let (_end_pos, was_else) = match wimplify_instrs(
                &mut stmts,
                &mut state,
                context,
                &code.body,
                0,
                &mut expr_stack,
            ) {
                Err(e) => return Err(e),
                Ok(x) => x,
            };
            if was_else {
                return Err(Error::plain(ErrorKind::Invariant));
            }
            Ok(Body(stmts))
        },
    }
}

/// Whether two function identifiers are the same.
fn id_eq(a: &FunctionId, b: &FunctionId) -> (r: bool)
    ensures
        r == (a.deep_view() == b.deep_view()),
{
    match (a, b) {
        (FunctionId::Name(x), FunctionId::Name(y)) => <String as PartialEq<String>>::eq(x, y),
        (FunctionId::Idx(x), FunctionId::Idx(y)) => x == y,
        _ => false,
    }
}

/// An elementwise copy of a vector of branch-table entries.
fn copy_u32s(v: &Vec<u32>) -> (r: Vec<u32>)
    ensures
        r@ == v@,
{
    let mut r: Vec<u32> = Vec::new();
    let mut i: usize = 0;
    while i < v.len()
        invariant
            i <= v@.len(),
            r@ == v@.take(i as int),
        decreases v@.len() - i,
    {
        r.push(v[i]);
        proof {
            assert(r@ =~= v@.take(i + 1 as int));
        }
        i += 1;
    }
    proof {
        assert(r@ =~= v@);
    }
    r
}

/// A structural copy of one instruction.
fn copy_instr(x: &Instr) -> (r: Instr)
    ensures
        r.deep_view() == x.deep_view(),
{
    match x {
        Instr::Unreachable => Instr::Unreachable,
        Instr::Nop => Instr::Nop,
        Instr::Block(bt) => Instr::Block(*bt),
        Instr::Loop(bt) => Instr::Loop(*bt),
        Instr::If(bt) => Instr::If(*bt),
        Instr::Else => Instr::Else,
        Instr::End => Instr::End,
        Instr::Return => Instr::Return,
        Instr::Br(l) => Instr::Br(*l),
        Instr::BrIf(l) => Instr::BrIf(*l),
        Instr::BrTable { table, default } => Instr::BrTable {
            table: copy_u32s(table),
            default: *default,
        },
        Instr::Call(f) => Instr::Call(*f),
        Instr::CallIndirect(ft, t) => Instr::CallIndirect(copy_function_type(ft), *t),
        Instr::Drop => Instr::Drop,
        Instr::Select => Instr::Select,
        Instr::LocalGet(i) => Instr::LocalGet(*i),
        Instr::LocalSet(i) => Instr::LocalSet(*i),
        Instr::LocalTee(i) => Instr::LocalTee(*i),
        Instr::GlobalGet(i) => Instr::GlobalGet(*i),
        Instr::GlobalSet(i) => Instr::GlobalSet(*i),
        Instr::Load(op, m) => Instr::Load(*op, *m),
        Instr::Store(op, m) => Instr::Store(*op, *m),
        Instr::MemorySize(i) => Instr::MemorySize(*i),
        Instr::MemoryGrow(i) => Instr::MemoryGrow(*i),
        Instr::Const(v) => Instr::Const(*v),
        Instr::Unary(op) => Instr::Unary(*op),
        Instr::Binary(op) => Instr::Binary(*op),
    }
}

/// An elementwise copy of an instruction sequence.
fn copy_instrs(v: &Vec<Instr>) -> (r: Vec<Instr>)
    ensures
        r.deep_view() == v.deep_view(),
{
    let mut r: Vec<Instr> = Vec::new();
    let mut i: usize = 0;
    while i < v.len()
        invariant
            i <= v@.len(),
            r.deep_view() == v.deep_view().take(i as int),
        decreases v@.len() - i,
    {
        let ghost prevd = r.deep_view();
        let c = copy_instr(&v[i]);
        let ghost cv = c.deep_view();
        r.push(c);
        proof {
            assert(r.deep_view() =~= prevd.push(cv));
            assert(r.deep_view() =~= v.deep_view().take(i + 1));
        }
        i += 1;
    }
    proof {
        assert(r.deep_view() =~= v.deep_view());
    }
    r
}

/// An elementwise copy of the module's globals.
fn copy_globals(v: &Vec<Global>) -> (r: Vec<Global>)
    ensures
        r.deep_view() == v.deep_view(),
{
    let mut r: Vec<Global> = Vec::new();
    let mut i: usize = 0;
    while i < v.len()
        invariant
            i <= v@.len(),
            r.deep_view() == v.deep_view().take(i as int),
        decreases v@.len() - i,
    {
        let g = &v[i];
        let ghost prevd = r.deep_view();
        let c = Global { type_: g.type_, mutable: g.mutable, init: copy_instrs(&g.init) };
        let ghost cv = c.deep_view();
        r.push(c);
        proof {
            assert(r.deep_view() =~= prevd.push(cv));
            assert(r.deep_view() =~= v.deep_view().take(i + 1));
        }
        i += 1;
    }
    proof {
        assert(r.deep_view() =~= v.deep_view());
    }
    r
}

/// An elementwise copy of the module's tables.
fn copy_tables(v: &Vec<Table>) -> (r: Vec<Table>)
    ensures
        r.deep_view() == v.deep_view(),
{
    let mut r: Vec<Table> = Vec::new();
    let mut i: usize = 0;
    while i < v.len()
        invariant
            i <= v@.len(),
            r.deep_view() == v.deep_view().take(i as int),
        decreases v@.len() - i,
    {
        let ghost prevd = r.deep_view();
        r.push(v[i]);
        proof {
            assert(r.deep_view() =~= prevd.push(v@[i as int].deep_view()));
            assert(r.deep_view() =~= v.deep_view().take(i + 1));
        }
        i += 1;
    }
    proof {
        assert(r.deep_view() =~= v.deep_view());
    }
    r
}

/// An elementwise copy of a vector of export names.
fn copy_strings(v: &Vec<String>) -> (r: Vec<String>)
    ensures
        r.deep_view() == v.deep_view(),
{
    let mut r: Vec<String> = Vec::new();
    let mut i: usize = 0;
    while i < v.len()
        invariant
            i <= v@.len(),
            r.deep_view() == v.deep_view().take(i as int),
        decreases v@.len() - i,
    {
        let ghost prevd = r.deep_view();
        let c = v[i].clone();
        let ghost cv = c.deep_view();
        r.push(c);
        proof {
            assert(r.deep_view() =~= prevd.push(cv));
            assert(r.deep_view() =~= v.deep_view().take(i + 1));
        }
        i += 1;
    }
    proof {
        assert(r.deep_view() =~= v.deep_view());
    }
    r
}

/// Lower a whole module to Wimpl, as `spec_wimplify` prescribes: the
/// result is a function of the input module's mathematical view alone, so
/// lowering the same module twice yields structurally identical output.
#[verifier::rlimit(100)]
#[verifier::spinoff_prover]
#[verifier::loop_isolation(false)]
pub fn wimplify(module: &Module) -> (r: Result<WModule, Error>)
    ensures
        match spec_wimplify(module.deep_view()) {
            Ok(wv) => r matches Ok(w) && w.deep_view() == wv,
            Err(e) => r matches Err(e2) && e2 == e,
        },
{
    let ghost mv = module.deep_view();
    if module.functions.len() > u32::MAX as usize {
        return Err(Error::plain(ErrorKind::Unsupported));
    }
    let mut functions: Vec<WFunction> = Vec::new();
    let mut ids: Vec<FunctionId> = Vec::new();
    proof {
        assert(functions.deep_view() =~= Seq::<WFunctionV>::empty());
    }
    let mut i: usize = 0;
    while i < module.functions.len()
        invariant
            i <= module.functions@.len(),
            spec_lowered_functions(mv, i as int) matches Ok(fs) && fs == functions.deep_view(),
            ids@.len() == i,
            forall|j: int|
                0 <= j < i ==> ids@[j].deep_view() == spec_function_id(mv, j as u32),
        decreases module.functions@.len() - i,
    {
        let id = function_id(module, i as u32);
        let mut dup = false;
        let mut j: usize = 0;
        while j < ids.len()
            invariant
                j <= ids@.len(),
                dup == exists|k: int|
                    0 <= k < j && (#[trigger] ids@[k].deep_view()) == id.deep_view(),
            decreases ids@.len() - j,
        {
            if id_eq(&ids[j], &id) {
                dup = true;
            }
            j += 1;
        }
        if dup {
            proof {
                let k = choose|k: int|
                    0 <= k < ids@.len() && (#[trigger] ids@[k].deep_view()) == id.deep_view();
                assert(spec_function_id(mv, k as u32) == spec_function_id(mv, i as u32));
                assert(spec_lowered_functions(mv, i + 1) == Err::<Seq<WFunctionV>, Error>(
                    Error::spec_plain(ErrorKind::NameClash),
                ));
                lemma_lowered_err(mv, i + 1, mv.functions.len() as int);
            }
            return Err(Error::plain(ErrorKind::NameClash));
        }
        proof {
            if exists|j: int|
                0 <= j < i && #[trigger] spec_function_id(mv, j as u32) == spec_function_id(
                    mv,
                    i as u32,
                ) {
                let j = choose|j: int|
                    0 <= j < i && #[trigger] spec_function_id(mv, j as u32) == spec_function_id(
                        mv,
                        i as u32,
                    );
                assert(ids@[j].deep_view() == id.deep_view());
                assert(false);
            }
        }
        let body = match wimplify_function_body(&module.functions[i], module) {
            Err(e) => {
                proof {
                    assert(spec_lowered_functions(mv, i + 1) is Err);
                    lemma_lowered_err(mv, i + 1, mv.functions.len() as int);
                }
                return Err(Error { kind: e.kind, func: Some(i as u32), pos: e.pos });
            },
            Ok(b) => b,
        };
        let f = &module.functions[i];
        let name = function_id(module, i as u32);
        let wf = WFunction {
            type_: copy_function_type(&f.type_),
            body,
            name,
            export: copy_strings(&f.export),
        };
        let ghost prevd = functions.deep_view();
        let ghost wfv = wf.deep_view();
        functions.push(wf);
        ids.push(id);
        proof {
            assert(functions.deep_view() =~= prevd.push(wfv));
            assert(spec_lowered_functions(mv, i + 1) matches Ok(fs)
                && fs =~~= functions.deep_view());
        }
        i += 1;
    }
    let globals = copy_globals(&module.globals);
    let tables = copy_tables(&module.tables);
    let w = WModule { functions, globals, tables };
    proof {
        assert(w.deep_view() =~= spec_wimplify(mv)->Ok_0);
    }
    Ok(w)
}

} // verus!
