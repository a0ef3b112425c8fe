//! The streaming type checker. It owns the WebAssembly validation stack and
//! is driven in lockstep with the lowering's instruction cursor: for each
//! instruction it yields either `Reachable` with the instruction's concrete
//! signature, or `Unreachable` when the instruction sits in the
//! stack-polymorphic dead tail that follows a terminator, before the
//! `end` or `else` that closes the current block.
//!
//! The checker's behaviour is pinned by `spec_check`; `check_next_instr`
//! returns exactly what the specification computes.

use vstd::prelude::*;

use crate::error::{Error, ErrorKind};
use crate::wasm::{Instr, InstrV, Function, FunctionV, Module, ModuleV, ValType};

verus! {

/// What kind of structured construct a control frame belongs to.
#[derive(Clone, Copy, PartialEq, Eq, Structural, Debug)]
pub enum FrameKind {
    /// The synthetic frame for the whole function body.
    FuncBody,
    Block,
    Loop,
    /// The then-arm of an `if`, until its `else` or `end`.
    If,
    /// The else-arm of an `if`, after its `else`.
    Else,
}

/// One frame of the validation control stack.
#[derive(Clone, Copy, PartialEq, Eq, Debug)]
pub struct CtrlFrame {
    pub kind: FrameKind,
    /// The declared result type of the construct, at most one value.
    pub result: Option<ValType>,
    /// Height of the value stack when the construct was entered.
    pub height: usize,
    /// Whether a stack-polymorphic terminator has been seen in this frame
    /// and not yet closed by `end` or `else`.
    pub dead: bool,
}

/// Mathematical mirror of the checker state.
#[verifier::ext_equal]
pub struct CheckerV {
    pub vals: Seq<ValType>,
    pub frames: Seq<CtrlFrame>,
    pub locals: Seq<ValType>,
}

/// The concrete signature of a reachable instruction: its input types,
/// bottom of stack first, and its result (at most one value in the MVP).
#[derive(Clone, PartialEq, Eq, Debug)]
pub struct InstrSig {
    pub inputs: Vec<ValType>,
    pub result: Option<ValType>,
}

/// Mathematical mirror of `InstrSig`.
#[verifier::ext_equal]
pub struct SigV {
    pub inputs: Seq<ValType>,
    pub result: Option<ValType>,
}

impl View for InstrSig {
    type V = SigV;

    open spec fn view(&self) -> SigV {
        SigV { inputs: self.inputs@, result: self.result }
    }
}

/// The checker's classification of one instruction.
#[derive(Clone, PartialEq, Eq, Debug)]
pub enum InferredType {
    /// The instruction executes on some path and has this signature.
    Reachable(InstrSig),
    /// The instruction follows a stack-polymorphic terminator within the
    /// current block, before the next `end` or `else`; no code is lowered
    /// for it.
    Unreachable,
}

/// Mathematical mirror of `InferredType`.
#[verifier::ext_equal]
pub enum InferredV {
    Reachable(SigV),
    Unreachable,
}

impl View for InferredType {
    type V = InferredV;

    open spec fn view(&self) -> InferredV {
        match self {
            InferredType::Reachable(sig) => InferredV::Reachable(sig@),
            InferredType::Unreachable => InferredV::Unreachable,
        }
    }
}

/// The streaming type checker for one function body.
#[derive(Clone, Debug)]
pub struct TypeChecker {
    pub vals: Vec<ValType>,
    pub frames: Vec<CtrlFrame>,
    /// Types of the parameters followed by the declared locals.
    pub locals: Vec<ValType>,
}

impl View for TypeChecker {
    type V = CheckerV;

    open spec fn view(&self) -> CheckerV {
        CheckerV { vals: self.vals@, frames: self.frames@, locals: self.locals@ }
    }
}

/// Shorthand for an ill-typed-input error at `pos`.
pub open spec fn tc_err(pos: usize) -> Error {
    Error::spec_at(ErrorKind::TypeCheck, pos)
}

/// Shorthand for an unsupported-feature error at `pos`.
pub open spec fn unsup_err(pos: usize) -> Error {
    Error::spec_at(ErrorKind::Unsupported, pos)
}

/// The value a branch to this frame carries: the result type for non-loop
/// frames, nothing for loops, whose branch target is their entry.
pub open spec fn frame_carried(f: CtrlFrame) -> Option<ValType> {
    if f.kind is Loop {
        None
    } else {
        f.result
    }
}

/// Truncation of the value stack to height `h`, as `Vec::truncate` behaves.
pub open spec fn trunc(vals: Seq<ValType>, h: usize) -> Seq<ValType> {
    if h <= vals.len() {
        vals.subrange(0, h as int)
    } else {
        vals
    }
}

/// Pop one value within the current frame; `expect` constrains its type.
pub open spec fn spec_pop(ck: CheckerV, expect: Option<ValType>, pos: usize) -> Result<
    (CheckerV, ValType),
    Error,
> {
    if ck.frames.len() == 0 {
        Err(tc_err(pos))
    } else if ck.vals.len() <= ck.frames.last().height {
        Err(tc_err(pos))
    } else {
        let t = ck.vals.last();
        let ck2 = CheckerV { vals: ck.vals.drop_last(), ..ck };
        match expect {
            Some(e) => if t == e {
                Ok((ck2, t))
            } else {
                Err(tc_err(pos))
            },
            None => Ok((ck2, t)),
        }
    }
}

/// Pop a list of values, the last type in `types` first.
pub open spec fn spec_pop_list(ck: CheckerV, types: Seq<ValType>, pos: usize) -> Result<
    CheckerV,
    Error,
>
    decreases types.len(),
{
    if types.len() == 0 {
        Ok(ck)
    } else {
        match spec_pop(ck, Some(types.last()), pos) {
            Ok(p) => spec_pop_list(p.0, types.drop_last(), pos),
            Err(e) => Err(e),
        }
    }
}

/// Push one value.
pub open spec fn spec_push(ck: CheckerV, t: ValType) -> CheckerV {
    CheckerV { vals: ck.vals.push(t), ..ck }
}

/// Mark the current frame dead after a terminator and discard the operands
/// above its entry height.
pub open spec fn spec_enter_dead(ck: CheckerV) -> CheckerV {
    let top = ck.frames.last();
    CheckerV {
        vals: trunc(ck.vals, top.height),
        frames: ck.frames.drop_last().push(CtrlFrame { dead: true, ..top }),
        ..ck
    }
}

/// Whether the operands above the top frame's entry height match exactly the
/// frame's declared result, as `end` and `else` require.
pub open spec fn spec_exit_ok(ck: CheckerV) -> bool {
    let top = ck.frames.last();
    match top.result {
        Some(t) => ck.vals.len() == top.height + 1 && ck.vals.last() == t,
        None => ck.vals.len() == top.height,
    }
}

/// The types of the parameters followed by the declared locals.
pub open spec fn spec_local_types(f: FunctionV) -> Seq<ValType> {
    f.type_.inputs + f.locals.map_values(|l: crate::wasm::LocalDeclV| l.type_)
}

/// The checker state at the start of a function body: one live frame for
/// the synthetic function-body block.
pub open spec fn spec_begin(f: FunctionV) -> CheckerV {
    let result = if f.type_.results.len() == 1 {
        Some(f.type_.results[0])
    } else {
        Option::<ValType>::None
    };
    CheckerV {
        vals: Seq::empty(),
        frames: Seq::empty().push(
            CtrlFrame { kind: FrameKind::FuncBody, result, height: 0, dead: false },
        ),
        locals: spec_local_types(f),
    }
}

/// A signature with no inputs.
pub open spec fn sig0(result: Option<ValType>) -> SigV {
    SigV { inputs: Seq::empty(), result }
}

/// A signature with one input.
pub open spec fn sig1(t: ValType, result: Option<ValType>) -> SigV {
    SigV { inputs: seq![t], result }
}

/// A signature with two inputs, bottom of stack first.
pub open spec fn sig2(t1: ValType, t2: ValType, result: Option<ValType>) -> SigV {
    SigV { inputs: seq![t1, t2], result }
}

/// The inputs of `end` and `else`: the closed frame's result, if any.
pub open spec fn opt_inputs(result: Option<ValType>) -> Seq<ValType> {
    match result {
        Some(t) => seq![t],
        None => Seq::empty(),
    }
}

/// Classification of an instruction inside the dead tail of the current
/// frame: `end` closes the frame, `else` switches an `if` to its else-arm,
/// structured instructions are not supported there, and everything else is
/// skipped without touching the state.
pub open spec fn spec_check_dead(ck: CheckerV, instr: InstrV, pos: usize) -> Result<
    (CheckerV, InferredV),
    Error,
> {
    let top = ck.frames.last();
    match instr {
        InstrV::End => {
            let popped = CheckerV { frames: ck.frames.drop_last(), ..ck };
            let ck2 = match top.result {
                Some(t) => CheckerV { vals: popped.vals.push(t), ..popped },
                None => popped,
            };
            Ok((ck2, InferredV::Unreachable))
        },
        InstrV::Else => {
            if top.kind is If {
                let ck2 = CheckerV {
                    frames: ck.frames.drop_last().push(
                        CtrlFrame { kind: FrameKind::Else, dead: false, ..top },
                    ),
                    ..ck
                };
                Ok((ck2, InferredV::Unreachable))
            } else {
                Err(tc_err(pos))
            }
        },
        InstrV::Block(_) => Err(unsup_err(pos)),
        InstrV::Loop(_) => Err(unsup_err(pos)),
        InstrV::If(_) => Err(unsup_err(pos)),
        _ => Ok((ck, InferredV::Unreachable)),
    }
}

/// Whether every entry of a `br_table` names a valid enclosing frame whose
/// branch carries the same value as the default target's.
pub open spec fn spec_table_ok(
    frames: Seq<CtrlFrame>,
    table: Seq<u32>,
    dcarried: Option<ValType>,
) -> bool {
    forall|j: int|
        0 <= j < table.len() ==> (#[trigger] table[j]) < frames.len()
            && frame_carried(frames[frames.len() - 1 - table[j]]) == dcarried
}

/// Classification and state transition for a live (reachable) instruction.
pub open spec fn spec_check_live(ck: CheckerV, instr: InstrV, mv: ModuleV, pos: usize) -> Result<
    (CheckerV, InferredV),
    Error,
> {
    match instr {
        InstrV::Unreachable => Ok(
            (spec_enter_dead(ck), InferredV::Reachable(sig0(None))),
        ),
        InstrV::Nop => Ok((ck, InferredV::Reachable(sig0(None)))),
        InstrV::Block(bt) => {
            let f = CtrlFrame {
                kind: FrameKind::Block,
                result: bt.0,
                height: ck.vals.len() as usize,
                dead: false,
            };
            Ok((CheckerV { frames: ck.frames.push(f), ..ck }, InferredV::Reachable(sig0(None))))
        },
        InstrV::Loop(bt) => {
            let f = CtrlFrame {
                kind: FrameKind::Loop,
                result: bt.0,
                height: ck.vals.len() as usize,
                dead: false,
            };
            Ok((CheckerV { frames: ck.frames.push(f), ..ck }, InferredV::Reachable(sig0(None))))
        },
        InstrV::If(bt) => match spec_pop(ck, Some(ValType::I32), pos) {
            Ok(p) => {
                let f = CtrlFrame {
                    kind: FrameKind::If,
                    result: bt.0,
                    height: p.0.vals.len() as usize,
                    dead: false,
                };
                Ok(
                    (
                        CheckerV { frames: p.0.frames.push(f), ..p.0 },
                        InferredV::Reachable(sig1(ValType::I32, None)),
                    ),
                )
            },
            Err(e) => Err(e),
        },
        InstrV::Else => {
            let top = ck.frames.last();
            if !(top.kind is If) {
                Err(tc_err(pos))
            } else if !spec_exit_ok(ck) {
                Err(tc_err(pos))
            } else {
                let ck2 = CheckerV {
                    vals: trunc(ck.vals, top.height),
                    frames: ck.frames.drop_last().push(
                        CtrlFrame { kind: FrameKind::Else, ..top },
                    ),
                    ..ck
                };
                Ok((ck2, InferredV::Reachable(SigV { inputs: opt_inputs(top.result), result: None })))
            }
        },
        InstrV::End => {
            let top = ck.frames.last();
            if !spec_exit_ok(ck) {
                Err(tc_err(pos))
            } else {
                let popped = CheckerV {
                    vals: trunc(ck.vals, top.height),
                    frames: ck.frames.drop_last(),
                    ..ck
                };
                let ck2 = match top.result {
                    Some(t) => CheckerV { vals: popped.vals.push(t), ..popped },
                    None => popped,
                };
                Ok(
                    (
                        ck2,
                        InferredV::Reachable(
                            SigV { inputs: opt_inputs(top.result), result: top.result },
                        ),
                    ),
                )
            }
        },
        InstrV::Return => {
            let f0 = ck.frames[0];
            match f0.result {
                Some(t) => match spec_pop(ck, Some(t), pos) {
                    Ok(p) => Ok(
                        (spec_enter_dead(p.0), InferredV::Reachable(sig1(t, None))),
                    ),
                    Err(e) => Err(e),
                },
                None => Ok((spec_enter_dead(ck), InferredV::Reachable(sig0(None)))),
            }
        },
        InstrV::Br(depth) => {
            if depth >= ck.frames.len() {
                Err(tc_err(pos))
            } else {
                let target = ck.frames[ck.frames.len() - 1 - depth];
                match frame_carried(target) {
                    Some(t) => match spec_pop(ck, Some(t), pos) {
                        Ok(p) => Ok(
                            (spec_enter_dead(p.0), InferredV::Reachable(sig1(t, None))),
                        ),
                        Err(e) => Err(e),
                    },
                    None => Ok((spec_enter_dead(ck), InferredV::Reachable(sig0(None)))),
                }
            }
        },
        InstrV::BrIf(depth) => match spec_pop(ck, Some(ValType::I32), pos) {
            Ok(p) => {
                if depth >= p.0.frames.len() {
                    Err(tc_err(pos))
                } else {
                    let target = p.0.frames[p.0.frames.len() - 1 - depth];
                    match frame_carried(target) {
                        Some(t) => match spec_pop(p.0, Some(t), pos) {
                            Ok(p2) => Ok(
                                (
                                    spec_push(p2.0, t),
                                    InferredV::Reachable(sig2(t, ValType::I32, Some(t))),
                                ),
                            ),
                            Err(e) => Err(e),
                        },
                        None => Ok(
                            (p.0, InferredV::Reachable(sig1(ValType::I32, None))),
                        ),
                    }
                }
            },
            Err(e) => Err(e),
        },
        InstrV::BrTable { table, default } => match spec_pop(ck, Some(ValType::I32), pos) {
            Ok(p) => {
                if default >= p.0.frames.len() {
                    Err(tc_err(pos))
                } else {
                    let dtarget = p.0.frames[p.0.frames.len() - 1 - default];
                    let dcarried = frame_carried(dtarget);
                    if !spec_table_ok(p.0.frames, table, dcarried) {
                        Err(tc_err(pos))
                    } else {
                        match dcarried {
                            Some(t) => match spec_pop(p.0, Some(t), pos) {
                                Ok(p2) => Ok(
                                    (
                                        spec_enter_dead(p2.0),
                                        InferredV::Reachable(sig2(t, ValType::I32, None)),
                                    ),
                                ),
                                Err(e) => Err(e),
                            },
                            None => Ok(
                                (spec_enter_dead(p.0), InferredV::Reachable(sig1(ValType::I32, None))),
                            ),
                        }
                    }
                }
            },
            Err(e) => Err(e),
        },
        InstrV::Call(fidx) => {
            if fidx >= mv.functions.len() {
                Err(tc_err(pos))
            } else {
                let fty = mv.functions[fidx as int].type_;
                if fty.results.len() > 1 {
                    Err(unsup_err(pos))
                } else {
                    match spec_pop_list(ck, fty.inputs, pos) {
                        Ok(ck2) => {
                            let result = if fty.results.len() == 1 {
                                Some(fty.results[0])
                            } else {
                                Option::<ValType>::None
                            };
                            let ck3 = match result {
                                Some(t) => spec_push(ck2, t),
                                None => ck2,
                            };
                            Ok((ck3, InferredV::Reachable(SigV { inputs: fty.inputs, result })))
                        },
                        Err(e) => Err(e),
                    }
                }
            }
        },
        InstrV::CallIndirect(fty, tidx) => {
            if tidx != 0 {
                Err(unsup_err(pos))
            } else if fty.results.len() > 1 {
                Err(unsup_err(pos))
            } else {
                match spec_pop(ck, Some(ValType::I32), pos) {
                    Ok(p) => match spec_pop_list(p.0, fty.inputs, pos) {
                        Ok(ck2) => {
                            let result = if fty.results.len() == 1 {
                                Some(fty.results[0])
                            } else {
                                Option::<ValType>::None
                            };
                            let ck3 = match result {
                                Some(t) => spec_push(ck2, t),
                                None => ck2,
                            };
                            Ok(
                                (
                                    ck3,
                                    InferredV::Reachable(
                                        SigV { inputs: fty.inputs.push(ValType::I32), result },
                                    ),
                                ),
                            )
                        },
                        Err(e) => Err(e),
                    },
                    Err(e) => Err(e),
                }
            }
        },
        InstrV::Drop => match spec_pop(ck, None, pos) {
            Ok(p) => Ok((p.0, InferredV::Reachable(sig1(p.1, None)))),
            Err(e) => Err(e),
        },
        InstrV::Select => match spec_pop(ck, Some(ValType::I32), pos) {
            Ok(p) => match spec_pop(p.0, None, pos) {
                Ok(p2) => match spec_pop(p2.0, Some(p2.1), pos) {
                    Ok(p3) => Ok(
                        (
                            spec_push(p3.0, p2.1),
                            InferredV::Reachable(
                                SigV { inputs: seq![p2.1, p2.1, ValType::I32], result: Some(p2.1) },
                            ),
                        ),
                    ),
                    Err(e) => Err(e),
                },
                Err(e) => Err(e),
            },
            Err(e) => Err(e),
        },
        InstrV::LocalGet(i) => {
            if i >= ck.locals.len() {
                Err(tc_err(pos))
            } else {
                let t = ck.locals[i as int];
                Ok((spec_push(ck, t), InferredV::Reachable(sig0(Some(t)))))
            }
        },
        InstrV::LocalSet(i) => {
            if i >= ck.locals.len() {
                Err(tc_err(pos))
            } else {
                let t = ck.locals[i as int];
                match spec_pop(ck, Some(t), pos) {
                    Ok(p) => Ok((p.0, InferredV::Reachable(sig1(t, None)))),
                    Err(e) => Err(e),
                }
            }
        },
        InstrV::LocalTee(i) => {
            if i >= ck.locals.len() {
                Err(tc_err(pos))
            } else {
                let t = ck.locals[i as int];
                match spec_pop(ck, Some(t), pos) {
                    Ok(p) => Ok((spec_push(p.0, t), InferredV::Reachable(sig1(t, Some(t))))),
                    Err(e) => Err(e),
                }
            }
        },
        InstrV::GlobalGet(i) => {
            if i >= mv.globals.len() {
                Err(tc_err(pos))
            } else {
                let t = mv.globals[i as int].type_;
                Ok((spec_push(ck, t), InferredV::Reachable(sig0(Some(t)))))
            }
        },
        InstrV::GlobalSet(i) => {
            if i >= mv.globals.len() {
                Err(tc_err(pos))
            } else if !mv.globals[i as int].mutable {
                Err(tc_err(pos))
            } else {
                let t = mv.globals[i as int].type_;
                match spec_pop(ck, Some(t), pos) {
                    Ok(p) => Ok((p.0, InferredV::Reachable(sig1(t, None)))),
                    Err(e) => Err(e),
                }
            }
        },
        InstrV::Load(op, _memarg) => match spec_pop(ck, Some(ValType::I32), pos) {
            Ok(p) => {
                let t = op.spec_result_ty();
                Ok((spec_push(p.0, t), InferredV::Reachable(sig1(ValType::I32, Some(t)))))
            },
            Err(e) => Err(e),
        },
        InstrV::Store(op, _memarg) => {
            let vt = op.spec_value_ty();
            match spec_pop(ck, Some(vt), pos) {
                Ok(p) => match spec_pop(p.0, Some(ValType::I32), pos) {
                    Ok(p2) => Ok((p2.0, InferredV::Reachable(sig2(ValType::I32, vt, None)))),
                    Err(e) => Err(e),
                },
                Err(e) => Err(e),
            }
        },
        InstrV::MemorySize(i) => {
            if i != 0 {
                Err(unsup_err(pos))
            } else {
                Ok(
                    (
                        spec_push(ck, ValType::I32),
                        InferredV::Reachable(sig0(Some(ValType::I32))),
                    ),
                )
            }
        },
        InstrV::MemoryGrow(i) => {
            if i != 0 {
                Err(unsup_err(pos))
            } else {
                match spec_pop(ck, Some(ValType::I32), pos) {
                    Ok(p) => Ok(
                        (
                            spec_push(p.0, ValType::I32),
                            InferredV::Reachable(sig1(ValType::I32, Some(ValType::I32))),
                        ),
                    ),
                    Err(e) => Err(e),
                }
            }
        },
        InstrV::Const(v) => {
            let t = v.spec_ty();
            Ok((spec_push(ck, t), InferredV::Reachable(sig0(Some(t)))))
        },
        InstrV::Unary(op) => match spec_pop(ck, Some(op.spec_input_ty()), pos) {
            Ok(p) => {
                let t = op.spec_result_ty();
                Ok((spec_push(p.0, t), InferredV::Reachable(sig1(op.spec_input_ty(), Some(t)))))
            },
            Err(e) => Err(e),
        },
        InstrV::Binary(op) => {
            let it = op.spec_input_ty();
            match spec_pop(ck, Some(it), pos) {
                Ok(p) => match spec_pop(p.0, Some(it), pos) {
                    Ok(p2) => {
                        let t = op.spec_result_ty();
                        Ok((spec_push(p2.0, t), InferredV::Reachable(sig2(it, it, Some(t)))))
                    },
                    Err(e) => Err(e),
                },
                Err(e) => Err(e),
            }
        },
    }
}

/// The instruction family handled by `TypeChecker::check_live_ctrl`.
pub open spec fn is_struct_instr(iv: InstrV) -> bool {
    iv matches InstrV::Unreachable || iv matches InstrV::Nop || iv matches InstrV::Block(_) || iv matches InstrV::Loop(_) || iv matches InstrV::If(_) || iv matches InstrV::Else || iv matches InstrV::End
}

/// The instruction family handled by `TypeChecker::check_live_branch`.
pub open spec fn is_branch_instr(iv: InstrV) -> bool {
    iv matches InstrV::Return || iv matches InstrV::Br(_) || iv matches InstrV::BrIf(_) || iv matches InstrV::BrTable { .. }
}

/// The instruction family handled by `TypeChecker::check_live_call`.
pub open spec fn is_call_instr(iv: InstrV) -> bool {
    iv matches InstrV::Call(_) || iv matches InstrV::CallIndirect(_, _) || iv matches InstrV::Drop || iv matches InstrV::Select
}

/// The instruction family handled by `TypeChecker::check_live_var`.
pub open spec fn is_var_instr(iv: InstrV) -> bool {
    iv matches InstrV::LocalGet(_) || iv matches InstrV::LocalSet(_) || iv matches InstrV::LocalTee(_) || iv matches InstrV::GlobalGet(_) || iv matches InstrV::GlobalSet(_)
}

/// The instruction family handled by `TypeChecker::check_live_op`.
pub open spec fn is_op_instr(iv: InstrV) -> bool {
    iv matches InstrV::Load(_, _) || iv matches InstrV::Store(_, _) || iv matches InstrV::MemorySize(_) || iv matches InstrV::MemoryGrow(_) || iv matches InstrV::Const(_) || iv matches InstrV::Unary(_) || iv matches InstrV::Binary(_)
}

/// The checker's transition for one instruction: an error for an ill-typed
/// stream, `Unreachable` inside a dead tail, otherwise `Reachable` with the
/// instruction's concrete signature.
pub open spec fn spec_check(ck: CheckerV, instr: InstrV, mv: ModuleV, pos: usize) -> Result<
    (CheckerV, InferredV),
    Error,
> {
    if ck.frames.len() == 0 {
        Err(tc_err(pos))
    } else if ck.frames.last().dead {
        spec_check_dead(ck, instr, pos)
    } else {
        spec_check_live(ck, instr, mv, pos)
    }
}


/// A signature with no inputs, as a value.
fn xsig0(result: Option<ValType>) -> (r: InstrSig)
    ensures
        r@ == sig0(result),
{
    let r = InstrSig { inputs: Vec::new(), result };
    proof {
        assert(r@.inputs =~= sig0(result).inputs);
    }
    r
}

/// A signature with one input, as a value.
fn xsig1(t: ValType, result: Option<ValType>) -> (r: InstrSig)
    ensures
        r@ == sig1(t, result),
{
    let mut inputs: Vec<ValType> = Vec::new();
    inputs.push(t);
    proof {
        assert(inputs@ =~= sig1(t, result).inputs);
    }
    InstrSig { inputs, result }
}

/// A signature with two inputs, bottom of stack first, as a value.
fn xsig2(t1: ValType, t2: ValType, result: Option<ValType>) -> (r: InstrSig)
    ensures
        r@ == sig2(t1, t2, result),
{
    let mut inputs: Vec<ValType> = Vec::new();
    inputs.push(t1);
    inputs.push(t2);
    proof {
        assert(inputs@ =~= sig2(t1, t2, result).inputs);
    }
    InstrSig { inputs, result }
}

/// A signature with three inputs, bottom of stack first, as a value.
fn xsig3(t1: ValType, t2: ValType, t3: ValType, result: Option<ValType>) -> (r: InstrSig)
    ensures
        r@ == (SigV { inputs: seq![t1, t2, t3], result }),
{
    let mut inputs: Vec<ValType> = Vec::new();
    inputs.push(t1);
    inputs.push(t2);
    inputs.push(t3);
    proof {
        assert(inputs@ =~= seq![t1, t2, t3]);
    }
    InstrSig { inputs, result }
}

/// The inputs of `end` and `else`, as a vector.
fn xopt_inputs(result: Option<ValType>) -> (r: Vec<ValType>)
    ensures
        r@ == opt_inputs(result),
{
    let mut inputs: Vec<ValType> = Vec::new();
    if let Some(t) = result {
        inputs.push(t);
    }
    proof {
        assert(inputs@ =~= opt_inputs(result));
    }
    inputs
}

/// An elementwise copy of a vector of value types.
fn copy_valtypes(v: &Vec<ValType>) -> (r: Vec<ValType>)
    ensures
        r@ == v@,
{
    let mut r: Vec<ValType> = Vec::new();
    let mut i: usize = 0;
    while i < v.len()
        invariant
            i <= v@.len(),
            r@ == v@.take(i as int),
        decreases v@.len() - i,
    {
        r.push(v[i]);
        proof {
            assert(r@ =~= v@.take(i + 1 as int));
        }
        i += 1;
    }
    proof {
        assert(r@ =~= v@);
    }
    r
}

/// The value a branch to this frame carries, executable form.
fn carried(f: &CtrlFrame) -> (r: Option<ValType>)
    ensures
        r == frame_carried(*f),
{
    if f.kind == FrameKind::Loop {
        None
    } else {
        f.result
    }
}

impl TypeChecker {
    /// The checker for one function body, primed with the synthetic
    /// function-body frame. A result list longer than one is reduced to no
    /// result here; the function driver rejects multi-value functions
    /// before construction.
    pub fn begin_function(function: &Function, _module: &Module) -> (r: TypeChecker)
        ensures
            r@ == spec_begin(function.deep_view()),
    {
        let mut locals: Vec<ValType> = Vec::new();
        let mut i: usize = 0;
        while i < function.type_.inputs.len()
            invariant
                i <= function.type_.inputs@.len(),
                locals@ == function.type_.inputs@.take(i as int),
            decreases function.type_.inputs@.len() - i,
        {
            locals.push(function.type_.inputs[i]);
            proof {
                assert(locals@ =~= function.type_.inputs@.take(i + 1 as int));
            }
            i += 1;
        }
        proof {
            assert(locals@ =~= function.type_.inputs@);
        }
        let ghost inputs_len = function.type_.inputs@.len();
        let mut j: usize = 0;
        while j < function.locals.len()
            invariant
                j <= function.locals@.len(),
                locals@.len() == inputs_len + j,
                forall|k: int| 0 <= k < inputs_len ==> locals@[k] == function.type_.inputs@[k],
                forall|k: int| 0 <= k < j ==> locals@[inputs_len + k] == function.locals@[k].type_,
            decreases function.locals@.len() - j,
        {
            locals.push(function.locals[j].type_);
            j += 1;
        }
        proof {
            assert(locals@ =~= spec_local_types(function.deep_view()));
        }
        let result = if function.type_.results.len() == 1 {
            Some(function.type_.results[0])
        } else {
            None
        };
        let mut frames: Vec<CtrlFrame> = Vec::new();
        frames.push(CtrlFrame { kind: FrameKind::FuncBody, result, height: 0, dead: false });
        proof {
            assert(frames@ =~= Seq::empty().push(
                CtrlFrame { kind: FrameKind::FuncBody, result, height: 0, dead: false },
            ));
        }
        let r = TypeChecker { vals: Vec::new(), frames, locals };
        proof {
            assert(r@.vals =~= spec_begin(function.deep_view()).vals);
            assert(r@ =~= spec_begin(function.deep_view()));
        }
        r
    }

    /// Pop one value within the current frame; `expect` constrains its type.
    fn pop_expect(&mut self, expect: Option<ValType>, pos: usize) -> (r: Result<ValType, Error>)
        ensures
            match spec_pop(old(self)@, expect, pos) {
                Ok(p) => r matches Ok(t) && t == p.1 && final(self)@ == p.0,
                Err(e) => r matches Err(e2) && e2 == e,
            },
    {
        let n = self.frames.len();
        if n == 0 {
            return Err(Error::at(ErrorKind::TypeCheck, pos));
        }
        let h = self.frames[n - 1].height;
        if self.vals.len() <= h {
            return Err(Error::at(ErrorKind::TypeCheck, pos));
        }
        let t = self.vals.pop().unwrap();
        match expect {
            Some(e) => {
                if t == e {
                    Ok(t)
                } else {
                    Err(Error::at(ErrorKind::TypeCheck, pos))
                }
            },
            None => Ok(t),
        }
    }

    /// Pop the first `n` types of `types`, the last first.
    fn pop_list(&mut self, types: &Vec<ValType>, n: usize, pos: usize) -> (r: Result<(), Error>)
        requires
            n <= types@.len(),
        ensures
            match spec_pop_list(old(self)@, types@.take(n as int), pos) {
                Ok(ck2) => r matches Ok(u) && final(self)@ == ck2,
                Err(e) => r matches Err(e2) && e2 == e,
            },
        decreases n,
    {
        if n == 0 {
            proof {
                assert(types@.take(0) =~= Seq::<ValType>::empty());
            }
            Ok(())
        } else {
            let t = types[n - 1];
            proof {
                assert(types@.take(n as int).last() == t);
                assert(types@.take(n as int).drop_last() =~= types@.take(n - 1 as int));
            }
            match self.pop_expect(Some(t), pos) {
                Ok(_) => self.pop_list(types, n - 1, pos),
                Err(e) => Err(e),
            }
        }
    }

    /// Mark the current frame dead and discard the operands above its entry
    /// height.
    fn enter_dead(&mut self)
        requires
            old(self)@.frames.len() > 0,
        ensures
            final(self)@ == spec_enter_dead(old(self)@),
    {
        let n = self.frames.len();
        let top = self.frames[n - 1];
        self.vals.truncate(top.height);
        let _ = self.frames.pop();
        self.frames.push(CtrlFrame { dead: true, ..top });
    }

    /// Whether the operands above the top frame's entry height match the
    /// frame's declared result.
    fn exit_ok(&self) -> (r: bool)
        requires
            self@.frames.len() > 0,
        ensures
            r == spec_exit_ok(self@),
    {
        let n = self.frames.len();
        let top = self.frames[n - 1];
        match top.result {
            Some(t) => {
                self.vals.len() >= 1 && self.vals.len() - 1 == top.height && self.vals[
                    self.vals.len() - 1
                ] == t
            },
            None => self.vals.len() == top.height,
        }
    }

    /// Whether every `br_table` entry names a valid frame carrying the same
    /// value as the default target.
    fn table_ok(&self, table: &Vec<u32>, dcarried: Option<ValType>) -> (r: bool)
        ensures
            r == spec_table_ok(self@.frames, table@, dcarried),
    {
        let n = self.frames.len();
        let mut j: usize = 0;
        while j < table.len()
            invariant
                j <= table@.len(),
                n == self@.frames.len(),
                forall|k: int|
                    0 <= k < j ==> (#[trigger] table@[k]) < self@.frames.len()
                        && frame_carried(self@.frames[self@.frames.len() - 1 - table@[k]])
                        == dcarried,
            decreases table@.len() - j,
        {
            let d = table[j] as usize;
            if d >= n {
                return false;
            }
            let c = carried(&self.frames[n - 1 - d]);
            let same = match (c, dcarried) {
                (Some(a), Some(b)) => a == b,
                (None, None) => true,
                _ => false,
            };
            if !same {
                return false;
            }
            j += 1;
        }
        true
    }

    /// Live classification of structured-control instructions.
    #[verifier::rlimit(100)]
    #[verifier::spinoff_prover]
    fn check_live_ctrl(&mut self, instr: &Instr, m: &Module, pos: usize) -> (r: Result<InferredType, Error>)
        requires
            old(self)@.frames.len() > 0,
            !old(self)@.frames.last().dead,
        ensures
            is_struct_instr(instr.deep_view()) ==> (match spec_check_live(
                old(self)@,
                instr.deep_view(),
                m.deep_view(),
                pos,
            ) {
                Ok(o) => r matches Ok(inf) && inf@ == o.1 && final(self)@ == o.0,
                Err(e) => r matches Err(e2) && e2 == e,
            }),
    {
        let n = self.frames.len();
        let top = self.frames[n - 1];
        match instr {
                Instr::Unreachable => {
                    self.enter_dead();
                    Ok(InferredType::Reachable(xsig0(None)))
                },
                Instr::Nop => Ok(InferredType::Reachable(xsig0(None))),
                Instr::Block(bt) => {
                    let f = CtrlFrame {
                        kind: FrameKind::Block,
                        result: bt.0,
                        height: self.vals.len(),
                        dead: false,
                    };
                    self.frames.push(f);
                    Ok(InferredType::Reachable(xsig0(None)))
                },
                Instr::Loop(bt) => {
                    let f = CtrlFrame {
                        kind: FrameKind::Loop,
                        result: bt.0,
                        height: self.vals.len(),
                        dead: false,
                    };
                    self.frames.push(f);
                    Ok(InferredType::Reachable(xsig0(None)))
                },
                Instr::If(bt) => {
                    match self.pop_expect(Some(ValType::I32), pos) {
                        Err(e) => Err(e),
                        Ok(_) => {
                            let f = CtrlFrame {
                                kind: FrameKind::If,
                                result: bt.0,
                                height: self.vals.len(),
                                dead: false,
                            };
                            self.frames.push(f);
                            Ok(InferredType::Reachable(xsig1(ValType::I32, None)))
                        },
                    }
                },
                Instr::Else => {
                    if top.kind != FrameKind::If {
                        return Err(Error::at(ErrorKind::TypeCheck, pos));
                    }
                    if !self.exit_ok() {
                        return Err(Error::at(ErrorKind::TypeCheck, pos));
                    }
                    self.vals.truncate(top.height);
                    let _ = self.frames.pop();
                    self.frames.push(CtrlFrame { kind: FrameKind::Else, ..top });
                    Ok(
                        InferredType::Reachable(
                            InstrSig { inputs: xopt_inputs(top.result), result: None },
                        ),
                    )
                },
                Instr::End => {
                    if !self.exit_ok() {
                        return Err(Error::at(ErrorKind::TypeCheck, pos));
                    }
                    self.vals.truncate(top.height);
                    let _ = self.frames.pop();
                    if let Some(t) = top.result {
                        self.vals.push(t);
                    }
                    Ok(
                        InferredType::Reachable(
                            InstrSig { inputs: xopt_inputs(top.result), result: top.result },
                        ),
                    )
                },
            _ => Err(Error::plain(ErrorKind::Invariant)),
        }
    }

    /// Live classification of return and branch instructions.
    #[verifier::rlimit(100)]
    #[verifier::spinoff_prover]
    fn check_live_branch(&mut self, instr: &Instr, m: &Module, pos: usize) -> (r: Result<InferredType, Error>)
        requires
            old(self)@.frames.len() > 0,
            !old(self)@.frames.last().dead,
        ensures
            is_branch_instr(instr.deep_view()) ==> (match spec_check_live(
                old(self)@,
                instr.deep_view(),
                m.deep_view(),
                pos,
            ) {
                Ok(o) => r matches Ok(inf) && inf@ == o.1 && final(self)@ == o.0,
                Err(e) => r matches Err(e2) && e2 == e,
            }),
    {
        let n = self.frames.len();
        let top = self.frames[n - 1];
        match instr {
                Instr::Return => {
                    let f0 = self.frames[0];
                    match f0.result {
                        Some(t) => {
                            match self.pop_expect(Some(t), pos) {
                                Err(e) => Err(e),
                                Ok(_) => {
                                    self.enter_dead();
                                    Ok(InferredType::Reachable(xsig1(t, None)))
                                },
                            }
                        },
                        None => {
                            self.enter_dead();
                            Ok(InferredType::Reachable(xsig0(None)))
                        },
                    }
                },
                Instr::Br(depth) => {
                    let depth = *depth as usize;
                    if depth >= n {
                        return Err(Error::at(ErrorKind::TypeCheck, pos));
                    }
                    let target = self.frames[n - 1 - depth];
                    match carried(&target) {
                        Some(t) => {
                            match self.pop_expect(Some(t), pos) {
                                Err(e) => Err(e),
                                Ok(_) => {
                                    self.enter_dead();
                                    Ok(InferredType::Reachable(xsig1(t, None)))
                                },
                            }
                        },
                        None => {
                            self.enter_dead();
                            Ok(InferredType::Reachable(xsig0(None)))
                        },
                    }
                },
                Instr::BrIf(depth) => {
                    let depth = *depth as usize;
                    match self.pop_expect(Some(ValType::I32), pos) {
                        Err(e) => Err(e),
                        Ok(_) => {
                            if depth >= n {
                                return Err(Error::at(ErrorKind::TypeCheck, pos));
                            }
                            let target = self.frames[n - 1 - depth];
                            match carried(&target) {
                                Some(t) => {
                                    match self.pop_expect(Some(t), pos) {
                                        Err(e) => Err(e),
                                        Ok(_) => {
                                            self.vals.push(t);
                                            Ok(
                                                InferredType::Reachable(
                                                    xsig2(t, ValType::I32, Some(t)),
                                                ),
                                            )
                                        },
                                    }
                                },
                                None => Ok(InferredType::Reachable(xsig1(ValType::I32, None))),
                            }
                        },
                    }
                },
                Instr::BrTable { table, default } => {
                    let default = *default as usize;
                    match self.pop_expect(Some(ValType::I32), pos) {
                        Err(e) => Err(e),
                        Ok(_) => {
                            if default >= n {
                                return Err(Error::at(ErrorKind::TypeCheck, pos));
                            }
                            let dtarget = self.frames[n - 1 - default];
                            let dcarried = carried(&dtarget);
                            if !self.table_ok(table, dcarried) {
                                return Err(Error::at(ErrorKind::TypeCheck, pos));
                            }
                            match dcarried {
                                Some(t) => {
                                    match self.pop_expect(Some(t), pos) {
                                        Err(e) => Err(e),
                                        Ok(_) => {
                                            self.enter_dead();
                                            Ok(
                                                InferredType::Reachable(
                                                    xsig2(t, ValType::I32, None),
                                                ),
                                            )
                                        },
                                    }
                                },
                                None => {
                                    self.enter_dead();
                                    Ok(InferredType::Reachable(xsig1(ValType::I32, None)))
                                },
                            }
                        },
                    }
                },
            _ => Err(Error::plain(ErrorKind::Invariant)),
        }
    }

    /// Live classification of call, drop and select instructions.
    #[verifier::rlimit(100)]
    #[verifier::spinoff_prover]
    fn check_live_call(&mut self, instr: &Instr, m: &Module, pos: usize) -> (r: Result<InferredType, Error>)
        requires
            old(self)@.frames.len() > 0,
            !old(self)@.frames.last().dead,
        ensures
            is_call_instr(instr.deep_view()) ==> (match spec_check_live(
                old(self)@,
                instr.deep_view(),
                m.deep_view(),
                pos,
            ) {
                Ok(o) => r matches Ok(inf) && inf@ == o.1 && final(self)@ == o.0,
                Err(e) => r matches Err(e2) && e2 == e,
            }),
    {
        let n = self.frames.len();
        let top = self.frames[n - 1];
        match instr {
                Instr::Call(fidx) => {
                    let fidx = *fidx as usize;
                    if fidx >= m.functions.len() {
                        return Err(Error::at(ErrorKind::TypeCheck, pos));
                    }
                    let fty = &m.functions[fidx].type_;
                    if fty.results.len() > 1 {
                        return Err(Error::at(ErrorKind::Unsupported, pos));
                    }
                    proof {
                        assert(fty.inputs@.take(fty.inputs@.len() as int) =~= fty.inputs@);
                    }
                    match self.pop_list(&fty.inputs, fty.inputs.len(), pos) {
                        Err(e) => Err(e),
                        Ok(_) => {
                            let result = if fty.results.len() == 1 {
                                Some(fty.results[0])
                            } else {
                                None
                            };
                            if let Some(t) = result {
                                self.vals.push(t);
                            }
                            let inputs = copy_valtypes(&fty.inputs);
                            Ok(InferredType::Reachable(InstrSig { inputs, result }))
                        },
                    }
                },
                Instr::CallIndirect(fty, tidx) => {
                    if *tidx != 0 {
                        return Err(Error::at(ErrorKind::Unsupported, pos));
                    }
                    if fty.results.len() > 1 {
                        return Err(Error::at(ErrorKind::Unsupported, pos));
                    }
                    match self.pop_expect(Some(ValType::I32), pos) {
                        Err(e) => Err(e),
                        Ok(_) => {
                            proof {
                                assert(fty.inputs@.take(fty.inputs@.len() as int) =~= fty.inputs@);
                            }
                            match self.pop_list(&fty.inputs, fty.inputs.len(), pos) {
                                Err(e) => Err(e),
                                Ok(_) => {
                                    let result = if fty.results.len() == 1 {
                                        Some(fty.results[0])
                                    } else {
                                        None
                                    };
                                    if let Some(t) = result {
                                        self.vals.push(t);
                                    }
                                    let mut inputs = copy_valtypes(&fty.inputs);
                                    inputs.push(ValType::I32);
                                    Ok(InferredType::Reachable(InstrSig { inputs, result }))
                                },
                            }
                        },
                    }
                },
                Instr::Drop => {
                    match self.pop_expect(None, pos) {
                        Err(e) => Err(e),
                        Ok(t) => Ok(InferredType::Reachable(xsig1(t, None))),
                    }
                },
                Instr::Select => {
                    match self.pop_expect(Some(ValType::I32), pos) {
                        Err(e) => Err(e),
                        Ok(_) => {
                            match self.pop_expect(None, pos) {
                                Err(e) => Err(e),
                                Ok(t2) => {
                                    match self.pop_expect(Some(t2), pos) {
                                        Err(e) => Err(e),
                                        Ok(_) => {
                                            self.vals.push(t2);
                                            Ok(
                                                InferredType::Reachable(
                                                    xsig3(t2, t2, ValType::I32, Some(t2)),
                                                ),
                                            )
                                        },
                                    }
                                },
                            }
                        },
                    }
                },
            _ => Err(Error::plain(ErrorKind::Invariant)),
        }
    }

    /// Live classification of local and global accesses.
    #[verifier::rlimit(100)]
    #[verifier::spinoff_prover]
    fn check_live_var(&mut self, instr: &Instr, m: &Module, pos: usize) -> (r: Result<InferredType, Error>)
        requires
            old(self)@.frames.len() > 0,
            !old(self)@.frames.last().dead,
        ensures
            is_var_instr(instr.deep_view()) ==> (match spec_check_live(
                old(self)@,
                instr.deep_view(),
                m.deep_view(),
                pos,
            ) {
                Ok(o) => r matches Ok(inf) && inf@ == o.1 && final(self)@ == o.0,
                Err(e) => r matches Err(e2) && e2 == e,
            }),
    {
        let n = self.frames.len();
        let top = self.frames[n - 1];
        match instr {
                Instr::LocalGet(i) => {
                    let i = *i as usize;
                    if i >= self.locals.len() {
                        return Err(Error::at(ErrorKind::TypeCheck, pos));
                    }
                    let t = self.locals[i];
                    self.vals.push(t);
                    Ok(InferredType::Reachable(xsig0(Some(t))))
                },
                Instr::LocalSet(i) => {
                    let i = *i as usize;
                    if i >= self.locals.len() {
                        return Err(Error::at(ErrorKind::TypeCheck, pos));
                    }
                    let t = self.locals[i];
                    match self.pop_expect(Some(t), pos) {
                        Err(e) => Err(e),
                        Ok(_) => Ok(InferredType::Reachable(xsig1(t, None))),
                    }
                },
                Instr::LocalTee(i) => {
                    let i = *i as usize;
                    if i >= self.locals.len() {
                        return Err(Error::at(ErrorKind::TypeCheck, pos));
                    }
                    let t = self.locals[i];
                    match self.pop_expect(Some(t), pos) {
                        Err(e) => Err(e),
                        Ok(_) => {
                            self.vals.push(t);
                            Ok(InferredType::Reachable(xsig1(t, Some(t))))
                        },
                    }
                },
                Instr::GlobalGet(i) => {
                    let i = *i as usize;
                    if i >= m.globals.len() {
                        return Err(Error::at(ErrorKind::TypeCheck, pos));
                    }
                    let t = m.globals[i].type_;
                    self.vals.push(t);
                    Ok(InferredType::Reachable(xsig0(Some(t))))
                },
                Instr::GlobalSet(i) => {
                    let i = *i as usize;
                    if i >= m.globals.len() {
                        return Err(Error::at(ErrorKind::TypeCheck, pos));
                    }
                    if !m.globals[i].mutable {
                        return Err(Error::at(ErrorKind::TypeCheck, pos));
                    }
                    let t = m.globals[i].type_;
                    match self.pop_expect(Some(t), pos) {
                        Err(e) => Err(e),
                        Ok(_) => Ok(InferredType::Reachable(xsig1(t, None))),
                    }
                },
            _ => Err(Error::plain(ErrorKind::Invariant)),
        }
    }

    /// Live classification of memory accesses, constants and operators.
    #[verifier::rlimit(100)]
    #[verifier::spinoff_prover]
    fn check_live_op(&mut self, instr: &Instr, m: &Module, pos: usize) -> (r: Result<InferredType, Error>)
        requires
            old(self)@.frames.len() > 0,
            !old(self)@.frames.last().dead,
        ensures
            is_op_instr(instr.deep_view()) ==> (match spec_check_live(
                old(self)@,
                instr.deep_view(),
                m.deep_view(),
                pos,
            ) {
                Ok(o) => r matches Ok(inf) && inf@ == o.1 && final(self)@ == o.0,
                Err(e) => r matches Err(e2) && e2 == e,
            }),
    {
        let n = self.frames.len();
        let top = self.frames[n - 1];
        match instr {
                Instr::Load(op, _memarg) => {
                    match self.pop_expect(Some(ValType::I32), pos) {
                        Err(e) => Err(e),
                        Ok(_) => {
                            let t = op.result_ty();
                            self.vals.push(t);
                            Ok(InferredType::Reachable(xsig1(ValType::I32, Some(t))))
                        },
                    }
                },
                Instr::Store(op, _memarg) => {
                    let vt = op.value_ty();
                    match self.pop_expect(Some(vt), pos) {
                        Err(e) => Err(e),
                        Ok(_) => {
                            match self.pop_expect(Some(ValType::I32), pos) {
                                Err(e) => Err(e),
                                Ok(_) => Ok(InferredType::Reachable(xsig2(ValType::I32, vt, None))),
                            }
                        },
                    }
                },
                Instr::MemorySize(i) => {
                    if *i != 0 {
                        return Err(Error::at(ErrorKind::Unsupported, pos));
                    }
                    self.vals.push(ValType::I32);
                    Ok(InferredType::Reachable(xsig0(Some(ValType::I32))))
                },
                Instr::MemoryGrow(i) => {
                    if *i != 0 {
                        return Err(Error::at(ErrorKind::Unsupported, pos));
                    }
                    match self.pop_expect(Some(ValType::I32), pos) {
                        Err(e) => Err(e),
                        Ok(_) => {
                            self.vals.push(ValType::I32);
                            Ok(InferredType::Reachable(xsig1(ValType::I32, Some(ValType::I32))))
                        },
                    }
                },
                Instr::Const(v) => {
                    let t = v.ty();
                    self.vals.push(t);
                    Ok(InferredType::Reachable(xsig0(Some(t))))
                },
                Instr::Unary(op) => {
                    match self.pop_expect(Some(op.input_ty()), pos) {
                        Err(e) => Err(e),
                        Ok(_) => {
                            let t = op.result_ty();
                            self.vals.push(t);
                            Ok(InferredType::Reachable(xsig1(op.input_ty(), Some(t))))
                        },
                    }
                },
                Instr::Binary(op) => {
                    let it = op.input_ty();
                    match self.pop_expect(Some(it), pos) {
                        Err(e) => Err(e),
                        Ok(_) => {
                            match self.pop_expect(Some(it), pos) {
                                Err(e) => Err(e),
                                Ok(_) => {
                                    let t = op.result_ty();
                                    self.vals.push(t);
                                    Ok(InferredType::Reachable(xsig2(it, it, Some(t))))
                                },
                            }
                        },
                    }
                },
            _ => Err(Error::plain(ErrorKind::Invariant)),
        }
    }

    /// Classification inside the dead tail of the current frame.
    #[verifier::rlimit(100)]
    #[verifier::spinoff_prover]
    fn check_dead(&mut self, instr: &Instr, pos: usize) -> (r: Result<InferredType, Error>)
        requires
            old(self)@.frames.len() > 0,
            old(self)@.frames.last().dead,
        ensures
            match spec_check_dead(old(self)@, instr.deep_view(), pos) {
                Ok(o) => r matches Ok(inf) && inf@ == o.1 && final(self)@ == o.0,
                Err(e) => r matches Err(e2) && e2 == e,
            },
    {
        let n = self.frames.len();
        let top = self.frames[n - 1];
        match instr {
            Instr::End => {
                let _ = self.frames.pop();
                if let Some(t) = top.result {
                    self.vals.push(t);
                }
                Ok(InferredType::Unreachable)
            },
            Instr::Else => {
                if top.kind != FrameKind::If {
                    return Err(Error::at(ErrorKind::TypeCheck, pos));
                }
                let _ = self.frames.pop();
                self.frames.push(CtrlFrame { kind: FrameKind::Else, dead: false, ..top });
                Ok(InferredType::Unreachable)
            },
            Instr::Block(_) | Instr::Loop(_) | Instr::If(_) => Err(
                Error::at(ErrorKind::Unsupported, pos),
            ),
            _ => Ok(InferredType::Unreachable),
        }
    }

    /// Classify the next instruction of the stream and advance the
    /// validation state, exactly as `spec_check` prescribes.
    pub fn check_next_instr(&mut self, instr: &Instr, m: &Module, pos: usize) -> (r: Result<
        InferredType,
        Error,
    >)
        ensures
            match spec_check(old(self)@, instr.deep_view(), m.deep_view(), pos) {
                Ok(o) => r matches Ok(inf) && inf@ == o.1 && final(self)@ == o.0,
                Err(e) => r matches Err(e2) && e2 == e,
            },
    {
        let n = self.frames.len();
        if n == 0 {
            return Err(Error::at(ErrorKind::TypeCheck, pos));
        }
        if self.frames[n - 1].dead {
            self.check_dead(instr, pos)
        } else {
            match instr {
                Instr::Unreachable | Instr::Nop | Instr::Block(_) | Instr::Loop(_) | Instr::If(_)
                | Instr::Else | Instr::End => self.check_live_ctrl(instr, m, pos),
                Instr::Return | Instr::Br(_) | Instr::BrIf(_) | Instr::BrTable { .. } => self
                    .check_live_branch(instr, m, pos),
                Instr::Call(_) | Instr::CallIndirect(_, _) | Instr::Drop | Instr::Select => self
                    .check_live_call(instr, m, pos),
                Instr::LocalGet(_) | Instr::LocalSet(_) | Instr::LocalTee(_) | Instr::GlobalGet(_)
                | Instr::GlobalSet(_) => self.check_live_var(instr, m, pos),
                Instr::Load(_, _) | Instr::Store(_, _) | Instr::MemorySize(_)
                | Instr::MemoryGrow(_) | Instr::Const(_) | Instr::Unary(_) | Instr::Binary(_) => self
                    .check_live_op(instr, m, pos),
            }
        }
    }
}

} // verus!
