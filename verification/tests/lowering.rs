use wimpl::ir::{Body, Expr, FunctionId, Label, Stmt, Var};
use wimpl::typecheck::{InferredType, TypeChecker};
use wimpl::wasm::{BinaryOp, BlockType, Code, Function, FunctionType, Instr, Module, Val, ValType};
use wimpl::{wimplify, ErrorKind};

fn func(inputs: Vec<ValType>, results: Vec<ValType>, locals: Vec<ValType>, body: Vec<Instr>) -> Function {
    Function {
        type_: FunctionType { inputs, results },
        locals: locals
            .into_iter()
            .map(|t| wimpl::wasm::LocalDecl { type_: t, name: None })
            .collect(),
        code: Some(Code { body }),
        export: vec![],
        name: None,
    }
}

fn module_of(functions: Vec<Function>) -> Module {
    Module { functions, globals: vec![], tables: vec![] }
}

fn lowered_body(m: &Module, i: usize) -> Vec<Stmt> {
    let w = wimplify(m).expect("lowering should succeed");
    let mut out = w;
    out.functions.remove(i).body.0
}

#[test]
fn checker_classifies_const_as_reachable() {
    let f = func(vec![], vec![], vec![], vec![Instr::Const(Val::I32(1)), Instr::Drop, Instr::End]);
    let m = module_of(vec![f]);
    let mut ck = TypeChecker::begin_function(&m.functions[0], &m);
    let r = ck.check_next_instr(&Instr::Const(Val::I32(1)), &m, 0);
    match r {
        Ok(InferredType::Reachable(sig)) => {
            assert_eq!(sig.result, Some(ValType::I32));
            assert_eq!(sig.inputs.len(), 0);
        },
        _ => panic!("const should be reachable"),
    }
}

#[test]
fn checker_marks_dead_tail_unreachable() {
    let f = func(vec![], vec![], vec![], vec![Instr::Unreachable, Instr::Nop, Instr::End]);
    let m = module_of(vec![f]);
    let mut ck = TypeChecker::begin_function(&m.functions[0], &m);
    assert!(matches!(
        ck.check_next_instr(&Instr::Unreachable, &m, 0),
        Ok(InferredType::Reachable(_))
    ));
    assert!(matches!(ck.check_next_instr(&Instr::Nop, &m, 1), Ok(InferredType::Unreachable)));
    assert!(matches!(ck.check_next_instr(&Instr::End, &m, 2), Ok(InferredType::Unreachable)));
}

#[test]
fn dropped_add_of_constants_becomes_effect_statement() {
    let body = vec![
        Instr::Const(Val::I32(1)),
        Instr::Const(Val::I32(2)),
        Instr::Binary(BinaryOp::I32Add),
        Instr::Drop,
        Instr::End,
    ];
    let m = module_of(vec![func(vec![], vec![], vec![], body)]);
    let out = lowered_body(&m, 0);
    assert_eq!(out.len(), 1);
    match &out[0] {
        Stmt::Expr(Expr::Binary(BinaryOp::I32Add, l, r)) => {
            assert!(matches!(**l, Expr::Const(Val::I32(1))));
            assert!(matches!(**r, Expr::Const(Val::I32(2))));
        },
        other => panic!("expected the dropped addition as a statement, got {:?}", other),
    }
}

#[test]
fn dropped_constant_is_discarded_silently() {
    let body = vec![Instr::Const(Val::I32(1)), Instr::Drop, Instr::End];
    let m = module_of(vec![func(vec![], vec![], vec![], body)]);
    assert!(lowered_body(&m, 0).is_empty());
}

#[test]
fn dropped_call_is_kept_for_its_effects() {
    let callee = func(vec![], vec![ValType::I32], vec![], vec![Instr::Const(Val::I32(7)), Instr::End]);
    let caller = func(vec![], vec![], vec![], vec![Instr::Call(0), Instr::Drop, Instr::End]);
    let m = module_of(vec![callee, caller]);
    let body = lowered_body(&m, 1);
    assert_eq!(body.len(), 1);
    match &body[0] {
        Stmt::Expr(Expr::Call { func: FunctionId::Idx(0), args }) => assert!(args.is_empty()),
        other => panic!("expected the call as an effect statement, got {:?}", other),
    }
}

#[test]
fn locals_add_assigns_local() {
    let body = vec![
        Instr::LocalGet(0),
        Instr::LocalGet(1),
        Instr::Binary(BinaryOp::I32Add),
        Instr::LocalSet(2),
        Instr::End,
    ];
    let m = module_of(vec![func(vec![ValType::I32, ValType::I32], vec![], vec![ValType::I32], body)]);
    let out = lowered_body(&m, 0);
    assert_eq!(out.len(), 2);
    assert!(matches!(
        &out[0],
        Stmt::Assign { lhs: Var::Local(0), type_: ValType::I32, rhs: Expr::Const(Val::I32(0)) }
    ));
    match &out[1] {
        Stmt::Assign { lhs: Var::Local(0), type_: ValType::I32, rhs } => match rhs {
            Expr::Binary(BinaryOp::I32Add, l, r) => {
                assert!(matches!(**l, Expr::VarRef(Var::Param(0))));
                assert!(matches!(**r, Expr::VarRef(Var::Param(1))));
            },
            other => panic!("expected an addition of the parameters, got {:?}", other),
        },
        other => panic!("expected an assignment to the local, got {:?}", other),
    }
}

#[test]
fn block_result_feeds_silent_drop() {
    let body = vec![
        Instr::Block(BlockType(Some(ValType::I32))),
        Instr::Const(Val::I32(7)),
        Instr::End,
        Instr::Drop,
        Instr::End,
    ];
    let m = module_of(vec![func(vec![], vec![], vec![], body)]);
    let out = lowered_body(&m, 0);
    assert_eq!(out.len(), 1);
    match &out[0] {
        Stmt::Block { body: Body(inner), end_label: Label(1) } => {
            assert_eq!(inner.len(), 1);
            assert!(matches!(
                &inner[0],
                Stmt::Assign {
                    lhs: Var::BlockResult(1),
                    type_: ValType::I32,
                    rhs: Expr::Const(Val::I32(7)),
                }
            ));
        },
        other => panic!("expected a labeled block, got {:?}", other),
    }
}

#[test]
fn if_with_else_is_wrapped_in_labeled_block() {
    let body = vec![
        Instr::Const(Val::I32(0)),
        Instr::If(BlockType(Some(ValType::I32))),
        Instr::Const(Val::I32(1)),
        Instr::Else,
        Instr::Const(Val::I32(2)),
        Instr::End,
        Instr::Drop,
        Instr::End,
    ];
    let m = module_of(vec![func(vec![], vec![], vec![], body)]);
    let out = lowered_body(&m, 0);
    assert_eq!(out.len(), 1);
    match &out[0] {
        Stmt::Block { body: Body(inner), end_label: Label(1) } => {
            assert_eq!(inner.len(), 1);
            match &inner[0] {
                Stmt::If { condition, if_body: Body(t), else_body: Some(Body(e)) } => {
                    assert!(matches!(condition, Expr::Const(Val::I32(0))));
                    assert_eq!(t.len(), 1);
                    assert!(matches!(
                        &t[0],
                        Stmt::Assign {
                            lhs: Var::BlockResult(1),
                            type_: ValType::I32,
                            rhs: Expr::Const(Val::I32(1)),
                        }
                    ));
                    assert_eq!(e.len(), 1);
                    assert!(matches!(
                        &e[0],
                        Stmt::Assign {
                            lhs: Var::BlockResult(1),
                            type_: ValType::I32,
                            rhs: Expr::Const(Val::I32(2)),
                        }
                    ));
                },
                other => panic!("expected a conditional, got {:?}", other),
            }
        },
        other => panic!("expected a labeled block, got {:?}", other),
    }
}

#[test]
fn br_if_to_function_body_keeps_fallthrough_value() {
    let body = vec![
        Instr::Const(Val::I32(5)),
        Instr::Const(Val::I32(0)),
        Instr::BrIf(0),
        Instr::Drop,
        Instr::End,
    ];
    let m = module_of(vec![func(vec![], vec![], vec![], body)]);
    let out = lowered_body(&m, 0);
    assert_eq!(out.len(), 1);
    match &out[0] {
        Stmt::If { condition, if_body: Body(t), else_body: None } => {
            assert!(matches!(condition, Expr::Const(Val::I32(0))));
            assert_eq!(t.len(), 1);
            assert!(matches!(&t[0], Stmt::Br { target: Label(0) }));
        },
        other => panic!("expected a conditional branch, got {:?}", other),
    }
}

#[test]
fn trailing_unreachable_is_final_statement() {
    let body = vec![Instr::Unreachable, Instr::End];
    let m = module_of(vec![func(vec![], vec![], vec![], body)]);
    let out = lowered_body(&m, 0);
    assert_eq!(out.len(), 1);
    assert!(matches!(&out[0], Stmt::Unreachable));
}

#[test]
fn br_carries_block_result_on_its_path_only() {
    let body = vec![
        Instr::Block(BlockType(Some(ValType::I32))),
        Instr::Const(Val::I32(7)),
        Instr::Br(0),
        Instr::End,
        Instr::Drop,
        Instr::End,
    ];
    let m = module_of(vec![func(vec![], vec![], vec![], body)]);
    let out = lowered_body(&m, 0);
    assert_eq!(out.len(), 1);
    match &out[0] {
        Stmt::Block { body: Body(inner), end_label: Label(1) } => {
            assert_eq!(inner.len(), 2);
            assert!(matches!(
                &inner[0],
                Stmt::Assign {
                    lhs: Var::BlockResult(1),
                    type_: ValType::I32,
                    rhs: Expr::Const(Val::I32(7)),
                }
            ));
            assert!(matches!(&inner[1], Stmt::Br { target: Label(1) }));
        },
        other => panic!("expected a labeled block, got {:?}", other),
    }
}

#[test]
fn empty_body_lowers_to_locals_initialization() {
    let m = module_of(vec![func(vec![], vec![], vec![ValType::I64], vec![Instr::End])]);
    let out = lowered_body(&m, 0);
    assert_eq!(out.len(), 1);
    assert!(matches!(
        &out[0],
        Stmt::Assign { lhs: Var::Local(0), type_: ValType::I64, rhs: Expr::Const(Val::I64(0)) }
    ));
}

#[test]
fn imported_function_lowers_to_empty_body() {
    let f = Function {
        type_: FunctionType { inputs: vec![], results: vec![] },
        locals: vec![],
        code: None,
        export: vec![],
        name: None,
    };
    let m = module_of(vec![f]);
    assert!(lowered_body(&m, 0).is_empty());
}

#[test]
fn return_assigns_the_return_slot() {
    let body = vec![Instr::Const(Val::I32(3)), Instr::Return, Instr::End];
    let m = module_of(vec![func(vec![], vec![ValType::I32], vec![], body)]);
    let out = lowered_body(&m, 0);
    assert_eq!(out.len(), 2);
    assert!(matches!(
        &out[0],
        Stmt::Assign { lhs: Var::Return(0), type_: ValType::I32, rhs: Expr::Const(Val::I32(3)) }
    ));
    assert!(matches!(&out[1], Stmt::Br { target: Label(0) }));
}

#[test]
fn lowering_twice_yields_identical_output() {
    let body = vec![
        Instr::Const(Val::I32(0)),
        Instr::If(BlockType(Some(ValType::I32))),
        Instr::Const(Val::I32(1)),
        Instr::Else,
        Instr::Const(Val::I32(2)),
        Instr::End,
        Instr::Drop,
        Instr::End,
    ];
    let m = module_of(vec![func(vec![], vec![], vec![ValType::I32], body)]);
    let a = wimplify(&m).expect("first run");
    let b = wimplify(&m).expect("second run");
    assert_eq!(format!("{:?}", a), format!("{:?}", b));
}

#[test]
fn ill_typed_stream_is_a_type_error() {
    let m = module_of(vec![func(vec![], vec![], vec![], vec![Instr::Drop, Instr::End])]);
    let e = wimplify(&m).expect_err("drop of nothing is ill-typed");
    assert_eq!(e.kind, ErrorKind::TypeCheck);
    assert_eq!(e.func, Some(0));
    assert_eq!(e.pos, Some(0));
}

#[test]
fn named_local_is_unsupported() {
    let f = Function {
        type_: FunctionType { inputs: vec![], results: vec![] },
        locals: vec![wimpl::wasm::LocalDecl { type_: ValType::I32, name: Some(String::from("x")) }],
        code: Some(Code { body: vec![Instr::End] }),
        export: vec![],
        name: None,
    };
    let e = wimplify(&module_of(vec![f])).expect_err("named locals are unsupported");
    assert_eq!(e.kind, ErrorKind::Unsupported);
}

#[test]
fn multi_value_result_is_unsupported() {
    let f = func(vec![], vec![ValType::I32, ValType::I32], vec![], vec![Instr::End]);
    let e = wimplify(&module_of(vec![f])).expect_err("multi-value results are unsupported");
    assert_eq!(e.kind, ErrorKind::Unsupported);
}

#[test]
fn duplicate_function_names_clash() {
    let mut a = func(vec![], vec![], vec![], vec![Instr::End]);
    a.name = Some(String::from("same"));
    let mut b = func(vec![], vec![], vec![], vec![Instr::End]);
    b.name = Some(String::from("same"));
    let e = wimplify(&module_of(vec![a, b])).expect_err("identical identifiers must clash");
    assert_eq!(e.kind, ErrorKind::NameClash);
}

#[test]
fn structured_instruction_in_dead_tail_is_unsupported() {
    let body = vec![
        Instr::Unreachable,
        Instr::Block(BlockType(None)),
        Instr::End,
        Instr::End,
    ];
    let m = module_of(vec![func(vec![], vec![], vec![], body)]);
    let e = wimplify(&m).expect_err("a block inside a dead tail is not supported");
    assert_eq!(e.kind, ErrorKind::Unsupported);
}

#[test]
fn globals_and_tables_are_copied_through() {
    let g = wimpl::wasm::Global {
        type_: ValType::I64,
        mutable: true,
        init: vec![Instr::Const(Val::I64(9)), Instr::End],
    };
    let t = wimpl::wasm::Table {
        limits: wimpl::wasm::Limits { initial: 4, maximum: Some(8) },
    };
    let m = Module { functions: vec![], globals: vec![g], tables: vec![t] };
    let w = wimplify(&m).expect("module without functions lowers");
    assert_eq!(w.functions.len(), 0);
    assert_eq!(w.globals.len(), 1);
    assert_eq!(w.globals[0].type_, ValType::I64);
    assert!(w.globals[0].mutable);
    assert_eq!(w.globals[0].init.len(), 2);
    assert_eq!(w.tables.len(), 1);
    assert_eq!(w.tables[0].limits.initial, 4);
    assert_eq!(w.tables[0].limits.maximum, Some(8));
}

#[test]
fn select_materializes_both_arms_into_a_temporary() {
    let callee = func(vec![], vec![ValType::I32], vec![], vec![Instr::Const(Val::I32(7)), Instr::End]);
    let body = vec![
        Instr::Call(0),
        Instr::Call(0),
        Instr::Const(Val::I32(1)),
        Instr::Select,
        Instr::Drop,
        Instr::End,
    ];
    let caller = func(vec![], vec![], vec![], body);
    let m = module_of(vec![callee, caller]);
    let out = lowered_body(&m, 1);
    assert_eq!(out.len(), 3);
    assert!(matches!(
        &out[0],
        Stmt::Assign { lhs: Var::Stack(0), type_: ValType::I32, rhs: Expr::Call { .. } }
    ));
    assert!(matches!(
        &out[1],
        Stmt::Assign { lhs: Var::Stack(1), type_: ValType::I32, rhs: Expr::Call { .. } }
    ));
    match &out[2] {
        Stmt::If { condition, if_body: Body(t), else_body: Some(Body(e)) } => {
            assert!(matches!(condition, Expr::Const(Val::I32(1))));
            assert!(matches!(
                &t[0],
                Stmt::Assign { lhs: Var::Stack(2), rhs: Expr::VarRef(Var::Stack(0)), .. }
            ));
            assert!(matches!(
                &e[0],
                Stmt::Assign { lhs: Var::Stack(2), rhs: Expr::VarRef(Var::Stack(1)), .. }
            ));
        },
        other => panic!("expected a conditional select, got {:?}", other),
    }
}
