//! Wimpl, the target intermediate representation: named variables,
//! expression trees, and statements with structured, labeled control flow.
//!
//! Each type has a `Seq`-based mathematical mirror reached through
//! `DeepView`; the lowering's contracts are stated over the mirrors.

use vstd::prelude::*;

use crate::wasm::{BinaryOp, FuncTypeV, FunctionType, Global, GlobalV, LoadOp, StoreOp, Table, UnaryOp, Val, ValType};

verus! {

/// A Wimpl variable, one of five disjoint families plus the return slot.
#[derive(Clone, Copy, PartialEq, Eq, Structural, Debug)]
pub enum Var {
    /// Function parameter `i`.
    Param(u32),
    /// Declared local `i`, counted from zero after the parameters.
    Local(u32),
    /// Module global `i`.
    Global(u32),
    /// Fresh temporary holding a materialized expression; single-assignment.
    Stack(u32),
    /// The value produced by the block labeled `L`.
    BlockResult(u32),
    /// The function's return slot.
    Return(u32),
}

impl DeepView for Var {
    type V = Var;

    open spec fn deep_view(&self) -> Var {
        *self
    }
}

/// A dense, monotonically assigned identifier of a structured block; label 0
/// is the synthetic function-body block.
#[derive(Clone, Copy, PartialEq, Eq, Structural, Debug)]
pub struct Label(pub u32);

impl DeepView for Label {
    type V = Label;

    open spec fn deep_view(&self) -> Label {
        *self
    }
}

/// The identifier of a lowered function, derived deterministically from the
/// function's index and any available name.
#[derive(Clone, PartialEq, Eq, Hash, Debug)]
pub enum FunctionId {
    Name(String),
    Idx(u32),
}

/// Mathematical mirror of `FunctionId`.
#[verifier::ext_equal]
pub enum FunctionIdV {
    Name(Seq<char>),
    Idx(u32),
}

impl DeepView for FunctionId {
    type V = FunctionIdV;

    open spec fn deep_view(&self) -> FunctionIdV {
        match self {
            FunctionId::Name(s) => FunctionIdV::Name(s@),
            FunctionId::Idx(i) => FunctionIdV::Idx(*i),
        }
    }
}

/// A Wimpl expression tree. Expressions are pure at the IR level; an
/// expression with side effects (a call, a load, `memory.grow`) appears as
/// an expression only where its result is consumed, and as a statement
/// otherwise.
#[derive(Debug)]
pub enum Expr {
    /// A variable reference.
    VarRef(Var),
    /// A constant.
    Const(Val),
    /// A unary operator applied to a sub-expression.
    Unary(UnaryOp, Box<Expr>),
    /// A binary operator applied to two sub-expressions, left then right.
    Binary(BinaryOp, Box<Expr>, Box<Expr>),
    /// A typed load from linear memory at the given address.
    Load { op: LoadOp, addr: Box<Expr> },
    /// The current size of linear memory, in pages.
    MemorySize,
    /// Grow linear memory by the given number of pages.
    MemoryGrow { pages: Box<Expr> },
    /// A direct call.
    Call { func: FunctionId, args: Vec<Expr> },
    /// An indirect call through the table at the given index expression.
    CallIndirect { type_: FunctionType, table_idx: Box<Expr>, args: Vec<Expr> },
}

/// Mathematical mirror of `Expr`.
#[verifier::ext_equal]
pub enum ExprV {
    VarRef(Var),
    Const(Val),
    Unary(UnaryOp, Box<ExprV>),
    Binary(BinaryOp, Box<ExprV>, Box<ExprV>),
    Load { op: LoadOp, addr: Box<ExprV> },
    MemorySize,
    MemoryGrow { pages: Box<ExprV> },
    Call { func: FunctionIdV, args: Seq<ExprV> },
    CallIndirect { type_: FuncTypeV, table_idx: Box<ExprV>, args: Seq<ExprV> },
}

/// The mirror of an expression, defined by structural recursion.
pub open spec fn view_expr(e: Expr) -> ExprV
    decreases e,
{
    match e {
        Expr::VarRef(v) => ExprV::VarRef(v),
        Expr::Const(c) => ExprV::Const(c),
        Expr::Unary(op, sub) => ExprV::Unary(op, Box::new(view_expr(*sub))),
        Expr::Binary(op, l, r) => ExprV::Binary(op, Box::new(view_expr(*l)), Box::new(view_expr(*r))),
        Expr::Load { op, addr } => ExprV::Load { op, addr: Box::new(view_expr(*addr)) },
        Expr::MemorySize => ExprV::MemorySize,
        Expr::MemoryGrow { pages } => ExprV::MemoryGrow { pages: Box::new(view_expr(*pages)) },
        Expr::Call { func, args } => ExprV::Call { func: func.deep_view(), args: view_exprs(args) },
        Expr::CallIndirect { type_, table_idx, args } => ExprV::CallIndirect {
            type_: type_.deep_view(),
            table_idx: Box::new(view_expr(*table_idx)),
            args: view_exprs(args),
        },
    }
}

/// The mirrors of a vector of expressions, elementwise.
pub open spec fn view_exprs(v: Vec<Expr>) -> Seq<ExprV>
    decreases v,
{
    Seq::new(v@.len(), |i: int| if 0 <= i < v@.len() { view_expr(v[i]) } else { ExprV::MemorySize })
}

impl DeepView for Expr {
    type V = ExprV;

    open spec fn deep_view(&self) -> ExprV {
        view_expr(*self)
    }
}

/// A Wimpl statement.
#[derive(Debug)]
pub enum Stmt {
    /// Trap unconditionally.
    Unreachable,
    /// Evaluate the expression for its side effects and discard the result.
    Expr(Expr),
    /// Assign the expression's value to the variable.
    Assign { lhs: Var, type_: ValType, rhs: Expr },
    /// A typed store to linear memory.
    Store { op: StoreOp, addr: Expr, value: Expr },
    /// Branch to the given label.
    Br { target: Label },
    /// A labeled block; branches to `end_label` leave the block.
    Block { body: Body, end_label: Label },
    /// A labeled loop; branches to `begin_label` restart it.
    Loop { begin_label: Label, body: Body },
    /// A two-armed conditional; Wimpl's `if` itself carries no label.
    If { condition: Expr, if_body: Body, else_body: Option<Body> },
    /// A multi-way branch on the index expression.
    Switch { index: Expr, cases: Vec<Body>, default: Body },
}

/// Mathematical mirror of `Stmt`.
#[verifier::ext_equal]
pub enum StmtV {
    Unreachable,
    Expr(ExprV),
    Assign { lhs: Var, type_: ValType, rhs: ExprV },
    Store { op: StoreOp, addr: ExprV, value: ExprV },
    Br { target: Label },
    Block { body: Seq<StmtV>, end_label: Label },
    Loop { begin_label: Label, body: Seq<StmtV> },
    If { condition: ExprV, if_body: Seq<StmtV>, else_body: Option<Seq<StmtV>> },
    Switch { index: ExprV, cases: Seq<Seq<StmtV>>, default: Seq<StmtV> },
}

/// The mirror of a statement, defined by structural recursion.
pub open spec fn view_stmt(s: Stmt) -> StmtV
    decreases s,
{
    match s {
        Stmt::Unreachable => StmtV::Unreachable,
        Stmt::Expr(e) => StmtV::Expr(view_expr(e)),
        Stmt::Assign { lhs, type_, rhs } => StmtV::Assign { lhs, type_, rhs: view_expr(rhs) },
        Stmt::Store { op, addr, value } => StmtV::Store { op, addr: view_expr(addr), value: view_expr(value) },
        Stmt::Br { target } => StmtV::Br { target },
        Stmt::Block { body, end_label } => StmtV::Block { body: view_stmts(body.0), end_label },
        Stmt::Loop { begin_label, body } => StmtV::Loop { begin_label, body: view_stmts(body.0) },
        Stmt::If { condition, if_body, else_body } => StmtV::If {
            condition: view_expr(condition),
            if_body: view_stmts(if_body.0),
            else_body: match else_body {
                Some(b) => Some(view_stmts(b.0)),
                None => None,
            },
        },
        Stmt::Switch { index, cases, default } => StmtV::Switch {
            index: view_expr(index),
            cases: view_bodies(cases),
            default: view_stmts(default.0),
        },
    }
}

/// The mirrors of a vector of statements, elementwise.
pub open spec fn view_stmts(v: Vec<Stmt>) -> Seq<StmtV>
    decreases v,
{
    Seq::new(v@.len(), |i: int| if 0 <= i < v@.len() { view_stmt(v[i]) } else { StmtV::Unreachable })
}

/// The mirrors of a vector of bodies, elementwise.
pub open spec fn view_bodies(v: Vec<Body>) -> Seq<Seq<StmtV>>
    decreases v,
{
    Seq::new(v@.len(), |i: int| if 0 <= i < v@.len() { view_stmts(v[i].0) } else { Seq::empty() })
}


/// The elementwise view of a statement vector agrees with its deep view.
pub proof fn lemma_view_stmts(v: Vec<Stmt>)
    ensures
        view_stmts(v) == v.deep_view(),
{
    assert(view_stmts(v) =~= v.deep_view());
}

/// The elementwise view of an expression vector agrees with its deep view.
pub proof fn lemma_view_exprs(v: Vec<Expr>)
    ensures
        view_exprs(v) == v.deep_view(),
{
    assert(view_exprs(v) =~= v.deep_view());
}

/// The elementwise view of a body vector agrees with its deep view.
pub proof fn lemma_view_bodies(v: Vec<Body>)
    ensures
        view_bodies(v) == v.deep_view(),
{
    assert forall|i: int| 0 <= i < v@.len() implies view_bodies(v)[i] == v.deep_view()[i] by {
        lemma_view_stmts(v@[i].0);
    }
    assert(view_bodies(v) =~= v.deep_view());
}

impl DeepView for Stmt {
    type V = StmtV;

    open spec fn deep_view(&self) -> StmtV {
        view_stmt(*self)
    }
}

/// An ordered sequence of statements.
#[derive(Debug)]
pub struct Body(pub Vec<Stmt>);

impl DeepView for Body {
    type V = Seq<StmtV>;

    open spec fn deep_view(&self) -> Seq<StmtV>
        decreases self,
    {
        self.0.deep_view()
    }
}

/// One lowered function: the input signature and export names, the derived
/// identifier, and the synthesized body.
#[derive(Debug)]
pub struct WFunction {
    pub type_: FunctionType,
    pub body: Body,
    pub name: FunctionId,
    pub export: Vec<String>,
}

/// Mathematical mirror of `WFunction`.
#[verifier::ext_equal]
pub struct WFunctionV {
    pub type_: FuncTypeV,
    pub body: Seq<StmtV>,
    pub name: FunctionIdV,
    pub export: Seq<Seq<char>>,
}

impl DeepView for WFunction {
    type V = WFunctionV;

    open spec fn deep_view(&self) -> WFunctionV {
        WFunctionV {
            type_: self.type_.deep_view(),
            body: self.body.deep_view(),
            name: self.name.deep_view(),
            export: self.export.deep_view(),
        }
    }
}

/// A lowered module: the lowered functions, plus globals and tables copied
/// verbatim from the input.
#[derive(Debug)]
pub struct WModule {
    pub functions: Vec<WFunction>,
    pub globals: Vec<Global>,
    pub tables: Vec<Table>,
}

/// Mathematical mirror of `WModule`.
#[verifier::ext_equal]
pub struct WModuleV {
    pub functions: Seq<WFunctionV>,
    pub globals: Seq<GlobalV>,
    pub tables: Seq<Table>,
}

impl DeepView for WModule {
    type V = WModuleV;

    open spec fn deep_view(&self) -> WModuleV {
        WModuleV {
            functions: self.functions.deep_view(),
            globals: self.globals.deep_view(),
            tables: self.tables.deep_view(),
        }
    }
}

} // verus!
