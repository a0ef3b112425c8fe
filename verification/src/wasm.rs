//! The WebAssembly-side abstract syntax consumed by the lowering: value
//! types, constants, the instruction families of the MVP feature set, and
//! the module structure (functions with their signatures, locals and
//! bodies; globals and tables, which the lowering copies through).
//!
//! Every type has a mathematical view: heap-free types stand for themselves,
//! the others map to `Seq`-based mirrors through `DeepView`.

use vstd::prelude::*;

verus! {

/// A WebAssembly value type.
#[derive(Clone, Copy, PartialEq, Eq, Structural, Debug)]
pub enum ValType {
    I32,
    I64,
    F32,
    F64,
}

impl DeepView for ValType {
    type V = ValType;

    open spec fn deep_view(&self) -> ValType {
        *self
    }
}

/// A constant value. Floating-point constants are carried as their raw bit
/// patterns; the lowering never interprets them.
#[derive(Clone, Copy, PartialEq, Eq, Structural, Debug)]
pub enum Val {
    I32(i32),
    I64(i64),
    F32Bits(u32),
    F64Bits(u64),
}

impl DeepView for Val {
    type V = Val;

    open spec fn deep_view(&self) -> Val {
        *self
    }
}

impl Val {
    /// The value type this constant inhabits.
    pub open spec fn spec_ty(self) -> ValType {
        match self {
            Val::I32(_) => ValType::I32,
            Val::I64(_) => ValType::I64,
            Val::F32Bits(_) => ValType::F32,
            Val::F64Bits(_) => ValType::F64,
        }
    }

    pub fn ty(&self) -> (r: ValType)
        ensures
            r == self.spec_ty(),
    {
        match self {
            Val::I32(_) => ValType::I32,
            Val::I64(_) => ValType::I64,
            Val::F32Bits(_) => ValType::F32,
            Val::F64Bits(_) => ValType::F64,
        }
    }

    /// The zero value with which a declared local of type `t` starts.
    pub open spec fn spec_zero(t: ValType) -> Val {
        match t {
            ValType::I32 => Val::I32(0),
            ValType::I64 => Val::I64(0),
            ValType::F32 => Val::F32Bits(0),
            ValType::F64 => Val::F64Bits(0),
        }
    }

    pub fn zero(t: ValType) -> (r: Val)
        ensures
            r == Val::spec_zero(t),
    {
        match t {
            ValType::I32 => Val::I32(0),
            ValType::I64 => Val::I64(0),
            ValType::F32 => Val::F32Bits(0),
            ValType::F64 => Val::F64Bits(0),
        }
    }
}

/// The result annotation of a `block`, `loop` or `if`: at most one value in
/// the MVP.
#[derive(Clone, Copy, PartialEq, Eq, Debug)]
pub struct BlockType(pub Option<ValType>);

impl DeepView for BlockType {
    type V = BlockType;

    open spec fn deep_view(&self) -> BlockType {
        *self
    }
}

/// The static part of a memory access: byte offset and (advisory) alignment
/// exponent. The lowering folds the offset into the address expression and
/// discards the alignment.
#[derive(Clone, Copy, PartialEq, Eq, Structural, Debug)]
pub struct Memarg {
    pub offset: u32,
    pub alignment_exp: u8,
}

impl DeepView for Memarg {
    type V = Memarg;

    open spec fn deep_view(&self) -> Memarg {
        *self
    }
}

/// Integer unary operators of the MVP subset.
#[derive(Clone, Copy, PartialEq, Eq, Structural, Debug)]
pub enum UnaryOp {
    I32Eqz,
    I32Clz,
    I32Ctz,
    I32Popcnt,
    I64Eqz,
    I64Clz,
    I64Ctz,
    I64Popcnt,
    I32WrapI64,
    I64ExtendI32S,
    I64ExtendI32U,
}

impl DeepView for UnaryOp {
    type V = UnaryOp;

    open spec fn deep_view(&self) -> UnaryOp {
        *self
    }
}

impl UnaryOp {
    /// The operand type of the operator.
    pub open spec fn spec_input_ty(self) -> ValType {
        match self {
            UnaryOp::I32Eqz => ValType::I32,
            UnaryOp::I32Clz => ValType::I32,
            UnaryOp::I32Ctz => ValType::I32,
            UnaryOp::I32Popcnt => ValType::I32,
            UnaryOp::I64Eqz => ValType::I64,
            UnaryOp::I64Clz => ValType::I64,
            UnaryOp::I64Ctz => ValType::I64,
            UnaryOp::I64Popcnt => ValType::I64,
            UnaryOp::I32WrapI64 => ValType::I64,
            UnaryOp::I64ExtendI32S => ValType::I32,
            UnaryOp::I64ExtendI32U => ValType::I32,
        }
    }

    /// The result type of the operator.
    pub open spec fn spec_result_ty(self) -> ValType {
        match self {
            UnaryOp::I32Eqz => ValType::I32,
            UnaryOp::I32Clz => ValType::I32,
            UnaryOp::I32Ctz => ValType::I32,
            UnaryOp::I32Popcnt => ValType::I32,
            UnaryOp::I64Eqz => ValType::I32,
            UnaryOp::I64Clz => ValType::I64,
            UnaryOp::I64Ctz => ValType::I64,
            UnaryOp::I64Popcnt => ValType::I64,
            UnaryOp::I32WrapI64 => ValType::I32,
            UnaryOp::I64ExtendI32S => ValType::I64,
            UnaryOp::I64ExtendI32U => ValType::I64,
        }
    }

    pub fn input_ty(&self) -> (r: ValType)
        ensures
            r == self.spec_input_ty(),
    {
        match self {
            UnaryOp::I32Eqz | UnaryOp::I32Clz | UnaryOp::I32Ctz | UnaryOp::I32Popcnt
            | UnaryOp::I64ExtendI32S | UnaryOp::I64ExtendI32U => ValType::I32,
            _ => ValType::I64,
        }
    }

    pub fn result_ty(&self) -> (r: ValType)
        ensures
            r == self.spec_result_ty(),
    {
        match self {
            UnaryOp::I32Eqz | UnaryOp::I32Clz | UnaryOp::I32Ctz | UnaryOp::I32Popcnt
            | UnaryOp::I64Eqz | UnaryOp::I32WrapI64 => ValType::I32,
            _ => ValType::I64,
        }
    }
}

/// Integer binary operators of the MVP subset. Comparison operators yield
/// `i32`.
#[derive(Clone, Copy, PartialEq, Eq, Structural, Debug)]
pub enum BinaryOp {
    I32Add,
    I32Sub,
    I32Mul,
    I32And,
    I32Or,
    I32Xor,
    I32Shl,
    I32Eq,
    I32Ne,
    I32LtS,
    I32LtU,
    I32GtS,
    I64Add,
    I64Sub,
    I64Mul,
    I64Eq,
    I64LtS,
}

impl DeepView for BinaryOp {
    type V = BinaryOp;

    open spec fn deep_view(&self) -> BinaryOp {
        *self
    }
}

impl BinaryOp {
    /// The type of both operands.
    pub open spec fn spec_input_ty(self) -> ValType {
        match self {
            BinaryOp::I64Add | BinaryOp::I64Sub | BinaryOp::I64Mul | BinaryOp::I64Eq
            | BinaryOp::I64LtS => ValType::I64,
            _ => ValType::I32,
        }
    }

    /// The result type.
    pub open spec fn spec_result_ty(self) -> ValType {
        match self {
            BinaryOp::I64Add | BinaryOp::I64Sub | BinaryOp::I64Mul => ValType::I64,
            _ => ValType::I32,
        }
    }

    pub fn input_ty(&self) -> (r: ValType)
        ensures
            r == self.spec_input_ty(),
    {
        match self {
            BinaryOp::I64Add | BinaryOp::I64Sub | BinaryOp::I64Mul | BinaryOp::I64Eq
            | BinaryOp::I64LtS => ValType::I64,
            _ => ValType::I32,
        }
    }

    pub fn result_ty(&self) -> (r: ValType)
        ensures
            r == self.spec_result_ty(),
    {
        match self {
            BinaryOp::I64Add | BinaryOp::I64Sub | BinaryOp::I64Mul => ValType::I64,
            _ => ValType::I32,
        }
    }
}

/// Typed loads of the MVP subset.
#[derive(Clone, Copy, PartialEq, Eq, Structural, Debug)]
pub enum LoadOp {
    I32Load,
    I64Load,
    I32Load8S,
    I32Load8U,
    I32Load16S,
    I32Load16U,
}

impl DeepView for LoadOp {
    type V = LoadOp;

    open spec fn deep_view(&self) -> LoadOp {
        *self
    }
}

impl LoadOp {
    /// The type of the loaded value.
    pub open spec fn spec_result_ty(self) -> ValType {
        match self {
            LoadOp::I64Load => ValType::I64,
            _ => ValType::I32,
        }
    }

    pub fn result_ty(&self) -> (r: ValType)
        ensures
            r == self.spec_result_ty(),
    {
        match self {
            LoadOp::I64Load => ValType::I64,
            _ => ValType::I32,
        }
    }
}

/// Typed stores of the MVP subset.
#[derive(Clone, Copy, PartialEq, Eq, Structural, Debug)]
pub enum StoreOp {
    I32Store,
    I64Store,
    I32Store8,
    I32Store16,
}

impl DeepView for StoreOp {
    type V = StoreOp;

    open spec fn deep_view(&self) -> StoreOp {
        *self
    }
}

impl StoreOp {
    /// The type of the stored value.
    pub open spec fn spec_value_ty(self) -> ValType {
        match self {
            StoreOp::I64Store => ValType::I64,
            _ => ValType::I32,
        }
    }

    pub fn value_ty(&self) -> (r: ValType)
        ensures
            r == self.spec_value_ty(),
    {
        match self {
            StoreOp::I64Store => ValType::I64,
            _ => ValType::I32,
        }
    }
}

/// A function signature.
#[derive(Clone, PartialEq, Eq, Debug)]
pub struct FunctionType {
    pub inputs: Vec<ValType>,
    pub results: Vec<ValType>,
}

/// Mathematical mirror of `FunctionType`.
#[verifier::ext_equal]
pub struct FuncTypeV {
    pub inputs: Seq<ValType>,
    pub results: Seq<ValType>,
}

impl DeepView for FunctionType {
    type V = FuncTypeV;

    open spec fn deep_view(&self) -> FuncTypeV {
        FuncTypeV { inputs: self.inputs@, results: self.results@ }
    }
}

/// One instruction of the input stream, grouped by family as the lowering
/// dispatches on it.
#[derive(Clone, PartialEq, Eq, Debug)]
pub enum Instr {
    Unreachable,
    Nop,
    Block(BlockType),
    Loop(BlockType),
    If(BlockType),
    Else,
    End,
    Return,
    Br(u32),
    BrIf(u32),
    BrTable { table: Vec<u32>, default: u32 },
    Call(u32),
    CallIndirect(FunctionType, u32),
    Drop,
    Select,
    LocalGet(u32),
    LocalSet(u32),
    LocalTee(u32),
    GlobalGet(u32),
    GlobalSet(u32),
    Load(LoadOp, Memarg),
    Store(StoreOp, Memarg),
    MemorySize(u32),
    MemoryGrow(u32),
    Const(Val),
    Unary(UnaryOp),
    Binary(BinaryOp),
}

/// Mathematical mirror of `Instr`.
#[verifier::ext_equal]
pub enum InstrV {
    Unreachable,
    Nop,
    Block(BlockType),
    Loop(BlockType),
    If(BlockType),
    Else,
    End,
    Return,
    Br(u32),
    BrIf(u32),
    BrTable { table: Seq<u32>, default: u32 },
    Call(u32),
    CallIndirect(FuncTypeV, u32),
    Drop,
    Select,
    LocalGet(u32),
    LocalSet(u32),
    LocalTee(u32),
    GlobalGet(u32),
    GlobalSet(u32),
    Load(LoadOp, Memarg),
    Store(StoreOp, Memarg),
    MemorySize(u32),
    MemoryGrow(u32),
    Const(Val),
    Unary(UnaryOp),
    Binary(BinaryOp),
}

impl DeepView for Instr {
    type V = InstrV;

    open spec fn deep_view(&self) -> InstrV {
        match self {
            Instr::Unreachable => InstrV::Unreachable,
            Instr::Nop => InstrV::Nop,
            Instr::Block(bt) => InstrV::Block(*bt),
            Instr::Loop(bt) => InstrV::Loop(*bt),
            Instr::If(bt) => InstrV::If(*bt),
            Instr::Else => InstrV::Else,
            Instr::End => InstrV::End,
            Instr::Return => InstrV::Return,
            Instr::Br(l) => InstrV::Br(*l),
            Instr::BrIf(l) => InstrV::BrIf(*l),
            Instr::BrTable { table, default } => InstrV::BrTable { table: table@, default: *default },
            Instr::Call(f) => InstrV::Call(*f),
            Instr::CallIndirect(ft, t) => InstrV::CallIndirect(ft.deep_view(), *t),
            Instr::Drop => InstrV::Drop,
            Instr::Select => InstrV::Select,
            Instr::LocalGet(i) => InstrV::LocalGet(*i),
            Instr::LocalSet(i) => InstrV::LocalSet(*i),
            Instr::LocalTee(i) => InstrV::LocalTee(*i),
            Instr::GlobalGet(i) => InstrV::GlobalGet(*i),
            Instr::GlobalSet(i) => InstrV::GlobalSet(*i),
            Instr::Load(op, m) => InstrV::Load(*op, *m),
            Instr::Store(op, m) => InstrV::Store(*op, *m),
            Instr::MemorySize(i) => InstrV::MemorySize(*i),
            Instr::MemoryGrow(i) => InstrV::MemoryGrow(*i),
            Instr::Const(v) => InstrV::Const(*v),
            Instr::Unary(op) => InstrV::Unary(*op),
            Instr::Binary(op) => InstrV::Binary(*op),
        }
    }
}

/// A declared (non-parameter) local variable of a function.
#[derive(Clone, PartialEq, Eq, Debug)]
pub struct LocalDecl {
    pub type_: ValType,
    /// A debug name, if the input carried one. Named locals are not
    /// supported by the lowering and are rejected.
    pub name: Option<String>,
}

/// Mathematical mirror of `LocalDecl`.
#[verifier::ext_equal]
pub struct LocalDeclV {
    pub type_: ValType,
    pub name: Option<Seq<char>>,
}

impl DeepView for LocalDecl {
    type V = LocalDeclV;

    open spec fn deep_view(&self) -> LocalDeclV {
        LocalDeclV { type_: self.type_, name: self.name.deep_view() }
    }
}

/// The body of a non-imported function.
#[derive(Clone, PartialEq, Eq, Debug)]
pub struct Code {
    pub body: Vec<Instr>,
}

impl DeepView for Code {
    type V = Seq<InstrV>;

    open spec fn deep_view(&self) -> Seq<InstrV> {
        self.body.deep_view()
    }
}

/// One function of the input module. Imported functions have no code.
#[derive(Clone, PartialEq, Eq, Debug)]
pub struct Function {
    pub type_: FunctionType,
    pub locals: Vec<LocalDecl>,
    pub code: Option<Code>,
    pub export: Vec<String>,
    /// A debug name, if available.
    pub name: Option<String>,
}

/// Mathematical mirror of `Function`.
#[verifier::ext_equal]
pub struct FunctionV {
    pub type_: FuncTypeV,
    pub locals: Seq<LocalDeclV>,
    pub code: Option<Seq<InstrV>>,
    pub export: Seq<Seq<char>>,
    pub name: Option<Seq<char>>,
}

impl DeepView for Function {
    type V = FunctionV;

    open spec fn deep_view(&self) -> FunctionV {
        FunctionV {
            type_: self.type_.deep_view(),
            locals: self.locals.deep_view(),
            code: self.code.deep_view(),
            export: self.export.deep_view(),
            name: self.name.deep_view(),
        }
    }
}

/// A module global: its type, mutability and initializer expression, which
/// the lowering copies through un-lowered.
#[derive(Clone, PartialEq, Eq, Debug)]
pub struct Global {
    pub type_: ValType,
    pub mutable: bool,
    pub init: Vec<Instr>,
}

/// Mathematical mirror of `Global`.
#[verifier::ext_equal]
pub struct GlobalV {
    pub type_: ValType,
    pub mutable: bool,
    pub init: Seq<InstrV>,
}

impl DeepView for Global {
    type V = GlobalV;

    open spec fn deep_view(&self) -> GlobalV {
        GlobalV { type_: self.type_, mutable: self.mutable, init: self.init.deep_view() }
    }
}

/// Size bounds of a table, in elements.
#[derive(Clone, Copy, PartialEq, Eq, Debug)]
pub struct Limits {
    pub initial: u32,
    pub maximum: Option<u32>,
}

/// A function table, copied through by the lowering.
#[derive(Clone, Copy, PartialEq, Eq, Debug)]
pub struct Table {
    pub limits: Limits,
}

impl DeepView for Table {
    type V = Table;

    open spec fn deep_view(&self) -> Table {
        *self
    }
}

/// A validated input module.
#[derive(Clone, PartialEq, Eq, Debug)]
pub struct Module {
    pub functions: Vec<Function>,
    pub globals: Vec<Global>,
    pub tables: Vec<Table>,
}

/// Mathematical mirror of `Module`.
#[verifier::ext_equal]
pub struct ModuleV {
    pub functions: Seq<FunctionV>,
    pub globals: Seq<GlobalV>,
    pub tables: Seq<Table>,
}

impl DeepView for Module {
    type V = ModuleV;

    open spec fn deep_view(&self) -> ModuleV {
        ModuleV {
            functions: self.functions.deep_view(),
            globals: self.globals.deep_view(),
            tables: self.tables.deep_view(),
        }
    }
}

} // verus!
