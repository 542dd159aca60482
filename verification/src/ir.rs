use vstd::prelude::*;

verus! {

/// The element kinds that a pointer type of the plan points to.
#[derive(Clone, Copy, Debug, PartialEq, Eq, Structural)]
pub enum PointeeType {
    Void,
    Int8,
    Int16,
    Int32,
    Int64,
    Float32,
    Float64,
}

/// The types that the plan names.
#[derive(Clone, Copy, Debug, PartialEq, Eq, Structural)]
pub enum IrType {
    Void,
    Int1,
    Int8,
    Int16,
    Int32,
    Int64,
    Float32,
    Float64,
    /// The integer as wide as a pointer of the target.
    IntPtr,
    /// A pointer to the given element kind.
    Ptr(PointeeType),
    /// The type of the value that the operation with this index produced.
    TypeOf(usize),
    /// A pointer to the type of the value that the operation with this index produced.
    PtrToTypeOf(usize),
    /// A pointer to a pointer to the function type with this index in the module.
    PtrToFunctionPtr(usize),
}

/// The integer type of a memory address of width `size_of::<T>()` bytes.
pub open spec fn spec_int_wasm_ptr<T>() -> IrType {
    if vstd::layout::size_of::<T>() == 4 { IrType::Int32 } else { IrType::Int64 }
}

/// The integer type that addresses a memory with `T`.
pub fn int_wasm_ptr<T: crate::types::WasmIntType>() -> (t: IrType)
    ensures
        t == spec_int_wasm_ptr::<T>(),
{
    proof {
        T::lemma_width();
    }
    if core::mem::size_of::<T>() == 4 { IrType::Int32 } else { IrType::Int64 }
}

/// A function type: result, parameters, and whether it takes more arguments.
#[derive(Debug)]
pub struct FunctionType {
    pub ret: IrType,
    pub params: Vec<IrType>,
    pub var_arg: bool,
}

/// A constant.
#[derive(Clone, Copy, Debug, PartialEq, Eq, Structural)]
pub enum Constant {
    /// An integer of type `ty` from the bits of `value`, sign extended from 64 bits or not.
    Int { ty: IrType, value: u64, sign_extend: bool },
    /// A single precision float from its bits.
    Real32 { bits: u32 },
    /// A double precision float from its bits.
    Real64 { bits: u64 },
    /// The null pointer of a pointer type.
    Null { ty: IrType },
}

/// Two-operand instructions.
#[derive(Clone, Copy, Debug, PartialEq, Eq, Structural)]
pub enum BinaryOp {
    Add,
    FAdd,
    Sub,
    FSub,
    Mul,
    FMul,
    UDiv,
    SDiv,
    FDiv,
    URem,
    SRem,
    And,
    Or,
    Xor,
    Shl,
    AShr,
    LShr,
}

/// One-operand arithmetic instructions.
#[derive(Clone, Copy, Debug, PartialEq, Eq, Structural)]
pub enum UnaryOp {
    Neg,
    FNeg,
}

/// Integer comparisons.
#[derive(Clone, Copy, Debug, PartialEq, Eq, Structural)]
pub enum IntPredicate {
    Eq,
    Ne,
    Ugt,
    Uge,
    Ult,
    Ule,
    Sgt,
    Sge,
    Slt,
    Sle,
}

/// Ordered floating point comparisons.
#[derive(Clone, Copy, Debug, PartialEq, Eq, Structural)]
pub enum RealPredicate {
    Oeq,
    One,
    Olt,
    Ole,
    Ogt,
    Oge,
}

/// Conversions.
#[derive(Clone, Copy, Debug, PartialEq, Eq, Structural)]
pub enum CastOp {
    Trunc,
    ZExt,
    SExt,
    FpToSi,
    FpToUi,
    SiToFp,
    UiToFp,
    FpTrunc,
    FpExt,
    BitCast,
    PointerCast,
    /// Resizes an integer, extending its sign when it widens.
    IntCast,
    ZExtOrBitCast,
    PtrToInt,
    IntToPtr,
}

/// One step of a function body.  The value that a step yields is named by
/// the step's index in the body; operands name earlier steps.
#[derive(Debug)]
pub enum Op {
    /// The function parameter with this index.
    Param { index: u32 },
    /// A constant.
    Const { value: Constant },
    /// An array constant of the given element type from constant elements.
    ConstArray { element: IrType, elements: Vec<usize> },
    /// A constant conversion of a constant.
    ConstCast { op: CastOp, value: usize, ty: IrType },
    /// The address of a module global.
    GlobalRef { global: usize },
    /// The address of a module function.
    FunctionRef { function: usize },
    /// A stack slot of the given type.
    Alloca { ty: IrType },
    /// A load through a pointer.
    Load { ptr: usize },
    /// A store through a pointer.
    Store { value: usize, ptr: usize },
    /// Sets the alignment of a memory instruction.
    SetAlignment { value: usize, align: u32 },
    /// Pointer arithmetic over the given indices.
    Gep { ptr: usize, indices: Vec<usize> },
    /// A two-operand instruction.
    Binary { op: BinaryOp, lhs: usize, rhs: usize },
    /// A one-operand instruction.
    Unary { op: UnaryOp, operand: usize },
    /// An integer comparison.
    ICmp { predicate: IntPredicate, lhs: usize, rhs: usize },
    /// A floating point comparison.
    FCmp { predicate: RealPredicate, lhs: usize, rhs: usize },
    /// A conversion.
    Cast { op: CastOp, operand: usize, ty: IrType },
    /// A call of a function value.
    Call { callee: usize, args: Vec<usize> },
    /// Appends a new basic block to the function.
    AppendBlock,
    /// Directs the following instructions to the end of a block.
    PositionAtEnd { block: usize },
    /// Moves a block after the last block of the function.
    MoveAfterLastBlock { block: usize },
    /// An unconditional branch.
    Br { block: usize },
    /// A conditional branch.
    CondBr { cond: usize, then_block: usize, else_block: usize },
    /// A return with a value.
    Ret { value: usize },
    /// A return without value.
    RetVoid,
}

/// An operation with its lists as sequences.
pub enum OpView {
    /// The function parameter with this index.
    Param { index: u32 },
    /// A constant.
    Const { value: Constant },
    /// An array constant of the given element type from constant elements.
    ConstArray { element: IrType, elements: Seq<usize> },
    /// A constant conversion of a constant.
    ConstCast { op: CastOp, value: usize, ty: IrType },
    /// The address of a module global.
    GlobalRef { global: usize },
    /// The address of a module function.
    FunctionRef { function: usize },
    /// A stack slot of the given type.
    Alloca { ty: IrType },
    /// A load through a pointer.
    Load { ptr: usize },
    /// A store through a pointer.
    Store { value: usize, ptr: usize },
    /// Sets the alignment of a memory instruction.
    SetAlignment { value: usize, align: u32 },
    /// Pointer arithmetic over the given indices.
    Gep { ptr: usize, indices: Seq<usize> },
    /// A two-operand instruction.
    Binary { op: BinaryOp, lhs: usize, rhs: usize },
    /// A one-operand instruction.
    Unary { op: UnaryOp, operand: usize },
    /// An integer comparison.
    ICmp { predicate: IntPredicate, lhs: usize, rhs: usize },
    /// A floating point comparison.
    FCmp { predicate: RealPredicate, lhs: usize, rhs: usize },
    /// A conversion.
    Cast { op: CastOp, operand: usize, ty: IrType },
    /// A call of a function value.
    Call { callee: usize, args: Seq<usize> },
    /// Appends a new basic block to the function.
    AppendBlock,
    /// Directs the following instructions to the end of a block.
    PositionAtEnd { block: usize },
    /// Moves a block after the last block of the function.
    MoveAfterLastBlock { block: usize },
    /// An unconditional branch.
    Br { block: usize },
    /// A conditional branch.
    CondBr { cond: usize, then_block: usize, else_block: usize },
    /// A return with a value.
    Ret { value: usize },
    /// A return without value.
    RetVoid,
}

impl View for Op {
    type V = OpView;

    open spec fn view(&self) -> OpView {
        match self {
            Op::Param { index } => OpView::Param { index: *index },
            Op::Const { value } => OpView::Const { value: *value },
            Op::ConstArray { element, elements } => OpView::ConstArray { element: *element, elements: elements@ },
            Op::ConstCast { op, value, ty } => OpView::ConstCast { op: *op, value: *value, ty: *ty },
            Op::GlobalRef { global } => OpView::GlobalRef { global: *global },
            Op::FunctionRef { function } => OpView::FunctionRef { function: *function },
            Op::Alloca { ty } => OpView::Alloca { ty: *ty },
            Op::Load { ptr } => OpView::Load { ptr: *ptr },
            Op::Store { value, ptr } => OpView::Store { value: *value, ptr: *ptr },
            Op::SetAlignment { value, align } => OpView::SetAlignment { value: *value, align: *align },
            Op::Gep { ptr, indices } => OpView::Gep { ptr: *ptr, indices: indices@ },
            Op::Binary { op, lhs, rhs } => OpView::Binary { op: *op, lhs: *lhs, rhs: *rhs },
            Op::Unary { op, operand } => OpView::Unary { op: *op, operand: *operand },
            Op::ICmp { predicate, lhs, rhs } => OpView::ICmp { predicate: *predicate, lhs: *lhs, rhs: *rhs },
            Op::FCmp { predicate, lhs, rhs } => OpView::FCmp { predicate: *predicate, lhs: *lhs, rhs: *rhs },
            Op::Cast { op, operand, ty } => OpView::Cast { op: *op, operand: *operand, ty: *ty },
            Op::Call { callee, args } => OpView::Call { callee: *callee, args: args@ },
            Op::AppendBlock => OpView::AppendBlock,
            Op::PositionAtEnd { block } => OpView::PositionAtEnd { block: *block },
            Op::MoveAfterLastBlock { block } => OpView::MoveAfterLastBlock { block: *block },
            Op::Br { block } => OpView::Br { block: *block },
            Op::CondBr { cond, then_block, else_block } => OpView::CondBr { cond: *cond, then_block: *then_block, else_block: *else_block },
            Op::Ret { value } => OpView::Ret { value: *value },
            Op::RetVoid => OpView::RetVoid,
        }
    }
}

/// A global variable of the module.
#[derive(Debug)]
pub struct GlobalDecl {
    pub name: String,
    pub ty: IrType,
}

/// A function of the module.
#[derive(Debug)]
pub struct FunctionDecl {
    pub name: String,
    pub type_index: usize,
}

/// The module that a compilation produces.
///
/// `initializers` and `constant` run parallel to `globals`, `bodies` to
/// `functions`.  A function with an empty body is only declared.
#[derive(Debug)]
pub struct IrModule {
    pub name: String,
    pub types: Vec<FunctionType>,
    pub globals: Vec<GlobalDecl>,
    pub initializers: Vec<Option<Constant>>,
    pub constant: Vec<bool>,
    pub functions: Vec<FunctionDecl>,
    pub bodies: Vec<Vec<Op>>,
}

impl IrModule {
    /// The parallel vectors have matching lengths.
    pub open spec fn wf(&self) -> bool {
        &&& self.initializers@.len() == self.globals@.len()
        &&& self.constant@.len() == self.globals@.len()
        &&& self.bodies@.len() == self.functions@.len()
    }

    /// The names of the globals.
    pub open spec fn global_names(&self) -> Seq<Seq<char>> {
        self.globals@.map_values(|g: GlobalDecl| g.name@)
    }

    /// The names of the functions.
    pub open spec fn function_names(&self) -> Seq<Seq<char>> {
        self.functions@.map_values(|f: FunctionDecl| f.name@)
    }
}

} // verus!
