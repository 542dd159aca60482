use vstd::prelude::*;

verus! {

/// The types of WebAssembly values.
#[derive(Clone, Copy, Debug, PartialEq, Eq, Structural)]
pub enum ValueType {
    I32,
    I64,
    F32,
    F64,
}

/// The result type of a structured instruction.
#[derive(Clone, Copy, Debug, PartialEq, Eq, Structural)]
pub enum BlockType {
    Value(ValueType),
    NoResult,
}

/// The instructions of WebAssembly, with their immediates.  Memory
/// instructions carry (alignment exponent, offset); float constants carry
/// the bits of the float.
#[derive(Debug)]
pub enum Instruction {
    Unreachable,
    Nop,
    Block(BlockType),
    Loop(BlockType),
    If(BlockType),
    Else,
    End,
    Br(u32),
    BrIf(u32),
    BrTable(Vec<u32>, u32),
    Return,
    Call(u32),
    CallIndirect(u32, u8),
    Drop,
    Select,
    GetLocal(u32),
    SetLocal(u32),
    TeeLocal(u32),
    GetGlobal(u32),
    SetGlobal(u32),
    I32Load(u32, u32),
    I64Load(u32, u32),
    F32Load(u32, u32),
    F64Load(u32, u32),
    I32Load8S(u32, u32),
    I32Load8U(u32, u32),
    I32Load16S(u32, u32),
    I32Load16U(u32, u32),
    I64Load8S(u32, u32),
    I64Load8U(u32, u32),
    I64Load16S(u32, u32),
    I64Load16U(u32, u32),
    I64Load32S(u32, u32),
    I64Load32U(u32, u32),
    I32Store(u32, u32),
    I64Store(u32, u32),
    F32Store(u32, u32),
    F64Store(u32, u32),
    I32Store8(u32, u32),
    I32Store16(u32, u32),
    I64Store8(u32, u32),
    I64Store16(u32, u32),
    I64Store32(u32, u32),
    CurrentMemory(u8),
    GrowMemory(u8),
    I32Const(i32),
    I64Const(i64),
    F32Const(u32),
    F64Const(u64),
    I32Eqz,
    I32Eq,
    I32Ne,
    I32LtS,
    I32LtU,
    I32GtS,
    I32GtU,
    I32LeS,
    I32LeU,
    I32GeS,
    I32GeU,
    I64Eqz,
    I64Eq,
    I64Ne,
    I64LtS,
    I64LtU,
    I64GtS,
    I64GtU,
    I64LeS,
    I64LeU,
    I64GeS,
    I64GeU,
    F32Eq,
    F32Ne,
    F32Lt,
    F32Gt,
    F32Le,
    F32Ge,
    F64Eq,
    F64Ne,
    F64Lt,
    F64Gt,
    F64Le,
    F64Ge,
    I32Clz,
    I32Ctz,
    I32Popcnt,
    I32Add,
    I32Sub,
    I32Mul,
    I32DivS,
    I32DivU,
    I32RemS,
    I32RemU,
    I32And,
    I32Or,
    I32Xor,
    I32Shl,
    I32ShrS,
    I32ShrU,
    I32Rotl,
    I32Rotr,
    I64Clz,
    I64Ctz,
    I64Popcnt,
    I64Add,
    I64Sub,
    I64Mul,
    I64DivS,
    I64DivU,
    I64RemS,
    I64RemU,
    I64And,
    I64Or,
    I64Xor,
    I64Shl,
    I64ShrS,
    I64ShrU,
    I64Rotl,
    I64Rotr,
    F32Abs,
    F32Neg,
    F32Ceil,
    F32Floor,
    F32Trunc,
    F32Nearest,
    F32Sqrt,
    F32Add,
    F32Sub,
    F32Mul,
    F32Div,
    F32Min,
    F32Max,
    F32Copysign,
    F64Abs,
    F64Neg,
    F64Ceil,
    F64Floor,
    F64Trunc,
    F64Nearest,
    F64Sqrt,
    F64Add,
    F64Sub,
    F64Mul,
    F64Div,
    F64Min,
    F64Max,
    F64Copysign,
    I32WrapI64,
    I32TruncSF32,
    I32TruncUF32,
    I32TruncSF64,
    I32TruncUF64,
    I64ExtendSI32,
    I64ExtendUI32,
    I64TruncSF32,
    I64TruncUF32,
    I64TruncSF64,
    I64TruncUF64,
    F32ConvertSI32,
    F32ConvertUI32,
    F32ConvertSI64,
    F32ConvertUI64,
    F32DemoteF64,
    F64ConvertSI32,
    F64ConvertUI32,
    F64ConvertSI64,
    F64ConvertUI64,
    F64PromoteF32,
    I32ReinterpretF32,
    I64ReinterpretF64,
    F32ReinterpretI32,
    F64ReinterpretI64,
}

impl Instruction {
    /// This instruction opens a structured block (block, loop or if).
    pub open spec fn spec_is_block(&self) -> bool {
        self is Block || self is Loop || self is If
    }

    /// Whether this instruction opens a structured block.
    #[verifier::when_used_as_spec(spec_is_block)]
    pub fn is_block(&self) -> (r: bool)
        ensures
            r == self.spec_is_block(),
    {
        match self {
            Instruction::Block(_) | Instruction::Loop(_) | Instruction::If(_) => true,
            _ => false,
        }
    }
}

/// `copy` is a copy of `instruction`: the same instruction, or a table
/// branch with the same targets and default.
pub open spec fn is_copy(copy: Instruction, instruction: Instruction) -> bool {
    match instruction {
        Instruction::BrTable(targets, default) => copy matches Instruction::BrTable(copied, d) && copied@ == targets@ && d == default,
        _ => copy == instruction,
    }
}

/// A copy of `instruction`; the targets of a table branch are copied one by one.
pub fn clone_instruction(instruction: &Instruction) -> (r: Instruction)
    ensures
        is_copy(r, *instruction),
{
    match instruction {
        Instruction::BrTable(targets, default) => {
            let mut copied: Vec<u32> = Vec::new();
            let mut i: usize = 0;
            while i < targets.len()
                invariant
                    i <= targets@.len(),
                    copied@ == targets@.take(i as int),
                decreases targets@.len() - i,
            {
                copied.push(targets[i]);
                i = i + 1;
                proof {
                    assert(copied@ =~= targets@.take(i as int));
                }
            }
            assert(targets@.take(targets@.len() as int) =~= targets@);
            Instruction::BrTable(copied, *default)
        },
        Instruction::Unreachable => Instruction::Unreachable,
        Instruction::Nop => Instruction::Nop,
        Instruction::Block(a) => Instruction::Block(*a),
        Instruction::Loop(a) => Instruction::Loop(*a),
        Instruction::If(a) => Instruction::If(*a),
        Instruction::Else => Instruction::Else,
        Instruction::End => Instruction::End,
        Instruction::Br(a) => Instruction::Br(*a),
        Instruction::BrIf(a) => Instruction::BrIf(*a),
        Instruction::Return => Instruction::Return,
        Instruction::Call(a) => Instruction::Call(*a),
        Instruction::CallIndirect(a, b) => Instruction::CallIndirect(*a, *b),
        Instruction::Drop => Instruction::Drop,
        Instruction::Select => Instruction::Select,
        Instruction::GetLocal(a) => Instruction::GetLocal(*a),
        Instruction::SetLocal(a) => Instruction::SetLocal(*a),
        Instruction::TeeLocal(a) => Instruction::TeeLocal(*a),
        Instruction::GetGlobal(a) => Instruction::GetGlobal(*a),
        Instruction::SetGlobal(a) => Instruction::SetGlobal(*a),
        Instruction::I32Load(a, b) => Instruction::I32Load(*a, *b),
        Instruction::I64Load(a, b) => Instruction::I64Load(*a, *b),
        Instruction::F32Load(a, b) => Instruction::F32Load(*a, *b),
        Instruction::F64Load(a, b) => Instruction::F64Load(*a, *b),
        Instruction::I32Load8S(a, b) => Instruction::I32Load8S(*a, *b),
        Instruction::I32Load8U(a, b) => Instruction::I32Load8U(*a, *b),
        Instruction::I32Load16S(a, b) => Instruction::I32Load16S(*a, *b),
        Instruction::I32Load16U(a, b) => Instruction::I32Load16U(*a, *b),
        Instruction::I64Load8S(a, b) => Instruction::I64Load8S(*a, *b),
        Instruction::I64Load8U(a, b) => Instruction::I64Load8U(*a, *b),
        Instruction::I64Load16S(a, b) => Instruction::I64Load16S(*a, *b),
        Instruction::I64Load16U(a, b) => Instruction::I64Load16U(*a, *b),
        Instruction::I64Load32S(a, b) => Instruction::I64Load32S(*a, *b),
        Instruction::I64Load32U(a, b) => Instruction::I64Load32U(*a, *b),
        Instruction::I32Store(a, b) => Instruction::I32Store(*a, *b),
        Instruction::I64Store(a, b) => Instruction::I64Store(*a, *b),
        Instruction::F32Store(a, b) => Instruction::F32Store(*a, *b),
        Instruction::F64Store(a, b) => Instruction::F64Store(*a, *b),
        Instruction::I32Store8(a, b) => Instruction::I32Store8(*a, *b),
        Instruction::I32Store16(a, b) => Instruction::I32Store16(*a, *b),
        Instruction::I64Store8(a, b) => Instruction::I64Store8(*a, *b),
        Instruction::I64Store16(a, b) => Instruction::I64Store16(*a, *b),
        Instruction::I64Store32(a, b) => Instruction::I64Store32(*a, *b),
        Instruction::CurrentMemory(a) => Instruction::CurrentMemory(*a),
        Instruction::GrowMemory(a) => Instruction::GrowMemory(*a),
        Instruction::I32Const(a) => Instruction::I32Const(*a),
        Instruction::I64Const(a) => Instruction::I64Const(*a),
        Instruction::F32Const(a) => Instruction::F32Const(*a),
        Instruction::F64Const(a) => Instruction::F64Const(*a),
        Instruction::I32Eqz => Instruction::I32Eqz,
        Instruction::I32Eq => Instruction::I32Eq,
        Instruction::I32Ne => Instruction::I32Ne,
        Instruction::I32LtS => Instruction::I32LtS,
        Instruction::I32LtU => Instruction::I32LtU,
        Instruction::I32GtS => Instruction::I32GtS,
        Instruction::I32GtU => Instruction::I32GtU,
        Instruction::I32LeS => Instruction::I32LeS,
        Instruction::I32LeU => Instruction::I32LeU,
        Instruction::I32GeS => Instruction::I32GeS,
        Instruction::I32GeU => Instruction::I32GeU,
        Instruction::I64Eqz => Instruction::I64Eqz,
        Instruction::I64Eq => Instruction::I64Eq,
        Instruction::I64Ne => Instruction::I64Ne,
        Instruction::I64LtS => Instruction::I64LtS,
        Instruction::I64LtU => Instruction::I64LtU,
        Instruction::I64GtS => Instruction::I64GtS,
        Instruction::I64GtU => Instruction::I64GtU,
        Instruction::I64LeS => Instruction::I64LeS,
        Instruction::I64LeU => Instruction::I64LeU,
        Instruction::I64GeS => Instruction::I64GeS,
        Instruction::I64GeU => Instruction::I64GeU,
        Instruction::F32Eq => Instruction::F32Eq,
        Instruction::F32Ne => Instruction::F32Ne,
        Instruction::F32Lt => Instruction::F32Lt,
        Instruction::F32Gt => Instruction::F32Gt,
        Instruction::F32Le => Instruction::F32Le,
        Instruction::F32Ge => Instruction::F32Ge,
        Instruction::F64Eq => Instruction::F64Eq,
        Instruction::F64Ne => Instruction::F64Ne,
        Instruction::F64Lt => Instruction::F64Lt,
        Instruction::F64Gt => Instruction::F64Gt,
        Instruction::F64Le => Instruction::F64Le,
        Instruction::F64Ge => Instruction::F64Ge,
        Instruction::I32Clz => Instruction::I32Clz,
        Instruction::I32Ctz => Instruction::I32Ctz,
        Instruction::I32Popcnt => Instruction::I32Popcnt,
        Instruction::I32Add => Instruction::I32Add,
        Instruction::I32Sub => Instruction::I32Sub,
        Instruction::I32Mul => Instruction::I32Mul,
        Instruction::I32DivS => Instruction::I32DivS,
        Instruction::I32DivU => Instruction::I32DivU,
        Instruction::I32RemS => Instruction::I32RemS,
        Instruction::I32RemU => Instruction::I32RemU,
        Instruction::I32And => Instruction::I32And,
        Instruction::I32Or => Instruction::I32Or,
        Instruction::I32Xor => Instruction::I32Xor,
        Instruction::I32Shl => Instruction::I32Shl,
        Instruction::I32ShrS => Instruction::I32ShrS,
        Instruction::I32ShrU => Instruction::I32ShrU,
        Instruction::I32Rotl => Instruction::I32Rotl,
        Instruction::I32Rotr => Instruction::I32Rotr,
        Instruction::I64Clz => Instruction::I64Clz,
        Instruction::I64Ctz => Instruction::I64Ctz,
        Instruction::I64Popcnt => Instruction::I64Popcnt,
        Instruction::I64Add => Instruction::I64Add,
        Instruction::I64Sub => Instruction::I64Sub,
        Instruction::I64Mul => Instruction::I64Mul,
        Instruction::I64DivS => Instruction::I64DivS,
        Instruction::I64DivU => Instruction::I64DivU,
        Instruction::I64RemS => Instruction::I64RemS,
        Instruction::I64RemU => Instruction::I64RemU,
        Instruction::I64And => Instruction::I64And,
        Instruction::I64Or => Instruction::I64Or,
        Instruction::I64Xor => Instruction::I64Xor,
        Instruction::I64Shl => Instruction::I64Shl,
        Instruction::I64ShrS => Instruction::I64ShrS,
        Instruction::I64ShrU => Instruction::I64ShrU,
        Instruction::I64Rotl => Instruction::I64Rotl,
        Instruction::I64Rotr => Instruction::I64Rotr,
        Instruction::F32Abs => Instruction::F32Abs,
        Instruction::F32Neg => Instruction::F32Neg,
        Instruction::F32Ceil => Instruction::F32Ceil,
        Instruction::F32Floor => Instruction::F32Floor,
        Instruction::F32Trunc => Instruction::F32Trunc,
        Instruction::F32Nearest => Instruction::F32Nearest,
        Instruction::F32Sqrt => Instruction::F32Sqrt,
        Instruction::F32Add => Instruction::F32Add,
        Instruction::F32Sub => Instruction::F32Sub,
        Instruction::F32Mul => Instruction::F32Mul,
        Instruction::F32Div => Instruction::F32Div,
        Instruction::F32Min => Instruction::F32Min,
        Instruction::F32Max => Instruction::F32Max,
        Instruction::F32Copysign => Instruction::F32Copysign,
        Instruction::F64Abs => Instruction::F64Abs,
        Instruction::F64Neg => Instruction::F64Neg,
        Instruction::F64Ceil => Instruction::F64Ceil,
        Instruction::F64Floor => Instruction::F64Floor,
        Instruction::F64Trunc => Instruction::F64Trunc,
        Instruction::F64Nearest => Instruction::F64Nearest,
        Instruction::F64Sqrt => Instruction::F64Sqrt,
        Instruction::F64Add => Instruction::F64Add,
        Instruction::F64Sub => Instruction::F64Sub,
        Instruction::F64Mul => Instruction::F64Mul,
        Instruction::F64Div => Instruction::F64Div,
        Instruction::F64Min => Instruction::F64Min,
        Instruction::F64Max => Instruction::F64Max,
        Instruction::F64Copysign => Instruction::F64Copysign,
        Instruction::I32WrapI64 => Instruction::I32WrapI64,
        Instruction::I32TruncSF32 => Instruction::I32TruncSF32,
        Instruction::I32TruncUF32 => Instruction::I32TruncUF32,
        Instruction::I32TruncSF64 => Instruction::I32TruncSF64,
        Instruction::I32TruncUF64 => Instruction::I32TruncUF64,
        Instruction::I64ExtendSI32 => Instruction::I64ExtendSI32,
        Instruction::I64ExtendUI32 => Instruction::I64ExtendUI32,
        Instruction::I64TruncSF32 => Instruction::I64TruncSF32,
        Instruction::I64TruncUF32 => Instruction::I64TruncUF32,
        Instruction::I64TruncSF64 => Instruction::I64TruncSF64,
        Instruction::I64TruncUF64 => Instruction::I64TruncUF64,
        Instruction::F32ConvertSI32 => Instruction::F32ConvertSI32,
        Instruction::F32ConvertUI32 => Instruction::F32ConvertUI32,
        Instruction::F32ConvertSI64 => Instruction::F32ConvertSI64,
        Instruction::F32ConvertUI64 => Instruction::F32ConvertUI64,
        Instruction::F32DemoteF64 => Instruction::F32DemoteF64,
        Instruction::F64ConvertSI32 => Instruction::F64ConvertSI32,
        Instruction::F64ConvertUI32 => Instruction::F64ConvertUI32,
        Instruction::F64ConvertSI64 => Instruction::F64ConvertSI64,
        Instruction::F64ConvertUI64 => Instruction::F64ConvertUI64,
        Instruction::F64PromoteF32 => Instruction::F64PromoteF32,
        Instruction::I32ReinterpretF32 => Instruction::I32ReinterpretF32,
        Instruction::I64ReinterpretF64 => Instruction::I64ReinterpretF64,
        Instruction::F32ReinterpretI32 => Instruction::F32ReinterpretI32,
        Instruction::F64ReinterpretI64 => Instruction::F64ReinterpretI64,
    }
}

/// A constant expression: its instructions.
#[derive(Debug)]
pub struct InitExpr {
    pub code: Vec<Instruction>,
}

/// The size limits of a memory or a table, in units.
#[derive(Clone, Copy, Debug, PartialEq, Eq, Structural)]
pub struct ResizableLimits {
    pub initial: u32,
    pub maximum: Option<u32>,
}

/// A linear memory declaration.
#[derive(Clone, Copy, Debug, PartialEq, Eq, Structural)]
pub struct MemoryType {
    pub limits: ResizableLimits,
}

/// A table declaration (of function references).
#[derive(Clone, Copy, Debug, PartialEq, Eq, Structural)]
pub struct TableType {
    pub limits: ResizableLimits,
}

/// The type of a global: its value type and whether it may change.
#[derive(Clone, Copy, Debug, PartialEq, Eq, Structural)]
pub struct GlobalType {
    pub content_type: ValueType,
    pub is_mutable: bool,
}

/// A global of the global section.
#[derive(Debug)]
pub struct GlobalEntry {
    pub global_type: GlobalType,
    pub init_expr: InitExpr,
}

/// What an import brings in.
#[derive(Clone, Copy, Debug, PartialEq, Eq, Structural)]
pub enum External {
    /// A function of the type with this index.
    Function(u32),
    Table(TableType),
    Memory(MemoryType),
    Global(GlobalType),
}

/// An import.
#[derive(Debug)]
pub struct ImportEntry {
    pub module: String,
    pub field: String,
    pub external: External,
}

/// What an export refers to, by index.
#[derive(Clone, Copy, Debug, PartialEq, Eq, Structural)]
pub enum Internal {
    Function(u32),
    Table(u32),
    Memory(u32),
    Global(u32),
}

/// An export.
#[derive(Debug)]
pub struct ExportEntry {
    pub field: String,
    pub internal: Internal,
}

/// A function signature.
#[derive(Debug)]
pub struct FunctionType {
    pub params: Vec<ValueType>,
    pub return_type: Option<ValueType>,
}

/// An entry of the type section.
#[derive(Debug)]
pub enum Type {
    Function(FunctionType),
}

/// An entry of the function section: the index of its type.
#[derive(Clone, Copy, Debug, PartialEq, Eq, Structural)]
pub struct Func {
    pub type_ref: u32,
}

/// A group of local variables of one type.
#[derive(Clone, Copy, Debug, PartialEq, Eq, Structural)]
pub struct Local {
    pub count: u32,
    pub value_type: ValueType,
}

/// A function body: its locals and its code.
#[derive(Debug)]
pub struct FuncBody {
    pub locals: Vec<Local>,
    pub code: Vec<Instruction>,
}

/// An element segment: function indices placed into a table at an offset.
#[derive(Debug)]
pub struct ElementSegment {
    pub index: u32,
    pub offset: InitExpr,
    pub members: Vec<u32>,
}

/// A data segment: bytes placed into a memory at an offset.
#[derive(Debug)]
pub struct DataSegment {
    pub index: u32,
    pub offset: InitExpr,
    pub value: Vec<u8>,
}

/// The kinds of imports that can be counted.
#[derive(Clone, Copy, Debug, PartialEq, Eq, Structural)]
pub enum ImportCountType {
    Function,
    Global,
    Table,
    Memory,
}

/// A WebAssembly module, section by section; an absent section is `None`.
#[derive(Debug)]
pub struct Module {
    pub types: Option<Vec<Type>>,
    pub imports: Option<Vec<ImportEntry>>,
    pub functions: Option<Vec<Func>>,
    pub tables: Option<Vec<TableType>>,
    pub memories: Option<Vec<MemoryType>>,
    pub globals: Option<Vec<GlobalEntry>>,
    pub exports: Option<Vec<ExportEntry>>,
    pub elements: Option<Vec<ElementSegment>>,
    pub code: Option<Vec<FuncBody>>,
    pub data: Option<Vec<DataSegment>>,
}

/// Whether an import is of the counted kind.
pub open spec fn import_is(external: External, kind: ImportCountType) -> bool {
    match kind {
        ImportCountType::Function => external is Function,
        ImportCountType::Global => external is Global,
        ImportCountType::Table => external is Table,
        ImportCountType::Memory => external is Memory,
    }
}

/// The number of imports of a kind among the first `n` imports.
pub open spec fn count_imports(imports: Seq<ImportEntry>, kind: ImportCountType, n: int) -> nat
    decreases n,
{
    if n <= 0 {
        0
    } else if import_is(imports[n - 1].external, kind) {
        count_imports(imports, kind, n - 1) + 1
    } else {
        count_imports(imports, kind, n - 1)
    }
}

impl Module {
    /// The number of imports of a kind.
    pub open spec fn spec_import_count(&self, kind: ImportCountType) -> nat {
        match &self.imports {
            Some(imports) => count_imports(imports@, kind, imports@.len() as int),
            None => 0,
        }
    }

    /// The number of imports of a kind.
    pub fn import_count(&self, kind: ImportCountType) -> (r: usize)
        ensures
            r == self.spec_import_count(kind),
    {
        match &self.imports {
            Some(imports) => {
                let mut n: usize = 0;
                let mut i: usize = 0;
                while i < imports.len()
                    invariant
                        i <= imports@.len(),
                        n == count_imports(imports@, kind, i as int),
                        n <= i,
                    decreases imports@.len() - i,
                {
                    let hit = match (kind, imports[i].external) {
                        (ImportCountType::Function, External::Function(_)) => true,
                        (ImportCountType::Global, External::Global(_)) => true,
                        (ImportCountType::Table, External::Table(_)) => true,
                        (ImportCountType::Memory, External::Memory(_)) => true,
                        _ => false,
                    };
                    if hit {
                        n = n + 1;
                    }
                    i = i + 1;
                }
                n
            },
            None => 0,
        }
    }
}

} // verus!
