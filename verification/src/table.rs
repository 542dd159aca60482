use vstd::prelude::*;
use crate::build_context::BuildContext;
use crate::error::RuntimeError;
use crate::ir::{spec_int_wasm_ptr, BinaryOp, CastOp, Constant, IrType, Op, OpView, PointeeType};
use crate::memory::{all_limits_valid, init_end_ops, init_function_name, lemma_memory_mapped_kept, limits_error, memories_declared, memories_mapped, memory_mapped, memory_name, memory_size_name, MemoryCompiler, MemoryTypeContext};
use crate::text::decimal;
use crate::types::WasmIntType;
use crate::wasm_module::{ImportCountType, Module, ResizableLimits, TableType as WasmTableType};

verus! {

/// The kinds of table elements, by their size in bytes.
pub trait TableType {
    const ELEMENT_SIZE: u32;

    /// An element has at least one byte.
    proof fn lemma_element_size()
        ensures
            Self::ELEMENT_SIZE > 0,
    ;
}

/// Tables of function pointers.
pub struct AnyFunctionTableType;

impl TableType for AnyFunctionTableType {
    const ELEMENT_SIZE: u32 = usize::BITS / 8;

    proof fn lemma_element_size() {
    }
}

/// The memory kind of a table with elements of kind `TType`: one unit per
/// element, and as many elements as four gigabytes hold when no maximum is given.
pub struct TableTypeContext<TType: TableType>(pub core::marker::PhantomData<TType>);

impl<TType: TableType> MemoryTypeContext for TableTypeContext<TType> {
    const MEMORY_NAME_PREFIX: &'static str = "__wasm_table";
    const UNIT_SIZE: u32 = TType::ELEMENT_SIZE;
    const DEFAULT_MAXIMUM_UNIT_SIZE: u32 = u32::MAX / TType::ELEMENT_SIZE;

    proof fn lemma_sizes() {
        TType::lemma_element_size();
        assert(u32::MAX / TType::ELEMENT_SIZE > 0) by (nonlinear_arith)
            requires TType::ELEMENT_SIZE > 0, TType::ELEMENT_SIZE <= u32::MAX;
    }

    proof fn lemma_prefix() {
        reveal_strlit("__wasm_table");
    }
}

/// The memory kind of a table: its symbols start with `__wasm_table`, its
/// unit is one element, and it holds as many elements as four gigabytes
/// hold by default; an element of a table of functions is a pointer.
pub proof fn lemma_table_kind<TType: TableType>()
    ensures
        TableTypeContext::<TType>::MEMORY_NAME_PREFIX@ == "__wasm_table"@,
        TableTypeContext::<TType>::UNIT_SIZE == TType::ELEMENT_SIZE,
        TableTypeContext::<TType>::DEFAULT_MAXIMUM_UNIT_SIZE == u32::MAX / TType::ELEMENT_SIZE,
        AnyFunctionTableType::ELEMENT_SIZE == usize::BITS / 8,
{
    TType::lemma_element_size();
}

/// The globals of table `index` are named `__wasm_table_memory` and
/// `__wasm_table_memory_size` followed by the index.
pub proof fn lemma_table_names<TType: TableType>(index: nat)
    ensures
        memory_name(TableTypeContext::<TType>::MEMORY_NAME_PREFIX@, index) == "__wasm_table_memory"@ + decimal(index),
        memory_size_name(TableTypeContext::<TType>::MEMORY_NAME_PREFIX@, index) == "__wasm_table_memory_size"@ + decimal(index),
{
    lemma_table_kind::<TType>();
    reveal_strlit("__wasm_table");
    reveal_strlit("_memory");
    reveal_strlit("_memory_size");
    reveal_strlit("__wasm_table_memory");
    reveal_strlit("__wasm_table_memory_size");
    assert(memory_name("__wasm_table"@, index) =~= "__wasm_table_memory"@ + decimal(index));
    assert(memory_size_name("__wasm_table"@, index) =~= "__wasm_table_memory_size"@ + decimal(index));
}

/// The compiler of the memories that hold tables of kind `TType`.
pub type TableMemoryCompiler<TType, T> = MemoryCompiler<TableTypeContext<TType>, T>;

/// The compiler of tables of function pointers.
pub type FunctionTableCompiler<T> = TableCompiler<AnyFunctionTableType, T>;

/// The compiler of tables with elements of kind `TType`.
pub struct TableCompiler<TType: TableType, T: WasmIntType> {
    pub table_memory_compiler: TableMemoryCompiler<TType, T>,
    pub table_type: core::marker::PhantomData<TType>,
}

/// The functions placed into table `index` from element `offset` on.
pub struct TableInitializer {
    pub index: u32,
    pub offset: Constant,
    pub members: Vec<usize>,
}

impl TableInitializer {
    pub fn new(index: u32, offset: Constant, members: Vec<usize>) -> (r: TableInitializer)
        ensures
            r.index == index,
            r.offset == offset,
            r.members == members,
    {
        TableInitializer { index, offset, members }
    }
}

/// Every member of every initializer is one of the first `n` functions.
pub open spec fn members_in_range(initializers: Seq<TableInitializer>, n: nat) -> bool {
    forall|i: int, j: int| 0 <= i < initializers.len() && 0 <= j < initializers[i].members@.len()
        ==> #[trigger] initializers[i].members@[j] < n
}

/// The limits of some tables.
pub open spec fn table_limits(table_types: Seq<WasmTableType>) -> Seq<ResizableLimits> {
    table_types.map_values(|t: WasmTableType| t.limits)
}

/// The operations that place the functions `members` into a table, from
/// position `q` on: a reference to each function cast to an untyped pointer.
pub open spec fn member_ops(q: nat, members: Seq<usize>) -> Seq<OpView>
    decreases members.len(),
{
    if members.len() == 0 {
        seq![]
    } else {
        let j = (members.len() - 1) as nat;
        member_ops(q, members.drop_last()) + seq![
            OpView::FunctionRef { function: members.last() },
            OpView::ConstCast { op: CastOp::PointerCast, value: (q + 2 * j) as usize, ty: IrType::Ptr(PointeeType::Void) },
        ]
    }
}

/// The operations that place the functions of `initializer` into its
/// table, from position `p` on: the offset scaled to bytes, the address of
/// that byte of the table whose base address global is `global`, and the
/// array of the cast members stored there.
pub open spec fn initializer_ops(p: nat, initializer: TableInitializer, element_size: u32, global: usize) -> Seq<OpView> {
    let m = initializer.members@.len();
    seq![
        OpView::Const { value: initializer.offset },
        OpView::Const { value: Constant::Int { ty: IrType::Int32, value: element_size as u64, sign_extend: false } },
        OpView::Binary { op: BinaryOp::Mul, lhs: p as usize, rhs: (p + 1) as usize },
        OpView::GlobalRef { global },
        OpView::Load { ptr: (p + 3) as usize },
        OpView::Gep { ptr: (p + 4) as usize, indices: seq![(p + 2) as usize] },
    ] + member_ops(p + 6, initializer.members@) + seq![
        OpView::ConstArray { element: IrType::Ptr(PointeeType::Void), elements: Seq::new(m, |j: int| (p + 7 + 2 * j) as usize) },
        OpView::Cast { op: CastOp::PointerCast, operand: (p + 5) as usize, ty: IrType::PtrToTypeOf((p + 6 + 2 * m) as usize) },
        OpView::Store { value: (p + 6 + 2 * m) as usize, ptr: (p + 7 + 2 * m) as usize },
    ]
}

/// The placement of `initializer` stands at position `at` of the body of
/// `bc`, through the base address global of its table.
pub open spec fn initializer_placed(bc: &BuildContext, at: nat, initializer: TableInitializer, element_size: u32) -> bool {
    exists|global: usize| #![trigger initializer_ops(at, initializer, element_size, global)]
        global < bc.module.globals@.len()
        && bc.module.global_names()[global as int] == memory_name("__wasm_table"@, initializer.index as nat)
        && bc.ops_at(at as int, initializer_ops(at, initializer, element_size, global))
}

/// The placement of `initializer` stands somewhere in the body of `bc`.
pub open spec fn initializer_stored(bc: &BuildContext, initializer: TableInitializer, element_size: u32) -> bool {
    exists|at: nat| #[trigger] initializer_placed(bc, at, initializer, element_size)
}

/// A placement that stands in a body stays there as the body grows.
pub proof fn lemma_initializer_stored_kept(b: &BuildContext, c: &BuildContext, k: nat, initializer: TableInitializer, element_size: u32)
    requires
        c.grown(b, k),
        initializer_stored(b, initializer, element_size),
    ensures
        initializer_stored(c, initializer, element_size),
{
    let at = choose|at: nat| #[trigger] initializer_placed(b, at, initializer, element_size);
    let global = choose|global: usize| #![trigger initializer_ops(at, initializer, element_size, global)]
        global < b.module.globals@.len()
        && b.module.global_names()[global as int] == memory_name("__wasm_table"@, initializer.index as nat)
        && b.ops_at(at as int, initializer_ops(at, initializer, element_size, global));
    BuildContext::lemma_kept(b, c, k, at as int, initializer_ops(at, initializer, element_size, global));
    assert(c.module.global_names()[global as int] == b.module.global_names()[global as int]);
    assert(initializer_placed(c, at, initializer, element_size));
}

/// The member operations of a few members are two per member.
proof fn lemma_member_ops_len(q: nat, members: Seq<usize>)
    ensures
        member_ops(q, members).len() == 2 * members.len(),
    decreases members.len(),
{
    if members.len() > 0 {
        lemma_member_ops_len(q, members.drop_last());
    }
}

impl<TType: TableType, T: WasmIntType> TableCompiler<TType, T> {
    pub fn new() -> (r: Self) {
        TableCompiler { table_memory_compiler: MemoryCompiler::new(), table_type: core::marker::PhantomData }
    }

    /// The name of the function that maps the tables and fills them.
    pub fn get_init_function_name(&self) -> (r: String)
        ensures
            r@ == init_function_name(vstd::layout::size_of::<T>() * 8),
    {
        self.table_memory_compiler.get_init_function_name()
    }

    /// Builds the function that maps and fills the tables of the table
    /// section, if there is one; the tables are numbered after the imported ones.
    pub fn compile(&self, bc: &mut BuildContext, wasm_module: &Module, initializers: &[TableInitializer]) -> (r: Result<(), RuntimeError>)
        requires
            old(bc).wf(),
            wasm_module.tables matches Some(tables)
                ==> wasm_module.spec_import_count(ImportCountType::Table) + tables@.len() <= u32::MAX,
            members_in_range(initializers@, old(bc).module.functions@.len()),
        ensures
            final(bc).keeps_symbols(old(bc)),
            final(bc).wf(),
            wasm_module.tables is None ==> r is Ok && *final(bc) == *old(bc),
            wasm_module.tables matches Some(tables) ==> (r is Ok <==> all_limits_valid(table_limits(tables@),
                tables@.len() as int, TableTypeContext::<TType>::DEFAULT_MAXIMUM_UNIT_SIZE as nat)),
            wasm_module.tables matches Some(tables) ==> r is Ok ==> exists|fail_bb: usize| #[trigger] memories_mapped(final(bc), "__wasm_table"@,
                    wasm_module.spec_import_count(ImportCountType::Table) as nat, table_limits(tables@),
                    TableTypeContext::<TType>::DEFAULT_MAXIMUM_UNIT_SIZE, fail_bb, TableTypeContext::<TType>::UNIT_SIZE as nat, spec_int_wasm_ptr::<T>())
                && fail_bb < final(bc).ops().len() && final(bc).ops()[fail_bb as int] == OpView::AppendBlock
                && final(bc).ops().len() >= 5
                && final(bc).ops_at(final(bc).ops().len() - 5, init_end_ops((final(bc).ops().len() - 5) as nat, fail_bb)),
            wasm_module.tables is Some && r is Ok ==> forall|k: int| 0 <= k < initializers@.len() ==>
                #[trigger] initializer_stored(final(bc), initializers@[k], TType::ELEMENT_SIZE),
    {
        match &wasm_module.tables {
            Some(tables) => {
                let import_count = wasm_module.import_count(ImportCountType::Table) as u32;
                self.build_init_function(bc, tables.as_slice(), initializers, import_count)
            },
            None => Ok(()),
        }
    }

    /// Builds the function that maps the tables with these types, the first
    /// of them with index `import_count`, and places the functions of each
    /// initializer into its table.
    pub fn build_init_function(&self, bc: &mut BuildContext, table_types: &[WasmTableType], initializers: &[TableInitializer], import_count: u32) -> (r: Result<(), RuntimeError>)
        requires
            old(bc).wf(),
            import_count + table_types@.len() <= u32::MAX,
            members_in_range(initializers@, old(bc).module.functions@.len()),
        ensures
            final(bc).keeps_symbols(old(bc)),
            final(bc).wf(),
            r is Ok <==> all_limits_valid(table_limits(table_types@), table_types@.len() as int,
                TableTypeContext::<TType>::DEFAULT_MAXIMUM_UNIT_SIZE as nat),
            r matches Err(e) ==> exists|k: int| 0 <= k < table_types@.len()
                && all_limits_valid(table_limits(table_types@), k, TableTypeContext::<TType>::DEFAULT_MAXIMUM_UNIT_SIZE as nat)
                && e@ == limits_error(#[trigger] table_types@[k].limits.initial as nat, table_types@[k].limits.maximum,
                    TableTypeContext::<TType>::DEFAULT_MAXIMUM_UNIT_SIZE as nat),
            r is Ok ==> (final(bc).function matches Some(f)
                && final(bc).module.function_names()[f as int] == init_function_name(vstd::layout::size_of::<T>() * 8)),
            r is Ok ==> memories_declared(final(bc).module.global_names(), "__wasm_table"@, import_count as nat,
                (import_count + table_types@.len()) as nat),
            r is Ok ==> exists|fail_bb: usize| #[trigger] memories_mapped(final(bc), "__wasm_table"@, import_count as nat, table_limits(table_types@),
                    TableTypeContext::<TType>::DEFAULT_MAXIMUM_UNIT_SIZE, fail_bb, TableTypeContext::<TType>::UNIT_SIZE as nat, spec_int_wasm_ptr::<T>())
                && fail_bb < final(bc).ops().len() && final(bc).ops()[fail_bb as int] == OpView::AppendBlock
                && final(bc).ops().len() >= 5
                && final(bc).ops_at(final(bc).ops().len() - 5, init_end_ops((final(bc).ops().len() - 5) as nat, fail_bb)),
            r is Ok ==> forall|k: int| 0 <= k < initializers@.len() ==>
                #[trigger] initializer_stored(final(bc), initializers@[k], TType::ELEMENT_SIZE),
    {
        let mut limits: Vec<ResizableLimits> = Vec::new();
        let mut i: usize = 0;
        while i < table_types.len()
            invariant
                i <= table_types@.len(),
                limits@ == table_limits(table_types@).take(i as int),
            decreases table_types@.len() - i,
        {
            limits.push(table_types[i].limits);
            i = i + 1;
            proof {
                assert(limits@ =~= table_limits(table_types@).take(i as int));
            }
        }
        assert(limits@ =~= table_limits(table_types@));
        let ghost start = *bc;
        let fail_bb = self.table_memory_compiler.begin_init_function(bc, import_count, limits.as_slice())?;
        let ghost begun = *bc;
        proof {
            assert(begun.ops().take(begun.ops().len() as int) =~= begun.ops());
        }
        let mut k: usize = 0;
        while k < initializers.len()
            invariant
                bc.extends(&begun),
                k <= initializers@.len(),
                begun.keeps_symbols(&start),
                members_in_range(initializers@, start.module.functions@.len()),
                begun.ops().len() <= bc.ops().len(),
                bc.grown(&begun, (bc.ops().len() - begun.ops().len()) as nat),
                forall|x: int| 0 <= x < k ==> #[trigger] initializer_stored(bc, initializers@[x], TType::ELEMENT_SIZE),
            decreases initializers@.len() - k,
        {
            let ghost before = *bc;
            self.build_table_initializer(bc, &initializers[k]);
            proof {
                let grew = (9 + 2 * initializers@[k as int].members@.len()) as nat;
                BuildContext::lemma_grown_trans(&begun, &before, bc, (before.ops().len() - begun.ops().len()) as nat, grew);
                assert forall|x: int| 0 <= x < k + 1 implies #[trigger] initializer_stored(bc, initializers@[x], TType::ELEMENT_SIZE) by {
                    if x < k {
                        assert(initializer_stored(&before, initializers@[x], TType::ELEMENT_SIZE));
                        lemma_initializer_stored_kept(&before, bc, grew, initializers@[x], TType::ELEMENT_SIZE);
                    } else {
                        assert(initializer_placed(bc, before.ops().len(), initializers@[x], TType::ELEMENT_SIZE));
                    }
                }
            }
            k = k + 1;
        }
        let ghost filled = *bc;
        self.table_memory_compiler.end_init_function(bc, fail_bb);
        proof {
            let n = filled.ops().len();
            let prefix = TableTypeContext::<TType>::MEMORY_NAME_PREFIX@;
            let dm = TableTypeContext::<TType>::DEFAULT_MAXIMUM_UNIT_SIZE;
            let unit = TableTypeContext::<TType>::UNIT_SIZE as nat;
            let limits = table_limits(table_types@);
            assert(bc.ops().take(n as int) =~= filled.ops());
            assert(bc.grown(&filled, 5));
            assert(bc.ops().subrange(n as int, n + 5int) =~= init_end_ops(n, fail_bb));
            BuildContext::lemma_grown_trans(&begun, &filled, bc, (n - begun.ops().len()) as nat, 5);
            let total = (bc.ops().len() - begun.ops().len()) as nat;
            assert forall|x: int| 0 <= x < initializers@.len() implies #[trigger] initializer_stored(bc, initializers@[x], TType::ELEMENT_SIZE) by {
                assert(initializer_stored(&filled, initializers@[x], TType::ELEMENT_SIZE));
                lemma_initializer_stored_kept(&filled, bc, 5, initializers@[x], TType::ELEMENT_SIZE);
            }
            assert forall|j: int| 0 <= j < limits.len() implies
                #[trigger] memory_mapped(bc, prefix, import_count as nat + j as nat, limits[j], dm, fail_bb, unit, spec_int_wasm_ptr::<T>()) by {
                assert(memory_mapped(&begun, prefix, import_count as nat + j as nat, limits[j], dm, fail_bb, unit, spec_int_wasm_ptr::<T>()));
                lemma_memory_mapped_kept(&begun, bc, total, prefix, import_count as nat + j as nat, limits[j], dm, fail_bb, unit, spec_int_wasm_ptr::<T>());
            }
            assert(memories_mapped(bc, "__wasm_table"@, import_count as nat, limits, dm, fail_bb, unit, spec_int_wasm_ptr::<T>()));
            assert(bc.ops()[fail_bb as int] == begun.ops()[fail_bb as int]);
            assert forall|x: nat| import_count <= x < import_count + table_types@.len() implies
                #[trigger] crate::memory::memory_declared(bc.module.global_names(), "__wasm_table"@, x) by {
                assert(crate::memory::memory_declared(begun.module.global_names(), "__wasm_table"@, x));
                crate::memory::lemma_declared_kept(&begun, bc, "__wasm_table"@, x);
            }
            let f = begun.function->0;
            assert(bc.module.function_names()[f as int] == begun.module.function_names()[f as int]);
        }
        Ok(())
    }

    /// Places the functions of one initializer into its table.
    #[verifier::rlimit(30)]
    fn build_table_initializer(&self, bc: &mut BuildContext, initializer: &TableInitializer)
        requires
            old(bc).wf(),
            forall|j: int| 0 <= j < initializer.members@.len() ==> #[trigger] initializer.members@[j] < old(bc).module.functions@.len(),
        ensures
            final(bc).grown(old(bc), 9 + 2 * initializer.members@.len()),
            initializer_placed(final(bc), old(bc).ops().len(), *initializer, TType::ELEMENT_SIZE),
    {
        let ghost n = old(bc).ops().len();
        let ghost members = initializer.members@;
        let offset = bc.emit(Op::Const { value: initializer.offset });
        let scaled = Self::build_size_to_element_size(bc, offset);
        let ghost scaled_bc = *bc;
        let address = self.table_memory_compiler.build_get_real_address(bc, initializer.index, scaled);
        let ghost addressed = *bc;
        let ghost global = addressed.ops()[n + 3int]->GlobalRef_global;
        proof {
            let head = initializer_ops(n, *initializer, TType::ELEMENT_SIZE, global).take(6);
            assert(scaled_bc.ops() =~= old(bc).ops() + head.take(3));
            assert forall|i: int| 0 <= i < 3 implies addressed.ops()[n + i] == head[i] by {
                assert(addressed.ops()[n + i] == addressed.ops().take(n + 3int)[n + i]);
            }
            assert(addressed.ops().subrange(n as int, n + 6int) =~= head);
        }
        let mut values: Vec<usize> = Vec::new();
        let mut j: usize = 0;
        while j < initializer.members.len()
            invariant
                bc.extends(&addressed),
                bc.keeps_initial_values(&addressed),
                j <= members.len(),
                members == initializer.members@,
                addressed.ops().len() == n + 6,
                bc.ops() == addressed.ops() + member_ops(n + 6, members.take(j as int)),
                values@ == Seq::new(j as nat, |i: int| (n + 7 + 2 * i) as usize),
            decreases members.len() - j,
        {
            proof {
                lemma_member_ops_len(n + 6, members.take(j as int));
            }
            let function = bc.emit(Op::FunctionRef { function: initializer.members[j] });
            let value = bc.emit(Op::ConstCast { op: CastOp::PointerCast, value: function, ty: IrType::Ptr(PointeeType::Void) });
            values.push(value);
            j = j + 1;
            proof {
                assert(members.take(j as int).drop_last() =~= members.take(j - 1));
                assert(bc.ops() =~= addressed.ops() + member_ops(n + 6, members.take(j as int)));
                assert(values@ =~= Seq::new(j as nat, |i: int| (n + 7 + 2 * i) as usize));
            }
        }
        proof {
            assert(members.take(members.len() as int) =~= members);
            lemma_member_ops_len(n + 6, members);
        }
        let ghost filled = *bc;
        let array = bc.emit(Op::ConstArray { element: IrType::Ptr(PointeeType::Void), elements: values });
        let target = bc.emit(Op::Cast { op: CastOp::PointerCast, operand: address, ty: IrType::PtrToTypeOf(array) });
        bc.emit(Op::Store { value: array, ptr: target });
        proof {
            let ops = initializer_ops(n, *initializer, TType::ELEMENT_SIZE, global);
            let m = members.len();
            assert(addressed.ops().take(n as int) == old(bc).ops());
            assert(addressed.ops().subrange(n as int, n + 6int) =~= ops.take(6));
            assert(bc.ops() =~= old(bc).ops() + ops) by {
                assert(addressed.ops() =~= old(bc).ops() + addressed.ops().subrange(n as int, n + 6int));
            }
            assert(bc.ops().take(n as int) =~= old(bc).ops());
            assert(bc.ops().subrange(n as int, n + ops.len() as int) =~= ops);
            assert(bc.module.global_names()[global as int] == addressed.module.global_names()[global as int]);
            assert(TableTypeContext::<TType>::MEMORY_NAME_PREFIX@ == "__wasm_table"@);
            assert(global < bc.module.globals@.len());
            assert(bc.module.global_names()[global as int] == memory_name("__wasm_table"@, initializer.index as nat));
            assert(bc.ops_at(n as int, initializer_ops(n, *initializer, TType::ELEMENT_SIZE, global)));
        }
    }

    /// The function pointer stored at element `index_value` of table
    /// `table_index`, as a pointer to a function of the type with index `function_type`.
    #[verifier::rlimit(40)]
    pub fn build_get_function_address(&self, bc: &mut BuildContext, index_value: usize, function_type: usize, table_index: u8) -> (r: usize)
        requires
            old(bc).wf(),
        ensures
            final(bc).extends(old(bc)),
            final(bc).keeps_initial_values(old(bc)),
            final(bc).ops().len() == old(bc).ops().len() + 7,
            final(bc).ops().take(old(bc).ops().len() as int) == old(bc).ops(),
            final(bc).ops()[old(bc).ops().len() as int] == (OpView::Const { value: Constant::Int { ty: IrType::Int32, value: TType::ELEMENT_SIZE as u64, sign_extend: false } }),
            final(bc).ops()[old(bc).ops().len() + 1 as int] == (OpView::Binary { op: BinaryOp::Mul, lhs: index_value, rhs: old(bc).ops().len() as usize }),
            final(bc).ops()[old(bc).ops().len() + 2 as int] matches OpView::GlobalRef { global }
                && global < final(bc).module.globals@.len()
                && final(bc).module.global_names()[global as int] == crate::memory::memory_name("__wasm_table"@, table_index as nat),
            final(bc).ops()[old(bc).ops().len() + 3 as int] == (OpView::Load { ptr: (old(bc).ops().len() + 2) as usize }),
            final(bc).ops()[old(bc).ops().len() + 4 as int] == (OpView::Gep { ptr: (old(bc).ops().len() + 3) as usize, indices: seq![(old(bc).ops().len() + 1) as usize] }),
            final(bc).ops()[old(bc).ops().len() + 5 as int] == (OpView::Cast { op: CastOp::PointerCast, operand: (old(bc).ops().len() + 4) as usize, ty: IrType::PtrToFunctionPtr(function_type) }),
            final(bc).ops()[old(bc).ops().len() + 6 as int] == (OpView::Load { ptr: (old(bc).ops().len() + 5) as usize }),
            r == old(bc).ops().len() + 6,
    {
        let scaled = Self::build_size_to_element_size(bc, index_value);
        let ghost mid = *bc;
        let address = self.table_memory_compiler.build_get_real_address(bc, table_index as u32, scaled);
        let ghost mid2 = *bc;
        let cast = bc.emit(Op::Cast { op: CastOp::PointerCast, operand: address, ty: IrType::PtrToFunctionPtr(function_type) });
        let r = bc.emit(Op::Load { ptr: cast });
        proof {
            assert(bc.ops().take(mid2.ops().len() as int) =~= mid2.ops());
            assert(mid2.ops().take(mid.ops().len() as int) == mid.ops());
            assert(bc.ops()[old(bc).ops().len() as int] == mid2.ops()[old(bc).ops().len() as int]);
            assert(bc.ops()[old(bc).ops().len() + 1 as int] == mid2.ops()[old(bc).ops().len() + 1 as int]);
            assert(mid2.ops()[old(bc).ops().len() as int] == mid.ops()[old(bc).ops().len() as int]);
            assert(mid2.ops()[old(bc).ops().len() + 1 as int] == mid.ops()[old(bc).ops().len() + 1 as int]);
            assert(mid.ops().take(old(bc).ops().len() as int) =~= old(bc).ops());
            assert(bc.ops().take(old(bc).ops().len() as int) =~= mid2.ops().take(old(bc).ops().len() as int));
            assert(mid2.ops().take(old(bc).ops().len() as int) =~= mid.ops().take(old(bc).ops().len() as int));
            lemma_table_kind::<TType>();
            let n = old(bc).ops().len() as int;
            assert(mid.ops().len() == n + 2);
            assert(scaled == n + 1);
            assert(mid2.ops()[n + 3] == (OpView::Load { ptr: (n + 2) as usize }));
            assert(mid2.ops()[n + 4] == (OpView::Gep { ptr: (n + 3) as usize, indices: seq![scaled] }));
            assert(bc.ops()[n + 2] == mid2.ops()[n + 2]);
            assert(bc.ops()[n + 3] == mid2.ops()[n + 3]);
            assert(bc.ops()[n + 4] == mid2.ops()[n + 4]);
            let global = mid2.ops()[n + 2]->GlobalRef_global;
            assert(bc.module.global_names()[global as int] == mid2.module.global_names()[global as int]);
        }
        r
    }

    /// `size` elements in bytes: `size` times the element size.
    fn build_size_to_element_size(bc: &mut BuildContext, size: usize) -> (r: usize)
        requires
            old(bc).wf(),
        ensures
            final(bc).emitted(old(bc), seq![
                OpView::Const { value: Constant::Int { ty: IrType::Int32, value: TType::ELEMENT_SIZE as u64, sign_extend: false } },
                OpView::Binary { op: BinaryOp::Mul, lhs: size, rhs: old(bc).ops().len() as usize },
            ]),
            r == old(bc).ops().len() + 1,
    {
        let element_size = bc.emit(Op::Const { value: Constant::Int { ty: IrType::Int32, value: TType::ELEMENT_SIZE as u64, sign_extend: false } });
        let r = bc.emit(Op::Binary { op: BinaryOp::Mul, lhs: size, rhs: element_size });
        proof {
            assert(bc.ops() =~= old(bc).ops() + seq![
                OpView::Const { value: Constant::Int { ty: IrType::Int32, value: TType::ELEMENT_SIZE as u64, sign_extend: false } },
                OpView::Binary { op: BinaryOp::Mul, lhs: size, rhs: old(bc).ops().len() as usize },
            ]);
        }
        r
    }
}

} // verus!
