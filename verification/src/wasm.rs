use vstd::prelude::*;
use crate::build_context::BuildContext;
use crate::error::{ErrorView, RuntimeError};
use crate::instructions::{
    f32_const_internal, f64_const_internal, get_global_name, global_name, i32_const_internal, i64_const_internal,
    spec_value_type_to_type, value_type_to_type,
};
use crate::calls::build_call_and_set;
use crate::instructions::{code_failed, code_translated, get_global_internal, instruction_supported, linear_prefix, progress_instruction, spec_classify, step_done, step_translated, trace_translates};
use crate::ir::{CastOp, Constant, FunctionType, IrModule, IrType, Op, OpView, PointeeType};
use crate::memory::memory_name;
use crate::stack::{empty_history, value_id, value_loads, Frame, FrameView, LocalValue, ModuleInstance, Stack, StackView, WasmValue};
use crate::table::{members_in_range, table_limits, TableInitializer, TableTypeContext, AnyFunctionTableType};
use crate::memory::{all_limits_valid, init_function_name, limits_error, LinearMemoryTypeContext, MemoryTypeContext};
use crate::instructions::return_type;
use crate::calls::call_emitted;
use crate::memory::LinearMemoryCompiler;
use crate::memory_functions::memory_functions_declared;
use crate::table::FunctionTableCompiler;
use crate::text::{decimal, prefixed_decimal};
use crate::types::WasmIntType;
use crate::wasm_module::{
    clone_instruction, is_copy, DataSegment, ExportEntry, External, FuncBody, GlobalEntry, GlobalType, ImportCountType, ImportEntry,
    InitExpr, Instruction, Internal, Local, Module, Type, ValueType,
};

verus! {

/// The compiler of a WebAssembly module: its linear memories and its
/// function tables are built by their own compilers.
pub struct WasmCompiler<T: WasmIntType> {
    pub linear_memory_compiler: LinearMemoryCompiler<T>,
    pub table_compiler: FunctionTableCompiler<T>,
}

/// The name of the function that a WebAssembly function named `name` becomes.
pub open spec fn wasm_function_name(name: Seq<char>) -> Seq<char> {
    "__WASM_FUNCTION_"@ + name
}

/// The constant that a constant instruction makes, if it is one.
pub open spec fn init_constant(instruction: Instruction) -> Option<Constant> {
    match instruction {
        Instruction::I32Const(v) => Some(Constant::Int { ty: IrType::Int32, value: v as u64, sign_extend: true }),
        Instruction::I64Const(v) => Some(Constant::Int { ty: IrType::Int64, value: v as u64, sign_extend: true }),
        Instruction::F32Const(v) => Some(Constant::Real32 { bits: v }),
        Instruction::F64Const(v) => Some(Constant::Real64 { bits: v }),
        _ => None,
    }
}

/// The return type of a function of WebAssembly type `t`.
pub open spec fn ir_return_type(t: crate::wasm_module::FunctionType) -> IrType {
    match t.return_type {
        Some(v) => spec_value_type_to_type(v),
        None => IrType::Void,
    }
}

/// The function type of the plan that `t` becomes: its result (void when
/// it has none), its parameters, and no further arguments.
pub open spec fn ir_function_type_matches(r: FunctionType, t: Type) -> bool {
    match t {
        Type::Function(ft) => {
            &&& r.ret == ir_return_type(ft)
            &&& r.params@ == ft.params@.map_values(|v: ValueType| spec_value_type_to_type(v))
            &&& !r.var_arg
        },
    }
}

/// The function imports among `imports`, in order: field name and type index.
pub open spec fn function_imports(imports: Seq<ImportEntry>) -> Seq<(Seq<char>, u32)>
    decreases imports.len(),
{
    if imports.len() == 0 {
        seq![]
    } else {
        let rest = function_imports(imports.drop_last());
        match imports.last().external {
            External::Function(type_index) => rest.push((imports.last().field@, type_index)),
            _ => rest,
        }
    }
}

/// The function exports among `exports`, in order: function index and name.
pub open spec fn function_exports(exports: Seq<ExportEntry>) -> Seq<(u32, Seq<char>)>
    decreases exports.len(),
{
    if exports.len() == 0 {
        seq![]
    } else {
        let rest = function_exports(exports.drop_last());
        match exports.last().internal {
            Internal::Function(index) => rest.push((index, exports.last().field@)),
            _ => rest,
        }
    }
}

/// The name under which function `index` is exported last, if it is.
pub open spec fn export_name(pairs: Seq<(u32, Seq<char>)>, index: u32) -> Option<Seq<char>>
    decreases pairs.len(),
{
    if pairs.len() == 0 {
        None
    } else if pairs.last().0 == index {
        Some(pairs.last().1)
    } else {
        export_name(pairs.drop_last(), index)
    }
}

/// The name of function `index` of the module: its export name, or
/// `internal` and its index.
pub open spec fn module_function_name(pairs: Seq<(u32, Seq<char>)>, index: u32) -> Seq<char> {
    match export_name(pairs, index) {
        Some(name) => name,
        None => "internal"@ + decimal(index as nat),
    }
}

/// A copy of a function type of the plan.
pub fn clone_function_type(t: &FunctionType) -> (r: FunctionType)
    ensures
        r.ret == t.ret,
        r.params@ == t.params@,
        r.var_arg == t.var_arg,
{
    let mut params: Vec<IrType> = Vec::new();
    let mut i: usize = 0;
    while i < t.params.len()
        invariant
            i <= t.params@.len(),
            params@ == t.params@.take(i as int),
        decreases t.params@.len() - i,
    {
        params.push(t.params[i]);
        i = i + 1;
        proof {
            assert(params@ =~= t.params@.take(i as int));
        }
    }
    assert(t.params@.take(t.params@.len() as int) =~= t.params@);
    FunctionType { ret: t.ret, params, var_arg: t.var_arg }
}

impl<T: WasmIntType> WasmCompiler<T> {
    pub fn new() -> (r: Self) {
        WasmCompiler { linear_memory_compiler: LinearMemoryCompiler::new(), table_compiler: FunctionTableCompiler::new() }
    }

    /// The name of the function that a WebAssembly function named `name` becomes.
    pub fn wasm_function_name(name: &str) -> (r: String)
        ensures
            r@ == wasm_function_name(name@),
    {
        proof {
            reveal_strlit("__WASM_FUNCTION_");
        }
        let mut s = String::from_str("__WASM_FUNCTION_");
        s.append(name);
        s
    }

    /// The `main` function of the program, declared unless it exists:
    /// `int main(int, char *)`.
    pub fn set_declare_main_function(bc: &mut BuildContext) -> (f: usize)
        requires
            old(bc).wf(),
        ensures
            final(bc).extends(old(bc)),
            final(bc).keeps_initial_values(old(bc)),
            final(bc).body == old(bc).body,
            f < final(bc).module.functions@.len(),
            final(bc).module.function_names()[f as int] == "main"@,
    {
        let mut params = Vec::new();
        params.push(IrType::Int32);
        params.push(IrType::Ptr(PointeeType::Int8));
        let f = bc.set_declare_function(String::from_str("main"), FunctionType { ret: IrType::Int32, params, var_arg: false });
        proof {
            reveal_strlit("main");
        }
        f
    }

    /// The global for global `index` of type `global_type`, declared unless it exists.
    fn set_declare_global(bc: &mut BuildContext, index: u32, global_type: GlobalType) -> (g: usize)
        requires
            old(bc).wf(),
        ensures
            final(bc).extends(old(bc)),
            final(bc).keeps_initial_values(old(bc)),
            final(bc).body == old(bc).body,
            g < final(bc).module.globals@.len(),
            final(bc).module.global_names()[g as int] == global_name(index as nat),
            !old(bc).module.global_names().contains(global_name(index as nat))
                ==> final(bc).module.globals@[g as int].ty == spec_value_type_to_type(global_type.content_type),
            old(bc).module.global_names().contains(global_name(index as nat)) ==> final(bc).module == old(bc).module,
            !old(bc).module.global_names().contains(global_name(index as nat)) ==> {
                &&& g == old(bc).module.globals@.len()
                &&& final(bc).module.initializers@ == old(bc).module.initializers@.push(None)
                &&& final(bc).module.constant@ == old(bc).module.constant@.push(false)
            },
    {
        bc.set_declare_global(get_global_name(index), value_type_to_type(global_type.content_type))
    }

    /// Declares global `index` for `entry` and, when its initializer starts
    /// with a constant, gives it that initial value and makes it constant
    /// unless it is mutable.
    pub fn build_const_initialize_global(bc: &mut BuildContext, index: u32, entry: &GlobalEntry) -> (r: Result<usize, RuntimeError>)
        requires
            old(bc).wf(),
        ensures
            final(bc).extends(old(bc)),
            final(bc).body == old(bc).body,
            r is Ok <==> entry.init_expr.code@.len() > 0,
            r matches Err(e) ==> e is NotExistGlobalInitializerInstruction,
            r matches Ok(g) ==> {
                &&& g < final(bc).module.globals@.len()
                &&& final(bc).module.global_names()[g as int] == global_name(index as nat)
                &&& !old(bc).module.global_names().contains(global_name(index as nat))
                    ==> final(bc).module.globals@[g as int].ty == spec_value_type_to_type(entry.global_type.content_type)
                &&& match init_constant(entry.init_expr.code@[0]) {
                    Some(c) => final(bc).module.initializers@[g as int] == Some(c)
                        && final(bc).module.constant@[g as int] == !entry.global_type.is_mutable,
                    None => if g < old(bc).module.globals@.len() {
                        final(bc).module.initializers@[g as int] == old(bc).module.initializers@[g as int]
                            && final(bc).module.constant@[g as int] == old(bc).module.constant@[g as int]
                    } else {
                        final(bc).module.initializers@[g as int] is None && !final(bc).module.constant@[g as int]
                    },
                }
            },
    {
        let g = Self::set_declare_global(bc, index, entry.global_type);
        if entry.init_expr.code.len() == 0 {
            return Err(RuntimeError::NotExistGlobalInitializerInstruction);
        }
        let initializer = match &entry.init_expr.code[0] {
            Instruction::I32Const(v) => Some(i32_const_internal(*v)),
            Instruction::I64Const(v) => Some(i64_const_internal(*v)),
            Instruction::F32Const(v) => Some(f32_const_internal(*v)),
            Instruction::F64Const(v) => Some(f64_const_internal(*v)),
            _ => None,
        };
        if let Some(c) = initializer {
            bc.set_initializer(g, c);
            bc.set_global_const(g, !entry.global_type.is_mutable);
        }
        Ok(g)
    }

    /// Declares and initializes the globals of `entries`, numbered from
    /// `import_global_count` on; stops at the first entry without initializer.
    pub fn build_global_entries(bc: &mut BuildContext, entries: &[GlobalEntry], import_global_count: u32) -> (r: Result<(), RuntimeError>)
        requires
            old(bc).wf(),
            import_global_count + entries@.len() <= u32::MAX,
        ensures
            final(bc).extends(old(bc)),
            final(bc).body == old(bc).body,
            r is Ok <==> forall|i: int| 0 <= i < entries@.len() ==> #[trigger] entries@[i].init_expr.code@.len() > 0,
            r matches Err(e) ==> e is NotExistGlobalInitializerInstruction,
            r is Ok ==> forall|i: int| 0 <= i < entries@.len()
                ==> #[trigger] final(bc).module.global_names().contains(global_name((import_global_count + i) as nat)),
    {
        let mut i: usize = 0;
        while i < entries.len()
            invariant
                bc.extends(old(bc)),
                bc.body == old(bc).body,
                i <= entries@.len(),
                import_global_count + entries@.len() <= u32::MAX,
                forall|j: int| 0 <= j < i ==> #[trigger] entries@[j].init_expr.code@.len() > 0,
                forall|j: int| 0 <= j < i ==> #[trigger] bc.module.global_names().contains(global_name((import_global_count + j) as nat)),
            decreases entries@.len() - i,
        {
            let ghost before = *bc;
            let g = Self::build_const_initialize_global(bc, i as u32 + import_global_count, &entries[i])?;
            proof {
                assert forall|j: int| 0 <= j < i + 1 implies #[trigger] bc.module.global_names().contains(global_name((import_global_count + j) as nat)) by {
                    if j < i {
                        assert(before.module.global_names().contains(global_name((import_global_count + j) as nat)));
                        BuildContext::lemma_global_kept(&before, bc, global_name((import_global_count + j) as nat));
                    } else {
                        assert(bc.module.global_names()[g as int] == global_name((import_global_count + j) as nat));
                    }
                }
            }
            i = i + 1;
        }
        Ok(())
    }

    /// Declares and initializes the globals of the global section, if there is one.
    pub fn build_init_global_sections(bc: &mut BuildContext, wasm_module: &Module) -> (r: Result<(), RuntimeError>)
        requires
            old(bc).wf(),
            wasm_module.globals matches Some(globals) ==> wasm_module.spec_import_count(ImportCountType::Global) + globals@.len() <= u32::MAX,
        ensures
            final(bc).extends(old(bc)),
            final(bc).body == old(bc).body,
            r is Ok <==> (wasm_module.globals matches Some(globals) ==> forall|i: int| 0 <= i < globals@.len() ==> #[trigger] globals@[i].init_expr.code@.len() > 0),
            r matches Err(e) ==> e is NotExistGlobalInitializerInstruction,
            r is Ok ==> (wasm_module.globals matches Some(globals) ==> forall|i: int| 0 <= i < globals@.len()
                ==> #[trigger] final(bc).module.global_names().contains(crate::instructions::global_name(
                    (wasm_module.spec_import_count(ImportCountType::Global) + i) as nat))),
    {
        match &wasm_module.globals {
            Some(globals) => {
                let import_global_count = wasm_module.import_count(ImportCountType::Global) as u32;
                Self::build_global_entries(bc, globals.as_slice(), import_global_count)
            },
            None => Ok(()),
        }
    }

    /// The function types of the plan for the types of the type section.
    pub fn set_declare_types(types: &[Type]) -> (r: Vec<FunctionType>)
        ensures
            r@.len() == types@.len(),
            forall|i: int| 0 <= i < types@.len() ==> #[trigger] ir_function_type_matches(r@[i], types@[i]),
    {
        let mut r: Vec<FunctionType> = Vec::new();
        let mut i: usize = 0;
        while i < types.len()
            invariant
                i <= types@.len(),
                r@.len() == i,
                forall|j: int| 0 <= j < i ==> #[trigger] ir_function_type_matches(r@[j], types@[j]),
            decreases types@.len() - i,
        {
            match &types[i] {
                Type::Function(function_type) => {
                    let mut params: Vec<IrType> = Vec::new();
                    let mut k: usize = 0;
                    while k < function_type.params.len()
                        invariant
                            k <= function_type.params@.len(),
                            params@ == function_type.params@.take(k as int).map_values(|v: ValueType| spec_value_type_to_type(v)),
                        decreases function_type.params@.len() - k,
                    {
                        params.push(value_type_to_type(function_type.params[k]));
                        k = k + 1;
                        proof {
                            assert(params@ =~= function_type.params@.take(k as int).map_values(|v: ValueType| spec_value_type_to_type(v)));
                        }
                    }
                    assert(function_type.params@.take(function_type.params@.len() as int) =~= function_type.params@);
                    let ret = match function_type.return_type {
                        Some(v) => value_type_to_type(v),
                        None => IrType::Void,
                    };
                    r.push(FunctionType { ret, params, var_arg: false });
                },
            }
            i = i + 1;
        }
        r
    }

    /// The function named after `name`, of type `type_index` among
    /// `types`, declared unless it exists.
    pub fn set_declare_function(bc: &mut BuildContext, name: &str, type_index: u32, types: &[FunctionType]) -> (r: Result<usize, RuntimeError>)
        requires
            old(bc).wf(),
        ensures
            final(bc).extends(old(bc)),
            final(bc).keeps_initial_values(old(bc)),
            final(bc).body == old(bc).body,
            r is Ok <==> type_index < types@.len(),
            r matches Err(e) ==> e@ == (ErrorView::NoSuchTypeIndex { index: type_index }),
            r matches Ok(f) ==> f < final(bc).module.functions@.len()
                && final(bc).module.function_names()[f as int] == wasm_function_name(name@),
            r is Ok && !old(bc).module.function_names().contains(wasm_function_name(name@)) ==> {
                let t = final(bc).module.types@.last();
                &&& t.ret == types@[type_index as int].ret
                &&& t.params@ == types@[type_index as int].params@
                &&& t.var_arg == types@[type_index as int].var_arg
            },
    {
        if type_index as usize >= types.len() {
            return Err(RuntimeError::NoSuchTypeIndex { index: type_index });
        }
        let function_type = clone_function_type(&types[type_index as usize]);
        let full_name = Self::wasm_function_name(name);
        let f = bc.set_declare_function(full_name, function_type);
        Ok(f)
    }

    /// Declares the imported functions, in order.
    pub fn set_declare_imported_functions(bc: &mut BuildContext, wasm_module: &Module, types: &[FunctionType]) -> (r: Result<Vec<usize>, RuntimeError>)
        requires
            old(bc).wf(),
        ensures
            final(bc).extends(old(bc)),
            final(bc).body == old(bc).body,
            r is Ok <==> (wasm_module.imports matches Some(imports) ==>
                forall|k: int| 0 <= k < function_imports(imports@).len() ==> #[trigger] function_imports(imports@)[k].1 < types@.len()),
            r matches Err(e) ==> wasm_module.imports matches Some(imports) && exists|k: int|
                0 <= k < function_imports(imports@).len()
                && (forall|j: int| 0 <= j < k ==> #[trigger] function_imports(imports@)[j].1 < types@.len())
                && function_imports(imports@)[k].1 >= types@.len()
                && e@ == (ErrorView::NoSuchTypeIndex { index: #[trigger] function_imports(imports@)[k].1 }),
            r matches Ok(v) ==> match &wasm_module.imports {
                Some(imports) => {
                    &&& v@.len() == function_imports(imports@).len()
                    &&& forall|k: int| 0 <= k < v@.len() ==> #[trigger] v@[k] < final(bc).module.functions@.len()
                        && final(bc).module.function_names()[v@[k] as int] == wasm_function_name(function_imports(imports@)[k].0)
                },
                None => v@.len() == 0,
            },
    {
        let mut v: Vec<usize> = Vec::new();
        match &wasm_module.imports {
            Some(imports) => {
                let mut i: usize = 0;
                while i < imports.len()
                    invariant
                        bc.extends(old(bc)),
                        bc.body == old(bc).body,
                        wasm_module.imports == Some(*imports),
                        i <= imports@.len(),
                        v@.len() == function_imports(imports@.take(i as int)).len(),
                        forall|k: int| 0 <= k < function_imports(imports@.take(i as int)).len()
                            ==> #[trigger] function_imports(imports@.take(i as int))[k].1 < types@.len(),
                        forall|k: int| 0 <= k < v@.len() ==> #[trigger] v@[k] < bc.module.functions@.len()
                            && bc.module.function_names()[v@[k] as int] == wasm_function_name(function_imports(imports@.take(i as int))[k].0),
                    decreases imports@.len() - i,
                {
                    proof {
                        assert(imports@.take(i + 1).drop_last() =~= imports@.take(i as int));
                    }
                    let entry = &imports[i];
                    let ghost before = *bc;
                    if let External::Function(type_index) = entry.external {
                        let f = match Self::set_declare_function(bc, entry.field.as_str(), type_index, types) {
                            Ok(f) => f,
                            Err(e) => {
                                proof {
                                    let full = function_imports(imports@.take(i + 1));
                                    assert(full[full.len() - 1].1 == type_index);
                                    lemma_function_imports_prefix(imports@, i + 1);
                                    assert(function_imports(imports@)[full.len() - 1].1 == type_index);
                                    assert(full.len() - 1 < function_imports(imports@).len());
                                    assert(type_index >= types@.len());
                                    assert(wasm_module.imports matches Some(x) && x == *imports);
                                    assert(!(wasm_module.imports matches Some(imports) ==>
                                        forall|k: int| 0 <= k < function_imports(imports@).len() ==> #[trigger] function_imports(imports@)[k].1 < types@.len()));
                                    let k = full.len() - 1;
                                    lemma_function_imports_prefix(imports@, i as int);
                                    assert forall|j: int| 0 <= j < k implies #[trigger] function_imports(imports@)[j].1 < types@.len() by {
                                        assert(function_imports(imports@.take(i as int))[j] == function_imports(imports@)[j]);
                                    }
                                    assert(e@ == (ErrorView::NoSuchTypeIndex { index: function_imports(imports@)[k].1 }));
                                }
                                return Err(e);
                            },
                        };
                        v.push(f);
                        proof {
                            assert forall|k: int| 0 <= k < v@.len() implies #[trigger] v@[k] < bc.module.functions@.len()
                                && bc.module.function_names()[v@[k] as int] == wasm_function_name(function_imports(imports@.take(i + 1))[k].0) by {
                                if k < v@.len() - 1 {
                                    assert(bc.module.functions@[v@[k] as int] == before.module.functions@[v@[k] as int]);
                                }
                            }
                        }
                    }
                    i = i + 1;
                }
                assert(imports@.take(imports@.len() as int) =~= imports@);
                Ok(v)
            },
            None => Ok(v),
        }
    }

    /// The function exports, in order: function index and name.
    pub fn get_exported_function_pairs(wasm_module: &Module) -> (r: Vec<(u32, String)>)
        ensures
            match &wasm_module.exports {
                Some(exports) => {
                    &&& r@.len() == function_exports(exports@).len()
                    &&& forall|k: int| 0 <= k < r@.len() ==> (#[trigger] r@[k]).0 == function_exports(exports@)[k].0
                        && r@[k].1@ == function_exports(exports@)[k].1
                },
                None => r@.len() == 0,
            },
    {
        let mut r: Vec<(u32, String)> = Vec::new();
        match &wasm_module.exports {
            Some(exports) => {
                let mut i: usize = 0;
                while i < exports.len()
                    invariant
                        i <= exports@.len(),
                        r@.len() == function_exports(exports@.take(i as int)).len(),
                        forall|k: int| 0 <= k < r@.len() ==> (#[trigger] r@[k]).0 == function_exports(exports@.take(i as int))[k].0
                            && r@[k].1@ == function_exports(exports@.take(i as int))[k].1,
                    decreases exports@.len() - i,
                {
                    proof {
                        assert(exports@.take(i + 1).drop_last() =~= exports@.take(i as int));
                    }
                    if let Internal::Function(index) = exports[i].internal {
                        r.push((index, exports[i].field.clone()));
                    }
                    i = i + 1;
                }
                assert(exports@.take(exports@.len() as int) =~= exports@);
                r
            },
            None => r,
        }
    }
}

/// A failing type index among the first function imports fails the whole list.
proof fn lemma_function_imports_prefix(imports: Seq<ImportEntry>, n: int)
    requires
        0 <= n <= imports.len(),
    ensures
        forall|k: int| 0 <= k < function_imports(imports.take(n)).len()
            ==> #[trigger] function_imports(imports.take(n))[k] == function_imports(imports)[k],
        function_imports(imports.take(n)).len() <= function_imports(imports).len(),
    decreases imports.len() - n,
{
    if n < imports.len() {
        lemma_function_imports_prefix(imports, n + 1);
        assert(imports.take(n + 1).drop_last() =~= imports.take(n));
        assert forall|k: int| 0 <= k < function_imports(imports.take(n)).len()
            implies #[trigger] function_imports(imports.take(n))[k] == function_imports(imports)[k] by {
            assert(function_imports(imports.take(n + 1))[k] == function_imports(imports.take(n))[k]);
        }
    } else {
        assert(imports.take(n) =~= imports);
    }
}

/// The global named `name`, when there is one.
pub open spec fn named_global(bc: &BuildContext, name: Seq<char>) -> int {
    choose|g: int| 0 <= g < bc.module.globals@.len() && bc.module.global_names()[g] == name
}

/// The constant that an offset expression gives, or its error: a 32- or
/// 64-bit constant, or the initial value of the global it reads.
pub open spec fn segment_offset(bc: &BuildContext, expr: InitExpr) -> Result<Constant, ErrorView> {
    if expr.code@.len() == 0 {
        Err(ErrorView::NotExistInitExpr)
    } else {
        match expr.code@[0] {
            Instruction::I64Const(v) => Ok(Constant::Int { ty: IrType::Int64, value: v as u64, sign_extend: true }),
            Instruction::I32Const(v) => Ok(Constant::Int { ty: IrType::Int32, value: v as u64, sign_extend: true }),
            Instruction::GetGlobal(v) => if !bc.module.global_names().contains(global_name(v as nat)) {
                Err(ErrorView::NoSuchLLVMGlobalValue { name: global_name(v as nat) })
            } else {
                match bc.module.initializers@[named_global(bc, global_name(v as nat))] {
                    Some(c) => Ok(c),
                    None => Err(ErrorView::NotExistGlobalInitializerInstruction),
                }
            },
            other => Err(ErrorView::InvalidInstruction { instruction: other }),
        }
    }
}

/// The error of an offset expression as it is reported: a table branch
/// in the expression is reported with a copy of its targets.
pub open spec fn offset_error_matches(e: ErrorView, expected: ErrorView) -> bool {
    match (e, expected) {
        (ErrorView::InvalidInstruction { instruction: a }, ErrorView::InvalidInstruction { instruction: b }) =>
            a == b || (a matches Instruction::BrTable(x, d) && b matches Instruction::BrTable(y, f) && x@ == y@ && d == f),
        _ => e == expected,
    }
}

impl<T: WasmIntType> WasmCompiler<T> {
    /// The constant that an offset expression gives.
    pub fn segment_init_expr_to_value(bc: &BuildContext, expr: &InitExpr) -> (r: Result<Constant, RuntimeError>)
        requires
            bc.wf(),
        ensures
            r is Ok <==> segment_offset(bc, *expr) is Ok,
            r matches Ok(c) ==> segment_offset(bc, *expr) == Ok::<Constant, ErrorView>(c),
            r matches Err(e) ==> offset_error_matches(e@, segment_offset(bc, *expr)->Err_0),
    {
        if expr.code.len() == 0 {
            return Err(RuntimeError::NotExistInitExpr);
        }
        match &expr.code[0] {
            Instruction::I64Const(v) => Ok(i64_const_internal(*v)),
            Instruction::I32Const(v) => Ok(i32_const_internal(*v)),
            Instruction::GetGlobal(v) => {
                let g = get_global_internal(bc, *v)?;
                proof {
                    let h = named_global(bc, global_name(*v as nat));
                    assert(bc.module.global_names()[g as int] == global_name(*v as nat));
                    assert(h == g as int);
                }
                match bc.get_initializer(g) {
                    Some(c) => Ok(c),
                    None => Err(RuntimeError::NotExistGlobalInitializerInstruction),
                }
            },
            other => Err(RuntimeError::InvalidInstruction { instruction: clone_instruction(other) }),
        }
    }

    /// The function that fills the linear memories from the data section,
    /// declared unless it exists.
    pub fn set_declare_init_data_sections_function(&self, bc: &mut BuildContext) -> (f: usize)
        requires
            old(bc).wf(),
        ensures
            final(bc).extends(old(bc)),
            final(bc).keeps_initial_values(old(bc)),
            final(bc).body == old(bc).body,
            f < final(bc).module.functions@.len(),
            final(bc).module.function_names()[f as int] == "init_data_sections"@,
            f >= old(bc).module.functions@.len() ==> final(bc).taken_up(f).len() == 0,
    {
        proof {
            reveal_strlit("init_data_sections");
        }
        bc.set_declare_function(String::from_str("init_data_sections"), FunctionType { ret: IrType::Int8, params: Vec::new(), var_arg: false })
    }

    /// Stores the bytes of a data segment at its offset in its memory.
    pub fn build_data_segment(&self, bc: &mut BuildContext, segment: &DataSegment) -> (r: Result<(), RuntimeError>)
        requires
            old(bc).wf(),
        ensures
            final(bc).extends(old(bc)),
            final(bc).keeps_initial_values(old(bc)),
            r is Ok <==> segment_offset(old(bc), segment.offset) is Ok,
            r matches Err(e) ==> offset_error_matches(e@, segment_offset(old(bc), segment.offset)->Err_0) && *final(bc) == *old(bc),
            r is Ok ==> data_segment_built(old(bc), final(bc), *segment),
    {
        let offset = Self::segment_init_expr_to_value(bc, &segment.offset)?;
        let ghost b0 = *bc;
        let offset_value = bc.emit(Op::Const { value: offset });
        let ghost b1 = *bc;
        let dest = self.linear_memory_compiler.build_get_real_address(bc, segment.index, offset_value);
        let ghost b2 = *bc;
        let mut bytes: Vec<usize> = Vec::new();
        let mut i: usize = 0;
        while i < segment.value.len()
            invariant
                i <= segment.value@.len(),
                bc.emitted(&b2, segment.value@.take(i as int).map_values(|b: u8| OpView::Const { value: Constant::Int { ty: IrType::Int8, value: b as u64, sign_extend: false } })),
                bytes@ == Seq::new(i as nat, |j: int| (b2.ops().len() + j) as usize),
            decreases segment.value@.len() - i,
        {
            let ghost before = *bc;
            let id = bc.emit(Op::Const { value: Constant::Int { ty: IrType::Int8, value: segment.value[i] as u64, sign_extend: false } });
            bytes.push(id);
            proof {
                BuildContext::lemma_emitted_trans(&b2, &before, bc,
                    segment.value@.take(i as int).map_values(|b: u8| OpView::Const { value: Constant::Int { ty: IrType::Int8, value: b as u64, sign_extend: false } }),
                    seq![OpView::Const { value: Constant::Int { ty: IrType::Int8, value: segment.value@[i as int] as u64, sign_extend: false } }]);
                assert(segment.value@.take(i + 1).map_values(|b: u8| OpView::Const { value: Constant::Int { ty: IrType::Int8, value: b as u64, sign_extend: false } })
                    =~= segment.value@.take(i as int).map_values(|b: u8| OpView::Const { value: Constant::Int { ty: IrType::Int8, value: b as u64, sign_extend: false } })
                        + seq![OpView::Const { value: Constant::Int { ty: IrType::Int8, value: segment.value@[i as int] as u64, sign_extend: false } }]);
                assert(bytes@ =~= Seq::new((i + 1) as nat, |j: int| (b2.ops().len() + j) as usize));
            }
            i = i + 1;
        }
        assert(segment.value@.take(segment.value@.len() as int) =~= segment.value@);
        let ghost b3 = *bc;
        let src = bc.emit(Op::ConstArray { element: IrType::Int8, elements: bytes });
        let target = bc.emit(Op::Cast { op: CastOp::PointerCast, operand: dest, ty: IrType::PtrToTypeOf(src) });
        bc.emit(Op::Store { value: src, ptr: target });
        proof {
            let n = old(bc).ops().len();
            let len = segment.value@.len();
            let consts = segment.value@.map_values(|b: u8| OpView::Const { value: Constant::Int { ty: IrType::Int8, value: b as u64, sign_extend: false } });
            let tail = seq![
                OpView::ConstArray { element: IrType::Int8, elements: Seq::new(len, |i: int| (n + 4 + i) as usize) },
                OpView::Cast { op: CastOp::PointerCast, operand: (n + 3) as usize, ty: IrType::PtrToTypeOf((n + 4 + len) as usize) },
                OpView::Store { value: (n + 4 + len) as usize, ptr: (n + 5 + len) as usize },
            ];
            assert(bc.ops() =~= b3.ops() + tail);
            BuildContext::lemma_emitted_grown(&b3, bc, tail);
            BuildContext::lemma_emitted_grown(&b2, &b3, consts);
            BuildContext::lemma_emitted_grown(old(bc), &b1, seq![OpView::Const { value: offset }]);
            assert(b2.ops().take(b1.ops().len() as int) == b1.ops());
            assert(b2.grown(&b1, 3));
            BuildContext::lemma_grown_trans(old(bc), &b1, &b2, 1, 3);
            BuildContext::lemma_grown_trans(old(bc), &b2, &b3, 4, len);
            BuildContext::lemma_grown_trans(old(bc), &b3, bc, 4 + len, 3);
            BuildContext::lemma_grown_trans(&b1, &b2, &b3, 3, len);
            BuildContext::lemma_grown_trans(&b1, &b3, bc, 3 + len, 3);
            BuildContext::lemma_grown_trans(&b2, &b3, bc, len, 3);
            BuildContext::lemma_kept(&b1, bc, 3 + len + 3, n as int, seq![OpView::Const { value: offset }]);
            BuildContext::lemma_refs_kept(&b2, bc, len + 3, n + 1int);
            assert(b2.ops().subrange(n + 2int, n + 4int) =~= seq![
                OpView::Load { ptr: (n + 1) as usize },
                OpView::Gep { ptr: (n + 2) as usize, indices: seq![n as usize] },
            ]);
            BuildContext::lemma_kept(&b2, bc, len + 3, n + 2int, seq![
                OpView::Load { ptr: (n + 1) as usize },
                OpView::Gep { ptr: (n + 2) as usize, indices: seq![n as usize] },
            ]);
            BuildContext::lemma_kept(&b3, bc, 3, n + 4int, consts);
        }
        Ok(())
    }

    /// Builds the function that fills the linear memories from the data
    /// section, if the module has one.
    pub fn build_init_data_sections_function(&self, bc: &mut BuildContext, wasm_module: &Module) -> (r: Result<(), RuntimeError>)
        requires
            old(bc).wf(),
        ensures
            final(bc).wf(),
            final(bc).keeps_symbols(old(bc)),
            wasm_module.data is None ==> r is Ok && *final(bc) == *old(bc),
            r is Ok && wasm_module.data is Some ==> (final(bc).function matches Some(f)
                && final(bc).module.function_names()[f as int] == "init_data_sections"@),
            wasm_module.data matches Some(segments) ==> (r is Ok ==> exists|ctxs: Seq<BuildContext>|
                #[trigger] data_trace(ctxs, segments@) && data_function_started(old(bc), &ctxs[0])
                && final(bc).function == ctxs[0].function
                && final(bc).ops() == ctxs.last().ops() + seq![OpView::RetVoid]),
            r matches Err(e) ==> wasm_module.data is Some && data_failed(old(bc), wasm_module.data->0@, e@),
    {
        match &wasm_module.data {
            None => Ok(()),
            Some(segments) => {
                let function = self.set_declare_init_data_sections_function(bc);
                let ghost declared = *bc;
                bc.build_function(function);
                let ghost start = *bc;
                proof {
                    if function < old(bc).module.functions@.len() {
                        assert(declared.taken_up(function) == old(bc).taken_up(function));
                    } else {
                        assert(declared.taken_up(function) =~= seq![]);
                    }
                    assert(data_function_started(old(bc), &start));
                }
                let ghost mut ctxs: Seq<BuildContext> = seq![start];
                proof {
                    assert(segments@.take(0) =~= seq![]);
                }
                let mut i: usize = 0;
                while i < segments.len()
                    invariant
                        bc.extends(&start),
                        wasm_module.data == Some(*segments),
                        start.keeps_symbols(old(bc)),
                        start.function == Some(function),
                        start.module.function_names()[function as int] == "init_data_sections"@,
                        data_function_started(old(bc), &start),
                        i <= segments@.len(),
                        data_trace(ctxs, segments@.take(i as int)),
                        ctxs[0] == start,
                        ctxs.last() == *bc,
                    decreases segments@.len() - i,
                {
                    let ghost before = *bc;
                    match self.build_data_segment(bc, &segments[i]) {
                        Ok(()) => {},
                        Err(e) => {
                            proof {
                                assert(data_trace(ctxs, segments@.take(i as int)));
                                assert(data_function_started(old(bc), &ctxs[0]));
                                assert(segment_offset(&ctxs.last(), segments@[i as int].offset) is Err);
                                assert(offset_error_matches(e@, segment_offset(&ctxs.last(), segments@[i as int].offset)->Err_0));
                                assert(data_failed(old(bc), segments@, e@));
                            }
                            return Err(e);
                        },
                    }
                    proof {
                        let old_ctxs = ctxs;
                        ctxs = ctxs.push(*bc);
                        let done = segments@.take(i + 1);
                        assert forall|j: int| 0 <= j < done.len() implies #[trigger] data_segment_built(&ctxs[j], &ctxs[j + 1], done[j]) by {
                            if j < i {
                                assert(done[j] == segments@.take(i as int)[j]);
                                assert(data_segment_built(&old_ctxs[j], &old_ctxs[j + 1], segments@.take(i as int)[j]));
                            } else {
                                assert(done[j] == segments@[i as int]);
                            }
                        }
                    }
                    i = i + 1;
                }
                let ghost filled = *bc;
                bc.emit(Op::RetVoid);
                proof {
                    assert(bc.module.functions@[function as int] == start.module.functions@[function as int]);
                    assert(segments@.take(segments@.len() as int) =~= segments@);
                    assert(bc.ops() =~= filled.ops() + seq![OpView::RetVoid]);
                }
                Ok(())
            },
        }
    }

    /// Declares the functions of the function section, numbered after the
    /// `imported_count` imported ones, under their export names or as
    /// `internal` and their index.
    pub fn set_declare_current_module_functions(bc: &mut BuildContext, wasm_module: &Module, exported_function_pairs: &[(u32, String)], types: &[FunctionType], imported_count: u32) -> (r: Result<Vec<usize>, RuntimeError>)
        requires
            old(bc).wf(),
            wasm_module.functions matches Some(functions) ==> imported_count + functions@.len() <= u32::MAX,
        ensures
            final(bc).extends(old(bc)),
            final(bc).body == old(bc).body,
            r is Ok <==> (wasm_module.functions matches Some(functions) ==>
                forall|k: int| 0 <= k < functions@.len() ==> #[trigger] functions@[k].type_ref < types@.len()),
            r matches Err(e) ==> wasm_module.functions matches Some(functions) && exists|k: int|
                0 <= k < functions@.len()
                && (forall|j: int| 0 <= j < k ==> #[trigger] functions@[j].type_ref < types@.len())
                && functions@[k].type_ref >= types@.len()
                && e@ == (ErrorView::NoSuchTypeIndex { index: #[trigger] functions@[k].type_ref }),
            r matches Ok(v) ==> match &wasm_module.functions {
                Some(functions) => {
                    let pairs = exported_function_pairs@.map_values(|p: (u32, String)| (p.0, p.1@));
                    &&& v@.len() == functions@.len()
                    &&& forall|k: int| 0 <= k < v@.len() ==> #[trigger] v@[k] < final(bc).module.functions@.len()
                        && final(bc).module.function_names()[v@[k] as int] == wasm_function_name(module_function_name(pairs, (imported_count + k) as u32))
                },
                None => v@.len() == 0,
            },
    {
        let mut v: Vec<usize> = Vec::new();
        let ghost pairs = exported_function_pairs@.map_values(|p: (u32, String)| (p.0, p.1@));
        match &wasm_module.functions {
            Some(functions) => {
                let mut i: usize = 0;
                while i < functions.len()
                    invariant
                        bc.extends(old(bc)),
                        bc.body == old(bc).body,
                        wasm_module.functions == Some(*functions),
                        imported_count + functions@.len() <= u32::MAX,
                        pairs == exported_function_pairs@.map_values(|p: (u32, String)| (p.0, p.1@)),
                        i <= functions@.len(),
                        v@.len() == i,
                        forall|k: int| 0 <= k < i ==> #[trigger] functions@[k].type_ref < types@.len(),
                        forall|k: int| 0 <= k < i ==> #[trigger] v@[k] < bc.module.functions@.len()
                            && bc.module.function_names()[v@[k] as int] == wasm_function_name(module_function_name(pairs, (imported_count + k) as u32)),
                    decreases functions@.len() - i,
                {
                    let function_index = imported_count + i as u32;
                    let name = Self::function_name_of(exported_function_pairs, function_index);
                    let ghost before = *bc;
                    let f = match Self::set_declare_function(bc, name.as_str(), functions[i].type_ref, types) {
                        Ok(f) => f,
                        Err(e) => {
                            assert(functions@[i as int].type_ref >= types@.len());
                            assert(wasm_module.functions matches Some(x) && x == *functions);
                            assert(e@ == (ErrorView::NoSuchTypeIndex { index: functions@[i as int].type_ref }));
                            return Err(e);
                        },
                    };
                    v.push(f);
                    proof {
                        assert forall|k: int| 0 <= k < i + 1 implies #[trigger] v@[k] < bc.module.functions@.len()
                            && bc.module.function_names()[v@[k] as int] == wasm_function_name(module_function_name(pairs, (imported_count + k) as u32)) by {
                            if k < i {
                                assert(bc.module.functions@[v@[k] as int] == before.module.functions@[v@[k] as int]);
                            }
                        }
                    }
                    i = i + 1;
                }
                Ok(v)
            },
            None => Ok(v),
        }
    }

    /// The name of function `index`: its last export name, or `internal`
    /// and its index.
    fn function_name_of(exported_function_pairs: &[(u32, String)], index: u32) -> (r: String)
        ensures
            r@ == module_function_name(exported_function_pairs@.map_values(|p: (u32, String)| (p.0, p.1@)), index),
    {
        let ghost pairs = exported_function_pairs@.map_values(|p: (u32, String)| (p.0, p.1@));
        let mut i: usize = exported_function_pairs.len();
        assert(pairs.take(i as int) =~= pairs);
        while i > 0
            invariant
                i <= exported_function_pairs@.len(),
                pairs == exported_function_pairs@.map_values(|p: (u32, String)| (p.0, p.1@)),
                export_name(pairs, index) == export_name(pairs.take(i as int), index),
            decreases i,
        {
            assert(pairs.take(i as int).drop_last() =~= pairs.take(i - 1));
            if exported_function_pairs[i - 1].0 == index {
                return exported_function_pairs[i - 1].1.clone();
            }
            i = i - 1;
        }
        assert(pairs.take(0) =~= Seq::<(u32, Seq<char>)>::empty());
        proof {
            reveal_strlit("internal");
        }
        prefixed_decimal("internal", index)
    }
}

/// The function exports of a module, in order: function index and name.
pub open spec fn export_pairs(m: Module) -> Seq<(u32, Seq<char>)> {
    match m.exports {
        Some(exports) => function_exports(exports@),
        None => seq![],
    }
}

/// The number of imported functions.
pub open spec fn imported_function_count(m: Module) -> nat {
    match m.imports {
        Some(imports) => function_imports(imports@).len(),
        None => 0,
    }
}

/// The indices that the compilation computes fit in 32 bits: globals,
/// memories, functions and tables numbered after the imports, and the
/// function indices of element segments offset by the imported tables.
pub open spec fn module_indices_fit(m: Module) -> bool {
    let imported = imported_function_count(m);
    &&& imported <= u32::MAX
    &&& m.spec_import_count(ImportCountType::Table) <= u32::MAX
    &&& m.globals matches Some(g) ==> m.spec_import_count(ImportCountType::Global) + g@.len() <= u32::MAX
    &&& m.memories matches Some(x) ==> m.spec_import_count(ImportCountType::Memory) + x@.len() <= u32::MAX
    &&& m.functions matches Some(f) ==> imported + f@.len() <= u32::MAX
    &&& m.code matches Some(c) ==> imported + c@.len() <= u32::MAX
    &&& m.tables matches Some(t) ==> imported + t@.len() <= u32::MAX
    &&& m.elements matches Some(e) ==> forall|i: int, j: int| 0 <= i < e@.len() && 0 <= j < e@[i].members@.len()
        ==> #[trigger] e@[i].members@[j] + m.spec_import_count(ImportCountType::Table) <= u32::MAX
}

/// Every instruction of every function body is one the translation accepts.
pub open spec fn code_supported(m: Module) -> bool {
    m.code matches Some(c) ==> forall|i: int, j: int| 0 <= i < c@.len() && 0 <= j < c@[i].code@.len()
        ==> #[trigger] instruction_supported(c@[i].code@[j])
}

/// The element segments can be turned into table initializers: their
/// offsets evaluate and their members are among the first `n` functions.
pub open spec fn elements_ok(bc: &BuildContext, elements: Seq<crate::wasm_module::ElementSegment>, n: nat) -> bool {
    forall|i: int| 0 <= i < elements.len() ==> {
        &&& segment_offset(bc, #[trigger] elements[i].offset) is Ok
        &&& forall|j: int| 0 <= j < elements[i].members@.len() ==> #[trigger] elements[i].members@[j] < n
    }
}

/// The error `e` with which the placement of `segment` is refused: that of
/// its offset, or the first member that is not one of the `n` functions,
/// reported by its index among all functions with `table_imports` added.
pub open spec fn element_error(bc: &BuildContext, segment: crate::wasm_module::ElementSegment, n: nat, table_imports: nat, e: ErrorView) -> bool {
    match segment_offset(bc, segment.offset) {
        Err(expected) => offset_error_matches(e, expected),
        Ok(_) => exists|j: int| #![trigger segment.members@[j]] 0 <= j < segment.members@.len() && segment.members@[j] >= n
            && (forall|x: int| 0 <= x < j ==> #[trigger] segment.members@[x] < n)
            && e == ErrorView::NoSuchFunctionIndex { index: (segment.members@[j] + table_imports) as u32 },
    }
}

/// The error `e` with which the tables of module `m` are refused after
/// `bc`, with `n` functions: that of the first element segment refused,
/// else that of the first table whose limits are invalid.
pub open spec fn table_init_error(bc: &BuildContext, m: Module, n: nat, e: ErrorView) -> bool {
    m.tables matches Some(tables) && m.elements matches Some(elements) && {
        let table_imports = m.spec_import_count(ImportCountType::Table) as nat;
        let limits = table_limits(tables@);
        let dm = TableTypeContext::<AnyFunctionTableType>::DEFAULT_MAXIMUM_UNIT_SIZE as nat;
        ||| exists|k: int| 0 <= k < elements@.len() && elements_ok(bc, elements@.take(k), n)
            && #[trigger] element_error(bc, elements@[k], n, table_imports, e)
        ||| elements_ok(bc, elements@, n) && exists|k: int| 0 <= k < limits.len() && all_limits_valid(limits, k, dm)
            && e == limits_error(#[trigger] limits[k].initial as nat, limits[k].maximum, dm)
    }
}

/// A copy of the function types.
fn clone_function_types(types: &[FunctionType]) -> (r: Vec<FunctionType>)
    ensures
        r@.len() == types@.len(),
{
    let mut r: Vec<FunctionType> = Vec::new();
    let mut i: usize = 0;
    while i < types.len()
        invariant
            i <= types@.len(),
            r@.len() == i,
        decreases types@.len() - i,
    {
        r.push(clone_function_type(&types[i]));
        i = i + 1;
    }
    r
}

/// A copy of the function indices.
fn clone_indices(v: &[usize]) -> (r: Vec<usize>)
    ensures
        r@ == v@,
{
    let mut r: Vec<usize> = Vec::new();
    let mut i: usize = 0;
    while i < v.len()
        invariant
            i <= v@.len(),
            r@ == v@.take(i as int),
        decreases v@.len() - i,
    {
        r.push(v[i]);
        i = i + 1;
        proof {
            assert(r@ =~= v@.take(i as int));
        }
    }
    assert(v@.take(v@.len() as int) =~= v@);
    r
}

/// An instruction of a function body of a module whose code is supported is supported.
proof fn lemma_code_supported(m: Module, i: int, j: int)
    requires
        code_supported(m),
        m.code matches Some(c) && 0 <= i < c@.len() && 0 <= j < c@[i].code@.len(),
    ensures
        instruction_supported(m.code->0@[i].code@[j]),
{
    let c = m.code->0;
    assert(instruction_supported(c@[i].code@[j]));
}

/// A member of an element segment, offset by the imported tables, fits in 32 bits.
proof fn lemma_member_fits(m: Module, i: int, j: int)
    requires
        module_indices_fit(m),
        m.elements matches Some(e) && 0 <= i < e@.len() && 0 <= j < e@[i].members@.len(),
    ensures
        m.elements->0@[i].members@[j] + m.spec_import_count(ImportCountType::Table) <= u32::MAX,
{
    let e = m.elements->0;
    assert(e@[i].members@[j] + m.spec_import_count(ImportCountType::Table) <= u32::MAX);
}

impl<T: WasmIntType> WasmCompiler<T> {
    /// The initializer of one element segment: its table, its offset and
    /// its member functions among `functions`.
    fn build_table_initializer(bc: &BuildContext, segment: &crate::wasm_module::ElementSegment, functions: &[usize], table_import_count: u32) -> (r: Result<TableInitializer, RuntimeError>)
        requires
            bc.wf(),
            forall|j: int| 0 <= j < segment.members@.len() ==> #[trigger] segment.members@[j] + table_import_count <= u32::MAX,
        ensures
            r is Ok <==> segment_offset(bc, segment.offset) is Ok
                && forall|j: int| 0 <= j < segment.members@.len() ==> #[trigger] segment.members@[j] < functions@.len(),
            r matches Ok(t) ==> t.index == segment.index
                && t.offset == segment_offset(bc, segment.offset)->Ok_0
                && t.members@ == segment.members@.map_values(|m: u32| functions@[m as int]),
            r matches Err(e) ==> element_error(bc, *segment, functions@.len(), table_import_count as nat, e@),
    {
        let offset = Self::segment_init_expr_to_value(bc, &segment.offset)?;
        let mut members: Vec<usize> = Vec::new();
        let mut j: usize = 0;
        while j < segment.members.len()
            invariant
                j <= segment.members@.len(),
                forall|k: int| 0 <= k < j ==> #[trigger] segment.members@[k] < functions@.len(),
                forall|k: int| 0 <= k < segment.members@.len() ==> #[trigger] segment.members@[k] + table_import_count <= u32::MAX,
                members@ == segment.members@.take(j as int).map_values(|m: u32| functions@[m as int]),
                segment_offset(bc, segment.offset) is Ok,
            decreases segment.members@.len() - j,
        {
            let member = segment.members[j];
            if member as usize >= functions.len() {
                proof {
                    assert(segment.members@[j as int] >= functions@.len());
                }
                return Err(RuntimeError::NoSuchFunctionIndex { index: member + table_import_count });
            }
            members.push(functions[member as usize]);
            j = j + 1;
            proof {
                assert(members@ =~= segment.members@.take(j as int).map_values(|m: u32| functions@[m as int]));
            }
        }
        assert(segment.members@.take(segment.members@.len() as int) =~= segment.members@);
        Ok(TableInitializer::new(segment.index, offset, members))
    }

    /// Builds the function that maps the tables and places the functions
    /// of the element segments, if the module has both sections.
    pub fn build_init_table_function(&self, bc: &mut BuildContext, wasm_module: &Module, functions: &[usize], imported_count: u32) -> (r: Result<(), RuntimeError>)
        requires
            old(bc).wf(),
            module_indices_fit(*wasm_module),
            wasm_module.tables matches Some(t) ==> imported_count + t@.len() <= u32::MAX,
            forall|k: int| 0 <= k < functions@.len() ==> #[trigger] functions@[k] < old(bc).module.functions@.len(),
        ensures
            final(bc).keeps_symbols(old(bc)),
            final(bc).wf(),
            wasm_module.tables is None || wasm_module.elements is None ==> r is Ok && *final(bc) == *old(bc),
            wasm_module.tables is Some && wasm_module.elements is Some ==> (r is Ok <==> {
                &&& elements_ok(old(bc), wasm_module.elements->0@, functions@.len())
                &&& all_limits_valid(table_limits(wasm_module.tables->0@), wasm_module.tables->0@.len() as int,
                    TableTypeContext::<AnyFunctionTableType>::DEFAULT_MAXIMUM_UNIT_SIZE as nat)
            }),
            r matches Err(e) ==> table_init_error(old(bc), *wasm_module, functions@.len(), e@),
            r is Ok && wasm_module.tables is Some && wasm_module.elements is Some
                ==> final(bc).module.function_names().contains(init_function_name(vstd::layout::size_of::<T>() * 8)),
    {
        if wasm_module.tables.is_none() || wasm_module.elements.is_none() {
            return Ok(());
        }
        match (&wasm_module.tables, &wasm_module.elements) {
            (Some(tables), Some(elements)) => {
                assert(wasm_module.tables == Some(*tables) && wasm_module.elements == Some(*elements));
                let table_import_count = wasm_module.import_count(ImportCountType::Table) as u32;
                let mut initializers: Vec<TableInitializer> = Vec::new();
                let mut i: usize = 0;
                while i < elements.len()
                    invariant
                        bc.wf(),
                        *bc == *old(bc),
                        wasm_module.elements == Some(*elements),
                        wasm_module.tables == Some(*tables),
                        module_indices_fit(*wasm_module),
                        table_import_count == wasm_module.spec_import_count(ImportCountType::Table),
                        i <= elements@.len(),
                        elements_ok(old(bc), elements@.take(i as int), functions@.len()),
                        forall|k: int| 0 <= k < functions@.len() ==> #[trigger] functions@[k] < old(bc).module.functions@.len(),
                        members_in_range(initializers@, old(bc).module.functions@.len()),
                        initializers@.len() == i,
                    decreases elements@.len() - i,
                {
                    proof {
                        assert forall|j: int| 0 <= j < elements@[i as int].members@.len()
                            implies #[trigger] elements@[i as int].members@[j] + table_import_count <= u32::MAX by {
                            lemma_member_fits(*wasm_module, i as int, j);
                        }
                    }
                    let initializer = match Self::build_table_initializer(bc, &elements[i], functions, table_import_count) {
                        Ok(t) => t,
                        Err(e) => {
                            proof {
                                assert(!elements_ok(old(bc), elements@, functions@.len()));
                                assert(element_error(old(bc), elements@[i as int], functions@.len(), table_import_count as nat, e@));
                                assert(table_init_error(old(bc), *wasm_module, functions@.len(), e@));
                            }
                            return Err(e);
                        },
                    };
                    initializers.push(initializer);
                    proof {
                        assert forall|x: int| 0 <= x < i + 1 implies {
                            &&& segment_offset(old(bc), #[trigger] elements@.take(i + 1)[x].offset) is Ok
                            &&& forall|j: int| 0 <= j < elements@.take(i + 1)[x].members@.len() ==> #[trigger] elements@.take(i + 1)[x].members@[j] < functions@.len()
                        } by {
                            if x < i {
                                assert(elements@.take(i + 1)[x] == elements@.take(i as int)[x]);
                            }
                        }
                        assert forall|a: int, b: int| 0 <= a < initializers@.len() && 0 <= b < initializers@[a].members@.len()
                            implies #[trigger] initializers@[a].members@[b] < old(bc).module.functions@.len() by {
                            if a == i {
                                let m = elements@[i as int].members@[b];
                                assert(initializer.members@[b] == elements@[i as int].members@.map_values(|m: u32| functions@[m as int])[b]);
                                assert(initializers@[a].members@[b] == functions@[m as int]);
                            }
                        }
                    }
                    i = i + 1;
                }
                assert(elements@.take(elements@.len() as int) =~= elements@);
                let r = self.table_compiler.build_init_function(bc, tables.as_slice(), initializers.as_slice(), imported_count);
                assert(elements_ok(old(bc), elements@, functions@.len()));
                proof {
                    if r is Err {
                        let e = r->Err_0;
                        let dm = TableTypeContext::<AnyFunctionTableType>::DEFAULT_MAXIMUM_UNIT_SIZE as nat;
                        let limits = table_limits(tables@);
                        let k = choose|k: int| 0 <= k < tables@.len()
                            && all_limits_valid(table_limits(tables@), k, dm)
                            && e@ == limits_error(#[trigger] tables@[k].limits.initial as nat, tables@[k].limits.maximum, dm);
                        assert(limits[k] == tables@[k].limits);
                        assert(table_init_error(old(bc), *wasm_module, functions@.len(), e@));
                    } else {
                        let f = bc.function->0;
                        assert(bc.module.function_names()[f as int] == init_function_name(vstd::layout::size_of::<T>() * 8));
                    }
                }
                r
            },
            _ => Ok(()),
        }
    }
}

/// The number of parameters of function `f` of the module, when its type is known.
pub open spec fn param_count(bc: &BuildContext, f: usize) -> nat {
    if f < bc.module.functions@.len() && bc.module.functions@[f as int].type_index < bc.module.types@.len() {
        bc.module.types@[bc.module.functions@[f as int].type_index as int].params@.len()
    } else {
        0
    }
}

/// The locals of a function while its body is translated, its `params`
/// parameters read at positions `n` on: the parameters, then one unset
/// local per group of locals.
pub open spec fn initial_locals(n: nat, params: nat, locals: Seq<Local>) -> Seq<LocalValue> {
    Seq::new(params + locals.len(), |i: int|
        if i < params {
            LocalValue { value: Some(WasmValue::Value { value: (n + i) as usize }), value_type: IrType::TypeOf((n + i) as usize) }
        } else {
            LocalValue { value: None, value_type: spec_value_type_to_type(locals[i - params].value_type) }
        })
}

/// The stack at the start of the translation of a body of function `f`:
/// no values, no labels, one frame with these locals.
pub open spec fn initial_stack(f: usize, locals: Seq<LocalValue>) -> StackView {
    StackView { current_function: f, values: seq![], labels: seq![], frames: seq![FrameView { locals, history: empty_history(), previous_instruction: None }] }
}

/// The end of a translated body, from position `p`: a return of the top
/// value of the stack `t`, or a return of nothing.
pub open spec fn return_ops(t: StackView, p: nat) -> Seq<OpView> {
    if t.values.len() > 0 {
        value_loads(t.values.last()) + seq![OpView::Ret { value: value_id(t.values.last(), p) }]
    } else {
        seq![OpView::RetVoid]
    }
}

/// The state `start` in which the translation of a body of function `f`
/// begins, after `old`: the body of `f` so far taken up again, an entry
/// block entered and the parameters read, the symbols unchanged.
pub open spec fn body_started(old: &BuildContext, start: &BuildContext, f: usize) -> bool {
    let taken = old.taken_up(f);
    &&& start.wf()
    &&& start.function == Some(f)
    &&& start.module.name == old.module.name
    &&& start.module.functions == old.module.functions
    &&& start.module.globals == old.module.globals
    &&& start.module.types == old.module.types
    &&& start.module.initializers == old.module.initializers
    &&& start.module.constant == old.module.constant
    &&& start.ops() == taken + seq![OpView::AppendBlock, OpView::PositionAtEnd { block: taken.len() as usize }]
        + Seq::new(param_count(old, f), |i: int| OpView::Param { index: i as u32 })
}

/// The stack in which the translation of `body`, a body of function `f`,
/// begins after `old`.
pub open spec fn body_stack(old: &BuildContext, f: usize, body: FuncBody) -> StackView {
    initial_stack(f, initial_locals(old.taken_up(f).len() + 2, param_count(old, f), body.locals@))
}

/// The code `code` is a copy of the code `original`, instruction by instruction.
pub open spec fn code_copy(code: Seq<Instruction>, original: Seq<Instruction>) -> bool {
    &&& code.len() == original.len()
    &&& forall|i: int| 0 <= i < code.len() ==> #[trigger] is_copy(code[i], original[i])
}

/// The body of function `f` in `nb` is the translation of `body` after
/// `old`: the function's body begun, a copy of its code translated, and a
/// return of the top value, or of nothing.
pub open spec fn body_translated(old: &BuildContext, nb: &BuildContext, f: usize, body: FuncBody) -> bool {
    exists|start: BuildContext, done: BuildContext, t: StackView, code: Seq<Instruction>|
        #[trigger] code_translated(start, done, body_stack(old, f, body), t, code)
        && code_copy(code, body.code@)
        && body_started(old, &start, f)
        && nb.taken_up(f) == done.ops() + return_ops(t, done.ops().len())
}

/// The translation of `body`, a body of function `f`, after `old`, fails with `e`.
pub open spec fn body_failed(old: &BuildContext, f: usize, body: FuncBody, e: ErrorView) -> bool {
    exists|start: BuildContext, code: Seq<Instruction>|
        #[trigger] code_failed(start, body_stack(old, f, body), code, e)
        && code_copy(code, body.code@)
        && body_started(old, &start, f)
}

/// The limits of the linear memories of module `m` are valid.
pub open spec fn memory_limits_valid(m: Module) -> bool {
    m.memories matches Some(memories) ==> {
        let limits = memories@.map_values(|x: crate::wasm_module::MemoryType| x.limits);
        all_limits_valid(limits, limits.len() as int, LinearMemoryTypeContext::DEFAULT_MAXIMUM_UNIT_SIZE as nat)
    }
}

/// The error for the first linear memory of module `m` whose limits are invalid.
pub open spec fn memory_limits_error(m: Module, e: ErrorView) -> bool {
    m.memories matches Some(memories) && {
        let limits = memories@.map_values(|x: crate::wasm_module::MemoryType| x.limits);
        let dm = LinearMemoryTypeContext::DEFAULT_MAXIMUM_UNIT_SIZE as nat;
        exists|k: int| 0 <= k < limits.len() && all_limits_valid(limits, k, dm)
            && e == limits_error(#[trigger] limits[k].initial as nat, limits[k].maximum, dm)
    }
}

/// Every global of module `m` has an initializer expression.
pub open spec fn globals_initialized(m: Module) -> bool {
    m.globals matches Some(globals) ==> forall|i: int| 0 <= i < globals@.len() ==> #[trigger] globals@[i].init_expr.code@.len() > 0
}

/// Every function of module `m`, imported or not, has a type of its type
/// section.
pub open spec fn module_typed(m: Module) -> bool {
    m.types matches Some(types) && {
        &&& m.imports matches Some(imports) ==> forall|k: int| 0 <= k < function_imports(imports@).len()
            ==> #[trigger] function_imports(imports@)[k].1 < types@.len()
        &&& m.functions matches Some(functions) ==> forall|k: int| 0 <= k < functions@.len()
            ==> #[trigger] functions@[k].type_ref < types@.len()
    }
}

/// The error `e` for a function of module `m` without a type: the type
/// index of the first imported function that has none, else that of the
/// first function of the module that has none.
pub open spec fn type_index_error(m: Module, e: ErrorView) -> bool {
    m.types matches Some(types) && {
        ||| m.imports matches Some(imports) && exists|k: int|
            0 <= k < function_imports(imports@).len()
            && (forall|j: int| 0 <= j < k ==> #[trigger] function_imports(imports@)[j].1 < types@.len())
            && function_imports(imports@)[k].1 >= types@.len()
            && e == (ErrorView::NoSuchTypeIndex { index: #[trigger] function_imports(imports@)[k].1 })
        ||| (m.imports matches Some(imports) ==> forall|k: int| 0 <= k < function_imports(imports@).len()
                ==> #[trigger] function_imports(imports@)[k].1 < types@.len())
            && (m.functions matches Some(functions) && exists|k: int|
            0 <= k < functions@.len()
            && (forall|j: int| 0 <= j < k ==> #[trigger] functions@[j].type_ref < types@.len())
            && functions@[k].type_ref >= types@.len()
            && e == (ErrorView::NoSuchTypeIndex { index: #[trigger] functions@[k].type_ref }))
    }
}

/// The error `e` with which the functions of module `m`, which has a type
/// section, are refused: a function without a type, or, once the functions
/// are declared as `functions` in a state `b`, the refusal of its tables
/// or of the translation of a body.
pub open spec fn functions_failed(m: Module, e: ErrorView) -> bool {
    ||| !module_typed(m) && type_index_error(m, e)
    ||| module_typed(m) && exists|b: BuildContext, functions: Seq<usize>|
        #[trigger] table_init_error(&b, m, functions.len(), e) && functions_named(b.module.function_names(), functions, m)
    ||| module_typed(m) && m.code is Some && exists|b: BuildContext, functions: Seq<usize>|
        #[trigger] codes_failed(b, functions, imported_function_count(m), m.code->0@, e) && functions_named(b.module.function_names(), functions, m)
}

/// The error `e` with which what an instance of module `m` needs is
/// refused: invalid memory limits, then a global without initializer, then
/// the refusal of a data segment's offset in some state, then the refusal
/// of the functions.
pub open spec fn instance_failed(m: Module, e: ErrorView) -> bool {
    ||| !memory_limits_valid(m) && memory_limits_error(m, e)
    ||| memory_limits_valid(m) && !globals_initialized(m) && e is NotExistGlobalInitializerInstruction
    ||| memory_limits_valid(m) && globals_initialized(m) && m.data is Some
        && exists|b: BuildContext| #[trigger] data_failed(&b, m.data->0@, e)
    ||| memory_limits_valid(m) && globals_initialized(m) && m.types is Some && functions_failed(m, e)
}

/// Names of functions stay as symbols are kept.
pub proof fn lemma_functions_named_kept(a: &BuildContext, b: &BuildContext, functions: Seq<usize>, m: Module)
    requires
        b.keeps_symbols(a),
        functions_named(a.module.function_names(), functions, m),
    ensures
        functions_named(b.module.function_names(), functions, m),
{
    assert forall|j: int| #![trigger functions[j]] 0 <= j < functions.len() implies functions[j] < b.module.function_names().len()
        && b.module.function_names()[functions[j] as int] == module_function_symbol(m, j) by {
        assert(b.module.function_names()[functions[j] as int] == a.module.function_names()[functions[j] as int]);
    }
}

/// The symbol of function `j` of module `m`: imported functions first,
/// under their own names, then the functions of the module, under their
/// export names or internal ones.
pub open spec fn module_function_symbol(m: Module, j: int) -> Seq<char> {
    let imports = match m.imports {
        Some(imports) => function_imports(imports@),
        None => seq![],
    };
    if j < imports.len() {
        wasm_function_name(imports[j].0)
    } else {
        wasm_function_name(module_function_name(export_pairs(m), j as u32))
    }
}

/// The functions `functions`, among functions named `names`, are the
/// functions of module `m`, in order.
pub open spec fn functions_named(names: Seq<Seq<char>>, functions: Seq<usize>, m: Module) -> bool {
    &&& functions.len() == imported_function_count(m) + match m.functions { Some(fs) => fs@.len(), None => 0 }
    &&& forall|j: int| #![trigger functions[j]] 0 <= j < functions.len() ==> functions[j] < names.len()
        && names[functions[j] as int] == module_function_symbol(m, j)
}

/// The states `ctxs` trace the translation of `bodies` one after the
/// other: body `k` is translated into function `functions[offset + k]`,
/// from state `k` into state `k + 1`.
pub open spec fn codes_trace(ctxs: Seq<BuildContext>, functions: Seq<usize>, offset: nat, bodies: Seq<FuncBody>) -> bool {
    &&& ctxs.len() == bodies.len() + 1
    &&& forall|k: int| 0 <= k < bodies.len() ==> offset + k < functions.len()
        && #[trigger] body_translated(&ctxs[k], &ctxs[k + 1], functions[offset + k], bodies[k])
}

/// Each body of a trace has a function, and its translation stands between
/// the states around it.
pub proof fn lemma_codes_trace_at(ctxs: Seq<BuildContext>, functions: Seq<usize>, offset: nat, bodies: Seq<FuncBody>, k: int)
    requires
        codes_trace(ctxs, functions, offset, bodies),
        0 <= k < bodies.len(),
    ensures
        offset + k < functions.len(),
        body_translated(&ctxs[k], &ctxs[k + 1], functions[offset + k], bodies[k]),
{
}

/// In module `m`, each function into which the trace `ctxs` of `n` bodies
/// last translated a body has the body it was given then.
pub open spec fn module_codes_kept(m: IrModule, ctxs: Seq<BuildContext>, functions: Seq<usize>, offset: nat, n: nat) -> bool {
    forall|k: int| #![trigger m.bodies@[functions[offset + k] as int]] 0 <= k < n && last_built(functions, offset, n, k)
        ==> m.bodies@[functions[offset + k] as int]@.map_values(|o: Op| o@) == ctxs[k + 1].taken_up(functions[offset + k])
}

/// No function of a module has the name `main`.
pub proof fn lemma_symbol_is_not_main(m: Module, j: int)
    ensures
        module_function_symbol(m, j) != "main"@,
{
    reveal_strlit("__WASM_FUNCTION_");
    reveal_strlit("main");
    let imports = match m.imports {
        Some(imports) => function_imports(imports@),
        None => seq![],
    };
    let name = if j < imports.len() { imports[j].0 } else { module_function_name(export_pairs(m), j as u32) };
    assert(module_function_symbol(m, j) == wasm_function_name(name));
    assert(wasm_function_name(name).len() >= 16);
}

/// Body `k` of the `n` bodies is the last one translated into its function.
pub open spec fn last_built(functions: Seq<usize>, offset: nat, n: nat, k: int) -> bool {
    forall|j: int| k < j < n ==> #[trigger] functions[offset + j] != functions[offset + k]
}

/// In `bc`, each function into which the trace `ctxs` of `n` bodies last
/// translated a body still has the body it was given then.
pub open spec fn codes_kept(bc: &BuildContext, ctxs: Seq<BuildContext>, functions: Seq<usize>, offset: nat, n: nat) -> bool {
    forall|k: int| 0 <= k < n && last_built(functions, offset, n, k)
        ==> #[trigger] bc.taken_up(functions[offset + k]) == ctxs[k + 1].taken_up(functions[offset + k])
}

/// The translation of `bodies` after `old` fails with `e` at body `k`:
/// the bodies before it are translated, and body `k` has no function
/// among `functions` or its translation fails with `e`.
pub open spec fn codes_failed(old: BuildContext, functions: Seq<usize>, offset: nat, bodies: Seq<FuncBody>, e: ErrorView) -> bool {
    exists|k: int, ctxs: Seq<BuildContext>|
        0 <= k < bodies.len()
        && #[trigger] codes_trace(ctxs, functions, offset, bodies.take(k))
        && ctxs[0] == old
        && if offset + k < functions.len() {
            body_failed(&ctxs.last(), functions[offset + k], bodies[k], e)
        } else {
            e == ErrorView::NoSuchFunctionIndex { index: (offset + k) as u32 }
        }
}

/// The bytes of `segment` stored from state `ob` into state `nb`: its
/// offset, the address of that byte of its linear memory, and the array of
/// its bytes stored there.
pub open spec fn data_segment_built(ob: &BuildContext, nb: &BuildContext, segment: DataSegment) -> bool {
    let n = ob.ops().len();
    let len = segment.value@.len();
    let array = n + 4 + len;
    &&& segment_offset(ob, segment.offset) is Ok
    &&& nb.grown(ob, 7 + len)
    &&& nb.ops_at(n as int, seq![OpView::Const { value: segment_offset(ob, segment.offset)->Ok_0 }])
    &&& nb.global_ref_at(n + 1int, memory_name(linear_prefix(), segment.index as nat))
    &&& nb.ops_at(n + 2int, seq![
        OpView::Load { ptr: (n + 1) as usize },
        OpView::Gep { ptr: (n + 2) as usize, indices: seq![n as usize] },
    ])
    &&& nb.ops_at(n + 4int, segment.value@.map_values(|b: u8| OpView::Const { value: Constant::Int { ty: IrType::Int8, value: b as u64, sign_extend: false } }))
    &&& nb.ops_at(array as int, seq![
        OpView::ConstArray { element: IrType::Int8, elements: Seq::new(len, |i: int| (n + 4 + i) as usize) },
        OpView::Cast { op: CastOp::PointerCast, operand: (n + 3) as usize, ty: IrType::PtrToTypeOf(array as usize) },
        OpView::Store { value: array as usize, ptr: (array + 1) as usize },
    ])
}

/// The states `ctxs` trace the storing of `segments` one after the other.
pub open spec fn data_trace(ctxs: Seq<BuildContext>, segments: Seq<DataSegment>) -> bool {
    &&& ctxs.len() == segments.len() + 1
    &&& forall|i: int| 0 <= i < segments.len() ==> #[trigger] data_segment_built(&ctxs[i], &ctxs[i + 1], segments[i])
}

/// Storing `segments` fails with `e` after `old`: the segments before
/// segment `k` are stored, and the offset of segment `k` is refused with `e`.
pub open spec fn data_failed(old: &BuildContext, segments: Seq<DataSegment>, e: ErrorView) -> bool {
    exists|ctxs: Seq<BuildContext>, k: int|
        0 <= k < segments.len()
        && #[trigger] data_trace(ctxs, segments.take(k)) && data_function_started(old, &ctxs[0])
        && segment_offset(&ctxs.last(), segments[k].offset) is Err
        && offset_error_matches(e, segment_offset(&ctxs.last(), segments[k].offset)->Err_0)
}

/// The state `start` in which the data initialization function begins after
/// `old`: the function named `init_data_sections` being built, its body so
/// far taken up again and an entry block entered.
pub open spec fn data_function_started(old: &BuildContext, start: &BuildContext) -> bool {
    &&& start.wf()
    &&& start.keeps_symbols(old)
    &&& start.function matches Some(f) && f < start.module.functions@.len()
        && start.module.function_names()[f as int] == "init_data_sections"@
        && ({
            let prior = if f < old.module.functions@.len() { old.taken_up(f) } else { seq![] };
            start.ops() == prior + seq![OpView::AppendBlock, OpView::PositionAtEnd { block: prior.len() as usize }]
        })
}

impl<T: WasmIntType> WasmCompiler<T> {
    /// The number of parameters of function `f`, when its type is known.
    fn count_params(bc: &BuildContext, f: usize) -> (r: usize)
        ensures
            r == param_count(bc, f),
    {
        if f < bc.module.functions.len() {
            let type_index = bc.module.functions[f].type_index;
            if type_index < bc.module.types.len() {
                return bc.module.types[type_index].params.len();
            }
        }
        0
    }

    /// The locals of function `f` while its body is built: its parameters,
    /// read at the start of the body, then one local per group of locals.
    fn build_locals(bc: &mut BuildContext, f: usize, body: &FuncBody) -> (r: Vec<LocalValue>)
        ensures
            final(bc).emitted(old(bc), Seq::new(param_count(old(bc), f), |i: int| OpView::Param { index: i as u32 })),
            r@.len() == param_count(old(bc), f) + body.locals@.len(),
            forall|i: int| 0 <= i < param_count(old(bc), f) ==> #[trigger] r@[i]
                == (LocalValue { value: Some(WasmValue::Value { value: (old(bc).ops().len() + i) as usize }), value_type: IrType::TypeOf((old(bc).ops().len() + i) as usize) }),
            forall|i: int| 0 <= i < body.locals@.len() ==> #[trigger] r@[param_count(old(bc), f) + i]
                == (LocalValue { value: None, value_type: spec_value_type_to_type(body.locals@[i].value_type) }),
    {
        let count = Self::count_params(bc, f);
        let ghost n = old(bc).ops().len();
        let mut locals: Vec<LocalValue> = Vec::new();
        let mut i: usize = 0;
        while i < count
            invariant
                i <= count,
                count == param_count(old(bc), f),
                n == old(bc).ops().len(),
                bc.emitted(old(bc), Seq::new(i as nat, |k: int| OpView::Param { index: k as u32 })),
                locals@.len() == i,
                forall|k: int| 0 <= k < i ==> #[trigger] locals@[k] == (LocalValue { value: Some(WasmValue::Value { value: (n + k) as usize }), value_type: IrType::TypeOf((n + k) as usize) }),
            decreases count - i,
        {
            let id = bc.emit(Op::Param { index: i as u32 });
            locals.push(LocalValue::from_value(id));
            proof {
                assert(bc.ops() =~= old(bc).ops() + Seq::new((i + 1) as nat, |k: int| OpView::Param { index: k as u32 }));
            }
            i = i + 1;
        }
        let mut j: usize = 0;
        while j < body.locals.len()
            invariant
                j <= body.locals@.len(),
                locals@.len() == count + j,
                count == param_count(old(bc), f),
                forall|k: int| 0 <= k < count ==> #[trigger] locals@[k] == (LocalValue { value: Some(WasmValue::Value { value: (n + k) as usize }), value_type: IrType::TypeOf((n + k) as usize) }),
                forall|k: int| 0 <= k < j ==> #[trigger] locals@[count + k]
                    == (LocalValue { value: None, value_type: spec_value_type_to_type(body.locals@[k].value_type) }),
            decreases body.locals@.len() - j,
        {
            locals.push(LocalValue::from_value_type(value_type_to_type(body.locals[j].value_type)));
            j = j + 1;
        }
        locals
    }

    /// Translates one function body into function `f`: its locals, each
    /// instruction in order, and a return of the top value, or none.
    fn build_function_code(&self, bc: &mut BuildContext, f: usize, body: &FuncBody, functions: &[usize], types: &[FunctionType]) -> (r: Result<(), RuntimeError>)
        requires
            old(bc).wf(),
            f < old(bc).module.functions@.len(),
            forall|j: int| 0 <= j < body.code@.len() ==> #[trigger] instruction_supported(body.code@[j]),
        ensures
            final(bc).wf(),
            final(bc).keeps_symbols(old(bc)),
            r is Ok ==> final(bc).function == Some(f),
            r is Ok ==> body_translated(old(bc), final(bc), f, *body),
            r matches Err(e) ==> body_failed(old(bc), f, *body, e@),
            r is Ok ==> forall|g: usize| g < old(bc).module.functions@.len() && g != f
                ==> #[trigger] final(bc).taken_up(g) == old(bc).taken_up(g),
    {
        bc.build_function(f);
        let ghost entered = *bc;
        let locals = Self::build_locals(bc, f, body);
        let ghost start = *bc;
        let ghost s0 = body_stack(old(bc), f, *body);
        proof {
            let n = (old(bc).taken_up(f).len() + 2) as nat;
            assert(param_count(&entered, f) == param_count(old(bc), f));
            let p = param_count(old(bc), f);
            assert(entered.ops().len() == n);
            assert forall|i: int| 0 <= i < locals@.len() implies locals@[i] == initial_locals(n, p, body.locals@)[i] by {
                if i >= p {
                    assert(locals@[p + (i - p)] == (LocalValue { value: None, value_type: spec_value_type_to_type(body.locals@[i - p].value_type) }));
                }
            }
            assert(locals@ =~= initial_locals(n, p, body.locals@));
            assert(body_started(old(bc), &start, f));
        }
        let module_instance = ModuleInstance::new(clone_function_types(types), clone_indices(functions), FunctionTableCompiler::new(), LinearMemoryCompiler::new());
        let mut frames: Vec<Frame<T>> = Vec::new();
        frames.push(Frame::new(locals, module_instance));
        let mut stack: Stack<T> = Stack::new(f, Vec::new(), Vec::new(), frames);
        let ghost mut ctxs: Seq<BuildContext> = seq![start];
        let ghost mut stacks: Seq<StackView> = seq![stack@];
        let ghost mut code: Seq<Instruction> = seq![];
        proof {
            assert(stack@.frames =~= seq![FrameView { locals: locals@, history: empty_history(), previous_instruction: None }]);
            assert(stack@ == s0);
            assert(trace_translates(ctxs, stacks, code));
        }
        let mut i: usize = 0;
        while i < body.code.len()
            invariant
                bc.extends(&start),
                start.keeps_symbols(old(bc)),
                start.function == Some(f),
                i <= body.code@.len(),
                forall|j: int| 0 <= j < body.code@.len() ==> #[trigger] instruction_supported(body.code@[j]),
                trace_translates(ctxs, stacks, code),
                body_started(old(bc), &start, f),
                s0 == body_stack(old(bc), f, *body),
                ctxs[0] == start,
                stacks[0] == s0,
                ctxs.last() == *bc,
                stacks.last() == stack@,
                code.len() == i,
                forall|j: int| 0 <= j < i ==> #[trigger] is_copy(code[j], body.code@[j]),
            decreases body.code@.len() - i,
        {
            let instruction = clone_instruction(&body.code[i]);
            proof {
                assert(instruction_supported(body.code@[i as int]));
                if body.code@[i as int] is BrTable {
                    assert(spec_classify(instruction) == spec_classify(body.code@[i as int]));
                }
            }
            let ghost before = *bc;
            let ghost before_stack = stack@;
            let ghost instruction_copy = instruction;
            match progress_instruction(bc, instruction, stack) {
                Ok(s) => {
                    stack = s;
                },
                Err(e) => {
                    proof {
                        assert(code_translated(start, before, s0, before_stack, code));
                        let failing = code.push(instruction_copy);
                        assert(failing.take(i as int) =~= code);
                        assert(code_failed(start, s0, failing, e@));
                        let rest = body.code@.subrange(i + 1, body.code@.len() as int);
                        let whole = failing + rest;
                        assert(whole.take(i as int) =~= code);
                        assert(whole[i as int] == instruction_copy);
                        assert(code_failed(start, s0, whole, e@));
                        assert forall|j: int| 0 <= j < whole.len() implies #[trigger] is_copy(whole[j], body.code@[j]) by {
                            if j > i {
                                assert(whole[j] == body.code@[j]);
                            }
                        }
                        assert(whole.len() == body.code@.len());
                        assert(code_copy(whole, body.code@));
                        assert(body_started(old(bc), &start, f));
                        assert(code_failed(start, body_stack(old(bc), f, *body), whole, e@));
                        assert(body_failed(old(bc), f, *body, e@));
                    }
                    return Err(e);
                },
            }
            proof {
                assert(step_translated(before, *bc, before_stack, stack@, instruction_copy)) by {
                    reveal(step_done);
                }
                let ghost old_ctxs = ctxs;
                let ghost old_stacks = stacks;
                let ghost old_code = code;
                ctxs = ctxs.push(*bc);
                stacks = stacks.push(stack@);
                code = code.push(instruction_copy);
                assert forall|j: int| 0 <= j < code.len() implies
                    #[trigger] step_translated(ctxs[j], ctxs[j + 1], stacks[j], stacks[j + 1], code[j]) by {
                    if j < old_code.len() {
                        assert(step_translated(old_ctxs[j], old_ctxs[j + 1], old_stacks[j], old_stacks[j + 1], old_code[j]));
                    }
                }
            }
            i = i + 1;
        }
        let ghost done = *bc;
        let ghost t = stack@;
        match stack.values.pop() {
            Some(result) => {
                let value = result.to_value(bc);
                bc.emit(Op::Ret { value });
                proof {
                    assert(bc.ops() =~= done.ops() + return_ops(t, done.ops().len()));
                }
            },
            None => {
                bc.emit(Op::RetVoid);
                proof {
                    assert(bc.ops() =~= done.ops() + return_ops(t, done.ops().len()));
                }
            },
        }
        proof {
            assert(code_translated(start, done, s0, t, code));
            assert(code_copy(code, body.code@));
            assert(bc.taken_up(f) == done.ops() + return_ops(t, done.ops().len()));
            assert(body_translated(old(bc), bc, f, *body));
            assert forall|g: usize| g < old(bc).module.functions@.len() && g != f
                implies #[trigger] bc.taken_up(g) == old(bc).taken_up(g) by {
                assert(entered.taken_up(g) == old(bc).taken_up(g));
                assert(start.taken_up(g) == entered.taken_up(g));
                BuildContext::lemma_extends_keeps_taken_up(&start, &done, g);
            }
        }
        Ok(())
    }

    /// Translates the bodies of the code section into the functions that
    /// follow the `import_count` imported ones among `functions`.
    fn build_function_codes(&self, bc: &mut BuildContext, wasm_module: &Module, functions: &[usize], types: &[FunctionType], import_count: u32) -> (r: Result<(), RuntimeError>)
        requires
            old(bc).wf(),
            code_supported(*wasm_module),
            wasm_module.code matches Some(c) ==> import_count + c@.len() <= u32::MAX,
            forall|k: int| 0 <= k < functions@.len() ==> #[trigger] functions@[k] < old(bc).module.functions@.len(),
        ensures
            final(bc).wf(),
            final(bc).keeps_symbols(old(bc)),
            wasm_module.code is None ==> r is Ok && *final(bc) == *old(bc),
            r is Ok && wasm_module.code is Some && wasm_module.code->0@.len() > 0
                ==> import_count + wasm_module.code->0@.len() <= functions@.len(),
            wasm_module.code matches Some(bodies) ==> (r is Ok ==> exists|ctxs: Seq<BuildContext>|
                #[trigger] codes_trace(ctxs, functions@, import_count as nat, bodies@) && ctxs[0] == *old(bc) && ctxs.last() == *final(bc)
                && codes_kept(final(bc), ctxs, functions@, import_count as nat, bodies@.len())),
            wasm_module.code matches Some(bodies) ==> (r matches Err(e) ==> codes_failed(*old(bc), functions@, import_count as nat, bodies@, e@)),
    {
        match &wasm_module.code {
            None => Ok(()),
            Some(bodies) => {
                let ghost mut ctxs: Seq<BuildContext> = seq![*bc];
                proof {
                    assert(bodies@.take(0) =~= seq![]);
                    assert(codes_trace(ctxs, functions@, import_count as nat, bodies@.take(0)));
                }
                let mut index: usize = 0;
                while index < bodies.len()
                    invariant
                        bc.wf(),
                        bc.keeps_symbols(old(bc)),
                        wasm_module.code == Some(*bodies),
                        code_supported(*wasm_module),
                        import_count + bodies@.len() <= u32::MAX,
                        index <= bodies@.len(),
                        index > 0 ==> import_count + index <= functions@.len(),
                        forall|k: int| 0 <= k < functions@.len() ==> #[trigger] functions@[k] < old(bc).module.functions@.len(),
                        codes_trace(ctxs, functions@, import_count as nat, bodies@.take(index as int)),
                        ctxs[0] == *old(bc),
                        ctxs.last() == *bc,
                        codes_kept(bc, ctxs, functions@, import_count as nat, index as nat),
                    decreases bodies@.len() - index,
                {
                    let position = index + import_count as usize;
                    if position >= functions.len() {
                        proof {
                            assert(codes_failed(*old(bc), functions@, import_count as nat, bodies@,
                                ErrorView::NoSuchFunctionIndex { index: position as u32 }));
                        }
                        return Err(RuntimeError::NoSuchFunctionIndex { index: position as u32 });
                    }
                    let current_function = functions[position];
                    let ghost before = *bc;
                    proof {
                        assert forall|j: int| 0 <= j < bodies@[index as int].code@.len()
                            implies #[trigger] instruction_supported(bodies@[index as int].code@[j]) by {
                            lemma_code_supported(*wasm_module, index as int, j);
                        }
                        assert(before.module.functions@[current_function as int] == old(bc).module.functions@[current_function as int]);
                    }
                    match self.build_function_code(bc, current_function, &bodies[index], functions, types) {
                        Ok(()) => {},
                        Err(e) => {
                            proof {
                                assert(codes_failed(*old(bc), functions@, import_count as nat, bodies@, e@));
                            }
                            return Err(e);
                        },
                    }
                    proof {
                        let old_ctxs = ctxs;
                        ctxs = ctxs.push(*bc);
                        let done = bodies@.take(index + 1);
                        assert forall|k: int| 0 <= k < done.len() implies import_count + k < functions@.len()
                            && #[trigger] body_translated(&ctxs[k], &ctxs[k + 1], functions@[import_count + k], done[k]) by {
                            if k < index {
                                assert(done[k] == bodies@.take(index as int)[k]);
                                assert(body_translated(&old_ctxs[k], &old_ctxs[k + 1], functions@[import_count + k], bodies@.take(index as int)[k]));
                            } else {
                                assert(done[k] == bodies@[index as int]);
                            }
                        }
                        let f = functions@[position as int];
                        assert forall|k: int| 0 <= k < index + 1 && last_built(functions@, import_count as nat, (index + 1) as nat, k)
                            implies #[trigger] bc.taken_up(functions@[import_count + k]) == ctxs[k + 1].taken_up(functions@[import_count + k]) by {
                            if k < index {
                                let g = functions@[import_count + k];
                                assert(functions@[import_count + index] != g);
                                assert(last_built(functions@, import_count as nat, index as nat, k));
                                assert(before.taken_up(g) == old_ctxs[k + 1].taken_up(g));
                                assert(bc.taken_up(g) == before.taken_up(g));
                            }
                        }
                    }
                    index = index + 1;
                }
                proof {
                    assert(bodies@.take(bodies@.len() as int) =~= bodies@);
                }
                Ok(())
            },
        }
    }
}

impl<T: WasmIntType> WasmCompiler<T> {
    /// Declares the functions of the module, imported ones first, builds
    /// the table initialization and translates the function bodies, if the
    /// module has a type section.
    pub fn build_functions(&self, bc: &mut BuildContext, wasm_module: &Module) -> (r: Result<(), RuntimeError>)
        requires
            old(bc).wf(),
            module_indices_fit(*wasm_module),
            code_supported(*wasm_module),
        ensures
            final(bc).wf(),
            final(bc).keeps_symbols(old(bc)),
            wasm_module.types is None ==> r is Ok && *final(bc) == *old(bc),
            wasm_module.types is Some && !module_typed(*wasm_module) ==> (r matches Err(e) && type_index_error(*wasm_module, e@)),
            r matches Err(e) ==> wasm_module.types is Some && functions_failed(*wasm_module, e@),
            r is Ok && wasm_module.types is Some ==> module_typed(*wasm_module),
            r is Ok && wasm_module.types is Some ==> exists|functions: Seq<usize>|
                #[trigger] functions_named(final(bc).module.function_names(), functions, *wasm_module),
            r is Ok && wasm_module.types is Some && wasm_module.tables is Some && wasm_module.elements is Some
                ==> final(bc).module.function_names().contains(init_function_name(vstd::layout::size_of::<T>() * 8)),
            r is Ok && wasm_module.types is Some ==> {
                &&& wasm_module.imports matches Some(imports) ==> forall|k: int| 0 <= k < function_imports(imports@).len()
                    ==> #[trigger] final(bc).module.function_names().contains(wasm_function_name(function_imports(imports@)[k].0))
                &&& wasm_module.functions matches Some(functions) ==> forall|k: int| 0 <= k < functions@.len()
                    ==> #[trigger] final(bc).module.function_names().contains(wasm_function_name(module_function_name(
                        export_pairs(*wasm_module), (imported_function_count(*wasm_module) + k) as u32)))
            },
            r is Ok && wasm_module.types is Some ==> (wasm_module.code matches Some(bodies) ==>
                exists|ctxs: Seq<BuildContext>, functions: Seq<usize>|
                    #[trigger] codes_trace(ctxs, functions, imported_function_count(*wasm_module), bodies@)
                    && ctxs.last() == *final(bc)
                    && codes_kept(final(bc), ctxs, functions, imported_function_count(*wasm_module), bodies@.len())
                    && functions_named(final(bc).module.function_names(), functions, *wasm_module)),
    {
        match &wasm_module.types {
            None => Ok(()),
            Some(type_section) => {
                let types = Self::set_declare_types(type_section.as_slice());
                let imported = Self::set_declare_imported_functions(bc, wasm_module, types.as_slice())?;
                let ghost after_imports = *bc;
                let pairs = Self::get_exported_function_pairs(wasm_module);
                let imported_count = imported.len() as u32;
                let current = Self::set_declare_current_module_functions(bc, wasm_module, pairs.as_slice(), types.as_slice(), imported_count)?;
                let ghost declared = *bc;
                let mut functions: Vec<usize> = clone_indices(imported.as_slice());
                let mut i: usize = 0;
                while i < current.len()
                    invariant
                        i <= current@.len(),
                        functions@ == imported@ + current@.take(i as int),
                    decreases current@.len() - i,
                {
                    functions.push(current[i]);
                    i = i + 1;
                    proof {
                        assert(functions@ =~= imported@ + current@.take(i as int));
                    }
                }
                assert(current@.take(current@.len() as int) =~= current@);
                proof {
                    assert forall|k: int| 0 <= k < functions@.len() implies #[trigger] functions@[k] < bc.module.functions@.len() by {
                        if k < imported@.len() {
                            assert(functions@[k] == imported@[k]);
                        } else {
                            assert(functions@[k] == current@[k - imported@.len()]);
                        }
                    }
                }
                proof {
                    let pairs_view = pairs@.map_values(|p: (u32, String)| (p.0, p.1@));
                    assert(pairs_view =~= export_pairs(*wasm_module));
                    assert(imported_count == imported_function_count(*wasm_module));
                    assert forall|j: int| #![trigger functions@[j]] 0 <= j < functions@.len() implies functions@[j] < declared.module.function_names().len()
                        && declared.module.function_names()[functions@[j] as int] == module_function_symbol(*wasm_module, j) by {
                        let f = functions@[j];
                        if j < imported@.len() {
                            assert(f == imported@[j]);
                            assert(after_imports.module.function_names()[f as int] == declared.module.function_names()[f as int]);
                        } else {
                            assert(f == current@[j - imported@.len()]);
                        }
                    }
                    assert(functions_named(declared.module.function_names(), functions@, *wasm_module));
                    assert(module_typed(*wasm_module));
                }
                match self.build_init_table_function(bc, wasm_module, functions.as_slice(), imported_count) {
                    Ok(()) => {},
                    Err(e) => {
                        proof {
                            assert(table_init_error(&declared, *wasm_module, functions@.len(), e@));
                        }
                        return Err(e);
                    },
                }
                let ghost after_table = *bc;
                proof {
                    lemma_functions_named_kept(&declared, &after_table, functions@, *wasm_module);
                }
                let ghost init_name = init_function_name(vstd::layout::size_of::<T>() * 8);
                match self.build_function_codes(bc, wasm_module, functions.as_slice(), types.as_slice(), imported_count) {
                    Ok(()) => {},
                    Err(e) => {
                        proof {
                            assert(codes_failed(after_table, functions@, imported_function_count(*wasm_module), wasm_module.code->0@, e@));
                        }
                        return Err(e);
                    },
                }
                proof {
                    let pairs_view = pairs@.map_values(|p: (u32, String)| (p.0, p.1@));
                    assert(pairs_view =~= export_pairs(*wasm_module));
                    assert(imported_count == imported_function_count(*wasm_module));
                    if let Some(fs) = &wasm_module.functions {
                        assert forall|k: int| 0 <= k < fs@.len() implies #[trigger] bc.module.function_names().contains(wasm_function_name(module_function_name(
                            export_pairs(*wasm_module), (imported_function_count(*wasm_module) + k) as u32))) by {
                            let name = wasm_function_name(module_function_name(export_pairs(*wasm_module), (imported_function_count(*wasm_module) + k) as u32));
                            let f = current@[k];
                            assert(declared.module.function_names()[f as int] == name);
                            BuildContext::lemma_function_kept(&declared, bc, name);
                        }
                    }
                    if let Some(imports) = &wasm_module.imports {
                        assert forall|k: int| 0 <= k < function_imports(imports@).len()
                            implies #[trigger] bc.module.function_names().contains(wasm_function_name(function_imports(imports@)[k].0)) by {
                            let f = imported@[k];
                            assert(after_imports.module.function_names()[f as int] == wasm_function_name(function_imports(imports@)[k].0));
                            assert(declared.module.functions@[f as int] == after_imports.module.functions@[f as int]);
                            assert(declared.module.function_names()[f as int] == wasm_function_name(function_imports(imports@)[k].0));
                            BuildContext::lemma_function_kept(&declared, bc, wasm_function_name(function_imports(imports@)[k].0));
                        }
                    }
                    assert forall|j: int| #![trigger functions@[j]] 0 <= j < functions@.len() implies functions@[j] < bc.module.function_names().len()
                        && bc.module.function_names()[functions@[j] as int] == module_function_symbol(*wasm_module, j) by {
                        let f = functions@[j];
                        assert(bc.module.function_names()[f as int] == declared.module.function_names()[f as int]);
                        if j < imported@.len() {
                            assert(f == imported@[j]);
                            assert(after_imports.module.function_names()[f as int] == declared.module.function_names()[f as int]);
                        } else {
                            assert(f == current@[j - imported@.len()]);
                        }
                    }
                    assert(functions_named(bc.module.function_names(), functions@, *wasm_module));
                    if wasm_module.tables is Some && wasm_module.elements is Some {
                        BuildContext::lemma_function_kept(&after_table, bc, init_name);
                    }
                }
                Ok(())
            },
        }
    }

    /// Builds what an instance of the module needs before it runs: the
    /// memory functions, the globals, the data initialization, the
    /// functions and the table initialization.
    pub fn build_init_instance_functions(&self, _module_id: &str, bc: &mut BuildContext, wasm_module: &Module) -> (r: Result<(), RuntimeError>)
        requires
            old(bc).wf(),
            module_indices_fit(*wasm_module),
            code_supported(*wasm_module),
        ensures
            final(bc).wf(),
            final(bc).keeps_symbols(old(bc)),
            r is Ok ==> (wasm_module.memories matches Some(memories) ==> memory_functions_declared(final(bc).module.function_names(),
                linear_prefix(), wasm_module.spec_import_count(ImportCountType::Memory),
                wasm_module.spec_import_count(ImportCountType::Memory) + memories@.len())),
            r is Ok ==> (wasm_module.globals matches Some(globals) ==> forall|i: int| 0 <= i < globals@.len()
                ==> #[trigger] globals@[i].init_expr.code@.len() > 0),
            r is Ok && wasm_module.data is Some ==> final(bc).module.function_names().contains("init_data_sections"@),
            r is Ok ==> instance_declared(final(bc).module.global_names(), final(bc).module.function_names(), *wasm_module,
                vstd::layout::size_of::<T>() * 8),
            r is Ok ==> memory_limits_valid(*wasm_module) && globals_initialized(*wasm_module),
            r matches Err(e) ==> instance_failed(*wasm_module, e@),
            !memory_limits_valid(*wasm_module) ==> (r matches Err(e) && memory_limits_error(*wasm_module, e@)),
            memory_limits_valid(*wasm_module) && !globals_initialized(*wasm_module)
                ==> (r matches Err(e) && e is NotExistGlobalInitializerInstruction),
            r is Ok && wasm_module.types is Some ==> module_typed(*wasm_module),
            r is Ok && wasm_module.types is Some ==> exists|functions: Seq<usize>|
                #[trigger] functions_named(final(bc).module.function_names(), functions, *wasm_module),
            r is Ok && wasm_module.types is Some ==> (wasm_module.imports matches Some(imports) ==> forall|k: int|
                0 <= k < function_imports(imports@).len()
                ==> #[trigger] final(bc).module.function_names().contains(wasm_function_name(function_imports(imports@)[k].0))),
            r is Ok && wasm_module.types is Some ==> (wasm_module.code matches Some(bodies) ==>
                exists|ctxs: Seq<BuildContext>, functions: Seq<usize>|
                    #[trigger] codes_trace(ctxs, functions, imported_function_count(*wasm_module), bodies@)
                    && ctxs.last() == *final(bc)
                    && codes_kept(final(bc), ctxs, functions, imported_function_count(*wasm_module), bodies@.len())
                    && functions_named(final(bc).module.function_names(), functions, *wasm_module)),
    {
        self.linear_memory_compiler.build_memory_section(bc, wasm_module)?;
        let ghost b1 = *bc;
        Self::build_init_global_sections(bc, wasm_module)?;
        let ghost b2 = *bc;
        match self.build_init_data_sections_function(bc, wasm_module) {
            Ok(()) => {},
            Err(e) => {
                proof {
                    assert(data_failed(&b2, wasm_module.data->0@, e@));
                }
                return Err(e);
            },
        }
        let ghost b3 = *bc;
        self.build_functions(bc, wasm_module)?;
        proof {
            crate::memory_functions::lemma_keeps_trans(&b1, &b2, &b3);
            crate::memory_functions::lemma_keeps_trans(&b1, &b3, bc);
            if wasm_module.memories is Some {
                crate::memory_functions::lemma_memory_functions_kept(&b1, bc, linear_prefix(),
                    wasm_module.spec_import_count(ImportCountType::Memory),
                    wasm_module.spec_import_count(ImportCountType::Memory) + wasm_module.memories->0@.len());
            }
            if wasm_module.data is Some {
                let f = b3.function->0;
                assert(b3.module.function_names()[f as int] == "init_data_sections"@);
                crate::memory_functions::lemma_name_kept(&b3, bc, "init_data_sections"@);
            }
            if wasm_module.globals is Some {
                let entries = wasm_module.globals->0;
                assert forall|i: int| 0 <= i < entries@.len() implies #[trigger] bc.module.global_names().contains(
                    crate::instructions::global_name((wasm_module.spec_import_count(ImportCountType::Global) + i) as nat)) by {
                    BuildContext::lemma_global_kept(&b2, bc,
                        crate::instructions::global_name((wasm_module.spec_import_count(ImportCountType::Global) + i) as nat));
                }
            }
        }
        Ok(())
    }

    /// Calls `name` if there is a function of that name and branches on its
    /// answer to `then_block` or `else_block`; branches to `then_block` if
    /// there is none.
    fn build_call_if_declared(bc: &mut BuildContext, name: &String, then_block: usize, else_block: usize)
        requires
            old(bc).wf(),
        ensures
            final(bc).extends(old(bc)),
            final(bc).keeps_initial_values(old(bc)),
            old(bc).module.function_names().contains(name@) ==> final(bc).grown(old(bc), 3)
                && call_at_existing(final(bc), old(bc).ops().len(), name@)
                && final(bc).ops()[old(bc).ops().len() + 2int] == (OpView::CondBr { cond: (old(bc).ops().len() + 1) as usize, then_block, else_block }),
            !old(bc).module.function_names().contains(name@) ==> final(bc).emitted(old(bc), seq![OpView::Br { block: then_block }]),
            final(bc).module == old(bc).module,
            final(bc).grown(old(bc), call_if_declared_len(old(bc), name@)),
            call_if_declared_at(final(bc), old(bc).ops().len(), name@, then_block, else_block),
    {
        match bc.get_named_function(name) {
            Some(f) => {
                let callee = bc.emit(Op::FunctionRef { function: f });
                let answer = bc.emit(Op::Call { callee, args: Vec::new() });
                bc.emit(Op::CondBr { cond: answer, then_block, else_block });
                proof {
                    assert(bc.ops().take(old(bc).ops().len() as int) =~= old(bc).ops());
                }
            },
            None => {
                bc.emit(Op::Br { block: then_block });
                proof {
                    assert(bc.ops().take(old(bc).ops().len() as int) =~= old(bc).ops());
                }
            },
        }
    }

    /// Builds the start-up of `main` at the end of the body (see `startup_at`).
    #[verifier::rlimit(80)]
    fn build_main_startup(&self, bc: &mut BuildContext)
        requires
            old(bc).wf(),
        ensures
            final(bc).extends(old(bc)),
            final(bc).keeps_initial_values(old(bc)),
            final(bc).module.function_names() == old(bc).module.function_names()
                || final(bc).module.function_names() == old(bc).module.function_names().push("abort"@),
            startup_at(final(bc), old(bc).ops().len(), init_function_name(vstd::layout::size_of::<T>() * 8)),
            final(bc).ops().len() == startup_end(final(bc), old(bc).ops().len(), init_function_name(vstd::layout::size_of::<T>() * 8)),
            final(bc).ops().take(old(bc).ops().len() as int) == old(bc).ops(),
    {
        let ghost p = old(bc).ops().len();
        let ghost n = init_function_name(vstd::layout::size_of::<T>() * 8);
        let failed_init_block = bc.emit(Op::AppendBlock);
        let init_table_block = bc.emit(Op::AppendBlock);
        let ghost b1 = *bc;
        let init_memory_function_name = self.linear_memory_compiler.get_init_function_name();
        Self::build_call_if_declared(bc, &init_memory_function_name, init_table_block, failed_init_block);
        let ghost s1 = *bc;
        bc.emit(Op::PositionAtEnd { block: failed_init_block });
        let ghost b2 = *bc;
        crate::calls::build_call_and_set_abort(bc);
        let ghost s2 = *bc;
        let minus_one = bc.emit(Op::Const { value: Constant::Int { ty: IrType::Int32, value: 0xffff_ffff_ffff_ffff, sign_extend: true } });
        bc.emit(Op::Ret { value: minus_one });
        bc.emit(Op::PositionAtEnd { block: init_table_block });
        let init_table_function_name = self.table_compiler.get_init_function_name();
        let init_data_section_block = bc.emit(Op::AppendBlock);
        let ghost b3 = *bc;
        Self::build_call_if_declared(bc, &init_table_function_name, init_data_section_block, failed_init_block);
        let ghost s3 = *bc;
        bc.emit(Op::PositionAtEnd { block: init_data_section_block });
        let ghost b4 = *bc;
        let data_name = String::from_str("init_data_sections");
        if let Some(f) = bc.get_named_function(&data_name) {
            let callee = bc.emit(Op::FunctionRef { function: f });
            bc.emit(Op::Call { callee, args: Vec::new() });
        }
        proof {
            reveal_strlit("abort");
            reveal_strlit("init_memory_");
            reveal_strlit("init_data_sections");
            assert(n[0] == 'i' && "abort"@[0] == 'a');
            assert(n != "abort"@);
            assert("init_data_sections"@ != "abort"@);
            let names = bc.module.function_names();
            let old_names = old(bc).module.function_names();
            assert(s1.module == old(bc).module);
            assert(bc.module == s2.module);
            assert(names == old_names || names == old_names.push("abort"@));
            assert(names.contains(n) == old_names.contains(n)) by {
                if names != old_names {
                    if names.contains(n) {
                        let k = choose|k: int| 0 <= k < names.len() && names[k] == n;
                        if k < old_names.len() {
                            assert(old_names[k] == n);
                        } else {
                            assert(names[k] == "abort"@);
                        }
                    }
                    if old_names.contains(n) {
                        let k = choose|k: int| 0 <= k < old_names.len() && old_names[k] == n;
                        assert(names[k] == n);
                    }
                }
            }
            let l = call_if_declared_len(bc, n);
            let q = p + 2 + l;
            let r = q + 7 + l;
            let bl = b1.ops().len();
            assert(b1.ops() =~= old(bc).ops() + seq![OpView::AppendBlock, OpView::AppendBlock]);
            assert(b1.module.function_names() == old(bc).module.function_names());
            assert(call_if_declared_len(&b1, n) == l);
            assert(s1.ops().len() == q);
            // Every state so far stands at the start of the final body.
            assert(bc.ops().take(b4.ops().len() as int) =~= b4.ops());
            assert(b4.ops().take(s3.ops().len() as int) =~= s3.ops());
            assert(s3.ops().take(b3.ops().len() as int) == b3.ops());
            assert(b3.ops().take(s2.ops().len() as int) =~= s2.ops());
            assert(s2.ops().take(b2.ops().len() as int) == b2.ops());
            assert(b2.ops().take(s1.ops().len() as int) =~= s1.ops());
            assert(s1.ops().take(b1.ops().len() as int) == b1.ops());
            assert(bc.ops().take(s1.ops().len() as int) =~= s1.ops());
            assert(bc.ops().take(b1.ops().len() as int) =~= b1.ops());
            assert(bc.ops().take(b2.ops().len() as int) =~= b2.ops());
            assert(bc.ops().take(s2.ops().len() as int) =~= s2.ops());
            assert(bc.ops().take(b3.ops().len() as int) =~= b3.ops());
            assert(bc.ops().take(s3.ops().len() as int) =~= s3.ops());
            assert(bc.grown(&s1, (bc.ops().len() - s1.ops().len()) as nat));
            assert(bc.grown(&s2, (bc.ops().len() - s2.ops().len()) as nat));
            assert(bc.grown(&s3, (bc.ops().len() - s3.ops().len()) as nat));
            assert(bc.grown(&b4, (bc.ops().len() - b4.ops().len()) as nat));
            assert(bc.ops()[p as int] == b1.ops()[p as int]);
            assert(bc.ops()[p + 1int] == b1.ops()[p + 1int]);
            if b1.module.function_names().contains(n) {
                crate::calls::lemma_call_at_kept(&s1, bc, (bc.ops().len() - s1.ops().len()) as nat, p + 2, n, seq![]);
                assert(bc.ops()[p + 4int] == s1.ops()[p + 4int]);
            } else {
                assert(bc.ops()[p + 2int] == s1.ops()[p + 2int]);
            }
            assert(bc.ops()[q as int] == b2.ops()[q as int]);
            crate::calls::lemma_call_at_kept(&s2, bc, (bc.ops().len() - s2.ops().len()) as nat, q + 1, "abort"@, seq![]);
            assert(bc.ops()[q + 3int] == b3.ops()[q + 3int]);
            assert(bc.ops()[q + 4int] == b3.ops()[q + 4int]);
            assert(bc.ops()[q + 5int] == b3.ops()[q + 5int]);
            assert(bc.ops()[q + 6int] == b3.ops()[q + 6int]);
            assert(b3.module.function_names() == s2.module.function_names());
            assert(s3.ops().len() == r);
            if b3.module.function_names().contains(n) {
                crate::calls::lemma_call_at_kept(&s3, bc, (bc.ops().len() - s3.ops().len()) as nat, q + 7, n, seq![]);
                assert(bc.ops()[q + 9int] == s3.ops()[q + 9int]);
            } else {
                assert(bc.ops()[q + 7int] == s3.ops()[q + 7int]);
            }
            assert(bc.ops()[r as int] == b4.ops()[r as int]);
            assert(bc.ops().take(p as int) =~= old(bc).ops());
        }
    }

    /// Builds the `main` function: it runs the memory and table
    /// initializations, aborting with -1 when one fails, fills the
    /// memories from the data section, and returns what the function named
    /// `entry_name` returns.
    #[verifier::rlimit(100)]
    #[verifier::spinoff_prover]
    pub fn build_main_function(&self, bc: &mut BuildContext, module_id: &str, wasm_module: &Module, main_function: usize, entry_name: &String) -> (r: Result<(), RuntimeError>)
        requires
            old(bc).wf(),
            main_function < old(bc).module.functions@.len(),
            module_indices_fit(*wasm_module),
            code_supported(*wasm_module),
        ensures
            final(bc).wf(),
            final(bc).keeps_symbols(old(bc)),
            r is Ok ==> final(bc).function == Some(main_function) && final(bc).module.function_names().contains(entry_name@),
            r is Ok ==> ends_returning_call(final(bc).ops(), final(bc).module, entry_name@),
            r is Ok ==> memory_limits_valid(*wasm_module) && globals_initialized(*wasm_module)
                && (wasm_module.types is Some ==> module_typed(*wasm_module)),
            !memory_limits_valid(*wasm_module) ==> (r matches Err(e) && memory_limits_error(*wasm_module, e@)),
            memory_limits_valid(*wasm_module) && !globals_initialized(*wasm_module)
                ==> (r matches Err(e) && e is NotExistGlobalInitializerInstruction),
            r is Ok && wasm_module.types is Some ==> (wasm_module.code matches Some(bodies) ==>
                exists|ctxs: Seq<BuildContext>, functions: Seq<usize>|
                    #[trigger] codes_trace(ctxs, functions, imported_function_count(*wasm_module), bodies@)
                    && functions_named(final(bc).module.function_names(), functions, *wasm_module)
                    && ((forall|j: int| 0 <= j < functions.len() ==> #[trigger] functions[j] != main_function)
                        ==> codes_kept(final(bc), ctxs, functions, imported_function_count(*wasm_module), bodies@.len()))),
            r matches Err(e) ==> main_failed(*wasm_module, entry_name@, e@),
            r is Ok ==> instance_declared(final(bc).module.global_names(), final(bc).module.function_names(), *wasm_module,
                vstd::layout::size_of::<T>() * 8),
            r is Ok ==> exists|p: nat| #[trigger] startup_at(final(bc), p, init_function_name(vstd::layout::size_of::<T>() * 8))
                && p >= 2
                && final(bc).ops()[p - 2] == OpView::AppendBlock
                && final(bc).ops()[p - 1] == (OpView::PositionAtEnd { block: (p - 2) as usize })
                && final(bc).ops().len() == startup_end(final(bc), p, init_function_name(vstd::layout::size_of::<T>() * 8)) + 3,
    {
        self.build_init_instance_functions(module_id, bc, wasm_module)?;
        let ghost after_init = *bc;
        bc.build_function(main_function);
        let ghost entered = *bc;
        self.build_main_startup(bc);
        let ghost started = *bc;
        let entry = match bc.get_named_function(entry_name) {
            Some(f) => f,
            None => {
                proof {
                    if module_declares(*wasm_module, entry_name@) {
                        let functions = choose|functions: Seq<usize>|
                            #[trigger] functions_named(after_init.module.function_names(), functions, *wasm_module);
                        let j = choose|j: int| 0 <= j < imported_function_count(*wasm_module) + match wasm_module.functions { Some(fs) => fs@.len(), None => 0 }
                            && #[trigger] module_function_symbol(*wasm_module, j) == entry_name@;
                        let f = functions[j];
                        assert(after_init.module.function_names()[f as int] == entry_name@);
                        assert(bc.module.function_names()[f as int] == after_init.module.function_names()[f as int]);
                        assert(bc.module.function_names().contains(entry_name@));
                    }
                }
                return Err(RuntimeError::NoSuchLLVMFunction { name: entry_name.clone() });
            },
        };
        let callee = bc.emit(Op::FunctionRef { function: entry });
        let result = bc.emit(Op::Call { callee, args: Vec::new() });
        bc.emit(Op::Ret { value: result });
        proof {
            let p = entered.ops().len();
            let n = init_function_name(vstd::layout::size_of::<T>() * 8);
            assert(bc.ops().take(started.ops().len() as int) =~= started.ops());
            lemma_startup_kept(&started, bc, 3, p, n);
            assert(bc.ops()[p - 2] == started.ops()[p - 2]);
            assert(bc.ops()[p - 1] == started.ops()[p - 1]);
            assert(started.ops()[p - 2] == started.ops().take(p as int)[p - 2]);
            assert(started.ops()[p - 1] == started.ops().take(p as int)[p - 1]);
            assert(started.ops()[p - 2] == entered.ops()[p - 2]);
            assert(started.ops()[p - 1] == entered.ops()[p - 1]);
        }
        proof {
            lemma_instance_declared_kept(&after_init, bc, *wasm_module, vstd::layout::size_of::<T>() * 8);
        }
        proof {
            assert(bc.module.function_names()[entry as int] == entry_name@);
            let n = bc.ops().len() as int;
            assert(bc.ops()[n - 2] == (OpView::Call { callee: (n - 3) as usize, args: seq![] }));
            assert(bc.extends(&entered));
            if wasm_module.types is Some && wasm_module.code is Some {
                let bodies = wasm_module.code->0;
                let imp = imported_function_count(*wasm_module);
                let (ctxs, functions) = choose|ctxs: Seq<BuildContext>, functions: Seq<usize>|
                    #[trigger] codes_trace(ctxs, functions, imp, bodies@)
                    && ctxs.last() == after_init
                    && codes_kept(&after_init, ctxs, functions, imp, bodies@.len())
                    && functions_named(after_init.module.function_names(), functions, *wasm_module);
                assert forall|j: int| #![trigger functions[j]] 0 <= j < functions.len() implies functions[j] < bc.module.function_names().len()
                    && bc.module.function_names()[functions[j] as int] == module_function_symbol(*wasm_module, j) by {
                    assert(after_init.module.function_names()[functions[j] as int] == module_function_symbol(*wasm_module, j));
                    assert(bc.module.function_names()[functions[j] as int] == after_init.module.function_names()[functions[j] as int]);
                }
                assert(functions_named(bc.module.function_names(), functions, *wasm_module));
                if forall|j: int| 0 <= j < functions.len() ==> #[trigger] functions[j] != main_function {
                    assert forall|k: int| 0 <= k < bodies@.len() && last_built(functions, imp, bodies@.len(), k)
                        implies #[trigger] bc.taken_up(functions[imp + k]) == ctxs[k + 1].taken_up(functions[imp + k]) by {
                        let g = functions[imp + k];
                        lemma_codes_trace_at(ctxs, functions, imp, bodies@, k);
                        assert(after_init.module.function_names()[functions[imp + k] as int] == module_function_symbol(*wasm_module, imp + k));
                        assert(g < after_init.module.functions@.len());
                        assert(functions[imp + k] != main_function);
                        assert(entered.taken_up(g) == after_init.taken_up(g));
                        BuildContext::lemma_extends_keeps_taken_up(&entered, bc, g);
                    }
                }
                assert((forall|j: int| 0 <= j < functions.len() ==> #[trigger] functions[j] != main_function)
                    ==> codes_kept(bc, ctxs, functions, imp, bodies@.len()));
            }
        }
        Ok(())
    }

    /// Compiles a WebAssembly module into a plan named `module_id`, whose
    /// `main` runs the module's function `wasm_main`.
    pub fn compile(&self, module_id: &str, wasm_module: &Module) -> (r: Result<IrModule, RuntimeError>)
        requires
            module_indices_fit(*wasm_module),
            code_supported(*wasm_module),
        ensures
            r matches Ok(m) ==> {
                &&& m.wf()
                &&& m.name@ == module_id@
                &&& crate::build_context::distinct_names(m.function_names())
                &&& m.function_names().contains("main"@)
                &&& m.function_names().contains(wasm_function_name("wasm_main"@))
                &&& forall|f: int| 0 <= f < m.functions@.len() && #[trigger] m.function_names()[f] == "main"@
                    ==> ends_returning_call(m.bodies@[f]@.map_values(|o: Op| o@), m, wasm_function_name("wasm_main"@))
                        && main_starts_up(m, f, init_function_name(vstd::layout::size_of::<T>() * 8))
                &&& instance_declared(m.global_names(), m.function_names(), *wasm_module, vstd::layout::size_of::<T>() * 8)
                &&& wasm_module.types is Some ==> (wasm_module.code matches Some(bodies) ==>
                    exists|ctxs: Seq<BuildContext>, functions: Seq<usize>|
                        #[trigger] codes_trace(ctxs, functions, imported_function_count(*wasm_module), bodies@)
                        && functions_named(m.function_names(), functions, *wasm_module)
                        && module_codes_kept(m, ctxs, functions, imported_function_count(*wasm_module), bodies@.len()))
            },
            r is Ok ==> memory_limits_valid(*wasm_module) && globals_initialized(*wasm_module)
                && (wasm_module.types is Some ==> module_typed(*wasm_module)),
            !memory_limits_valid(*wasm_module) ==> (r matches Err(e) && memory_limits_error(*wasm_module, e@)),
            memory_limits_valid(*wasm_module) && !globals_initialized(*wasm_module)
                ==> (r matches Err(e) && e is NotExistGlobalInitializerInstruction),
            r matches Err(e) ==> main_failed(*wasm_module, wasm_function_name("wasm_main"@), e@),
    {
        let mut bc = BuildContext::new(module_id);
        let main_function = Self::set_declare_main_function(&mut bc);
        let entry_name = Self::wasm_function_name("wasm_main");
        let ghost declared = bc;
        self.build_main_function(&mut bc, module_id, wasm_module, main_function, &entry_name)?;
        proof {
            reveal_strlit("wasm_main");
            assert(declared.module.function_names()[main_function as int] == "main"@);
            BuildContext::lemma_function_kept(&declared, &bc, "main"@);
        }
        let ghost built = bc;
        let m = bc.move_module();
        proof {
            assert(m.function_names() =~= built.module.function_names());
            assert(m.global_names() =~= built.module.global_names());
            assert(m.bodies@[main_function as int]@.map_values(|o: Op| o@) == built.ops());
            let n = init_function_name(vstd::layout::size_of::<T>() * 8);
            let p = choose|p: nat| #[trigger] startup_at(&built, p, n)
                && p >= 2
                && built.ops()[p - 2] == OpView::AppendBlock
                && built.ops()[p - 1] == (OpView::PositionAtEnd { block: (p - 2) as usize })
                && built.ops().len() == startup_end(&built, p, n) + 3;
            let b = body_context(m, main_function as int);
            assert(b.ops() == built.ops());
            lemma_startup_same(&built, &b, p, n);
            assert(startup_at(&b, p, n));
            assert(main_starts_up(m, main_function as int, n));
            assert forall|f: int| 0 <= f < m.functions@.len() && #[trigger] m.function_names()[f] == "main"@
                implies ends_returning_call(m.bodies@[f]@.map_values(|o: Op| o@), m, wasm_function_name("wasm_main"@))
                    && main_starts_up(m, f, n) by {
                assert(built.module.function_names()[f] == built.module.function_names()[main_function as int]);
            }
            if wasm_module.types is Some && wasm_module.code is Some {
                let bodies = wasm_module.code->0;
                let imp = imported_function_count(*wasm_module);
                let (ctxs, functions) = choose|ctxs: Seq<BuildContext>, functions: Seq<usize>|
                    #[trigger] codes_trace(ctxs, functions, imp, bodies@)
                    && functions_named(built.module.function_names(), functions, *wasm_module)
                    && ((forall|j: int| 0 <= j < functions.len() ==> #[trigger] functions[j] != main_function)
                        ==> codes_kept(&built, ctxs, functions, imp, bodies@.len()));
                assert forall|j: int| 0 <= j < functions.len() implies #[trigger] functions[j] != main_function by {
                    lemma_symbol_is_not_main(*wasm_module, j);
                    assert(built.module.function_names()[functions[j] as int] == module_function_symbol(*wasm_module, j));
                }
                assert forall|k: int| #![trigger m.bodies@[functions[imp + k] as int]] 0 <= k < bodies@.len() && last_built(functions, imp, bodies@.len(), k)
                    implies m.bodies@[functions[imp + k] as int]@.map_values(|o: Op| o@) == ctxs[k + 1].taken_up(functions[imp + k]) by {
                    let g = functions[imp + k];
                    lemma_codes_trace_at(ctxs, functions, imp, bodies@, k);
                    assert(g != main_function);
                    assert(built.taken_up(g) == ctxs[k + 1].taken_up(g));
                    assert(m.bodies@[g as int] == built.module.bodies@[g as int]);
                }
                assert(functions_named(m.function_names(), functions, *wasm_module));
            }
        }
        Ok(m)
    }
}

/// At position `at`: if a function named `name` is declared, a call of it
/// without arguments and a branch on its answer to `then_block` or
/// `else_block`; else a branch to `then_block`.
pub open spec fn call_if_declared_at(bc: &BuildContext, at: nat, name: Seq<char>, then_block: usize, else_block: usize) -> bool {
    if bc.module.function_names().contains(name) {
        &&& crate::calls::call_at(bc, at, name, seq![])
        &&& bc.ops()[at + 2int] == (OpView::CondBr { cond: (at + 1) as usize, then_block, else_block })
    } else {
        bc.ops()[at as int] == (OpView::Br { block: then_block })
    }
}

/// The number of operations of `call_if_declared_at` for `name`.
pub open spec fn call_if_declared_len(bc: &BuildContext, name: Seq<char>) -> nat {
    if bc.module.function_names().contains(name) { 3 } else { 1 }
}

/// Where the start-up of `main` that begins at position `p` ends.
pub open spec fn startup_end(bc: &BuildContext, p: nat, init_name: Seq<char>) -> nat {
    let l = call_if_declared_len(bc, init_name);
    let r = p + 2 + l + 7 + l;
    r + 1 + if bc.module.function_names().contains("init_data_sections"@) { 2nat } else { 0nat }
}

/// The start-up of `main` from position `p` on, with `init_name` the name
/// of the functions that map the memories and the tables: a failure block
/// and a block for the tables; the memories mapped, if that function is
/// declared, going on to the table block on success and to the failure
/// block otherwise; in the failure block a call of `abort` and a return of
/// -1; in the table block, a block for the data, and the tables mapped in
/// the same way, going on to the data block or to the failure block; in the
/// data block, a call of `init_data_sections` if it is declared.
pub open spec fn startup_at(bc: &BuildContext, p: nat, init_name: Seq<char>) -> bool {
    let l = call_if_declared_len(bc, init_name);
    let q = p + 2 + l;
    let r = q + 7 + l;
    &&& bc.ops().len() >= startup_end(bc, p, init_name)
    &&& bc.ops()[p as int] == OpView::AppendBlock
    &&& bc.ops()[p + 1int] == OpView::AppendBlock
    &&& call_if_declared_at(bc, p + 2, init_name, (p + 1) as usize, p as usize)
    &&& bc.ops()[q as int] == (OpView::PositionAtEnd { block: p as usize })
    &&& crate::calls::call_at(bc, q + 1, "abort"@, seq![])
    &&& bc.ops()[q + 3int] == (OpView::Const { value: Constant::Int { ty: IrType::Int32, value: 0xffff_ffff_ffff_ffff, sign_extend: true } })
    &&& bc.ops()[q + 4int] == (OpView::Ret { value: (q + 3) as usize })
    &&& bc.ops()[q + 5int] == (OpView::PositionAtEnd { block: (p + 1) as usize })
    &&& bc.ops()[q + 6int] == OpView::AppendBlock
    &&& call_if_declared_at(bc, q + 7, init_name, (q + 6) as usize, p as usize)
    &&& bc.ops()[r as int] == (OpView::PositionAtEnd { block: (q + 6) as usize })
    &&& bc.module.function_names().contains("init_data_sections"@) ==> crate::calls::call_at(bc, r + 1, "init_data_sections"@, seq![])
}

/// Module `m` has a function, imported or its own, whose symbol is `name`.
pub open spec fn module_declares(m: Module, name: Seq<char>) -> bool {
    m.types is Some && exists|j: int| 0 <= j < imported_function_count(m) + match m.functions { Some(fs) => fs@.len(), None => 0 }
        && #[trigger] module_function_symbol(m, j) == name
}

/// What building `main` for module `m`, with `entry` the function that it
/// runs, fails with: a failure of the instance, or `entry` missing from a
/// module whose instance builds.
pub open spec fn main_failed(m: Module, entry: Seq<char>, e: ErrorView) -> bool {
    ||| instance_failed(m, e)
    ||| e == (ErrorView::NoSuchLLVMFunction { name: entry }) && !module_declares(m, entry)
        && memory_limits_valid(m) && globals_initialized(m) && (m.types is Some ==> module_typed(m))
}

/// The body of function `f` of `m`, seen as a body being built.
pub open spec fn body_context(m: IrModule, f: int) -> BuildContext {
    BuildContext { module: m, body: m.bodies@[f], function: Some(f as usize) }
}

/// The body of function `f` of `m` enters a new block, then runs the
/// start-up of `main` (see `startup_at`), after which three operations
/// remain.
pub open spec fn main_starts_up(m: IrModule, f: int, init_name: Seq<char>) -> bool {
    let b = body_context(m, f);
    exists|p: nat| #[trigger] startup_at(&b, p, init_name)
        && p >= 2
        && b.ops()[p - 2] == OpView::AppendBlock
        && b.ops()[p - 1] == (OpView::PositionAtEnd { block: (p - 2) as usize })
        && b.ops().len() == startup_end(&b, p, init_name) + 3
}

/// The start-up of `main` depends only on the body and the declared functions.
pub proof fn lemma_startup_same(a: &BuildContext, b: &BuildContext, p: nat, init_name: Seq<char>)
    requires
        a.ops() == b.ops(),
        a.module.functions == b.module.functions,
    ensures
        startup_at(a, p, init_name) == startup_at(b, p, init_name),
        startup_end(a, p, init_name) == startup_end(b, p, init_name),
{
    assert(a.module.function_names() == b.module.function_names());
}

/// What an instance of module `m` declares, with `bits` the width of a
/// pointer: the grow and check functions of its memories, a global for each
/// of its globals, `init_data_sections` when it has data, and the function
/// that maps the tables when its functions are typed and it has tables and
/// element segments.
pub open spec fn instance_declared(globals: Seq<Seq<char>>, functions: Seq<Seq<char>>, m: Module, bits: nat) -> bool {
    &&& m.memories matches Some(memories) ==> memory_functions_declared(functions, linear_prefix(),
        m.spec_import_count(ImportCountType::Memory), m.spec_import_count(ImportCountType::Memory) + memories@.len())
    &&& m.globals matches Some(entries) ==> forall|i: int| 0 <= i < entries@.len()
        ==> #[trigger] globals.contains(crate::instructions::global_name((m.spec_import_count(ImportCountType::Global) + i) as nat))
    &&& m.data is Some ==> functions.contains("init_data_sections"@)
    &&& m.types is Some && m.tables is Some && m.elements is Some ==> functions.contains(init_function_name(bits))
}

/// What an instance declares stays as symbols are kept.
pub proof fn lemma_instance_declared_kept(a: &BuildContext, b: &BuildContext, m: Module, bits: nat)
    requires
        b.keeps_symbols(a),
        instance_declared(a.module.global_names(), a.module.function_names(), m, bits),
    ensures
        instance_declared(b.module.global_names(), b.module.function_names(), m, bits),
{
    if m.memories is Some {
        crate::memory_functions::lemma_memory_functions_kept(a, b, linear_prefix(),
            m.spec_import_count(ImportCountType::Memory), m.spec_import_count(ImportCountType::Memory) + m.memories->0@.len());
    }
    if m.globals is Some {
        let entries = m.globals->0;
        assert forall|i: int| 0 <= i < entries@.len() implies #[trigger] b.module.global_names().contains(
            crate::instructions::global_name((m.spec_import_count(ImportCountType::Global) + i) as nat)) by {
            BuildContext::lemma_global_kept(a, b, crate::instructions::global_name((m.spec_import_count(ImportCountType::Global) + i) as nat));
        }
    }
    if m.data is Some {
        BuildContext::lemma_function_kept(a, b, "init_data_sections"@);
    }
    if m.types is Some && m.tables is Some && m.elements is Some {
        BuildContext::lemma_function_kept(a, b, init_function_name(bits));
    }
}

/// The start-up of `main` stays as the body grows and no function is declared.
pub proof fn lemma_startup_kept(b: &BuildContext, c: &BuildContext, k: nat, p: nat, init_name: Seq<char>)
    requires
        c.grown(b, k),
        c.module.function_names() == b.module.function_names(),
        startup_at(b, p, init_name),
    ensures
        startup_at(c, p, init_name),
        startup_end(c, p, init_name) == startup_end(b, p, init_name),
{
    let l = call_if_declared_len(b, init_name);
    let q = p + 2 + l;
    let r = q + 7 + l;
    assert forall|i: int| 0 <= i < b.ops().len() implies c.ops()[i] == b.ops()[i] by {
        assert(c.ops()[i] == c.ops().take(b.ops().len() as int)[i]);
    }
    if b.module.function_names().contains(init_name) {
        crate::calls::lemma_call_at_kept(b, c, k, p + 2, init_name, seq![]);
        crate::calls::lemma_call_at_kept(b, c, k, q + 7, init_name, seq![]);
    }
    crate::calls::lemma_call_at_kept(b, c, k, q + 1, "abort"@, seq![]);
    if b.module.function_names().contains("init_data_sections"@) {
        crate::calls::lemma_call_at_kept(b, c, k, r + 1, "init_data_sections"@, seq![]);
    }
}

/// The body `ops` of a function of `m` ends by calling the function named
/// `name` without arguments and returning what it returns.
pub open spec fn ends_returning_call(ops: Seq<OpView>, m: IrModule, name: Seq<char>) -> bool {
    let n = ops.len() as int;
    &&& n >= 3
    &&& ops[n - 3] matches OpView::FunctionRef { function }
        && function < m.functions@.len() && m.function_names()[function as int] == name
    &&& ops[n - 2] == (OpView::Call { callee: (n - 3) as usize, args: seq![] })
    &&& ops[n - 1] == (OpView::Ret { value: (n - 2) as usize })
}

/// At position `at` stand a reference to the function named `name` and a
/// call of it without arguments.
pub open spec fn call_at_existing(bc: &BuildContext, at: nat, name: Seq<char>) -> bool {
    crate::calls::call_at(bc, at, name, seq![])
}


/// The number of function imports among `imports`.
fn count_function_imports(imports: &Vec<ImportEntry>) -> (n: usize)
    ensures
        n == function_imports(imports@).len(),
{
    let mut n: usize = 0;
    let mut i: usize = 0;
    while i < imports.len()
        invariant
            i <= imports@.len(),
            n == function_imports(imports@.take(i as int)).len(),
            n <= i,
        decreases imports@.len() - i,
    {
        proof {
            assert(imports@.take(i + 1).drop_last() =~= imports@.take(i as int));
        }
        if let External::Function(_) = imports[i].external {
            n = n + 1;
        }
        i = i + 1;
    }
    assert(imports@.take(imports@.len() as int) =~= imports@);
    n
}

/// Whether `a + b` fits in 32 bits.
fn sum_fits(a: usize, b: usize) -> (r: bool)
    ensures
        r == (a + b <= u32::MAX),
{
    a <= 0xffff_ffff && b <= 0xffff_ffff - a
}

/// Whether every member of every element segment, offset by `table_imports`, fits in 32 bits.
fn element_members_fit(elements: &Vec<crate::wasm_module::ElementSegment>, table_imports: usize) -> (r: bool)
    ensures
        r == forall|i: int, j: int| 0 <= i < elements@.len() && 0 <= j < elements@[i].members@.len()
            ==> #[trigger] elements@[i].members@[j] + table_imports <= u32::MAX,
{
    let mut i: usize = 0;
    while i < elements.len()
        invariant
            i <= elements@.len(),
            forall|a: int, b: int| 0 <= a < i && 0 <= b < elements@[a].members@.len()
                ==> #[trigger] elements@[a].members@[b] + table_imports <= u32::MAX,
        decreases elements@.len() - i,
    {
        let members = &elements[i].members;
        let mut j: usize = 0;
        while j < members.len()
            invariant
                i < elements@.len(),
                *members == elements@[i as int].members,
                j <= members@.len(),
                forall|a: int, b: int| 0 <= a < i && 0 <= b < elements@[a].members@.len()
                    ==> #[trigger] elements@[a].members@[b] + table_imports <= u32::MAX,
                forall|b: int| 0 <= b < j ==> #[trigger] members@[b] + table_imports <= u32::MAX,
            decreases members@.len() - j,
        {
            if !sum_fits(members[j] as usize, table_imports) {
                assert(elements@[i as int].members@[j as int] + table_imports > u32::MAX);
                return false;
            }
            j = j + 1;
        }
        proof {
            assert forall|a: int, b: int| 0 <= a < i + 1 && 0 <= b < elements@[a].members@.len()
                implies #[trigger] elements@[a].members@[b] + table_imports <= u32::MAX by {
                if a == i {
                    assert(members@[b] + table_imports <= u32::MAX);
                }
            }
        }
        i = i + 1;
    }
    true
}

/// Whether every instruction of every function body is supported.
fn bodies_supported(bodies: &Vec<FuncBody>) -> (r: bool)
    ensures
        r == forall|i: int, j: int| 0 <= i < bodies@.len() && 0 <= j < bodies@[i].code@.len()
            ==> #[trigger] instruction_supported(bodies@[i].code@[j]),
{
    let mut i: usize = 0;
    while i < bodies.len()
        invariant
            i <= bodies@.len(),
            forall|a: int, b: int| 0 <= a < i && 0 <= b < bodies@[a].code@.len()
                ==> #[trigger] instruction_supported(bodies@[a].code@[b]),
        decreases bodies@.len() - i,
    {
        let code = &bodies[i].code;
        let mut j: usize = 0;
        while j < code.len()
            invariant
                i < bodies@.len(),
                *code == bodies@[i as int].code,
                j <= code@.len(),
                forall|a: int, b: int| 0 <= a < i && 0 <= b < bodies@[a].code@.len()
                    ==> #[trigger] instruction_supported(bodies@[a].code@[b]),
                forall|b: int| 0 <= b < j ==> #[trigger] instruction_supported(code@[b]),
            decreases code@.len() - j,
        {
            let supported = match crate::instructions::classify(&code[j]) {
                crate::instructions::InstructionKind::Store { align, .. } => align < 32,
                crate::instructions::InstructionKind::Load { align, .. } => align < 32,
                _ => true,
            };
            if !supported {
                assert(!instruction_supported(bodies@[i as int].code@[j as int]));
                return false;
            }
            j = j + 1;
        }
        proof {
            assert forall|a: int, b: int| 0 <= a < i + 1 && 0 <= b < bodies@[a].code@.len()
                implies #[trigger] instruction_supported(bodies@[a].code@[b]) by {
                if a == i {
                    assert(instruction_supported(code@[b]));
                }
            }
        }
        i = i + 1;
    }
    true
}

/// Whether `compile` accepts the module: its indices fit in 32 bits and
/// its code holds only supported instructions.
pub fn accepts_module(m: &Module) -> (r: bool)
    ensures
        r == (module_indices_fit(*m) && code_supported(*m)),
{
    let imported = match &m.imports {
        Some(imports) => count_function_imports(imports),
        None => 0,
    };
    let tables = m.import_count(ImportCountType::Table);
    let globals = m.import_count(ImportCountType::Global);
    let memories = m.import_count(ImportCountType::Memory);
    let fits = sum_fits(imported, 0) && sum_fits(tables, 0)
        && match &m.globals { Some(g) => sum_fits(globals, g.len()), None => true }
        && match &m.memories { Some(x) => sum_fits(memories, x.len()), None => true }
        && match &m.functions { Some(f) => sum_fits(imported, f.len()), None => true }
        && match &m.code { Some(c) => sum_fits(imported, c.len()), None => true }
        && match &m.tables { Some(t) => sum_fits(imported, t.len()), None => true }
        && match &m.elements { Some(e) => element_members_fit(e, tables), None => true };
    let supported = match &m.code { Some(c) => bodies_supported(c), None => true };
    fits && supported
}

} // verus!
