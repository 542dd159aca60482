use vstd::prelude::*;
use crate::build_context::BuildContext;
use crate::constants::bit_width;
use crate::error::{check_range, range_message, ErrorView, RuntimeError};
use crate::ir::{int_wasm_ptr, spec_int_wasm_ptr, Constant, FunctionType, IrModule, IrType, Op, OpView, PointeeType};
use crate::sys::{map_anonymous, map_private, prot_read, prot_write};
use crate::memory::{lemma_linear_memory_kind, effective_maximum, init_end_ops, mapping_done, memory_mapped, memory_name, memory_size_name, ExtendSize, LinearMemoryTypeContext, MemoryCompiler, MemoryTypeContext};
use crate::text::{decimal, lemma_prefixed_decimal_injective, prefixed_decimal};
use crate::types::WasmIntType;
use crate::wasm_module::{ImportCountType, Module, ResizableLimits};

verus! {

/// The size in bytes of a page of linear memory.
pub const PAGE_SIZE: u32 = 65536;

/// The number of pages of a linear memory without a maximum.
pub const DEFAULT_MAXIMUM: u32 = 65536;

/// The compiler of linear memories with one mapping function per memory.
pub struct LinearMemoryCompiler<T: WasmIntType>(pub core::marker::PhantomData<T>);

/// The name of the global that holds the base address of linear memory `index`.
pub open spec fn linear_memory_name(index: nat) -> Seq<char> {
    "__wasm_linear_memory"@ + decimal(index)
}

/// The name of the global that holds the size in pages of linear memory `index`.
pub open spec fn linear_memory_size_name(index: nat) -> Seq<char> {
    "__wasm_linear_memory_size"@ + decimal(index)
}

/// The name of the function that maps linear memory `index`.
pub open spec fn init_linear_memory_function_name(index: nat, bits: nat) -> Seq<char> {
    "init_linear_memory"@ + decimal(index) + "_"@ + decimal(bits)
}

/// The limits of one linear memory are valid: a maximum, explicit or the
/// default, between one and the default, and a minimum of at least one page
/// and below the maximum.
pub open spec fn linear_limits_valid(minimum: nat, maximum: Option<u32>) -> bool {
    let max = match maximum { Some(m) => m as nat, None => DEFAULT_MAXIMUM as nat };
    1 <= max <= DEFAULT_MAXIMUM && 1 <= minimum <= max - 1
}

/// The error for invalid limits of one linear memory.
pub open spec fn linear_limits_error(minimum: nat, maximum: Option<u32>) -> ErrorView {
    let max = match maximum { Some(m) => m as nat, None => DEFAULT_MAXIMUM as nat };
    if max < 1 {
        ErrorView::SizeIsTooSmall { message: range_message("minimum"@, 1, "maximum"@, max) }
    } else if max > DEFAULT_MAXIMUM {
        ErrorView::SizeIsTooLarge { message: range_message("maximum"@, DEFAULT_MAXIMUM as nat, "maximum"@, max) }
    } else if minimum < 1 {
        ErrorView::SizeIsTooSmall { message: range_message("minimum"@, 1, "minimum"@, minimum) }
    } else {
        ErrorView::SizeIsTooLarge { message: range_message("maximum"@, (max - 1) as nat, "minimum"@, minimum) }
    }
}

/// The function being built in `bc` maps linear memory `index` with these
/// limits: the mapping stands in its body, which ends answering true, or
/// false from the failure block.
pub open spec fn memory_function_built(bc: &BuildContext, index: nat, limits: ResizableLimits, ty: IrType) -> bool {
    exists|fail_bb: usize| #[trigger] memory_mapped(bc, "__wasm_linear"@, index, limits, DEFAULT_MAXIMUM, fail_bb,
            LinearMemoryTypeContext::UNIT_SIZE as nat, ty)
        && fail_bb < bc.ops().len() && bc.ops()[fail_bb as int] == OpView::AppendBlock
        && bc.ops().len() >= 5
        && bc.ops_at(bc.ops().len() - 5, init_end_ops((bc.ops().len() - 5) as nat, fail_bb))
}

/// In `bc`, the function that maps linear memory `index` has as its body
/// the one it was given when it was built with these limits.
pub open spec fn memory_function_stored(bc: &BuildContext, index: nat, limits: ResizableLimits, bits: nat, ty: IrType) -> bool {
    exists|b: BuildContext| #[trigger] memory_function_built(&b, index, limits, ty)
        && (b.function matches Some(f) && f < bc.module.functions@.len()
        && bc.module.function_names()[f as int] == init_linear_memory_function_name(index, bits)
        && bc.taken_up(f) == b.ops())
}

/// In module `m`, the function that maps linear memory `index` has as its
/// body the one it was given when it was built with these limits.
pub open spec fn memory_function_in_module(m: IrModule, index: nat, limits: ResizableLimits, bits: nat, ty: IrType) -> bool {
    exists|b: BuildContext| #[trigger] memory_function_built(&b, index, limits, ty)
        && (b.function matches Some(f) && f < m.functions@.len()
        && m.function_names()[f as int] == init_linear_memory_function_name(index, bits)
        && m.bodies@[f as int]@.map_values(|o: Op| o@) == b.ops())
}

/// The memory compiler of the linear memory kind and this compiler name
/// the globals of a linear memory alike.
pub proof fn lemma_linear_memory_names_agree(index: nat)
    ensures
        memory_name(LinearMemoryTypeContext::MEMORY_NAME_PREFIX@, index) == linear_memory_name(index),
        memory_size_name(LinearMemoryTypeContext::MEMORY_NAME_PREFIX@, index) == linear_memory_size_name(index),
{
    lemma_linear_memory_kind();
    reveal_strlit("__wasm_linear");
    reveal_strlit("_memory");
    reveal_strlit("_memory_size");
    reveal_strlit("__wasm_linear_memory");
    reveal_strlit("__wasm_linear_memory_size");
    assert(memory_name("__wasm_linear"@, index) =~= linear_memory_name(index));
    assert(memory_size_name("__wasm_linear"@, index) =~= linear_memory_size_name(index));
}

/// The functions that map two different linear memories have different names.
pub proof fn lemma_init_names_differ(a: nat, b: nat, bits: nat)
    requires
        a != b,
    ensures
        init_linear_memory_function_name(a, bits) != init_linear_memory_function_name(b, bits),
{
    let sa = "init_linear_memory"@ + decimal(a);
    let sb = "init_linear_memory"@ + decimal(b);
    let tail = "_"@ + decimal(bits);
    assert(init_linear_memory_function_name(a, bits) =~= sa + tail);
    assert(init_linear_memory_function_name(b, bits) =~= sb + tail);
    if sa + tail == sb + tail {
        assert(sa.len() == sb.len());
        assert(sa =~= (sa + tail).take(sa.len() as int));
        assert(sb =~= (sb + tail).take(sb.len() as int));
        lemma_prefixed_decimal_injective("init_linear_memory"@, a, b);
    }
}

/// The size in bytes of `size` pages.
pub fn to_extend(size: usize) -> (r: ExtendSize)
    requires
        size * PAGE_SIZE <= usize::MAX,
    ensures
        r.0 == size * PAGE_SIZE,
{
    ExtendSize(size * PAGE_SIZE as usize)
}

impl<T: WasmIntType> LinearMemoryCompiler<T> {
    pub fn new() -> (r: Self) {
        LinearMemoryCompiler(core::marker::PhantomData)
    }

    /// The module that maps the memories of the memory section, the first
    /// of them numbered after the imported memories: one mapping function
    /// per memory, built in order until the limits of one are invalid.
    pub fn compile(&self, wasm_module: &Module) -> (r: Result<IrModule, RuntimeError>)
        requires
            wasm_module.memories matches Some(x) ==> wasm_module.spec_import_count(ImportCountType::Memory) + x@.len() <= u32::MAX,
        ensures
            wasm_module.memories is None ==> (r matches Err(e) && e@ == ErrorView::NotExistMemorySection),
            wasm_module.memories matches Some(x) ==> (r is Ok <==> forall|k: int| 0 <= k < x@.len()
                ==> linear_limits_valid(#[trigger] x@[k].limits.initial as nat, x@[k].limits.maximum)),
            wasm_module.memories matches Some(x) ==> (r matches Err(e) ==> exists|k: int| 0 <= k < x@.len()
                && (forall|j: int| 0 <= j < k ==> linear_limits_valid(#[trigger] x@[j].limits.initial as nat, x@[j].limits.maximum))
                && e@ == linear_limits_error(#[trigger] x@[k].limits.initial as nat, x@[k].limits.maximum)),
            r matches Ok(m) ==> {
                &&& m.name@ == "__wasm_linear_memory_module"@
                &&& m.wf()
                &&& forall|k: nat| wasm_module.spec_import_count(ImportCountType::Memory) <= k
                    < wasm_module.spec_import_count(ImportCountType::Memory) + wasm_module.memories->0@.len()
                    ==> m.function_names().contains(#[trigger] init_linear_memory_function_name(k, vstd::layout::size_of::<T>() * 8))
                &&& forall|k: nat| wasm_module.spec_import_count(ImportCountType::Memory) <= k
                    < wasm_module.spec_import_count(ImportCountType::Memory) + wasm_module.memories->0@.len()
                    ==> m.global_names().contains(#[trigger] linear_memory_name(k))
                &&& forall|k: nat| wasm_module.spec_import_count(ImportCountType::Memory) <= k
                    < wasm_module.spec_import_count(ImportCountType::Memory) + wasm_module.memories->0@.len()
                    ==> m.global_names().contains(#[trigger] linear_memory_size_name(k))
                &&& forall|k: int| 0 <= k < wasm_module.memories->0@.len() ==> #[trigger] memory_function_in_module(m,
                    wasm_module.spec_import_count(ImportCountType::Memory) + k as nat, wasm_module.memories->0@[k].limits,
                    vstd::layout::size_of::<T>() * 8, spec_int_wasm_ptr::<T>())
            },
    {
        let import_memory_count = wasm_module.import_count(ImportCountType::Memory);
        let mut bc = BuildContext::new("__wasm_linear_memory_module");
        match &wasm_module.memories {
            None => Err(RuntimeError::NotExistMemorySection),
            Some(memories) => {
                let ghost base = import_memory_count as nat;
                let ghost bits = vstd::layout::size_of::<T>() * 8;
                let mut i: usize = 0;
                while i < memories.len()
                    invariant
                        bc.wf(),
                        bc.module.name@ == "__wasm_linear_memory_module"@,
                        wasm_module.memories == Some(*memories),
                        import_memory_count == wasm_module.spec_import_count(ImportCountType::Memory),
                        base == import_memory_count,
                        bits == vstd::layout::size_of::<T>() * 8,
                        import_memory_count + memories@.len() <= u32::MAX,
                        i <= memories@.len(),
                        forall|j: int| 0 <= j < i ==> linear_limits_valid(#[trigger] memories@[j].limits.initial as nat, memories@[j].limits.maximum),
                        forall|k: nat| base <= k < base + i ==> bc.module.function_names().contains(#[trigger] init_linear_memory_function_name(k, bits)),
                        forall|k: nat| base <= k < base + i ==> bc.module.global_names().contains(#[trigger] linear_memory_name(k)),
                        forall|k: nat| base <= k < base + i ==> bc.module.global_names().contains(#[trigger] linear_memory_size_name(k)),
                        forall|j: int| 0 <= j < i ==> #[trigger] memory_function_stored(&bc, base + j as nat, memories@[j].limits, bits, spec_int_wasm_ptr::<T>()),
                    decreases memories@.len() - i,
                {
                    let limits = memories[i].limits;
                    let index = (import_memory_count + i) as u32;
                    let ghost before = bc;
                    match self.build_init_linear_memory_function(&mut bc, index, limits.initial, limits.maximum) {
                        Ok(()) => {},
                        Err(e) => {
                            proof {
                                assert(memories@[i as int].limits == limits);
                            }
                            return Err(e);
                        },
                    }
                    proof {
                        let f = bc.function->0;
                        assert(0 <= f < bc.module.function_names().len());
                        assert(bc.module.function_names()[f as int] == init_linear_memory_function_name(index as nat, bits));
                        assert(bc.module.function_names().contains(init_linear_memory_function_name(index as nat, bits)));
                        assert forall|k: nat| base <= k < base + i + 1 implies bc.module.function_names().contains(#[trigger] init_linear_memory_function_name(k, bits)) by {
                            if k < base + i {
                                crate::memory_functions::lemma_name_kept(&before, &bc, init_linear_memory_function_name(k, bits));
                            } else {
                                assert(k == index);
                            }
                        }
                        assert forall|k: nat| base <= k < base + i + 1 implies bc.module.global_names().contains(#[trigger] linear_memory_name(k)) by {
                            if k < base + i {
                                BuildContext::lemma_global_kept(&before, &bc, linear_memory_name(k));
                            } else {
                                assert(k == index);
                            }
                        }
                        assert forall|k: nat| base <= k < base + i + 1 implies bc.module.global_names().contains(#[trigger] linear_memory_size_name(k)) by {
                            if k < base + i {
                                BuildContext::lemma_global_kept(&before, &bc, linear_memory_size_name(k));
                            } else {
                                assert(k == index);
                            }
                        }
                        let ty = spec_int_wasm_ptr::<T>();
                        assert(memories@[i as int].limits == (ResizableLimits { initial: limits.initial, maximum: limits.maximum }));
                        assert forall|j: int| 0 <= j < i + 1 implies #[trigger] memory_function_stored(&bc, base + j as nat, memories@[j].limits, bits, ty) by {
                            if j < i {
                                assert(memory_function_stored(&before, base + j as nat, memories@[j].limits, bits, ty));
                                let b = choose|b: BuildContext| #[trigger] memory_function_built(&b, base + j as nat, memories@[j].limits, ty)
                                    && (b.function matches Some(g) && g < before.module.functions@.len()
                                    && before.module.function_names()[g as int] == init_linear_memory_function_name(base + j as nat, bits)
                                    && before.taken_up(g) == b.ops());
                                let g = b.function->0;
                                lemma_init_names_differ(base + j as nat, index as nat, bits);
                                assert(bc.module.function_names()[g as int] == before.module.function_names()[g as int]);
                                assert(bc.function != Some(g));
                                assert(bc.taken_up(g) == before.taken_up(g));
                            } else {
                                assert(bc.taken_up(f) == bc.ops());
                                assert(memory_function_built(&bc, base + j as nat, memories@[j].limits, ty));
                            }
                        }
                    }
                    i = i + 1;
                }
                let ghost built = bc;
                let m = bc.move_module();
                proof {
                    assert(m.function_names() =~= built.module.function_names());
                    assert(m.global_names() =~= built.module.global_names());
                    let ty = spec_int_wasm_ptr::<T>();
                    assert forall|k: int| 0 <= k < memories@.len() implies #[trigger] memory_function_in_module(m, base + k as nat, memories@[k].limits, bits, ty) by {
                        assert(memory_function_stored(&built, base + k as nat, memories@[k].limits, bits, ty));
                        let b = choose|b: BuildContext| #[trigger] memory_function_built(&b, base + k as nat, memories@[k].limits, ty)
                            && (b.function matches Some(g) && g < built.module.functions@.len()
                            && built.module.function_names()[g as int] == init_linear_memory_function_name(base + k as nat, bits)
                            && built.taken_up(g) == b.ops());
                        let g = b.function->0;
                        assert(m.bodies@[g as int]@.map_values(|o: Op| o@) == built.taken_up(g));
                    }
                }
                Ok(m)
            },
        }
    }

    /// The name of the global that holds the base address of memory `index`.
    pub fn get_linear_memory_name(&self, index: u32) -> (r: String)
        ensures
            r@ == linear_memory_name(index as nat),
    {
        prefixed_decimal("__wasm_linear_memory", index)
    }

    /// The base address global of memory `index`, declared unless it exists.
    pub fn set_declare_linear_memory(&self, bc: &mut BuildContext, index: u32) -> (g: usize)
        requires
            old(bc).wf(),
        ensures
            final(bc).extends(old(bc)),
            final(bc).keeps_initial_values(old(bc)),
            final(bc).body == old(bc).body,
            g < final(bc).module.globals@.len(),
            final(bc).module.global_names()[g as int] == linear_memory_name(index as nat),
    {
        let name = self.get_linear_memory_name(index);
        bc.set_declare_global(name, IrType::Ptr(PointeeType::Int8))
    }

    /// The name of the global that holds the size in pages of memory `index`.
    pub fn get_linear_memory_size_name(&self, index: u32) -> (r: String)
        ensures
            r@ == linear_memory_size_name(index as nat),
    {
        prefixed_decimal("__wasm_linear_memory_size", index)
    }

    /// The size global of memory `index`, declared unless it exists.
    pub fn set_declare_linear_memory_size(&self, bc: &mut BuildContext, index: u32) -> (g: usize)
        requires
            old(bc).wf(),
        ensures
            final(bc).extends(old(bc)),
            final(bc).keeps_initial_values(old(bc)),
            final(bc).body == old(bc).body,
            g < final(bc).module.globals@.len(),
            final(bc).module.global_names()[g as int] == linear_memory_size_name(index as nat),
    {
        let name = self.get_linear_memory_size_name(index);
        bc.set_declare_global(name, int_wasm_ptr::<T>())
    }

    /// The address of byte `address` of memory `index`.
    pub fn build_get_real_address(&self, bc: &mut BuildContext, index: u32, address: usize) -> (r: usize)
        requires
            old(bc).wf(),
        ensures
            final(bc).extends(old(bc)),
            final(bc).keeps_initial_values(old(bc)),
            final(bc).ops().len() == old(bc).ops().len() + 3,
            final(bc).ops().take(old(bc).ops().len() as int) == old(bc).ops(),
            final(bc).ops()[old(bc).ops().len() as int] matches OpView::GlobalRef { global }
                && global < final(bc).module.globals@.len()
                && final(bc).module.global_names()[global as int] == linear_memory_name(index as nat),
            final(bc).ops()[old(bc).ops().len() + 1 as int] == (OpView::Load { ptr: old(bc).ops().len() as usize }),
            final(bc).ops()[old(bc).ops().len() + 2 as int] == (OpView::Gep { ptr: (old(bc).ops().len() + 1) as usize, indices: seq![address] }),
            r == old(bc).ops().len() + 2,
    {
        let memory = self.set_declare_linear_memory(bc, index);
        let reference = bc.emit(Op::GlobalRef { global: memory });
        let base = bc.emit(Op::Load { ptr: reference });
        let indices = vec![address];
        assert(indices@ =~= seq![address]);
        let r = bc.emit(Op::Gep { ptr: base, indices });
        proof {
            assert(bc.ops().take(old(bc).ops().len() as int) =~= old(bc).ops());
        }
        r
    }

    /// The function that maps memory `index`, declared unless it exists.
    pub fn set_init_linear_memory_function(&self, bc: &mut BuildContext, index: u32) -> (f: usize)
        requires
            old(bc).wf(),
        ensures
            final(bc).wf(),
            final(bc).body == old(bc).body,
            final(bc).function == old(bc).function,
            final(bc).module.globals == old(bc).module.globals,
            final(bc).module.name == old(bc).module.name,
            final(bc).extends(old(bc)),
            final(bc).keeps_initial_values(old(bc)),
            f < final(bc).module.functions@.len(),
            final(bc).module.function_names()[f as int] == init_linear_memory_function_name(index as nat, vstd::layout::size_of::<T>() * 8),
    {
        let name = self.get_init_linear_memory_function_name(index);
        bc.set_declare_function(name, FunctionType { ret: IrType::Int1, params: Vec::new(), var_arg: true })
    }

    /// The name of the function that maps memory `index`.
    pub fn get_init_linear_memory_function_name(&self, index: u32) -> (r: String)
        ensures
            r@ == init_linear_memory_function_name(index as nat, vstd::layout::size_of::<T>() * 8),
    {
        proof {
            T::lemma_width();
        }
        let bits = bit_width::<T>();
        let mut s = prefixed_decimal("init_linear_memory", index);
        s.append(&prefixed_decimal("_", bits as u32));
        assert(s@ =~= init_linear_memory_function_name(index as nat, vstd::layout::size_of::<T>() * 8));
        s
    }

    /// Builds the function that maps memory `index`: its globals are
    /// declared, its limits checked, its maximum mapped and its size set to
    /// its minimum; the function answers true, or false when a mapping fails.
    pub fn build_init_linear_memory_function(&self, bc: &mut BuildContext, index: u32, minimum: u32, maximum: Option<u32>) -> (r: Result<(), RuntimeError>)
        requires
            old(bc).wf(),
        ensures
            final(bc).wf(),
            final(bc).keeps_symbols(old(bc)),
            final(bc).module.name == old(bc).module.name,
            r is Ok <==> linear_limits_valid(minimum as nat, maximum),
            r matches Err(e) ==> e@ == linear_limits_error(minimum as nat, maximum),
            final(bc).module.global_names().contains(linear_memory_name(index as nat)),
            final(bc).module.global_names().contains(linear_memory_size_name(index as nat)),
            final(bc).function matches Some(f)
                && final(bc).module.function_names()[f as int] == init_linear_memory_function_name(index as nat, vstd::layout::size_of::<T>() * 8),
            r is Ok ==> memory_function_built(final(bc), index as nat, (ResizableLimits { initial: minimum, maximum }), spec_int_wasm_ptr::<T>()),
            final(bc).keeps_other_bodies(old(bc)),
    {
        let memory = self.set_declare_linear_memory(bc, index);
        let memory_size = self.set_declare_linear_memory_size(bc, index);
        bc.set_initializer(memory_size, Constant::Int { ty: int_wasm_ptr::<T>(), value: 0, sign_extend: false });
        bc.set_initializer(memory, Constant::Null { ty: IrType::Ptr(PointeeType::Int8) });
        let ghost before_function = *bc;
        let function = self.set_init_linear_memory_function(bc, index);
        let ghost function_declared = *bc;
        bc.build_function(function);
        let ghost declared = *bc;
        proof {
            assert forall|g: usize| g < old(bc).module.functions@.len() && declared.function != Some(g)
                implies #[trigger] declared.taken_up(g) == old(bc).taken_up(g) by {
                assert(before_function.module.bodies@[g as int]@ == old(bc).module.bodies@[g as int]@);
                assert(function_declared.module.bodies@[g as int]@ == before_function.module.bodies@[g as int]@);
                assert(declared.taken_up(g) == function_declared.taken_up(g));
            }
            assert(declared.keeps_other_bodies(old(bc)));
        }
        proof {
            assert(bc.module.global_names()[memory as int] == linear_memory_name(index as nat));
            assert(bc.module.global_names()[memory_size as int] == linear_memory_size_name(index as nat));
        }
        let ghost limits = ResizableLimits { initial: minimum, maximum };
        let maximum = match maximum {
            Some(m) => m,
            None => DEFAULT_MAXIMUM,
        };
        check_range(maximum, 1, DEFAULT_MAXIMUM, "maximum")?;
        check_range(minimum, 1, maximum - 1, "minimum")?;
        let fail_bb = bc.emit(Op::AppendBlock);
        let ghost started = *bc;
        let pages = MemoryCompiler::<LinearMemoryTypeContext, T>::new();
        let prot = prot_read() | prot_write();
        let flags = map_private() | map_anonymous();
        pages.build_memory_mapping(bc, memory, memory_size, minimum, maximum, fail_bb, prot, flags);
        let ghost mapped = *bc;
        let one = bc.emit(Op::Const { value: Constant::Int { ty: IrType::Int1, value: 1, sign_extend: false } });
        bc.emit(Op::Ret { value: one });
        bc.emit(Op::PositionAtEnd { block: fail_bb });
        let zero = bc.emit(Op::Const { value: Constant::Int { ty: IrType::Int1, value: 0, sign_extend: false } });
        bc.emit(Op::Ret { value: zero });
        proof {
            assert(bc.module.global_names()[memory as int] == declared.module.global_names()[memory as int]);
            assert(bc.module.global_names()[memory_size as int] == declared.module.global_names()[memory_size as int]);
            assert(bc.module.function_names()[function as int] == declared.module.function_names()[function as int]);
            let n = mapped.ops().len();
            assert(bc.ops() =~= mapped.ops() + init_end_ops(n, fail_bb));
            assert(bc.ops().take(n as int) =~= mapped.ops());
            assert(bc.ops().subrange(n as int, n + 5int) =~= init_end_ops(n, fail_bb));
            assert(bc.grown(&mapped, 5));
            assert(mapped.ops().len() >= started.ops().len() && mapped.ops().take(started.ops().len() as int) == started.ops()) by {
                reveal(mapping_done);
            }
            assert(bc.ops()[fail_bb as int] == started.ops()[fail_bb as int]);
            reveal_strlit("__wasm_linear");
            reveal_strlit("_memory");
            reveal_strlit("_memory_size");
            reveal_strlit("__wasm_linear_memory");
            reveal_strlit("__wasm_linear_memory_size");
            assert(memory_name("__wasm_linear"@, index as nat) =~= linear_memory_name(index as nat));
            assert(memory_size_name("__wasm_linear"@, index as nat) =~= linear_memory_size_name(index as nat));
            assert(maximum == effective_maximum(limits.maximum, DEFAULT_MAXIMUM));
            assert(mapping_done(&started, &mapped, memory, memory_size, limits.initial, effective_maximum(limits.maximum, DEFAULT_MAXIMUM),
                fail_bb, LinearMemoryTypeContext::UNIT_SIZE as nat, spec_int_wasm_ptr::<T>(), prot, flags));
            assert(memory_mapped(bc, "__wasm_linear"@, index as nat, limits, DEFAULT_MAXIMUM, fail_bb, LinearMemoryTypeContext::UNIT_SIZE as nat, spec_int_wasm_ptr::<T>()));
            assert(bc.extends(&declared));
            BuildContext::lemma_extends_keeps_other_bodies(&declared, bc);
            BuildContext::lemma_keeps_other_bodies_trans(old(bc), &declared, bc);
        }
        Ok(())
    }
}

} // verus!
