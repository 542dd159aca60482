use vstd::prelude::*;
use crate::build_context::BuildContext;
use crate::calls::{build_call_and_set_mmap, build_call_and_set_munmap};
use crate::constants::bit_width;
use crate::ir::{int_wasm_ptr, spec_int_wasm_ptr, BinaryOp, CastOp, Constant, FunctionType, IntPredicate, IrType, Op, OpView, PointeeType};
use crate::sys::{map_anonymous, map_private, prot_read, prot_write};
use crate::wasm_module::ResizableLimits;
use crate::error::{check_range, range_message, ErrorView, RuntimeError};
use crate::text::{decimal, prefixed_decimal};
use crate::types::WasmIntType;

verus! {

/// What distinguishes one kind of memory from another: the prefix of its
/// symbol names, the size in bytes of one unit and the number of units it
/// may hold when no maximum is given.
pub trait MemoryTypeContext {
    const MEMORY_NAME_PREFIX: &'static str;
    const UNIT_SIZE: u32;
    const DEFAULT_MAXIMUM_UNIT_SIZE: u32;

    /// A unit has at least one byte, and the default maximum at least one unit.
    proof fn lemma_sizes()
        ensures
            Self::UNIT_SIZE > 0,
            Self::DEFAULT_MAXIMUM_UNIT_SIZE > 0,
    ;

    /// The prefix of the symbol names starts with an underscore.
    proof fn lemma_prefix()
        ensures
            Self::MEMORY_NAME_PREFIX@.len() > 0,
            Self::MEMORY_NAME_PREFIX@[0] == '_',
    ;
}

/// The linear memory of WebAssembly: pages of 64 KiB, at most 65536 pages.
pub struct LinearMemoryTypeContext;

impl MemoryTypeContext for LinearMemoryTypeContext {
    const MEMORY_NAME_PREFIX: &'static str = "__wasm_linear";
    const UNIT_SIZE: u32 = 65536;
    const DEFAULT_MAXIMUM_UNIT_SIZE: u32 = 65536;

    proof fn lemma_sizes() {
    }

    proof fn lemma_prefix() {
        reveal_strlit("__wasm_linear");
    }
}

/// The linear memory kind: its symbols start with `__wasm_linear`, its unit
/// is a page of 65536 bytes, and it holds at most 65536 pages by default.
pub proof fn lemma_linear_memory_kind()
    ensures
        LinearMemoryTypeContext::MEMORY_NAME_PREFIX@ == "__wasm_linear"@,
        LinearMemoryTypeContext::UNIT_SIZE == 65536,
        LinearMemoryTypeContext::DEFAULT_MAXIMUM_UNIT_SIZE == 65536,
{
}

/// The compiler of the linear memories.
pub type LinearMemoryCompiler<T> = MemoryCompiler<LinearMemoryTypeContext, T>;

/// The compiler of the memories of kind `M`, addressed by integers of type `T`.
pub struct MemoryCompiler<M: MemoryTypeContext, T: WasmIntType>(
    pub core::marker::PhantomData<T>,
    pub core::marker::PhantomData<M>,
);

/// The name of the global that holds the base address of memory `index`.
pub open spec fn memory_name(prefix: Seq<char>, index: nat) -> Seq<char> {
    prefix + "_memory"@ + decimal(index)
}

/// The name of the global that holds the current size, in units, of memory `index`.
pub open spec fn memory_size_name(prefix: Seq<char>, index: nat) -> Seq<char> {
    prefix + "_memory_size"@ + decimal(index)
}

/// The name of the function that grows memory `index`.
pub open spec fn grow_function_name(prefix: Seq<char>, index: nat) -> Seq<char> {
    prefix + "_grow_memory"@ + decimal(index)
}

/// The name of the function that checks an address of memory `index`.
pub open spec fn check_function_name(prefix: Seq<char>, index: nat) -> Seq<char> {
    prefix + "_check_memory"@ + decimal(index)
}

/// The name of the function that maps the memories.
pub open spec fn init_function_name(bits: nat) -> Seq<char> {
    "init_memory_"@ + decimal(bits)
}

/// A size in bytes of memory to map.
#[derive(Clone, Copy)]
pub struct ExtendSize(pub usize);

/// The size in bytes of `size` units of a memory of kind `M`.
pub fn size_to_extend<M: MemoryTypeContext>(size: usize) -> (r: ExtendSize)
    requires
        size * M::UNIT_SIZE <= usize::MAX,
    ensures
        r.0 == size * M::UNIT_SIZE,
{
    ExtendSize(size * M::UNIT_SIZE as usize)
}

/// The number of units that one mapping can cover: the largest count
/// whose size in bytes fits in a machine word.
pub open spec fn limit_unit_count(unit: nat) -> nat {
    (usize::MAX as nat) / unit
}

/// The mappings that cover `maximum` units of `unit` bytes, as pairs of
/// (size in bytes, offset in bytes from the base): as many mappings of
/// `limit_unit_count(unit)` units as fit, then one for the rest, if any.
#[verifier::opaque]
pub open spec fn extension_plan(maximum: nat, unit: nat) -> Seq<(nat, nat)> {
    let limit = limit_unit_count(unit);
    let count = maximum / limit;
    let rest = maximum % limit;
    let full = Seq::new(count, |i: int| ((limit * unit) as nat, (i * limit * unit) as nat));
    if rest > 0 {
        full.push(((rest * unit) as nat, (count * limit * unit) as nat))
    } else {
        full
    }
}

/// The number of bytes that a plan covers: the end of its last mapping.
pub open spec fn plan_end(plan: Seq<(nat, nat)>) -> nat {
    if plan.len() == 0 { 0 } else { plan.last().1 + plan.last().0 }
}

/// The mappings of a plan lie end to end from the base, each of at least
/// one byte and at most a machine word's worth of bytes.
pub open spec fn plan_contiguous(plan: Seq<(nat, nat)>) -> bool {
    &&& plan.len() > 0 ==> plan[0].1 == 0
    &&& forall|i: int| 0 <= i < plan.len() - 1 ==> #[trigger] plan[i + 1].1 == plan[i].1 + plan[i].0
    &&& forall|i: int| 0 <= i < plan.len() ==> 0 < #[trigger] plan[i].0 <= usize::MAX
}

/// The plan as natural numbers.
pub open spec fn plan_view(plan: Seq<(u64, u64)>) -> Seq<(nat, nat)> {
    plan.map_values(|p: (u64, u64)| (p.0 as nat, p.1 as nat))
}

/// Law: the mappings that extend a memory to `maximum` units lie end to
/// end from the base address and cover exactly `maximum` units.
pub proof fn lemma_extension_plan_covers(maximum: nat, unit: nat)
    requires
        0 < unit <= usize::MAX,
    ensures
        plan_contiguous(extension_plan(maximum, unit)),
        plan_end(extension_plan(maximum, unit)) == maximum * unit,
{
    reveal(extension_plan);
    let limit = limit_unit_count(unit);
    let count = maximum / limit;
    let rest = maximum % limit;
    let plan = extension_plan(maximum, unit);
    assert(limit >= 1) by (nonlinear_arith)
        requires limit == (usize::MAX as nat) / unit, 0 < unit <= usize::MAX;
    assert(limit * unit <= usize::MAX) by (nonlinear_arith)
        requires limit == (usize::MAX as nat) / unit, 0 < unit;
    assert(limit * unit > 0) by (nonlinear_arith)
        requires limit >= 1, unit > 0;
    assert(maximum == count * limit + rest) by (nonlinear_arith)
        requires count == maximum / limit, rest == maximum % limit, limit >= 1;
    assert(rest < limit);
    assert(rest * unit < limit * unit) by (nonlinear_arith)
        requires rest < limit, unit > 0;
    assert(maximum * unit == count * limit * unit + rest * unit) by (nonlinear_arith)
        requires maximum == count * limit + rest;
    assert forall|i: int| 0 <= i < plan.len() - 1 implies #[trigger] plan[i + 1].1 == plan[i].1 + plan[i].0 by {
        assert((i + 1) * limit * unit == i * limit * unit + limit * unit) by (nonlinear_arith);
    }
    if rest > 0 {
        assert(rest * unit > 0) by (nonlinear_arith) requires rest > 0, unit > 0;
        if count > 0 {
            assert(count * limit * unit == (count - 1) * limit * unit + limit * unit) by (nonlinear_arith);
        }
    } else if count > 0 {
        assert(count * limit * unit == (count - 1) * limit * unit + limit * unit) by (nonlinear_arith);
    } else {
        assert(count * limit == 0) by (nonlinear_arith) requires count == 0;
    }
    assert(0 * limit * unit == 0) by (nonlinear_arith);
    assert forall|i: int| 0 <= i < plan.len() implies 0 < #[trigger] plan[i].0 <= usize::MAX by {
        if i >= count {
            assert(rest * unit <= usize::MAX);
        }
    }
}

/// The validity of the limits of a memory: a maximum, explicit or the
/// default, between one and the default, and a minimum between one and the maximum.
pub open spec fn limits_valid(minimum: nat, maximum: Option<u32>, default_maximum: nat) -> bool {
    let max = match maximum { Some(m) => m as nat, None => default_maximum };
    1 <= max <= default_maximum && 1 <= minimum <= max
}

/// The error for the limits of a memory, as the checks find it.
pub open spec fn limits_error(minimum: nat, maximum: Option<u32>, default_maximum: nat) -> ErrorView
    recommends
        !limits_valid(minimum, maximum, default_maximum),
{
    let max = match maximum { Some(m) => m as nat, None => default_maximum };
    if max < 1 {
        ErrorView::SizeIsTooSmall { message: (range_message("minimum"@, 1, "maximum"@, max)) }
    } else if max > default_maximum {
        ErrorView::SizeIsTooLarge { message: (range_message("maximum"@, default_maximum, "maximum"@, max)) }
    } else if minimum < 1 {
        ErrorView::SizeIsTooSmall { message: (range_message("minimum"@, 1, "minimum"@, minimum)) }
    } else {
        ErrorView::SizeIsTooLarge { message: (range_message("maximum"@, max, "minimum"@, minimum)) }
    }
}

impl<M: MemoryTypeContext, T: WasmIntType> MemoryCompiler<M, T> {
    pub fn new() -> (r: Self) {
        MemoryCompiler(core::marker::PhantomData, core::marker::PhantomData)
    }

    /// The name of the global that holds the base address of memory `index`.
    pub fn get_memory_name(&self, index: u32) -> (r: String)
        ensures
            r@ == memory_name(M::MEMORY_NAME_PREFIX@, index as nat),
    {
        let mut s = String::from_str(M::MEMORY_NAME_PREFIX);
        s.append(&prefixed_decimal("_memory", index));
        assert(s@ =~= memory_name(M::MEMORY_NAME_PREFIX@, index as nat));
        s
    }

    /// The name of the global that holds the size, in units, of memory `index`.
    pub fn get_memory_size_name(&self, index: u32) -> (r: String)
        ensures
            r@ == memory_size_name(M::MEMORY_NAME_PREFIX@, index as nat),
    {
        let mut s = String::from_str(M::MEMORY_NAME_PREFIX);
        s.append(&prefixed_decimal("_memory_size", index));
        assert(s@ =~= memory_size_name(M::MEMORY_NAME_PREFIX@, index as nat));
        s
    }

    /// The name of the function that grows memory `index`.
    pub fn get_grow_function_name(&self, index: u32) -> (r: String)
        ensures
            r@ == grow_function_name(M::MEMORY_NAME_PREFIX@, index as nat),
    {
        let mut s = String::from_str(M::MEMORY_NAME_PREFIX);
        s.append(&prefixed_decimal("_grow_memory", index));
        assert(s@ =~= grow_function_name(M::MEMORY_NAME_PREFIX@, index as nat));
        s
    }

    /// The name of the function that checks an address of memory `index`.
    pub fn get_memory_real_check_name(&self, index: u32) -> (r: String)
        ensures
            r@ == check_function_name(M::MEMORY_NAME_PREFIX@, index as nat),
    {
        let mut s = String::from_str(M::MEMORY_NAME_PREFIX);
        s.append(&prefixed_decimal("_check_memory", index));
        assert(s@ =~= check_function_name(M::MEMORY_NAME_PREFIX@, index as nat));
        s
    }

    /// The name of the function that maps the memories.
    pub fn get_init_function_name(&self) -> (r: String)
        ensures
            r@ == init_function_name(vstd::layout::size_of::<T>() * 8),
    {
        proof {
            T::lemma_width();
        }
        let bits = bit_width::<T>();
        prefixed_decimal("init_memory_", bits as u32)
    }

    /// The mappings that extend a memory of this kind to `maximum` units,
    /// as (size in bytes, offset in bytes).
    pub fn extension_plan(maximum: u32) -> (plan: Vec<(u64, u64)>)
        ensures
            plan_view(plan@) == extension_plan(maximum as nat, M::UNIT_SIZE as nat),
    {
        proof {
            M::lemma_sizes();
            reveal(extension_plan);
        }
        let unit = M::UNIT_SIZE as usize;
        let limit = usize::MAX / unit;
        assert(limit >= 1) by (nonlinear_arith)
            requires limit == usize::MAX / unit, 0 < unit, unit <= u32::MAX, u32::MAX <= usize::MAX;
        assert(limit * unit <= usize::MAX) by (nonlinear_arith)
            requires limit == usize::MAX / unit, 0 < unit;
        let count = maximum as usize / limit;
        let rest = maximum as usize % limit;
        assert(maximum == count * limit + rest) by (nonlinear_arith)
            requires count == maximum as usize / limit, rest == maximum as usize % limit, limit >= 1;
        let chunk = size_to_extend::<M>(limit).0 as u64;
        let ghost spec_plan = extension_plan(maximum as nat, M::UNIT_SIZE as nat);
        assert(count <= maximum) by (nonlinear_arith) requires count == maximum as usize / limit, limit >= 1;
        let mut plan: Vec<(u64, u64)> = Vec::new();
        let mut i: usize = 0;
        while i < count
            invariant
                i <= count,
                count == maximum as nat / limit_unit_count(M::UNIT_SIZE as nat),
                limit >= 1,
                maximum == count * limit + rest,
                limit == limit_unit_count(M::UNIT_SIZE as nat),
                unit == M::UNIT_SIZE,
                chunk == limit * unit,
                count <= maximum,
                plan@.len() == i,
                forall|j: int| 0 <= j < i ==> #[trigger] plan@[j].0 == chunk && plan@[j].1 == j * limit * unit,
            decreases count - i,
        {
            assert(i * chunk < 0x1_0000_0000_0000_0000) by (nonlinear_arith)
                requires i < count, count <= maximum, maximum <= u32::MAX, chunk == limit * unit,
                    count as nat == maximum as nat / limit as nat, limit >= 1, unit <= u32::MAX;
            let offset = i as u64 * chunk;
            plan.push((chunk, offset));
            proof {
                assert(offset == i * limit * unit) by (nonlinear_arith) requires offset == i * chunk, chunk == limit * unit;
            }
            i = i + 1;
        }
        if rest > 0 {
            assert(count * chunk + rest * unit <= maximum * unit) by (nonlinear_arith)
                requires maximum == count * limit + rest, chunk == limit * unit;
            assert(maximum * unit < 0x1_0000_0000_0000_0000) by (nonlinear_arith)
                requires maximum <= u32::MAX, unit <= u32::MAX;
            assert(rest * unit <= limit * unit) by (nonlinear_arith) requires rest <= limit;
            assert(count * chunk == count * limit * unit) by (nonlinear_arith) requires chunk == limit * unit;
            plan.push((size_to_extend::<M>(rest).0 as u64, count as u64 * chunk));
        }
        assert(limit == limit_unit_count(M::UNIT_SIZE as nat));
        assert forall|j: int| 0 <= j < count implies #[trigger] plan_view(plan@)[j] == spec_plan[j] by {
        }
        assert(plan_view(plan@).len() == spec_plan.len());
        assert(plan_view(plan@) =~= spec_plan);
        plan
    }

    /// Checks the limits of a memory and gives its maximum in units.
    pub fn check_limits(minimum: u32, maximum: Option<u32>) -> (r: Result<u32, RuntimeError>)
        ensures
            r is Ok <==> limits_valid(minimum as nat, maximum, M::DEFAULT_MAXIMUM_UNIT_SIZE as nat),
            r matches Ok(max) ==> max == match maximum { Some(m) => m, None => M::DEFAULT_MAXIMUM_UNIT_SIZE },
            r matches Err(e) ==> e@ == limits_error(minimum as nat, maximum, M::DEFAULT_MAXIMUM_UNIT_SIZE as nat),
    {
        let maximum = match maximum {
            Some(m) => m,
            None => M::DEFAULT_MAXIMUM_UNIT_SIZE,
        };
        check_range(maximum, 1, M::DEFAULT_MAXIMUM_UNIT_SIZE, "maximum")?;
        check_range(minimum, 1, maximum, "minimum")?;
        Ok(maximum)
    }
}


/// Function `f` of `bc` answers a boolean (`i1`) and takes any arguments.
pub open spec fn init_function_typed(bc: &BuildContext, f: usize) -> bool {
    let ti = bc.module.functions@[f as int].type_index;
    &&& f < bc.module.functions@.len()
    &&& ti < bc.module.types@.len()
    &&& bc.module.types@[ti as int].ret == IrType::Int1
    &&& bc.module.types@[ti as int].params@.len() == 0
    &&& bc.module.types@[ti as int].var_arg
}

/// The globals of different memories, and the two globals of one memory,
/// have different names.
pub proof fn lemma_memory_global_names_differ(prefix: Seq<char>, a: nat, b: nat)
    ensures
        a != b ==> memory_name(prefix, a) != memory_name(prefix, b),
        a != b ==> memory_size_name(prefix, a) != memory_size_name(prefix, b),
        memory_name(prefix, a) != memory_size_name(prefix, b),
{
    reveal_strlit("_memory");
    reveal_strlit("_memory_size");
    let m = prefix + "_memory"@;
    let z = prefix + "_memory_size"@;
    crate::text::lemma_prefixed_decimal_injective(m, a, b);
    crate::text::lemma_prefixed_decimal_injective(z, a, b);
    crate::text::lemma_decimal_starts_with_digit(a);
    let i: int = prefix.len() + 7int;
    assert(memory_name(prefix, a)[i] == decimal(a)[0]);
    assert(memory_size_name(prefix, b)[i] == '_');
}

/// Global `g` of `bc` is named `name`, starts with the value `init`, and
/// has type `ty` unless `old` already had a global named `name`.
pub open spec fn global_set(old: &BuildContext, bc: &BuildContext, g: int, name: Seq<char>, init: Constant, ty: IrType) -> bool {
    &&& 0 <= g < bc.module.globals@.len()
    &&& bc.module.global_names()[g] == name
    &&& bc.module.initializers@[g] == Some(init)
    &&& !old.module.global_names().contains(name) ==> bc.module.globals@[g].ty == ty
}

/// The globals of memory `index` are set up in `bc`, built from `old`: the
/// base address global starts as a null byte pointer and the size global
/// as a zero of type `ty`; they have these types (a byte pointer, `ty`)
/// unless `old` already had globals of their names.
pub open spec fn memory_globals_set(old: &BuildContext, bc: &BuildContext, prefix: Seq<char>, index: nat, ty: IrType) -> bool {
    &&& exists|g: int| #[trigger] global_set(old, bc, g, memory_name(prefix, index),
        Constant::Null { ty: IrType::Ptr(PointeeType::Int8) }, IrType::Ptr(PointeeType::Int8))
    &&& exists|g: int| #[trigger] global_set(old, bc, g, memory_size_name(prefix, index),
        Constant::Int { ty, value: 0, sign_extend: false }, ty)
}

/// The globals of the memories from `start` to `end` (exclusive) are set up.
pub open spec fn memories_set(old: &BuildContext, bc: &BuildContext, prefix: Seq<char>, start: nat, end: nat, ty: IrType) -> bool {
    forall|k: nat| start <= k < end ==> #[trigger] memory_globals_set(old, bc, prefix, k, ty)
}

/// Declaring `name` or nothing leaves the presence of any other name as it was.
proof fn lemma_names_grown(a: Seq<Seq<char>>, b: Seq<Seq<char>>, name: Seq<char>, other: Seq<char>)
    requires
        name != other,
        a.contains(name) ==> b == a,
        !a.contains(name) ==> b == a.push(name),
    ensures
        b.contains(other) <==> a.contains(other),
{
    if !a.contains(name) {
        if b.contains(other) {
            let j = choose|j: int| 0 <= j < b.len() && b[j] == other;
            assert(j < a.len());
            assert(a[j] == other);
        }
        if a.contains(other) {
            let j = choose|j: int| 0 <= j < a.len() && a[j] == other;
            assert(b[j] == other);
        }
    }
}

/// Set-up globals stay so while symbols and initial values are kept.
pub proof fn lemma_memory_globals_set_kept(old: &BuildContext, b: &BuildContext, c: &BuildContext, prefix: Seq<char>, index: nat, ty: IrType)
    requires
        c.keeps_symbols(b),
        c.keeps_initial_values(b),
        memory_globals_set(old, b, prefix, index, ty),
    ensures
        memory_globals_set(old, c, prefix, index, ty),
{
    let null = Constant::Null { ty: IrType::Ptr(PointeeType::Int8) };
    let zero = Constant::Int { ty, value: 0, sign_extend: false };
    let g = choose|g: int| #[trigger] global_set(old, b, g, memory_name(prefix, index), null, IrType::Ptr(PointeeType::Int8));
    let h = choose|h: int| #[trigger] global_set(old, b, h, memory_size_name(prefix, index), zero, ty);
    assert(c.module.global_names()[g] == b.module.global_names()[g]);
    assert(c.module.global_names()[h] == b.module.global_names()[h]);
    assert(global_set(old, c, g, memory_name(prefix, index), null, IrType::Ptr(PointeeType::Int8)));
    assert(global_set(old, c, h, memory_size_name(prefix, index), zero, ty));
}

/// Both globals of memory `index` are among `names`.
pub open spec fn memory_declared(names: Seq<Seq<char>>, prefix: Seq<char>, index: nat) -> bool {
    &&& names.contains(memory_name(prefix, index))
    &&& names.contains(memory_size_name(prefix, index))
}

/// The memories with indices from `start` to `end` (exclusive) are declared.
pub open spec fn memories_declared(names: Seq<Seq<char>>, prefix: Seq<char>, start: nat, end: nat) -> bool {
    forall|k: nat| start <= k < end ==> #[trigger] memory_declared(names, prefix, k)
}

/// A memory declared in `old` stays declared in a context that extends it.
pub proof fn lemma_declared_kept(old: &BuildContext, new: &BuildContext, prefix: Seq<char>, index: nat)
    requires
        new.extends(old),
        memory_declared(old.module.global_names(), prefix, index),
    ensures
        memory_declared(new.module.global_names(), prefix, index),
{
    let a = choose|g: int| 0 <= g < old.module.global_names().len() && old.module.global_names()[g] == memory_name(prefix, index);
    let b = choose|g: int| 0 <= g < old.module.global_names().len() && old.module.global_names()[g] == memory_size_name(prefix, index);
    assert(new.module.global_names()[a] == old.module.global_names()[a]);
    assert(new.module.global_names()[b] == old.module.global_names()[b]);
}

/// The error for invalid limits says that a size is too large or too small.
pub proof fn lemma_limits_error_kind(minimum: nat, maximum: Option<u32>, default_maximum: nat)
    ensures
        limits_error(minimum, maximum, default_maximum) is SizeIsTooLarge
            || limits_error(minimum, maximum, default_maximum) is SizeIsTooSmall,
{
}

/// The first `n` limits are valid.
pub open spec fn all_limits_valid(limits: Seq<ResizableLimits>, n: int, default_maximum: nat) -> bool {
    forall|i: int| 0 <= i < n ==> limits_valid(#[trigger] limits[i].initial as nat, limits[i].maximum, default_maximum)
}

/// The start of a mapping at position `p`: `size` bytes mapped at
/// `offset` bytes past the address `mapped` through the function `mmap`,
/// and a failed mapping branching to `fail_bb`.
pub open spec fn chunk_head_ops(p: nat, mapped: usize, size: u64, offset: u64, fail_bb: usize, args: MmapArguments, mmap: usize) -> Seq<OpView> {
    seq![
        OpView::Const { value: Constant::Int { ty: IrType::IntPtr, value: size, sign_extend: false } },
        OpView::Const { value: Constant::Int { ty: IrType::IntPtr, value: offset, sign_extend: false } },
        OpView::Gep { ptr: mapped, indices: seq![(p + 1) as usize] },
        OpView::Cast { op: CastOp::PointerCast, operand: (p + 2) as usize, ty: IrType::Ptr(PointeeType::Void) },
        OpView::FunctionRef { function: mmap },
        OpView::Call { callee: (p + 4) as usize, args: seq![(p + 3) as usize, p as usize, args.prot, args.flags, args.fd, args.offset] },
        OpView::AppendBlock,
        OpView::Const { value: Constant::Int { ty: IrType::IntPtr, value: u64::MAX, sign_extend: true } },
        OpView::ConstCast { op: CastOp::IntToPtr, value: (p + 7) as usize, ty: IrType::TypeOf((p + 5) as usize) },
        OpView::ICmp { predicate: IntPredicate::Eq, lhs: (p + 5) as usize, rhs: (p + 8) as usize },
        OpView::CondBr { cond: (p + 9) as usize, then_block: fail_bb, else_block: (p + 6) as usize },
        OpView::PositionAtEnd { block: (p + 6) as usize },
        OpView::PositionAtEnd { block: (p + 6) as usize },
    ]
}

/// The release, past the first mapping, of the mappings before, for the
/// mapping at position `p`: `munmap` on the address `mapped` and the
/// offset, a failed release branching to `fail_bb`.
pub open spec fn chunk_release_ops(p: nat, mapped: usize, fail_bb: usize, munmap: usize) -> Seq<OpView> {
    seq![
        OpView::FunctionRef { function: munmap },
        OpView::Call { callee: (p + 13) as usize, args: seq![mapped, (p + 1) as usize] },
        OpView::Const { value: Constant::Int { ty: IrType::IntPtr, value: u64::MAX, sign_extend: true } },
        OpView::ICmp { predicate: IntPredicate::Eq, lhs: (p + 14) as usize, rhs: (p + 15) as usize },
        OpView::CondBr { cond: (p + 16) as usize, then_block: fail_bb, else_block: (p + 6) as usize },
    ]
}

/// The operations of one mapping at position `p`: its start, then, past
/// the first mapping (a positive offset), the release of the ones before.
#[verifier::opaque]
pub open spec fn chunk_ops(p: nat, mapped: usize, size: u64, offset: u64, fail_bb: usize, args: MmapArguments, mmap: usize, munmap: usize) -> Seq<OpView> {
    if offset > 0 {
        chunk_head_ops(p, mapped, size, offset, fail_bb, args, mmap) + chunk_release_ops(p, mapped, fail_bb, munmap)
    } else {
        chunk_head_ops(p, mapped, size, offset, fail_bb, args, mmap)
    }
}

/// The number of operations of a mapping at `offset`.
pub open spec fn chunk_len(offset: u64) -> nat {
    if offset > 0 { 18 } else { 13 }
}

/// At position `p` stands the mapping of `size` bytes at `offset` past
/// `mapped`, calling the functions named `mmap` and `munmap`.
#[verifier::opaque]
pub open spec fn chunk_at(bc: &BuildContext, p: int, mapped: usize, size: u64, offset: u64, fail_bb: usize, args: MmapArguments) -> bool {
    &&& bc.function_ref_at(p + 4, "mmap"@)
    &&& offset > 0 ==> bc.function_ref_at(p + 13, "munmap"@)
    &&& bc.ops_at(p, chunk_ops(p as nat, mapped, size, offset, fail_bb, args,
        bc.ops()[p + 4]->function, bc.ops()[p + 13]->function))
}


/// The position of the mapping with index `i` of `plan`, the mappings
/// starting at position `n`.
pub open spec fn chunk_start(n: nat, plan: Seq<(nat, nat)>, i: nat) -> nat
    decreases i,
{
    if i == 0 {
        n
    } else {
        chunk_start(n, plan, (i - 1) as nat) + chunk_len(plan[i - 1].1 as u64)
    }
}

/// The address that the mapping with index `i` extends: `base` for the
/// first, the address that the mapping before gave for the others.
pub open spec fn chunk_base(base: usize, n: nat, plan: Seq<(nat, nat)>, i: nat) -> usize {
    if i == 0 { base } else { (chunk_start(n, plan, (i - 1) as nat) + 5) as usize }
}

/// The first `count` mappings of `plan` stand one after the other from
/// position `n`, each extending the address that the one before gave,
/// the first extending `base`.
#[verifier::opaque]
pub open spec fn chunks_at(bc: &BuildContext, n: nat, plan: Seq<(nat, nat)>, count: nat, base: usize, fail_bb: usize, args: MmapArguments) -> bool {
    forall|i: nat| i < count ==> chunk_at(bc, #[trigger] chunk_start(n, plan, i) as int, chunk_base(base, n, plan, i),
        plan[i as int].0 as u64, plan[i as int].1 as u64, fail_bb, args)
}

/// A mapping stays as the body grows.
proof fn lemma_chunk_kept(b: &BuildContext, c: &BuildContext, k: nat, p: int, mapped: usize, size: u64, offset: u64, fail_bb: usize, args: MmapArguments)
    requires
        c.grown(b, k),
        chunk_at(b, p, mapped, size, offset, fail_bb, args),
    ensures
        chunk_at(c, p, mapped, size, offset, fail_bb, args),
{
    reveal(chunk_at);
    BuildContext::lemma_refs_kept(b, c, k, p + 4);
    if offset > 0 {
        BuildContext::lemma_refs_kept(b, c, k, p + 13);
    }
    BuildContext::lemma_kept(b, c, k, p, chunk_ops(p as nat, mapped, size, offset, fail_bb, args,
        b.ops()[p + 4]->function, b.ops()[p + 13]->function));
    if offset == 0 {
        reveal(chunk_ops);
        assert(chunk_ops(p as nat, mapped, size, offset, fail_bb, args, b.ops()[p + 4]->function, b.ops()[p + 13]->function)
            == chunk_ops(p as nat, mapped, size, offset, fail_bb, args, c.ops()[p + 4]->function, c.ops()[p + 13]->function));
    }
}

/// Mappings stay as the body grows.
proof fn lemma_chunks_kept(b: &BuildContext, c: &BuildContext, k: nat, n: nat, plan: Seq<(nat, nat)>, count: nat, base: usize, fail_bb: usize, args: MmapArguments)
    requires
        c.grown(b, k),
        chunks_at(b, n, plan, count, base, fail_bb, args),
    ensures
        chunks_at(c, n, plan, count, base, fail_bb, args),
{
    reveal(chunks_at);
    assert forall|i: nat| i < count implies chunk_at(c, #[trigger] chunk_start(n, plan, i) as int, chunk_base(base, n, plan, i),
        plan[i as int].0 as u64, plan[i as int].1 as u64, fail_bb, args) by {
        lemma_chunk_kept(b, c, k, chunk_start(n, plan, i) as int, chunk_base(base, n, plan, i),
            plan[i as int].0 as u64, plan[i as int].1 as u64, fail_bb, args);
    }
}

/// The mappings of a plan, followed by the next one, are the mappings of
/// the plan one longer.
proof fn lemma_chunks_extend(b: &BuildContext, c: &BuildContext, n: nat, plan: Seq<(nat, nat)>, i: nat, base: usize, fail_bb: usize, args: MmapArguments)
    requires
        i < plan.len(),
        chunks_at(b, n, plan, i, base, fail_bb, args),
        b.ops().len() == chunk_start(n, plan, i),
        c.grown(b, chunk_len(plan[i as int].1 as u64)),
        chunk_at(c, b.ops().len() as int, chunk_base(base, n, plan, i), plan[i as int].0 as u64, plan[i as int].1 as u64, fail_bb, args),
    ensures
        chunks_at(c, n, plan, i + 1, base, fail_bb, args),
        c.ops().len() == chunk_start(n, plan, i + 1),
{
    lemma_chunks_kept(b, c, chunk_len(plan[i as int].1 as u64), n, plan, i, base, fail_bb, args);
    reveal(chunks_at);
    assert forall|j: nat| j < i + 1 implies chunk_at(c, #[trigger] chunk_start(n, plan, j) as int, chunk_base(base, n, plan, j),
        plan[j as int].0 as u64, plan[j as int].1 as u64, fail_bb, args) by {
        if j == i {
        }
    }
}

/// Mappings start no earlier than their first position.
proof fn lemma_chunk_start_grows(n: nat, plan: Seq<(nat, nat)>, i: nat)
    ensures
        chunk_start(n, plan, i) >= n,
    decreases i,
{
    if i > 0 {
        lemma_chunk_start_grows(n, plan, (i - 1) as nat);
    }
}

/// The end of the mapping of a memory at position `e`: the address of the
/// last mapping, `last`, stored into the base address global referenced at
/// `n`, and the size `minimum` stored into the size global `memory_size`.
pub open spec fn mapping_tail_ops(e: nat, last: usize, n: nat, memory_size: usize, minimum: u32, ty: IrType) -> Seq<OpView> {
    seq![
        OpView::Cast { op: CastOp::PointerCast, operand: last, ty: IrType::TypeOf((n + 1) as usize) },
        OpView::Store { value: e as usize, ptr: n as usize },
        OpView::Const { value: Constant::Int { ty, value: minimum as u64, sign_extend: false } },
        OpView::GlobalRef { global: memory_size },
        OpView::Store { value: (e + 2) as usize, ptr: (e + 3) as usize },
    ]
}

/// The mapping of a memory emitted from `ob` to `nb`: the base address
/// global `memory` referenced and loaded, the constants for `mmap` (the
/// protection `prot` and the flags `flags`, no file, no offset), the
/// mappings of the extension plan for `maximum` units of `unit` bytes from
/// the loaded base, the last address stored as the new base, and the size
/// global `memory_size` set to `minimum`.
#[verifier::opaque]
pub open spec fn mapping_done(ob: &BuildContext, nb: &BuildContext, memory: usize, memory_size: usize, minimum: u32, maximum: u32, fail_bb: usize, unit: nat, ty: IrType, prot: i32, flags: i32) -> bool {
    let n = ob.ops().len();
    let plan = extension_plan(maximum as nat, unit);
    let e = chunk_start(n + 6, plan, plan.len());
    let args = MmapArguments { prot: (n + 2) as usize, flags: (n + 3) as usize, fd: (n + 4) as usize, offset: (n + 5) as usize };
    &&& nb.grown(ob, (e + 5 - n) as nat)
    &&& nb.ops()[n as int] == (OpView::GlobalRef { global: memory })
    &&& nb.ops()[n + 1int] == (OpView::Load { ptr: n as usize })
    &&& nb.ops()[n + 2int] == (OpView::Const { value: Constant::Int { ty: IrType::Int32, value: prot as u64, sign_extend: true } })
    &&& nb.ops()[n + 3int] == (OpView::Const { value: Constant::Int { ty: IrType::Int32, value: flags as u64, sign_extend: true } })
    &&& nb.ops()[n + 4int] == (OpView::Const { value: Constant::Int { ty: IrType::Int32, value: u64::MAX, sign_extend: true } })
    &&& nb.ops()[n + 5int] == (OpView::Const { value: Constant::Int { ty: IrType::Int32, value: 0, sign_extend: true } })
    &&& chunks_at(nb, n + 6, plan, plan.len(), (n + 1) as usize, fail_bb, args)
    &&& nb.ops_at(e as int, mapping_tail_ops(e, chunk_base((n + 1) as usize, n + 6, plan, plan.len()), n, memory_size, minimum, ty))
}

/// The maximum that limits give a memory: their own, or the default.
pub open spec fn effective_maximum(maximum: Option<u32>, default_maximum: u32) -> u32 {
    match maximum {
        Some(m) => m,
        None => default_maximum,
    }
}

/// The mapping of memory `index` with limits `limit` stands in the body of
/// `bc`: it was built, through the globals named for that memory, into an
/// earlier state of the body that `bc` still starts with.
pub open spec fn memory_mapped(bc: &BuildContext, prefix: Seq<char>, index: nat, limit: ResizableLimits, default_maximum: u32, fail_bb: usize, unit: nat, ty: IrType) -> bool {
    exists|ob: BuildContext, nb: BuildContext, memory: usize, memory_size: usize, prot: i32, flags: i32|
        #[trigger] mapping_done(&ob, &nb, memory, memory_size, limit.initial, effective_maximum(limit.maximum, default_maximum), fail_bb, unit, ty, prot, flags)
        && nb.ops().len() <= bc.ops().len()
        && bc.ops_grown(&nb, (bc.ops().len() - nb.ops().len()) as nat)
        && memory < bc.module.globals@.len()
        && bc.module.global_names()[memory as int] == memory_name(prefix, index)
        && memory_size < bc.module.globals@.len()
        && bc.module.global_names()[memory_size as int] == memory_size_name(prefix, index)
}

/// The mappings of the memories with these limits, the first of them with
/// index `start`, all stand in the body of `bc`.
pub open spec fn memories_mapped(bc: &BuildContext, prefix: Seq<char>, start: nat, limits: Seq<ResizableLimits>, default_maximum: u32, fail_bb: usize, unit: nat, ty: IrType) -> bool {
    forall|k: int| 0 <= k < limits.len() ==> #[trigger] memory_mapped(bc, prefix, start + k as nat, limits[k], default_maximum, fail_bb, unit, ty)
}

/// The end of the function that maps the memories, from position `p`:
/// true on the way that went through, false from the failure block.
pub open spec fn init_end_ops(p: nat, fail_bb: usize) -> Seq<OpView> {
    seq![
        OpView::Const { value: Constant::Int { ty: IrType::Int1, value: 1, sign_extend: false } },
        OpView::Ret { value: p as usize },
        OpView::PositionAtEnd { block: fail_bb },
        OpView::Const { value: Constant::Int { ty: IrType::Int1, value: 0, sign_extend: false } },
        OpView::Ret { value: (p + 3) as usize },
    ]
}

/// A mapping that stands in a body stays there as the body grows.
pub proof fn lemma_memory_mapped_kept(b: &BuildContext, c: &BuildContext, k: nat, prefix: Seq<char>, index: nat, limit: ResizableLimits, default_maximum: u32, fail_bb: usize, unit: nat, ty: IrType)
    requires
        c.ops_grown(b, k),
        memory_mapped(b, prefix, index, limit, default_maximum, fail_bb, unit, ty),
    ensures
        memory_mapped(c, prefix, index, limit, default_maximum, fail_bb, unit, ty),
{
    let max = effective_maximum(limit.maximum, default_maximum);
    let (ob, nb, memory, memory_size, prot, flags) = choose|ob: BuildContext, nb: BuildContext, memory: usize, memory_size: usize, prot: i32, flags: i32|
        #[trigger] mapping_done(&ob, &nb, memory, memory_size, limit.initial, max, fail_bb, unit, ty, prot, flags)
        && nb.ops().len() <= b.ops().len()
        && b.ops_grown(&nb, (b.ops().len() - nb.ops().len()) as nat)
        && memory < b.module.globals@.len()
        && b.module.global_names()[memory as int] == memory_name(prefix, index)
        && memory_size < b.module.globals@.len()
        && b.module.global_names()[memory_size as int] == memory_size_name(prefix, index);
    BuildContext::lemma_ops_grown_trans(&nb, b, c, (b.ops().len() - nb.ops().len()) as nat, k);
    assert(c.module.global_names()[memory as int] == b.module.global_names()[memory as int]);
    assert(c.module.global_names()[memory_size as int] == b.module.global_names()[memory_size as int]);
    assert(mapping_done(&ob, &nb, memory, memory_size, limit.initial, max, fail_bb, unit, ty, prot, flags));
}

/// The constants that every mapping of one memory passes to `mmap`, by
/// the positions of their operations.
pub struct MmapArguments {
    pub prot: usize,
    pub flags: usize,
    pub fd: usize,
    pub offset: usize,
}

impl<M: MemoryTypeContext, T: WasmIntType> MemoryCompiler<M, T> {
    /// The global that holds the base address of memory `index`, declared
    /// as a pointer to bytes unless it exists.
    pub fn set_declare_memory(&self, bc: &mut BuildContext, index: u32) -> (g: usize)
        requires
            old(bc).wf(),
        ensures
            final(bc).extends(old(bc)),
            final(bc).keeps_initial_values(old(bc)),
            final(bc).body == old(bc).body,
            g < final(bc).module.globals@.len(),
            final(bc).module.global_names()[g as int] == memory_name(M::MEMORY_NAME_PREFIX@, index as nat),
            old(bc).module.global_names().contains(memory_name(M::MEMORY_NAME_PREFIX@, index as nat))
                ==> final(bc).module.globals == old(bc).module.globals,
            !old(bc).module.global_names().contains(memory_name(M::MEMORY_NAME_PREFIX@, index as nat)) ==> {
                &&& final(bc).module.global_names() == old(bc).module.global_names().push(memory_name(M::MEMORY_NAME_PREFIX@, index as nat))
                &&& final(bc).module.globals@[g as int].ty == IrType::Ptr(PointeeType::Int8)
            },
            final(bc).module.functions == old(bc).module.functions,
    {
        let name = self.get_memory_name(index);
        let g = bc.set_declare_global(name, IrType::Ptr(PointeeType::Int8));
        proof {
            if !old(bc).module.global_names().contains(memory_name(M::MEMORY_NAME_PREFIX@, index as nat)) {
                assert(bc.module.global_names() =~= old(bc).module.global_names().push(memory_name(M::MEMORY_NAME_PREFIX@, index as nat)));
            }
        }
        g
    }

    /// The global that holds the size of memory `index`, declared as an
    /// address-wide integer unless it exists.
    pub fn set_declare_memory_size(&self, bc: &mut BuildContext, index: u32) -> (g: usize)
        requires
            old(bc).wf(),
        ensures
            final(bc).extends(old(bc)),
            final(bc).keeps_initial_values(old(bc)),
            final(bc).body == old(bc).body,
            g < final(bc).module.globals@.len(),
            final(bc).module.global_names()[g as int] == memory_size_name(M::MEMORY_NAME_PREFIX@, index as nat),
            old(bc).module.global_names().contains(memory_size_name(M::MEMORY_NAME_PREFIX@, index as nat))
                ==> final(bc).module.globals == old(bc).module.globals,
            !old(bc).module.global_names().contains(memory_size_name(M::MEMORY_NAME_PREFIX@, index as nat)) ==> {
                &&& final(bc).module.global_names() == old(bc).module.global_names().push(memory_size_name(M::MEMORY_NAME_PREFIX@, index as nat))
                &&& final(bc).module.globals@[g as int].ty == spec_int_wasm_ptr::<T>()
            },
    {
        let name = self.get_memory_size_name(index);
        let g = bc.set_declare_global(name, int_wasm_ptr::<T>());
        proof {
            if !old(bc).module.global_names().contains(memory_size_name(M::MEMORY_NAME_PREFIX@, index as nat)) {
                assert(bc.module.global_names() =~= old(bc).module.global_names().push(memory_size_name(M::MEMORY_NAME_PREFIX@, index as nat)));
            }
        }
        g
    }

    /// The current size of memory `index`, in units, loaded from its global.
    pub fn build_get_memory_size(&self, bc: &mut BuildContext, index: u32) -> (r: usize)
        requires
            old(bc).wf(),
        ensures
            final(bc).grown(old(bc), 2),
            final(bc).global_ref_at(old(bc).ops().len() as int, memory_size_name(M::MEMORY_NAME_PREFIX@, index as nat)),
            final(bc).ops()[old(bc).ops().len() + 1 as int] == (OpView::Load { ptr: old(bc).ops().len() as usize }),
            r == old(bc).ops().len() + 1,
    {
        let size = self.set_declare_memory_size(bc, index);
        let reference = bc.emit(Op::GlobalRef { global: size });
        let r = bc.emit(Op::Load { ptr: reference });
        proof {
            assert(bc.ops().take(old(bc).ops().len() as int) =~= old(bc).ops());
        }
        r
    }

    /// The address of byte `address` of memory `index`: the base address,
    /// loaded from its global, offset by `address`.
    pub fn build_get_real_address(&self, bc: &mut BuildContext, index: u32, address: usize) -> (r: usize)
        requires
            old(bc).wf(),
        ensures
            final(bc).extends(old(bc)),
            final(bc).keeps_initial_values(old(bc)),
            final(bc).ops().len() == old(bc).ops().len() + 3,
            final(bc).body@.len() == old(bc).body@.len() + 3,
            final(bc).ops().take(old(bc).ops().len() as int) == old(bc).ops(),
            final(bc).ops()[old(bc).ops().len() as int] matches OpView::GlobalRef { global }
                && global < final(bc).module.globals@.len()
                && final(bc).module.global_names()[global as int] == memory_name(M::MEMORY_NAME_PREFIX@, index as nat),
            final(bc).ops()[old(bc).ops().len() + 1 as int] == (OpView::Load { ptr: old(bc).ops().len() as usize }),
            final(bc).ops()[old(bc).ops().len() + 2 as int] == (OpView::Gep { ptr: (old(bc).ops().len() + 1) as usize, indices: seq![address] }),
            r == old(bc).ops().len() + 2,
            final(bc).module.functions == old(bc).module.functions,
    {
        let memory = self.set_declare_memory(bc, index);
        let ghost mid = *bc;
        let reference = bc.emit(Op::GlobalRef { global: memory });
        let base = bc.emit(Op::Load { ptr: reference });
        let indices = vec![address];
        assert(indices@ =~= seq![address]);
        let r = bc.emit(Op::Gep { ptr: base, indices });
        proof {
            assert(bc.ops().take(old(bc).ops().len() as int) =~= old(bc).ops());
        }
        r
    }

    /// The function that maps the memories, declared unless it exists: it
    /// takes any arguments and answers whether the mapping succeeded.
    pub fn set_init_function(&self, bc: &mut BuildContext) -> (f: usize)
        requires
            old(bc).wf(),
        ensures
            final(bc).extends(old(bc)),
            final(bc).keeps_initial_values(old(bc)),
            final(bc).body == old(bc).body,
            f < final(bc).module.functions@.len(),
            final(bc).module.function_names()[f as int] == init_function_name(vstd::layout::size_of::<T>() * 8),
            final(bc).module.globals == old(bc).module.globals,
            !old(bc).module.function_names().contains(init_function_name(vstd::layout::size_of::<T>() * 8))
                ==> init_function_typed(final(bc), f),
    {
        let name = self.get_init_function_name();
        let params: Vec<IrType> = Vec::new();
        let f = bc.set_declare_function(name, FunctionType { ret: IrType::Int1, params, var_arg: true });
        proof {
            if !old(bc).module.function_names().contains(name@) {
                assert(old(bc).module.types@.len() == old(bc).module.types.len());
                assert(bc.module.functions@[f as int].type_index == old(bc).module.types@.len());
                assert(bc.module.types@[old(bc).module.types@.len() as int].params@ == params@);
                assert forall|i: int| 0 <= i < old(bc).module.functions@.len() implies #[trigger] bc.module.functions@[i] == old(bc).module.functions@[i] by {
                    assert(bc.module.functions@[i] == old(bc).module.functions@.push(bc.module.functions@.last())[i]);
                }
                assert forall|i: int| 0 <= i < old(bc).module.types@.len() implies #[trigger] bc.module.types@[i] == old(bc).module.types@[i] by {
                    assert(bc.module.types@[i] == old(bc).module.types@.push(bc.module.types@.last())[i]);
                }
            }
        }
        f
    }

    /// Builds the function that maps the memories with these limits, the
    /// first of them with index `import_count`: each memory gets a base
    /// address global, starting as a null byte pointer, and a size global,
    /// starting as a zero of the address type; its maximum is mapped and its
    /// size set to its minimum; the function answers true, or false when a
    /// mapping fails.  The limits are checked as the memories are built.
    pub fn build_init_function(&self, bc: &mut BuildContext, import_count: u32, limits: &[ResizableLimits]) -> (r: Result<(), RuntimeError>)
        requires
            old(bc).wf(),
            import_count + limits@.len() <= u32::MAX,
        ensures
            final(bc).keeps_symbols(old(bc)),
            final(bc).wf(),
            r is Ok <==> all_limits_valid(limits@, limits@.len() as int, M::DEFAULT_MAXIMUM_UNIT_SIZE as nat),
            r matches Err(e) ==> exists|k: int| 0 <= k < limits@.len()
                && all_limits_valid(limits@, k, M::DEFAULT_MAXIMUM_UNIT_SIZE as nat)
                && e@ == limits_error(#[trigger] limits@[k].initial as nat, limits@[k].maximum, M::DEFAULT_MAXIMUM_UNIT_SIZE as nat)
                && memories_declared(final(bc).module.global_names(), M::MEMORY_NAME_PREFIX@, import_count as nat, (import_count + k + 1) as nat)
                && memories_set(old(bc), final(bc), M::MEMORY_NAME_PREFIX@, import_count as nat, (import_count + k + 1) as nat, spec_int_wasm_ptr::<T>()),
            final(bc).module.function_names().contains(init_function_name(vstd::layout::size_of::<T>() * 8)),
            final(bc).function matches Some(f)
                && final(bc).module.function_names()[f as int] == init_function_name(vstd::layout::size_of::<T>() * 8)
                && (!old(bc).module.function_names().contains(init_function_name(vstd::layout::size_of::<T>() * 8))
                    ==> init_function_typed(final(bc), f)),
            r is Ok ==> memories_declared(final(bc).module.global_names(), M::MEMORY_NAME_PREFIX@, import_count as nat, (import_count + limits@.len()) as nat),
            r is Ok ==> memories_set(old(bc), final(bc), M::MEMORY_NAME_PREFIX@, import_count as nat, (import_count + limits@.len()) as nat, spec_int_wasm_ptr::<T>()),
            r is Ok ==> exists|fail_bb: usize| #[trigger] memories_mapped(final(bc), M::MEMORY_NAME_PREFIX@, import_count as nat, limits@,
                    M::DEFAULT_MAXIMUM_UNIT_SIZE, fail_bb, M::UNIT_SIZE as nat, spec_int_wasm_ptr::<T>())
                && fail_bb < final(bc).ops().len() && final(bc).ops()[fail_bb as int] == OpView::AppendBlock
                && final(bc).ops().len() >= 5
                && final(bc).ops_at(final(bc).ops().len() - 5, init_end_ops((final(bc).ops().len() - 5) as nat, fail_bb)),
    {
        let fail_bb = self.begin_init_function(bc, import_count, limits)?;
        let ghost mid = *bc;
        self.end_init_function(bc, fail_bb);
        proof {
            let prefix = M::MEMORY_NAME_PREFIX@;
            let n = mid.ops().len();
            assert(bc.ops().take(n as int) =~= mid.ops());
            assert(bc.grown(&mid, 5));
            assert(bc.ops().subrange(n as int, n + 5int) =~= init_end_ops(n, fail_bb));
            assert forall|j: int| 0 <= j < limits@.len() implies
                #[trigger] memory_mapped(bc, prefix, import_count as nat + j as nat, limits@[j], M::DEFAULT_MAXIMUM_UNIT_SIZE, fail_bb, M::UNIT_SIZE as nat, spec_int_wasm_ptr::<T>()) by {
                assert(memory_mapped(&mid, prefix, import_count as nat + j as nat, limits@[j], M::DEFAULT_MAXIMUM_UNIT_SIZE, fail_bb, M::UNIT_SIZE as nat, spec_int_wasm_ptr::<T>()));
                lemma_memory_mapped_kept(&mid, bc, 5, prefix, import_count as nat + j as nat, limits@[j], M::DEFAULT_MAXIMUM_UNIT_SIZE, fail_bb, M::UNIT_SIZE as nat, spec_int_wasm_ptr::<T>());
            }
            assert(memories_mapped(bc, prefix, import_count as nat, limits@, M::DEFAULT_MAXIMUM_UNIT_SIZE, fail_bb, M::UNIT_SIZE as nat, spec_int_wasm_ptr::<T>()));
            assert forall|k: nat| import_count <= k < import_count + limits@.len() implies
                #[trigger] memory_declared(bc.module.global_names(), M::MEMORY_NAME_PREFIX@, k) by {
                lemma_declared_kept(&mid, bc, M::MEMORY_NAME_PREFIX@, k);
            }
            let f = mid.function->0;
            assert(bc.module.function_names()[f as int] == mid.module.function_names()[f as int]);
            assert(bc.module.functions@[f as int] == mid.module.functions@[f as int]);
            assert forall|k: nat| import_count <= k < import_count + limits@.len() implies
                #[trigger] memory_globals_set(old(bc), bc, M::MEMORY_NAME_PREFIX@, k, spec_int_wasm_ptr::<T>()) by {
                assert(memory_globals_set(old(bc), &mid, M::MEMORY_NAME_PREFIX@, k, spec_int_wasm_ptr::<T>()));
                lemma_memory_globals_set_kept(old(bc), &mid, bc, M::MEMORY_NAME_PREFIX@, k, spec_int_wasm_ptr::<T>());
            }
        }
        Ok(())
    }

    /// Ends the function that maps the memories: true on the way that went
    /// through, false from the failure block.
    pub fn end_init_function(&self, bc: &mut BuildContext, fail_bb: usize)
        requires
            old(bc).wf(),
        ensures
            final(bc).appended(old(bc), init_end_ops(old(bc).ops().len(), fail_bb)),
    {
        let one = bc.emit(Op::Const { value: Constant::Int { ty: IrType::Int1, value: 1, sign_extend: false } });
        bc.emit(Op::Ret { value: one });
        bc.emit(Op::PositionAtEnd { block: fail_bb });
        let zero = bc.emit(Op::Const { value: Constant::Int { ty: IrType::Int1, value: 0, sign_extend: false } });
        bc.emit(Op::Ret { value: zero });
        proof {
            assert(bc.ops() =~= old(bc).ops() + seq![
                OpView::Const { value: Constant::Int { ty: IrType::Int1, value: 1, sign_extend: false } },
                OpView::Ret { value: old(bc).ops().len() as usize },
                OpView::PositionAtEnd { block: fail_bb },
                OpView::Const { value: Constant::Int { ty: IrType::Int1, value: 0, sign_extend: false } },
                OpView::Ret { value: (old(bc).ops().len() + 3) as usize },
            ]);
        }
    }

    /// Starts the function that maps the memories and builds the mapping of
    /// each memory; gives the failure block.  See `build_init_function`.
    pub fn begin_init_function(&self, bc: &mut BuildContext, import_count: u32, limits: &[ResizableLimits]) -> (r: Result<usize, RuntimeError>)
        requires
            old(bc).wf(),
            import_count + limits@.len() <= u32::MAX,
        ensures
            final(bc).wf(),
            r is Ok <==> all_limits_valid(limits@, limits@.len() as int, M::DEFAULT_MAXIMUM_UNIT_SIZE as nat),
            r matches Err(e) ==> exists|k: int| 0 <= k < limits@.len()
                && all_limits_valid(limits@, k, M::DEFAULT_MAXIMUM_UNIT_SIZE as nat)
                && e@ == limits_error(#[trigger] limits@[k].initial as nat, limits@[k].maximum, M::DEFAULT_MAXIMUM_UNIT_SIZE as nat)
                && memories_declared(final(bc).module.global_names(), M::MEMORY_NAME_PREFIX@, import_count as nat, (import_count + k + 1) as nat)
                && memories_set(old(bc), final(bc), M::MEMORY_NAME_PREFIX@, import_count as nat, (import_count + k + 1) as nat, spec_int_wasm_ptr::<T>()),
            final(bc).keeps_symbols(old(bc)),
            final(bc).function matches Some(f)
                && final(bc).module.function_names()[f as int] == init_function_name(vstd::layout::size_of::<T>() * 8)
                && (!old(bc).module.function_names().contains(init_function_name(vstd::layout::size_of::<T>() * 8))
                    ==> init_function_typed(final(bc), f)),
            r is Ok ==> memories_declared(final(bc).module.global_names(), M::MEMORY_NAME_PREFIX@, import_count as nat, (import_count + limits@.len()) as nat),
            r is Ok ==> memories_set(old(bc), final(bc), M::MEMORY_NAME_PREFIX@, import_count as nat, (import_count + limits@.len()) as nat, spec_int_wasm_ptr::<T>()),
            r matches Ok(fail_bb) ==> fail_bb < final(bc).ops().len() && final(bc).ops()[fail_bb as int] == OpView::AppendBlock,
            r matches Ok(fail_bb) ==> memories_mapped(final(bc), M::MEMORY_NAME_PREFIX@, import_count as nat, limits@,
                M::DEFAULT_MAXIMUM_UNIT_SIZE, fail_bb, M::UNIT_SIZE as nat, spec_int_wasm_ptr::<T>()),
    {
        let function = self.set_init_function(bc);
        let ghost typed = !old(bc).module.function_names().contains(init_function_name(vstd::layout::size_of::<T>() * 8));
        bc.build_function(function);
        let fail_bb = bc.emit(Op::AppendBlock);
        let ghost started = *bc;
        proof {
            assert(started.ops().take(started.ops().len() as int) =~= started.ops());
        }
        let mut i: usize = 0;
        while i < limits.len()
            invariant
                bc.wf(),
                bc.keeps_symbols(old(bc)),
                i <= limits@.len(),
                import_count + limits@.len() <= u32::MAX,
                all_limits_valid(limits@, i as int, M::DEFAULT_MAXIMUM_UNIT_SIZE as nat),
                bc.function matches Some(f)
                    && bc.module.function_names()[f as int] == init_function_name(vstd::layout::size_of::<T>() * 8)
                    && (typed ==> init_function_typed(bc, f)),
                typed == !old(bc).module.function_names().contains(init_function_name(vstd::layout::size_of::<T>() * 8)),
                memories_declared(bc.module.global_names(), M::MEMORY_NAME_PREFIX@, import_count as nat, (import_count + i) as nat),
                memories_set(old(bc), bc, M::MEMORY_NAME_PREFIX@, import_count as nat, (import_count + i) as nat, spec_int_wasm_ptr::<T>()),
                forall|k: nat| import_count + i <= k ==> (#[trigger] bc.module.global_names().contains(memory_name(M::MEMORY_NAME_PREFIX@, k))
                    <==> old(bc).module.global_names().contains(memory_name(M::MEMORY_NAME_PREFIX@, k))),
                forall|k: nat| import_count + i <= k ==> (#[trigger] bc.module.global_names().contains(memory_size_name(M::MEMORY_NAME_PREFIX@, k))
                    <==> old(bc).module.global_names().contains(memory_size_name(M::MEMORY_NAME_PREFIX@, k))),
                fail_bb < started.ops().len(),
                started.ops()[fail_bb as int] == OpView::AppendBlock,
                started.ops().len() <= bc.ops().len(),
                bc.ops_grown(&started, (bc.ops().len() - started.ops().len()) as nat),
                memories_mapped(bc, M::MEMORY_NAME_PREFIX@, import_count as nat, limits@.take(i as int),
                    M::DEFAULT_MAXIMUM_UNIT_SIZE, fail_bb, M::UNIT_SIZE as nat, spec_int_wasm_ptr::<T>()),
            decreases limits@.len() - i,
        {
            let index = i as u32 + import_count;
            let ghost before = *bc;
            let limit = limits[i];
            let memory = self.set_declare_memory(bc, index);
            let ghost b1 = *bc;
            let memory_size = self.set_declare_memory_size(bc, index);
            let ghost b2 = *bc;
            bc.set_initializer(memory_size, Constant::Int { ty: int_wasm_ptr::<T>(), value: 0, sign_extend: false });
            bc.set_initializer(memory, Constant::Null { ty: IrType::Ptr(PointeeType::Int8) });
            let ghost declared = *bc;
            proof {
                self.lemma_memory_globals_recorded(old(bc), &before, &b1, &b2, &declared, import_count as nat, i as nat, memory, memory_size);
            }
            proof {
                assert(declared.ops().take(before.ops().len() as int) =~= before.ops());
                assert(declared.ops_grown(&before, 0));
            }
            let maximum = match Self::check_limits(limit.initial, limit.maximum) {
                Ok(m) => m,
                Err(e) => {
                    proof {
                        assert(bc.module.global_names()[memory as int] == memory_name(M::MEMORY_NAME_PREFIX@, index as nat));
                        assert(bc.module.global_names()[memory_size as int] == memory_size_name(M::MEMORY_NAME_PREFIX@, index as nat));
                        assert forall|k: nat| import_count <= k < import_count + i + 1 implies
                            #[trigger] memory_declared(bc.module.global_names(), M::MEMORY_NAME_PREFIX@, k) by {
                            if k < import_count + i {
                                lemma_declared_kept(&before, bc, M::MEMORY_NAME_PREFIX@, k);
                            }
                        }
                        assert(limits@[i as int] == limit);
                        let f = bc.function->0;
                        assert(bc.module.functions@[f as int] == before.module.functions@[f as int]);
                        assert(bc.module.types == b2.module.types);
                    }
                    return Err(e);
                },
            };
            let prot = prot_read() | prot_write();
            let flags = map_private() | map_anonymous();
            self.build_memory_mapping(bc, memory, memory_size, limit.initial, maximum, fail_bb, prot, flags);
            proof {
                assert(bc.module.global_names()[memory as int] == declared.module.global_names()[memory as int]);
                assert(bc.module.global_names()[memory_size as int] == declared.module.global_names()[memory_size as int]);
                self.lemma_mapping_recorded(&started, &before, &declared, bc, import_count, limits@, i as nat, memory, memory_size, fail_bb, prot, flags);
                assert forall|k: nat| import_count <= k < import_count + i + 1 implies
                    #[trigger] memory_declared(bc.module.global_names(), M::MEMORY_NAME_PREFIX@, k) by {
                    if k < import_count + i {
                        lemma_declared_kept(&before, bc, M::MEMORY_NAME_PREFIX@, k);
                    } else {
                        assert(bc.module.global_names()[memory as int] == memory_name(M::MEMORY_NAME_PREFIX@, k));
                        assert(bc.module.global_names()[memory_size as int] == memory_size_name(M::MEMORY_NAME_PREFIX@, k));
                    }
                }
                assert forall|k: nat| import_count <= k < import_count + i + 1 implies
                    #[trigger] memory_globals_set(old(bc), bc, M::MEMORY_NAME_PREFIX@, k, spec_int_wasm_ptr::<T>()) by {
                    assert(memory_globals_set(old(bc), &declared, M::MEMORY_NAME_PREFIX@, k, spec_int_wasm_ptr::<T>()));
                    lemma_memory_globals_set_kept(old(bc), &declared, bc, M::MEMORY_NAME_PREFIX@, k, spec_int_wasm_ptr::<T>());
                }
                assert(bc.module.global_names() == declared.module.global_names());
                let f = bc.function->0;
                assert(bc.module.functions@[f as int] == before.module.functions@[f as int]);
            }
            i = i + 1;
        }
        proof {
            assert(limits@.take(limits@.len() as int) =~= limits@);
        }
        Ok(fail_bb)
    }

    /// One more memory mapped into the body: the mappings before it stay,
    /// and the body still starts as it did.
    proof fn lemma_memory_globals_recorded(&self, old: &BuildContext, before: &BuildContext, b1: &BuildContext, b2: &BuildContext,
        declared: &BuildContext, import_count: nat, i: nat, memory: usize, memory_size: usize)
        requires
            memories_set(old, before, M::MEMORY_NAME_PREFIX@, import_count, import_count + i, spec_int_wasm_ptr::<T>()),
            forall|k: nat| import_count + i <= k ==> (#[trigger] before.module.global_names().contains(memory_name(M::MEMORY_NAME_PREFIX@, k))
                <==> old.module.global_names().contains(memory_name(M::MEMORY_NAME_PREFIX@, k))),
            forall|k: nat| import_count + i <= k ==> (#[trigger] before.module.global_names().contains(memory_size_name(M::MEMORY_NAME_PREFIX@, k))
                <==> old.module.global_names().contains(memory_size_name(M::MEMORY_NAME_PREFIX@, k))),
            b1.keeps_symbols(before),
            b1.keeps_initial_values(before),
            memory < b1.module.globals@.len(),
            b1.module.global_names()[memory as int] == memory_name(M::MEMORY_NAME_PREFIX@, import_count + i),
            before.module.global_names().contains(memory_name(M::MEMORY_NAME_PREFIX@, import_count + i))
                ==> b1.module.globals == before.module.globals,
            !before.module.global_names().contains(memory_name(M::MEMORY_NAME_PREFIX@, import_count + i)) ==> {
                &&& b1.module.global_names() == before.module.global_names().push(memory_name(M::MEMORY_NAME_PREFIX@, import_count + i))
                &&& b1.module.globals@[memory as int].ty == IrType::Ptr(PointeeType::Int8)
            },
            b2.keeps_symbols(b1),
            b2.keeps_initial_values(b1),
            memory_size < b2.module.globals@.len(),
            b2.module.global_names()[memory_size as int] == memory_size_name(M::MEMORY_NAME_PREFIX@, import_count + i),
            b1.module.global_names().contains(memory_size_name(M::MEMORY_NAME_PREFIX@, import_count + i))
                ==> b2.module.globals == b1.module.globals,
            !b1.module.global_names().contains(memory_size_name(M::MEMORY_NAME_PREFIX@, import_count + i)) ==> {
                &&& b2.module.global_names() == b1.module.global_names().push(memory_size_name(M::MEMORY_NAME_PREFIX@, import_count + i))
                &&& b2.module.globals@[memory_size as int].ty == spec_int_wasm_ptr::<T>()
            },
            declared.module.globals == b2.module.globals,
            declared.module.initializers@ == b2.module.initializers@
                .update(memory_size as int, Some(Constant::Int { ty: spec_int_wasm_ptr::<T>(), value: 0, sign_extend: false }))
                .update(memory as int, Some(Constant::Null { ty: IrType::Ptr(PointeeType::Int8) })),
            b2.module.initializers@.len() == b2.module.globals@.len(),
        ensures
            memories_set(old, declared, M::MEMORY_NAME_PREFIX@, import_count, import_count + i + 1, spec_int_wasm_ptr::<T>()),
            forall|k: nat| import_count + i + 1 <= k ==> (#[trigger] declared.module.global_names().contains(memory_name(M::MEMORY_NAME_PREFIX@, k))
                <==> old.module.global_names().contains(memory_name(M::MEMORY_NAME_PREFIX@, k))),
            forall|k: nat| import_count + i + 1 <= k ==> (#[trigger] declared.module.global_names().contains(memory_size_name(M::MEMORY_NAME_PREFIX@, k))
                <==> old.module.global_names().contains(memory_size_name(M::MEMORY_NAME_PREFIX@, k))),
    {
        let prefix = M::MEMORY_NAME_PREFIX@;
        let ty = spec_int_wasm_ptr::<T>();
        let null = Constant::Null { ty: IrType::Ptr(PointeeType::Int8) };
        let zero = Constant::Int { ty, value: 0, sign_extend: false };
        let k0 = import_count + i;
        lemma_memory_global_names_differ(prefix, k0, k0);
        assert(memory != memory_size) by {
            assert(declared.module.global_names()[memory as int] == b2.module.global_names()[memory as int]);
            assert(b2.module.global_names()[memory as int] == b1.module.global_names()[memory as int]);
        }
        assert(declared.module.global_names() == b2.module.global_names());
        // The earlier memories keep their globals.
        assert forall|k: nat| import_count <= k < k0 + 1 implies #[trigger] memory_globals_set(old, declared, prefix, k, ty) by {
            if k < k0 {
                lemma_memory_global_names_differ(prefix, k, k0);
                lemma_memory_global_names_differ(prefix, k0, k);
                assert(memory_globals_set(old, before, prefix, k, ty));
                let g = choose|g: int| #[trigger] global_set(old, before, g, memory_name(prefix, k), null, IrType::Ptr(PointeeType::Int8));
                let h = choose|h: int| #[trigger] global_set(old, before, h, memory_size_name(prefix, k), zero, ty);
                assert(b2.module.global_names()[g] == before.module.global_names()[g]);
                assert(b2.module.global_names()[h] == before.module.global_names()[h]);
                assert(g != memory as int && g != memory_size as int);
                assert(h != memory as int && h != memory_size as int);
                assert(global_set(old, declared, g, memory_name(prefix, k), null, IrType::Ptr(PointeeType::Int8)));
                assert(global_set(old, declared, h, memory_size_name(prefix, k), zero, ty));
            } else {
                assert(b2.module.globals@[memory as int] == b1.module.globals@[memory as int]);
                assert(global_set(old, declared, memory as int, memory_name(prefix, k), null, IrType::Ptr(PointeeType::Int8)));
                if !old.module.global_names().contains(memory_size_name(prefix, k0)) {
                    assert(!before.module.global_names().contains(memory_size_name(prefix, k0)));
                    if b1.module.global_names().contains(memory_size_name(prefix, k0)) {
                        if before.module.global_names().contains(memory_name(prefix, k0)) {
                            assert(b1.module.global_names() == before.module.global_names());
                        } else {
                            let j = choose|j: int| 0 <= j < b1.module.global_names().len() && b1.module.global_names()[j] == memory_size_name(prefix, k0);
                            if j < before.module.global_names().len() {
                                assert(before.module.global_names()[j] == b1.module.global_names()[j]);
                            }
                        }
                    }
                }
                assert(global_set(old, declared, memory_size as int, memory_size_name(prefix, k), zero, ty));
            }
        }
        // The later memories' names are as in `old`.
        assert forall|k: nat| k0 + 1 <= k implies (#[trigger] declared.module.global_names().contains(memory_name(prefix, k))
            <==> old.module.global_names().contains(memory_name(prefix, k))) by {
            lemma_memory_global_names_differ(prefix, k, k0);
            lemma_memory_global_names_differ(prefix, k0, k);
            lemma_names_grown(before.module.global_names(), b1.module.global_names(), memory_name(prefix, k0), memory_name(prefix, k));
            lemma_names_grown(b1.module.global_names(), b2.module.global_names(), memory_size_name(prefix, k0), memory_name(prefix, k));
        }
        assert forall|k: nat| k0 + 1 <= k implies (#[trigger] declared.module.global_names().contains(memory_size_name(prefix, k))
            <==> old.module.global_names().contains(memory_size_name(prefix, k))) by {
            lemma_memory_global_names_differ(prefix, k, k0);
            lemma_memory_global_names_differ(prefix, k0, k);
            lemma_names_grown(before.module.global_names(), b1.module.global_names(), memory_name(prefix, k0), memory_size_name(prefix, k));
            lemma_names_grown(b1.module.global_names(), b2.module.global_names(), memory_size_name(prefix, k0), memory_size_name(prefix, k));
        }
    }

    proof fn lemma_mapping_recorded(&self, started: &BuildContext, before: &BuildContext, declared: &BuildContext, now: &BuildContext,
        import_count: u32, limits: Seq<ResizableLimits>, i: nat, memory: usize, memory_size: usize, fail_bb: usize, prot: i32, flags: i32)
        requires
            i < limits.len(),
            started.ops().len() <= before.ops().len(),
            before.ops_grown(started, (before.ops().len() - started.ops().len()) as nat),
            declared.ops_grown(before, 0),
            mapping_done(declared, now, memory, memory_size, limits[i as int].initial,
                effective_maximum(limits[i as int].maximum, M::DEFAULT_MAXIMUM_UNIT_SIZE), fail_bb, M::UNIT_SIZE as nat, spec_int_wasm_ptr::<T>(), prot, flags),
            memory < now.module.globals@.len(),
            now.module.global_names()[memory as int] == memory_name(M::MEMORY_NAME_PREFIX@, (import_count + i) as nat),
            memory_size < now.module.globals@.len(),
            now.module.global_names()[memory_size as int] == memory_size_name(M::MEMORY_NAME_PREFIX@, (import_count + i) as nat),
            memories_mapped(before, M::MEMORY_NAME_PREFIX@, import_count as nat, limits.take(i as int),
                M::DEFAULT_MAXIMUM_UNIT_SIZE, fail_bb, M::UNIT_SIZE as nat, spec_int_wasm_ptr::<T>()),
        ensures
            started.ops().len() <= now.ops().len(),
            now.ops_grown(started, (now.ops().len() - started.ops().len()) as nat),
            memories_mapped(now, M::MEMORY_NAME_PREFIX@, import_count as nat, limits.take(i + 1int),
                M::DEFAULT_MAXIMUM_UNIT_SIZE, fail_bb, M::UNIT_SIZE as nat, spec_int_wasm_ptr::<T>()),
    {
        let prefix = M::MEMORY_NAME_PREFIX@;
        let ty = spec_int_wasm_ptr::<T>();
        let unit = M::UNIT_SIZE as nat;
        let dm = M::DEFAULT_MAXIMUM_UNIT_SIZE;
        let k = (now.ops().len() - declared.ops().len()) as nat;
        assert(now.grown(declared, k)) by {
            reveal(mapping_done);
        }
        BuildContext::lemma_ops_grown_trans(before, declared, now, 0, k);
        BuildContext::lemma_ops_grown_trans(started, before, now, (before.ops().len() - started.ops().len()) as nat, k);
        assert forall|j: int| 0 <= j < limits.take(i + 1int).len() implies
            #[trigger] memory_mapped(now, prefix, import_count as nat + j as nat, limits.take(i + 1int)[j], dm, fail_bb, unit, ty) by {
            if j < i {
                assert(limits.take(i + 1int)[j] == limits.take(i as int)[j]);
                assert(memory_mapped(before, prefix, import_count as nat + j as nat, limits.take(i as int)[j], dm, fail_bb, unit, ty));
                lemma_memory_mapped_kept(before, now, k, prefix, import_count as nat + j as nat, limits.take(i as int)[j], dm, fail_bb, unit, ty);
            } else {
                assert(limits.take(i + 1int)[j] == limits[i as int]);
                assert(now.ops().take(now.ops().len() as int) =~= now.ops());
                assert(now.grown(now, 0));
                assert(mapping_done(declared, now, memory, memory_size, limits[i as int].initial,
                    effective_maximum(limits[i as int].maximum, dm), fail_bb, unit, ty, prot, flags));
            }
        }
    }

    /// Maps the maximum of one memory with the protection `prot` and the
    /// flags `flags`, stores the mapped address into its base address global
    /// and sets its size to its minimum.
    #[verifier::rlimit(40)]
    pub(crate) fn build_memory_mapping(&self, bc: &mut BuildContext, memory: usize, memory_size: usize, minimum: u32, maximum: u32, fail_bb: usize, prot: i32, flags: i32)
        requires
            old(bc).wf(),
            memory < old(bc).module.globals@.len(),
            memory_size < old(bc).module.globals@.len(),
        ensures
            final(bc).module.globals == old(bc).module.globals,
            final(bc).extends(old(bc)),
            final(bc).keeps_initial_values(old(bc)),
            mapping_done(old(bc), final(bc), memory, memory_size, minimum, maximum, fail_bb,
                M::UNIT_SIZE as nat, spec_int_wasm_ptr::<T>(), prot, flags),
    {
        let ghost n = old(bc).ops().len();
        let memory_ref = bc.emit(Op::GlobalRef { global: memory });
        let memory_cache = bc.emit(Op::Load { ptr: memory_ref });
        let prot_bits = prot as u64;
        let flags_bits = flags as u64;
        let prot_value = bc.emit(Op::Const { value: Constant::Int { ty: IrType::Int32, value: prot_bits, sign_extend: true } });
        let flags_value = bc.emit(Op::Const { value: Constant::Int { ty: IrType::Int32, value: flags_bits, sign_extend: true } });
        let fd_value = bc.emit(Op::Const { value: Constant::Int { ty: IrType::Int32, value: u64::MAX, sign_extend: true } });
        let offset_value = bc.emit(Op::Const { value: Constant::Int { ty: IrType::Int32, value: 0, sign_extend: true } });
        let args = MmapArguments { prot: prot_value, flags: flags_value, fd: fd_value, offset: offset_value };
        let ghost prepared = *bc;
        let ghost head = seq![
            OpView::GlobalRef { global: memory },
            OpView::Load { ptr: n as usize },
            OpView::Const { value: Constant::Int { ty: IrType::Int32, value: prot_bits, sign_extend: true } },
            OpView::Const { value: Constant::Int { ty: IrType::Int32, value: flags_bits, sign_extend: true } },
            OpView::Const { value: Constant::Int { ty: IrType::Int32, value: u64::MAX, sign_extend: true } },
            OpView::Const { value: Constant::Int { ty: IrType::Int32, value: 0, sign_extend: true } },
        ];
        proof {
            assert(prepared.ops() =~= old(bc).ops() + head);
            assert(prepared.ops().take(n as int) =~= old(bc).ops());
            assert(prepared.ops().subrange(n as int, n + 6int) =~= head);
        }
        let mapped = self.extend_memory(bc, memory_cache, maximum, fail_bb, &args);
        let ghost extended = *bc;
        let cast = bc.emit(Op::Cast { op: CastOp::PointerCast, operand: mapped, ty: IrType::TypeOf(memory_cache) });
        bc.emit(Op::Store { value: cast, ptr: memory_ref });
        let size = bc.emit(Op::Const { value: Constant::Int { ty: int_wasm_ptr::<T>(), value: minimum as u64, sign_extend: false } });
        let size_ref = bc.emit(Op::GlobalRef { global: memory_size });
        bc.emit(Op::Store { value: size, ptr: size_ref });
        proof {
            let plan = extension_plan(maximum as nat, M::UNIT_SIZE as nat);
            let e = chunk_start(n + 6, plan, plan.len());
            lemma_chunk_start_grows(n + 6, plan, plan.len());
            assert(extended.ops().len() == e);
            let tail = mapping_tail_ops(e, chunk_base((n + 1) as usize, n + 6, plan, plan.len()), n, memory_size, minimum, spec_int_wasm_ptr::<T>());
            assert(bc.ops() =~= extended.ops() + tail);
            assert(bc.ops().take(extended.ops().len() as int) =~= extended.ops());
            assert(bc.ops().subrange(e as int, e + 5int) =~= tail);
            BuildContext::lemma_grown_trans(old(bc), &prepared, &extended, 6, (e - (n + 6)) as nat);
            BuildContext::lemma_grown_trans(old(bc), &extended, bc, (e - n) as nat, 5);
            BuildContext::lemma_grown_trans(&prepared, &extended, bc, (e - (n + 6)) as nat, 5);
            BuildContext::lemma_kept(&prepared, bc, (e + 5 - (n + 6)) as nat, n as int, head);
            lemma_chunks_kept(&extended, bc, 5, n + 6, plan, plan.len(), (n + 1) as usize, fail_bb, args);
            reveal(mapping_done);
        }
    }

    /// Maps `maximum` units of memory in the mappings of the extension plan,
    /// starting from the address `memory_ptr`; gives the address of the last
    /// mapping.
    #[verifier::rlimit(100)]
    fn extend_memory(&self, bc: &mut BuildContext, memory_ptr: usize, maximum: u32, fail_bb: usize, args: &MmapArguments) -> (r: usize)
        requires
            old(bc).wf(),
        ensures
            final(bc).module.globals == old(bc).module.globals,
            ({
                let n = old(bc).ops().len();
                let plan = extension_plan(maximum as nat, M::UNIT_SIZE as nat);
                &&& final(bc).grown(old(bc), (chunk_start(n, plan, plan.len()) - n) as nat)
                &&& chunks_at(final(bc), n, plan, plan.len(), memory_ptr, fail_bb, *args)
                &&& r == chunk_base(memory_ptr, n, plan, plan.len())
            }),
    {
        let ghost n = old(bc).ops().len();
        let ghost spec_plan = extension_plan(maximum as nat, M::UNIT_SIZE as nat);
        let plan = Self::extension_plan(maximum);
        let mut mapped = memory_ptr;
        let mut i: usize = 0;
        proof {
            assert(bc.ops().take(n as int) =~= bc.ops());
            reveal(chunks_at);
        }
        while i < plan.len()
            invariant
                n == old(bc).ops().len(),
                old(bc).wf(),
                plan_view(plan@) == spec_plan,
                i <= plan@.len(),
                bc.grown(old(bc), (chunk_start(n, spec_plan, i as nat) - n) as nat),
                bc.ops().len() == chunk_start(n, spec_plan, i as nat),
                mapped == chunk_base(memory_ptr, n, spec_plan, i as nat),
                bc.module.globals == old(bc).module.globals,
                chunks_at(bc, n, spec_plan, i as nat, memory_ptr, fail_bb, *args),
            decreases plan@.len() - i,
        {
            let (size, offset) = plan[i];
            let ghost before = *bc;
            proof {
                assert(spec_plan[i as int] == (plan@[i as int].0 as nat, plan@[i as int].1 as nat));
                assert(spec_plan[i as int].0 as u64 == size && spec_plan[i as int].1 as u64 == offset);
                lemma_chunk_start_grows(n, spec_plan, i as nat);
            }
            mapped = self.map_chunk(bc, mapped, size, offset, fail_bb, args);
            proof {
                BuildContext::lemma_grown_trans(old(bc), &before, bc, (chunk_start(n, spec_plan, i as nat) - n) as nat, chunk_len(offset));
                lemma_chunks_extend(&before, bc, n, spec_plan, i as nat, memory_ptr, fail_bb, *args);
            }
            i = i + 1;
        }
        mapped
    }

    /// One mapping of the plan: `size` bytes at `offset` bytes past
    /// `mapped_ptr`; a failed mapping branches to `fail_bb`; once more than
    /// the first mapping is made, the earlier mappings are released.  Gives
    /// the address of the new mapping.
    fn map_chunk(&self, bc: &mut BuildContext, mapped_ptr: usize, size: u64, offset: u64, fail_bb: usize, args: &MmapArguments) -> (addr: usize)
        requires
            old(bc).wf(),
        ensures
            final(bc).module.globals == old(bc).module.globals,
            final(bc).grown(old(bc), chunk_len(offset)),
            chunk_at(final(bc), old(bc).ops().len() as int, mapped_ptr, size, offset, fail_bb, *args),
            addr == old(bc).ops().len() + 5,
    {
        let ghost p = old(bc).ops().len() as int;
        proof {
            reveal(chunk_ops);
            reveal(chunk_at);
        }
        let (addr, offset_value, stay_bb) = emit_chunk_head(bc, mapped_ptr, size, offset, fail_bb, args);
        let ghost head_done = *bc;
        let ghost head = chunk_head_ops(p as nat, mapped_ptr, size, offset, fail_bb, *args, head_done.ops()[p + 4]->function);
        if offset > 0 {
            emit_chunk_release(bc, mapped_ptr, offset_value, stay_bb, fail_bb);
            proof {
                BuildContext::lemma_grown_trans(old(bc), &head_done, bc, 13, 5);
                BuildContext::lemma_kept(&head_done, bc, 5, p, head);
                BuildContext::lemma_refs_kept(&head_done, bc, 5, p + 4);
                BuildContext::lemma_ops_at_concat(bc, p, head, chunk_release_ops(p as nat, mapped_ptr, fail_bb, bc.ops()[p + 13]->function));
            }
        }
        addr
    }
}

/// Emits the start of a mapping; gives the new address, the offset's
/// operation and the block where the mapping continues.
#[verifier::rlimit(30)]
fn emit_chunk_head(bc: &mut BuildContext, mapped_ptr: usize, size: u64, offset: u64, fail_bb: usize, args: &MmapArguments) -> (r: (usize, usize, usize))
    requires
        old(bc).wf(),
    ensures
        final(bc).module.globals == old(bc).module.globals,
        ({
            let p = old(bc).ops().len() as int;
            &&& final(bc).grown(old(bc), 13)
            &&& final(bc).function_ref_at(p + 4, "mmap"@)
            &&& final(bc).ops_at(p, chunk_head_ops(p as nat, mapped_ptr, size, offset, fail_bb, *args, final(bc).ops()[p + 4]->function))
            &&& r.0 == p + 5
            &&& r.1 == p + 1
            &&& r.2 == p + 6
        }),
{
    let ghost p = old(bc).ops().len() as int;
    let size_value = bc.emit(Op::Const { value: Constant::Int { ty: IrType::IntPtr, value: size, sign_extend: false } });
    let offset_value = bc.emit(Op::Const { value: Constant::Int { ty: IrType::IntPtr, value: offset, sign_extend: false } });
    let indices = vec![offset_value];
    assert(indices@ =~= seq![offset_value]);
    let tail = bc.emit(Op::Gep { ptr: mapped_ptr, indices });
    let tail_addr = bc.emit(Op::Cast { op: CastOp::PointerCast, operand: tail, ty: IrType::Ptr(PointeeType::Void) });
    let ghost before_mmap = *bc;
    let addr = build_call_and_set_mmap(bc, tail_addr, size_value, args.prot, args.flags, args.fd, args.offset);
    let ghost after_mmap = *bc;
    let stay_bb = bc.emit(Op::AppendBlock);
    let failed = bc.emit(Op::Const { value: Constant::Int { ty: IrType::IntPtr, value: u64::MAX, sign_extend: true } });
    let failed_ptr = bc.emit(Op::ConstCast { op: CastOp::IntToPtr, value: failed, ty: IrType::TypeOf(addr) });
    let is_failed = bc.emit(Op::ICmp { predicate: IntPredicate::Eq, lhs: addr, rhs: failed_ptr });
    bc.emit(Op::CondBr { cond: is_failed, then_block: fail_bb, else_block: stay_bb });
    bc.emit(Op::PositionAtEnd { block: stay_bb });
    bc.emit(Op::PositionAtEnd { block: stay_bb });
    proof {
        let head = chunk_head_ops(p as nat, mapped_ptr, size, offset, fail_bb, *args, after_mmap.ops()[p + 4]->function);
        assert(before_mmap.ops() =~= old(bc).ops() + head.take(4));
        assert(bc.ops() =~= after_mmap.ops() + head.skip(6));
        assert(after_mmap.ops().take(before_mmap.ops().len() as int) == before_mmap.ops());
        assert(after_mmap.ops()[p + 5] == head[5]);
        assert(bc.ops().take(after_mmap.ops().len() as int) =~= after_mmap.ops());
        assert(bc.ops().subrange(p, p + 13) =~= head) by {
            assert forall|k: int| 0 <= k < 13 implies bc.ops()[p + k] == head[k] by {
                if k < 4 {
                    assert(bc.ops()[p + k] == after_mmap.ops()[p + k]);
                    assert(after_mmap.ops()[p + k] == before_mmap.ops()[p + k]);
                } else if k < 6 {
                    assert(bc.ops()[p + k] == after_mmap.ops()[p + k]);
                }
            }
        }
        assert(bc.ops().take(p) =~= old(bc).ops()) by {
            assert forall|k: int| 0 <= k < p implies bc.ops()[k] == old(bc).ops()[k] by {
                assert(bc.ops()[k] == after_mmap.ops()[k]);
                assert(after_mmap.ops()[k] == before_mmap.ops()[k]);
            }
        }
        assert(bc.module.functions@[after_mmap.ops()[p + 4]->function as int] == after_mmap.module.functions@[after_mmap.ops()[p + 4]->function as int]);
    }
    (addr, offset_value, stay_bb)
}

/// Emits the release of the mappings before the one at position `p`
/// (`offset_value` is `p + 1`, `stay_bb` is `p + 6`).
#[verifier::rlimit(30)]
fn emit_chunk_release(bc: &mut BuildContext, mapped_ptr: usize, offset_value: usize, stay_bb: usize, fail_bb: usize)
    requires
        old(bc).wf(),
        old(bc).ops().len() >= 13,
        offset_value == old(bc).ops().len() - 12,
        stay_bb == old(bc).ops().len() - 7,
    ensures
        final(bc).module.globals == old(bc).module.globals,
        ({
            let q = old(bc).ops().len() as int;
            &&& final(bc).grown(old(bc), 5)
            &&& final(bc).function_ref_at(q, "munmap"@)
            &&& final(bc).ops_at(q, chunk_release_ops((q - 13) as nat, mapped_ptr, fail_bb, final(bc).ops()[q]->function))
        }),
{
    let ghost q = old(bc).ops().len() as int;
    let released = build_call_and_set_munmap(bc, mapped_ptr, offset_value);
    let ghost after_munmap = *bc;
    let minus_one = bc.emit(Op::Const { value: Constant::Int { ty: IrType::IntPtr, value: u64::MAX, sign_extend: true } });
    let release_failed = bc.emit(Op::ICmp { predicate: IntPredicate::Eq, lhs: released, rhs: minus_one });
    bc.emit(Op::CondBr { cond: release_failed, then_block: fail_bb, else_block: stay_bb });
    proof {
        let release = chunk_release_ops((q - 13) as nat, mapped_ptr, fail_bb, after_munmap.ops()[q]->function);
        assert(bc.ops() =~= after_munmap.ops() + release.skip(2));
        assert(bc.ops().take(after_munmap.ops().len() as int) =~= after_munmap.ops());
        assert(bc.ops().subrange(q, q + 5) =~= release) by {
            assert(bc.ops()[q] == after_munmap.ops()[q]);
            assert(bc.ops()[q + 1] == after_munmap.ops()[q + 1]);
        }
        assert(bc.ops().take(q) =~= old(bc).ops()) by {
            assert forall|k: int| 0 <= k < q implies bc.ops()[k] == old(bc).ops()[k] by {
                assert(bc.ops()[k] == after_munmap.ops()[k]);
            }
        }
    }
}

} // verus!
