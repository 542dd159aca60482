use vstd::prelude::*;
use crate::build_context::BuildContext;
use crate::calls::{build_call_and_set_trap, call_at, call_emitted};
use crate::error::{ErrorView, RuntimeError};
use crate::ir::{int_wasm_ptr, spec_int_wasm_ptr, BinaryOp, CastOp, Constant, FunctionType, IntPredicate, IrType, Op, OpView};
use crate::memory::{
    all_limits_valid, check_function_name, effective_maximum, grow_function_name, init_end_ops, init_function_name, limits_error, memories_declared,
    memories_mapped, memory_size_name, MemoryCompiler, MemoryTypeContext,
};
use crate::text::{decimal, lemma_prefixed_decimal_injective};
use crate::wasm_module::{ImportCountType, Module, ResizableLimits};
use crate::types::WasmIntType;

verus! {

/// The body of a function that is not the one now being built stays, and
/// so does its name.
proof fn lemma_body_kept(a: &BuildContext, c: &BuildContext, f: usize, name: Seq<char>)
    requires
        c.keeps_other_bodies(a),
        c.keeps_symbols(a),
        f < a.module.functions@.len(),
        a.module.function_names()[f as int] == name,
        c.function matches Some(h) && h < c.module.functions@.len() && c.module.function_names()[h as int] != name,
    ensures
        f < c.module.functions@.len(),
        c.module.function_names()[f as int] == name,
        c.taken_up(f) == a.taken_up(f),
{
    assert(c.module.function_names()[f as int] == a.module.function_names()[f as int]);
}

/// Declaring a function, then building it, keeps the bodies of the others.
proof fn lemma_declared_then_built(a: &BuildContext, b: &BuildContext, c: &BuildContext, d: &BuildContext)
    requires
        a.wf(),
        b.extends(a),
        b.body == a.body,
        c.function matches Some(f) && forall|g: usize| g < b.module.functions@.len() && g != f
            ==> #[trigger] c.taken_up(g) == b.taken_up(g),
        c.wf(),
        b.module.functions@.len() <= c.module.functions@.len(),
        d.extends(c),
    ensures
        d.keeps_other_bodies(a),
{
    assert forall|g: usize| g < a.module.functions@.len() && d.function != Some(g)
        implies #[trigger] d.taken_up(g) == a.taken_up(g) by {
        BuildContext::lemma_extends_keeps_taken_up(c, d, g);
        assert(b.taken_up(g) == a.taken_up(g));
    }
}

/// The body of the grow function from position `at` on, with the size
/// global referenced at `at`: the old size, the argument, the maximum, the
/// room left and the test whether the request exceeds it; then -1 returned
/// when it does, else the size increased and the old size returned.
pub open spec fn grow_ops(at: nat, ty: IrType, maximum: u32) -> Seq<OpView> {
    seq![
        OpView::Load { ptr: at as usize },
        OpView::Param { index: 0 },
        OpView::Const { value: Constant::Int { ty, value: maximum as u64, sign_extend: false } },
        OpView::Binary { op: BinaryOp::Sub, lhs: (at + 3) as usize, rhs: (at + 1) as usize },
        OpView::ICmp { predicate: IntPredicate::Ugt, lhs: (at + 2) as usize, rhs: (at + 4) as usize },
        OpView::AppendBlock,
        OpView::AppendBlock,
        OpView::CondBr { cond: (at + 5) as usize, then_block: (at + 6) as usize, else_block: (at + 7) as usize },
        OpView::PositionAtEnd { block: (at + 6) as usize },
        OpView::Const { value: Constant::Int { ty, value: 0xffff_ffff_ffff_ffff, sign_extend: true } },
        OpView::Ret { value: (at + 10) as usize },
        OpView::PositionAtEnd { block: (at + 7) as usize },
        OpView::Binary { op: BinaryOp::Add, lhs: (at + 1) as usize, rhs: (at + 2) as usize },
        OpView::Store { value: (at + 13) as usize, ptr: at as usize },
        OpView::Ret { value: (at + 1) as usize },
    ]
}

/// The body of the check function before its trap, from position `at` on,
/// with the size global referenced at `at`: the size in bytes, the
/// argument widened, the test whether it lies past the end, and the branch
/// to the trap block or the block that returns.
pub open spec fn check_ops(at: nat, unit: u32) -> Seq<OpView> {
    seq![
        OpView::Load { ptr: at as usize },
        OpView::Cast { op: CastOp::IntCast, operand: (at + 1) as usize, ty: IrType::Int64 },
        OpView::Const { value: Constant::Int { ty: IrType::Int64, value: unit as u64, sign_extend: false } },
        OpView::Binary { op: BinaryOp::Mul, lhs: (at + 2) as usize, rhs: (at + 3) as usize },
        OpView::Param { index: 0 },
        OpView::Cast { op: CastOp::IntCast, operand: (at + 5) as usize, ty: IrType::Int64 },
        OpView::ICmp { predicate: IntPredicate::Uge, lhs: (at + 6) as usize, rhs: (at + 4) as usize },
        OpView::AppendBlock,
        OpView::AppendBlock,
        OpView::CondBr { cond: (at + 7) as usize, then_block: (at + 8) as usize, else_block: (at + 9) as usize },
        OpView::PositionAtEnd { block: (at + 8) as usize },
    ]
}

/// The end of the check function from position `at` on: return from the
/// trap block, then enter the other block `ok` and return.
pub open spec fn check_tail_ops(ok: usize) -> Seq<OpView> {
    seq![OpView::RetVoid, OpView::PositionAtEnd { block: ok }, OpView::RetVoid]
}

/// The function named `name` is being built, and its body from `at` on
/// starts with a reference to the size global of memory `index`.
pub open spec fn building_with_size_ref(bc: &BuildContext, name: Seq<char>, prefix: Seq<char>, index: u32, at: nat) -> bool {
    &&& bc.function matches Some(f) && f < bc.module.functions@.len() && bc.module.function_names()[f as int] == name
    &&& bc.global_ref_at(at as int, memory_size_name(prefix, index as nat))
}

/// Emits the body of the grow function, after the size global's reference at `at`.
fn emit_grow_body(bc: &mut BuildContext, at: usize, ty: IrType, maximum: u32)
    requires
        old(bc).body@.len() == at + 1,
    ensures
        final(bc).emitted(old(bc), grow_ops(at as nat, ty, maximum)),
{
    let old_size = bc.emit(Op::Load { ptr: at });
    let delta = bc.emit(Op::Param { index: 0 });
    let max = bc.emit(Op::Const { value: Constant::Int { ty, value: maximum as u64, sign_extend: false } });
    let available = bc.emit(Op::Binary { op: BinaryOp::Sub, lhs: max, rhs: old_size });
    let too_large = bc.emit(Op::ICmp { predicate: IntPredicate::Ugt, lhs: delta, rhs: available });
    let fail_bb = bc.emit(Op::AppendBlock);
    let grow_bb = bc.emit(Op::AppendBlock);
    bc.emit(Op::CondBr { cond: too_large, then_block: fail_bb, else_block: grow_bb });
    bc.emit(Op::PositionAtEnd { block: fail_bb });
    let minus_one = bc.emit(Op::Const { value: Constant::Int { ty, value: 0xffff_ffff_ffff_ffff, sign_extend: true } });
    bc.emit(Op::Ret { value: minus_one });
    bc.emit(Op::PositionAtEnd { block: grow_bb });
    let new_size = bc.emit(Op::Binary { op: BinaryOp::Add, lhs: old_size, rhs: delta });
    bc.emit(Op::Store { value: new_size, ptr: at });
    bc.emit(Op::Ret { value: old_size });
    proof {
        assert(bc.ops() =~= old(bc).ops() + grow_ops(at as nat, ty, maximum));
    }
}

/// Emits the test of the check function, after the size global's reference at `at`.
fn emit_check_body(bc: &mut BuildContext, at: usize, unit: u32) -> (ok: usize)
    requires
        old(bc).body@.len() == at + 1,
    ensures
        final(bc).emitted(old(bc), check_ops(at as nat, unit)),
        ok == at + 9,
{
    let current = bc.emit(Op::Load { ptr: at });
    let current64 = bc.emit(Op::Cast { op: CastOp::IntCast, operand: current, ty: IrType::Int64 });
    let unit_value = bc.emit(Op::Const { value: Constant::Int { ty: IrType::Int64, value: unit as u64, sign_extend: false } });
    let bytes = bc.emit(Op::Binary { op: BinaryOp::Mul, lhs: current64, rhs: unit_value });
    let address = bc.emit(Op::Param { index: 0 });
    let address64 = bc.emit(Op::Cast { op: CastOp::IntCast, operand: address, ty: IrType::Int64 });
    let outside = bc.emit(Op::ICmp { predicate: IntPredicate::Uge, lhs: address64, rhs: bytes });
    let trap_bb = bc.emit(Op::AppendBlock);
    let ok_bb = bc.emit(Op::AppendBlock);
    bc.emit(Op::CondBr { cond: outside, then_block: trap_bb, else_block: ok_bb });
    bc.emit(Op::PositionAtEnd { block: trap_bb });
    proof {
        assert(bc.ops() =~= old(bc).ops() + check_ops(at as nat, unit));
    }
    ok_bb
}

impl<M: MemoryTypeContext, T: WasmIntType> MemoryCompiler<M, T> {
    /// Calls the grow function of memory `index` with `requested` units;
    /// the call answers the old size, or -1.  Fails, emitting nothing, when
    /// that function is not declared.
    pub fn build_grow(&self, bc: &mut BuildContext, requested: usize, index: u32) -> (r: Result<usize, RuntimeError>)
        requires
            old(bc).wf(),
        ensures
            r is Err <==> !old(bc).module.function_names().contains(grow_function_name(M::MEMORY_NAME_PREFIX@, index as nat)),
            r matches Err(e) ==> e@ == (ErrorView::NoSuchLLVMFunction { name: grow_function_name(M::MEMORY_NAME_PREFIX@, index as nat) })
                && *final(bc) == *old(bc),
            r matches Ok(c) ==> call_emitted(final(bc), old(bc), grow_function_name(M::MEMORY_NAME_PREFIX@, index as nat), seq![requested])
                && c == old(bc).ops().len() + 1,
            final(bc).module == old(bc).module,
            final(bc).function == old(bc).function,
    {
        let name = self.get_grow_function_name(index);
        let f = match bc.get_named_function(&name) {
            Some(f) => f,
            None => return Err(RuntimeError::NoSuchLLVMFunction { name }),
        };
        let callee = bc.emit(Op::FunctionRef { function: f });
        let args = vec![requested];
        assert(args@ =~= seq![requested]);
        let c = bc.emit(Op::Call { callee, args });
        proof {
            assert(bc.ops().take(old(bc).ops().len() as int) =~= old(bc).ops());
        }
        Ok(c)
    }

    /// Builds the function that grows memory `index` by its argument, in
    /// units, up to `maximum` units: it answers the old size, or -1 and
    /// leaves the size as it is when the request exceeds the maximum.
    /// Gives the position where its operations start.
    pub fn build_grow_function(&self, bc: &mut BuildContext, index: u32, maximum: u32) -> (at: usize)
        requires
            old(bc).wf(),
        ensures
            final(bc).keeps_symbols(old(bc)),
            building_with_size_ref(final(bc), grow_function_name(M::MEMORY_NAME_PREFIX@, index as nat), M::MEMORY_NAME_PREFIX@, index, at as nat),
            final(bc).ops().len() == at + 16,
            final(bc).ops_at(at + 1, grow_ops(at as nat, spec_int_wasm_ptr::<T>(), maximum)),
            final(bc).keeps_other_bodies(old(bc)),
    {
        let ty = int_wasm_ptr::<T>();
        let name = self.get_grow_function_name(index);
        let mut params = Vec::new();
        params.push(ty);
        let f = bc.set_declare_function(name, FunctionType { ret: ty, params, var_arg: false });
        let ghost b0 = *bc;
        bc.build_function(f);
        let ghost started = *bc;
        let size = self.set_declare_memory_size(bc, index);
        let ghost b1 = *bc;
        let size_ref = bc.emit(Op::GlobalRef { global: size });
        let ghost b2 = *bc;
        emit_grow_body(bc, size_ref, ty, maximum);
        proof {
            let at = size_ref as int;
            assert(bc.ops() =~= b1.ops() + seq![OpView::GlobalRef { global: size }] + grow_ops(at as nat, ty, maximum));
            assert(bc.ops().subrange(at + 1, at + 16) =~= grow_ops(at as nat, ty, maximum));
            assert(bc.module.global_names()[size as int] == memory_size_name(M::MEMORY_NAME_PREFIX@, index as nat));
            assert(bc.extends(&started));
            lemma_declared_then_built(old(bc), &b0, &started, bc);
        }
        size_ref
    }

    /// Builds the function that checks an address of memory `index`: it
    /// traps when the address lies at or past the end of the memory's
    /// current size in bytes, and returns otherwise.  Gives the position
    /// where its operations start.
    #[verifier::rlimit(40)]
    pub fn build_check_function(&self, bc: &mut BuildContext, index: u32) -> (at: usize)
        requires
            old(bc).wf(),
        ensures
            final(bc).keeps_symbols(old(bc)),
            building_with_size_ref(final(bc), check_function_name(M::MEMORY_NAME_PREFIX@, index as nat), M::MEMORY_NAME_PREFIX@, index, at as nat),
            final(bc).ops().len() == at + 17,
            final(bc).ops_at(at + 1, check_ops(at as nat, M::UNIT_SIZE)),
            call_at(final(bc), (at + 12) as nat, "llvm.trap"@, seq![]),
            final(bc).ops_at(at + 14, check_tail_ops((at + 9) as usize)),
            final(bc).keeps_other_bodies(old(bc)),
    {
        let name = self.get_memory_real_check_name(index);
        let mut params = Vec::new();
        params.push(IrType::Int32);
        let f = bc.set_declare_function(name, FunctionType { ret: IrType::Void, params, var_arg: false });
        let ghost b0 = *bc;
        bc.build_function(f);
        let ghost started = *bc;
        let size = self.set_declare_memory_size(bc, index);
        let ghost b1 = *bc;
        let size_ref = bc.emit(Op::GlobalRef { global: size });
        let ok_bb = emit_check_body(bc, size_ref, M::UNIT_SIZE);
        let ghost b2 = *bc;
        build_call_and_set_trap(bc);
        let ghost b3 = *bc;
        bc.emit(Op::RetVoid);
        bc.emit(Op::PositionAtEnd { block: ok_bb });
        bc.emit(Op::RetVoid);
        proof {
            let at = size_ref as int;
            assert(bc.ops() =~= b3.ops() + check_tail_ops(ok_bb));
            assert(bc.ops().subrange(at + 14, at + 17) =~= check_tail_ops(ok_bb));
            assert(b3.ops().take(b2.ops().len() as int) == b2.ops());
            assert(bc.ops().subrange(at + 1, at + 12) =~= b2.ops().subrange(at + 1, at + 12));
            assert(b2.ops().subrange(at + 1, at + 12) =~= check_ops(at as nat, M::UNIT_SIZE));
            assert(bc.ops()[at as int] == b2.ops()[at as int]);
            assert(bc.ops()[at + 12] == b3.ops()[at + 12]);
            assert(bc.ops()[at + 13] == b3.ops()[at + 13]);
            assert(bc.module.global_names()[size as int] == memory_size_name(M::MEMORY_NAME_PREFIX@, index as nat));
            assert(b3.module.functions@[f as int] == b2.module.functions@[f as int]);
            assert(bc.extends(&started));
            lemma_declared_then_built(old(bc), &b0, &started, bc);
        }
        size_ref
    }

    /// Builds the memory functions of the memory section, if the module
    /// has one, for the memories numbered after the imported ones.
    pub fn build_memory_section(&self, bc: &mut BuildContext, wasm_module: &Module) -> (r: Result<(), RuntimeError>)
        requires
            old(bc).wf(),
            wasm_module.memories matches Some(memories)
                ==> wasm_module.spec_import_count(ImportCountType::Memory) + memories@.len() <= u32::MAX,
        ensures
            final(bc).keeps_symbols(old(bc)),
            final(bc).wf(),
            wasm_module.memories is None ==> r is Ok && *final(bc) == *old(bc),
            wasm_module.memories matches Some(memories) ==> {
                let limits = memories@.map_values(|m: crate::wasm_module::MemoryType| m.limits);
                &&& (r is Ok <==> all_limits_valid(limits, limits.len() as int, M::DEFAULT_MAXIMUM_UNIT_SIZE as nat))
                &&& (r is Ok ==> memory_functions_declared(final(bc).module.function_names(), M::MEMORY_NAME_PREFIX@,
                    wasm_module.spec_import_count(ImportCountType::Memory), wasm_module.spec_import_count(ImportCountType::Memory) + limits.len()))
                &&& (r matches Err(e) ==> exists|k: int| 0 <= k < limits.len()
                    && all_limits_valid(limits, k, M::DEFAULT_MAXIMUM_UNIT_SIZE as nat)
                    && e@ == limits_error(#[trigger] limits[k].initial as nat, limits[k].maximum, M::DEFAULT_MAXIMUM_UNIT_SIZE as nat))
                &&& (r is Ok ==> init_function_stored(final(bc), M::MEMORY_NAME_PREFIX@, wasm_module.spec_import_count(ImportCountType::Memory) as nat,
                    limits, M::DEFAULT_MAXIMUM_UNIT_SIZE, M::UNIT_SIZE as nat, spec_int_wasm_ptr::<T>(), vstd::layout::size_of::<T>() * 8))
                &&& (r is Ok ==> forall|k: int| 0 <= k < limits.len() ==> #[trigger] grow_function_stored(final(bc), M::MEMORY_NAME_PREFIX@,
                    (wasm_module.spec_import_count(ImportCountType::Memory) + k) as u32, spec_int_wasm_ptr::<T>(),
                    effective_maximum(limits[k].maximum, M::DEFAULT_MAXIMUM_UNIT_SIZE)))
                &&& (r is Ok ==> forall|k: int| 0 <= k < limits.len() ==> #[trigger] check_function_stored(final(bc), M::MEMORY_NAME_PREFIX@,
                    (wasm_module.spec_import_count(ImportCountType::Memory) + k) as u32, M::UNIT_SIZE))
            },
    {
        match &wasm_module.memories {
            None => Ok(()),
            Some(memories) => {
                let import_count = wasm_module.import_count(ImportCountType::Memory) as u32;
                let mut limits: Vec<ResizableLimits> = Vec::new();
                let mut i: usize = 0;
                while i < memories.len()
                    invariant
                        i <= memories@.len(),
                        limits@ == memories@.map_values(|m: crate::wasm_module::MemoryType| m.limits).take(i as int),
                    decreases memories@.len() - i,
                {
                    limits.push(memories[i].limits);
                    i = i + 1;
                    proof {
                        assert(limits@ =~= memories@.map_values(|m: crate::wasm_module::MemoryType| m.limits).take(i as int));
                    }
                }
                assert(limits@ =~= memories@.map_values(|m: crate::wasm_module::MemoryType| m.limits));
                self.build_memory_functions(bc, import_count, limits.as_slice())
            },
        }
    }

    /// The grow and check functions of memory `import_count + i`, just
    /// built, join the memory functions stored before them, which stay.
    proof fn lemma_memory_functions_recorded(&self, before: &BuildContext, grown: &BuildContext, now: &BuildContext,
        import_count: u32, limits: Seq<ResizableLimits>, i: int, at_grow: nat)
        requires
            0 <= i < limits.len(),
            import_count + limits.len() <= u32::MAX,
            before.wf(),
            grown.keeps_symbols(before),
            grown.keeps_other_bodies(before),
            now.keeps_symbols(grown),
            now.keeps_other_bodies(grown),
            building_with_size_ref(grown, grow_function_name(M::MEMORY_NAME_PREFIX@, (import_count + i) as nat), M::MEMORY_NAME_PREFIX@, (import_count + i) as u32, at_grow),
            grown.ops().len() == at_grow + 16,
            grown.ops_at(at_grow + 1int, grow_ops(at_grow, spec_int_wasm_ptr::<T>(), effective_maximum(limits[i].maximum, M::DEFAULT_MAXIMUM_UNIT_SIZE))),
            check_function_built(now, M::MEMORY_NAME_PREFIX@, (import_count + i) as u32, M::UNIT_SIZE),
            init_function_stored(before, M::MEMORY_NAME_PREFIX@, import_count as nat, limits, M::DEFAULT_MAXIMUM_UNIT_SIZE, M::UNIT_SIZE as nat,
                spec_int_wasm_ptr::<T>(), vstd::layout::size_of::<T>() * 8),
            forall|k: int| 0 <= k < i ==> #[trigger] grow_function_stored(before, M::MEMORY_NAME_PREFIX@,
                (import_count + k) as u32, spec_int_wasm_ptr::<T>(), effective_maximum(limits[k].maximum, M::DEFAULT_MAXIMUM_UNIT_SIZE)),
            forall|k: int| 0 <= k < i ==> #[trigger] check_function_stored(before, M::MEMORY_NAME_PREFIX@, (import_count + k) as u32, M::UNIT_SIZE),
        ensures
            init_function_stored(now, M::MEMORY_NAME_PREFIX@, import_count as nat, limits, M::DEFAULT_MAXIMUM_UNIT_SIZE, M::UNIT_SIZE as nat,
                spec_int_wasm_ptr::<T>(), vstd::layout::size_of::<T>() * 8),
            forall|k: int| 0 <= k < i + 1 ==> #[trigger] grow_function_stored(now, M::MEMORY_NAME_PREFIX@,
                (import_count + k) as u32, spec_int_wasm_ptr::<T>(), effective_maximum(limits[k].maximum, M::DEFAULT_MAXIMUM_UNIT_SIZE)),
            forall|k: int| 0 <= k < i + 1 ==> #[trigger] check_function_stored(now, M::MEMORY_NAME_PREFIX@, (import_count + k) as u32, M::UNIT_SIZE),
    {
        let prefix = M::MEMORY_NAME_PREFIX@;
        let ty = spec_int_wasm_ptr::<T>();
        let bits = vstd::layout::size_of::<T>() * 8;
        let dm = M::DEFAULT_MAXIMUM_UNIT_SIZE;
        let unit = M::UNIT_SIZE;
        let index = (import_count + i) as nat;
        M::lemma_prefix();
        let g = grown.function->0;
        let c = now.function->0;
        let cb = choose|at: nat| #[trigger] building_with_size_ref(now, check_function_name(prefix, index), prefix, index as u32, at)
            && now.ops().len() == at + 17
            && now.ops_at(at + 1int, check_ops(at, unit))
            && call_at(now, (at + 12) as nat, "llvm.trap"@, seq![])
            && now.ops_at(at + 14int, check_tail_ops((at + 9) as usize));
        assert(now.module.function_names()[c as int] == check_function_name(prefix, index));
        assert(grown.module.function_names()[g as int] == grow_function_name(prefix, index));
        // The function that maps the memories.
        let b = choose|b: BuildContext| #[trigger] init_function_built(&b, prefix, import_count as nat, limits, dm, unit as nat, ty, bits)
            && (b.function matches Some(f) && f < before.module.functions@.len()
            && before.module.function_names()[f as int] == init_function_name(bits)
            && before.taken_up(f) == b.ops());
        let f = b.function->0;
        lemma_memory_function_names_differ(prefix, index, index, bits);
        lemma_body_kept(before, grown, f, init_function_name(bits));
        lemma_body_kept(grown, now, f, init_function_name(bits));
        // The grow and check functions.
        assert forall|k: int| 0 <= k < i + 1 implies #[trigger] grow_function_stored(now, prefix,
            (import_count + k) as u32, ty, effective_maximum(limits[k].maximum, dm)) by {
            if k < i {
                let kk = (import_count + k) as nat;
                assert(grow_function_stored(before, prefix, (import_count + k) as u32, ty, effective_maximum(limits[k].maximum, dm)));
                let b = choose|b: BuildContext| #[trigger] grow_function_built(&b, prefix, (import_count + k) as u32, ty, effective_maximum(limits[k].maximum, dm))
                    && (b.function matches Some(f) && f < before.module.functions@.len()
                    && before.module.function_names()[f as int] == grow_function_name(prefix, kk)
                    && before.taken_up(f) == b.ops());
                lemma_memory_function_names_differ(prefix, kk, index, bits);
                lemma_body_kept(before, grown, b.function->0, grow_function_name(prefix, kk));
                lemma_body_kept(grown, now, b.function->0, grow_function_name(prefix, kk));
            } else {
                assert(grow_function_built(grown, prefix, index as u32, ty, effective_maximum(limits[k].maximum, dm)));
                assert(grown.taken_up(g) == grown.ops());
                lemma_body_kept(grown, now, g, grow_function_name(prefix, index));
            }
        }
        assert forall|k: int| 0 <= k < i + 1 implies #[trigger] check_function_stored(now, prefix, (import_count + k) as u32, unit) by {
            if k < i {
                let kk = (import_count + k) as nat;
                assert(check_function_stored(before, prefix, (import_count + k) as u32, unit));
                let b = choose|b: BuildContext| #[trigger] check_function_built(&b, prefix, (import_count + k) as u32, unit)
                    && (b.function matches Some(f) && f < before.module.functions@.len()
                    && before.module.function_names()[f as int] == check_function_name(prefix, kk)
                    && before.taken_up(f) == b.ops());
                lemma_memory_function_names_differ(prefix, kk, index, bits);
                lemma_memory_function_names_differ(prefix, index, kk, bits);
                lemma_body_kept(before, grown, b.function->0, check_function_name(prefix, kk));
                lemma_body_kept(grown, now, b.function->0, check_function_name(prefix, kk));
            } else {
                assert(now.taken_up(c) == now.ops());
            }
        }
    }

    /// Builds the function that maps the memories with these limits (see
    /// `build_init_function`), then the grow and check functions of each memory.
    pub fn build_memory_functions(&self, bc: &mut BuildContext, import_count: u32, limits: &[ResizableLimits]) -> (r: Result<(), RuntimeError>)
        requires
            old(bc).wf(),
            import_count + limits@.len() <= u32::MAX,
        ensures
            final(bc).keeps_symbols(old(bc)),
            final(bc).wf(),
            r is Ok <==> all_limits_valid(limits@, limits@.len() as int, M::DEFAULT_MAXIMUM_UNIT_SIZE as nat),
            r matches Err(e) ==> exists|k: int| 0 <= k < limits@.len()
                && all_limits_valid(limits@, k, M::DEFAULT_MAXIMUM_UNIT_SIZE as nat)
                && e@ == limits_error(#[trigger] limits@[k].initial as nat, limits@[k].maximum, M::DEFAULT_MAXIMUM_UNIT_SIZE as nat),
            r is Ok ==> memories_declared(final(bc).module.global_names(), M::MEMORY_NAME_PREFIX@, import_count as nat, (import_count + limits@.len()) as nat),
            r is Ok ==> final(bc).module.function_names().contains(init_function_name(vstd::layout::size_of::<T>() * 8)),
            r is Ok ==> memory_functions_declared(final(bc).module.function_names(), M::MEMORY_NAME_PREFIX@, import_count as nat, (import_count + limits@.len()) as nat),
            r is Ok ==> init_function_stored(final(bc), M::MEMORY_NAME_PREFIX@, import_count as nat, limits@,
                M::DEFAULT_MAXIMUM_UNIT_SIZE, M::UNIT_SIZE as nat, spec_int_wasm_ptr::<T>(), vstd::layout::size_of::<T>() * 8),
            r is Ok ==> forall|k: int| 0 <= k < limits@.len() ==> #[trigger] grow_function_stored(final(bc), M::MEMORY_NAME_PREFIX@,
                (import_count + k) as u32, spec_int_wasm_ptr::<T>(), effective_maximum(limits@[k].maximum, M::DEFAULT_MAXIMUM_UNIT_SIZE)),
            r is Ok ==> forall|k: int| 0 <= k < limits@.len() ==> #[trigger] check_function_stored(final(bc), M::MEMORY_NAME_PREFIX@,
                (import_count + k) as u32, M::UNIT_SIZE),
    {
        self.build_init_function(bc, import_count, limits)?;
        let ghost after_init = *bc;
        let ghost prefix = M::MEMORY_NAME_PREFIX@;
        let ghost ty = spec_int_wasm_ptr::<T>();
        let ghost bits = vstd::layout::size_of::<T>() * 8;
        proof {
            M::lemma_prefix();
            assert(init_function_built(&after_init, prefix, import_count as nat, limits@,
                M::DEFAULT_MAXIMUM_UNIT_SIZE, M::UNIT_SIZE as nat, ty, bits));
        }
        let mut i: usize = 0;
        while i < limits.len()
            invariant
                prefix == M::MEMORY_NAME_PREFIX@,
                prefix.len() > 0 && prefix[0] == '_',
                ty == spec_int_wasm_ptr::<T>(),
                bits == vstd::layout::size_of::<T>() * 8,
                init_function_stored(bc, prefix, import_count as nat, limits@, M::DEFAULT_MAXIMUM_UNIT_SIZE, M::UNIT_SIZE as nat, ty, bits),
                forall|k: int| 0 <= k < i ==> #[trigger] grow_function_stored(bc, prefix,
                    (import_count + k) as u32, ty, effective_maximum(limits@[k].maximum, M::DEFAULT_MAXIMUM_UNIT_SIZE)),
                forall|k: int| 0 <= k < i ==> #[trigger] check_function_stored(bc, prefix, (import_count + k) as u32, M::UNIT_SIZE),
                bc.keeps_symbols(&after_init),
                after_init.wf(),
                i <= limits@.len(),
                import_count + limits@.len() <= u32::MAX,
                memory_functions_declared(bc.module.function_names(), M::MEMORY_NAME_PREFIX@, import_count as nat, (import_count + i) as nat),
            decreases limits@.len() - i,
        {
            let index = import_count + i as u32;
            let maximum = match limits[i].maximum {
                Some(m) => m,
                None => M::DEFAULT_MAXIMUM_UNIT_SIZE,
            };
            let ghost before = *bc;
            let at_grow = self.build_grow_function(bc, index, maximum);
            let ghost grown = *bc;
            self.build_check_function(bc, index);
            proof {
                self.lemma_memory_functions_recorded(&before, &grown, bc, import_count, limits@, i as int, at_grow as nat);
                assert forall|k: nat| import_count <= k < import_count + i + 1 implies
                    #[trigger] memory_functions_of(bc.module.function_names(), M::MEMORY_NAME_PREFIX@, k) by {
                    if k < import_count + i {
                        assert(memory_functions_of(before.module.function_names(), M::MEMORY_NAME_PREFIX@, k));
                        lemma_name_kept(&before, bc, grow_function_name(M::MEMORY_NAME_PREFIX@, k));
                        lemma_name_kept(&before, bc, check_function_name(M::MEMORY_NAME_PREFIX@, k));
                    } else {
                        assert(k == index as nat);
                        let g = grown.function->0;
                        assert(grown.module.function_names()[g as int] == grow_function_name(M::MEMORY_NAME_PREFIX@, k));
                        assert(grown.module.function_names().contains(grow_function_name(M::MEMORY_NAME_PREFIX@, k)));
                        lemma_name_kept(&grown, bc, grow_function_name(M::MEMORY_NAME_PREFIX@, k));
                        let c = bc.function->0;
                        assert(bc.module.function_names()[c as int] == check_function_name(M::MEMORY_NAME_PREFIX@, k));
                        assert(bc.module.function_names().contains(check_function_name(M::MEMORY_NAME_PREFIX@, k)));
                    }
                }
                lemma_keeps_trans(&after_init, &before, bc);
            }
            i = i + 1;
        }
        proof {
            let f = after_init.function->0;
            assert(after_init.module.function_names()[f as int] == init_function_name(vstd::layout::size_of::<T>() * 8));
            lemma_name_kept(&after_init, bc, init_function_name(vstd::layout::size_of::<T>() * 8));
            assert forall|k: nat| import_count <= k < import_count + limits@.len() implies
                #[trigger] crate::memory::memory_declared(bc.module.global_names(), M::MEMORY_NAME_PREFIX@, k) by {
                assert(crate::memory::memory_declared(after_init.module.global_names(), M::MEMORY_NAME_PREFIX@, k));
                lemma_memory_kept(&after_init, bc, M::MEMORY_NAME_PREFIX@, k);
            }
        }
        Ok(())
    }
}

/// The function being built in `bc` is the grow function of memory
/// `index`, with the body that `build_grow_function` gives it.
pub open spec fn grow_function_built(bc: &BuildContext, prefix: Seq<char>, index: u32, ty: IrType, maximum: u32) -> bool {
    exists|at: nat| #[trigger] building_with_size_ref(bc, grow_function_name(prefix, index as nat), prefix, index, at)
        && bc.ops().len() == at + 16
        && bc.ops_at(at + 1int, grow_ops(at, ty, maximum))
}

/// The function being built in `bc` is the check function of memory
/// `index`, with the body that `build_check_function` gives it.
pub open spec fn check_function_built(bc: &BuildContext, prefix: Seq<char>, index: u32, unit: u32) -> bool {
    exists|at: nat| #[trigger] building_with_size_ref(bc, check_function_name(prefix, index as nat), prefix, index, at)
        && bc.ops().len() == at + 17
        && bc.ops_at(at + 1int, check_ops(at, unit))
        && call_at(bc, (at + 12) as nat, "llvm.trap"@, seq![])
        && bc.ops_at(at + 14int, check_tail_ops((at + 9) as usize))
}

/// In `bc`, the grow function of memory `index` has the body it was given
/// when it was built.
pub open spec fn grow_function_stored(bc: &BuildContext, prefix: Seq<char>, index: u32, ty: IrType, maximum: u32) -> bool {
    exists|b: BuildContext| #[trigger] grow_function_built(&b, prefix, index, ty, maximum)
        && (b.function matches Some(f) && f < bc.module.functions@.len()
        && bc.module.function_names()[f as int] == grow_function_name(prefix, index as nat)
        && bc.taken_up(f) == b.ops())
}

/// In `bc`, the check function of memory `index` has the body it was given
/// when it was built.
pub open spec fn check_function_stored(bc: &BuildContext, prefix: Seq<char>, index: u32, unit: u32) -> bool {
    exists|b: BuildContext| #[trigger] check_function_built(&b, prefix, index, unit)
        && (b.function matches Some(f) && f < bc.module.functions@.len()
        && bc.module.function_names()[f as int] == check_function_name(prefix, index as nat)
        && bc.taken_up(f) == b.ops())
}

/// The function being built in `bc` maps the memories with these limits,
/// the first of them with index `start`, as `build_init_function` builds it.
pub open spec fn init_function_built(bc: &BuildContext, prefix: Seq<char>, start: nat, limits: Seq<ResizableLimits>,
    default_maximum: u32, unit: nat, ty: IrType, bits: nat) -> bool {
    &&& bc.function matches Some(f) && f < bc.module.functions@.len()
        && bc.module.function_names()[f as int] == init_function_name(bits)
    &&& exists|fail_bb: usize| #[trigger] memories_mapped(bc, prefix, start, limits, default_maximum, fail_bb, unit, ty)
        && fail_bb < bc.ops().len() && bc.ops()[fail_bb as int] == OpView::AppendBlock
        && bc.ops().len() >= 5
        && bc.ops_at(bc.ops().len() - 5, init_end_ops((bc.ops().len() - 5) as nat, fail_bb))
}

/// In `bc`, the function that maps the memories has the body it was given
/// when it was built.
pub open spec fn init_function_stored(bc: &BuildContext, prefix: Seq<char>, start: nat, limits: Seq<ResizableLimits>,
    default_maximum: u32, unit: nat, ty: IrType, bits: nat) -> bool {
    exists|b: BuildContext| #[trigger] init_function_built(&b, prefix, start, limits, default_maximum, unit, ty, bits)
        && (b.function matches Some(f) && f < bc.module.functions@.len()
        && bc.module.function_names()[f as int] == init_function_name(bits)
        && bc.taken_up(f) == b.ops())
}

/// The names of the memory functions differ: the grow and check functions
/// of different memories, the grow and check function of one memory, and
/// each of them and the function that maps the memories.
pub proof fn lemma_memory_function_names_differ(prefix: Seq<char>, k: nat, j: nat, bits: nat)
    requires
        prefix.len() > 0,
        prefix[0] == '_',
    ensures
        k != j ==> grow_function_name(prefix, k) != grow_function_name(prefix, j),
        k != j ==> check_function_name(prefix, k) != check_function_name(prefix, j),
        grow_function_name(prefix, k) != check_function_name(prefix, j),
        grow_function_name(prefix, k) != init_function_name(bits),
        check_function_name(prefix, k) != init_function_name(bits),
{
    reveal_strlit("_grow_memory");
    reveal_strlit("_check_memory");
    reveal_strlit("init_memory_");
    let g = prefix + "_grow_memory"@;
    let c = prefix + "_check_memory"@;
    assert(grow_function_name(prefix, k) =~= g + decimal(k));
    assert(grow_function_name(prefix, j) =~= g + decimal(j));
    assert(check_function_name(prefix, k) =~= c + decimal(k));
    assert(check_function_name(prefix, j) =~= c + decimal(j));
    lemma_prefixed_decimal_injective(g, k, j);
    lemma_prefixed_decimal_injective(c, k, j);
    assert(grow_function_name(prefix, k)[prefix.len() + 1int] == 'g');
    assert(check_function_name(prefix, j)[prefix.len() + 1int] == 'c');
    assert(grow_function_name(prefix, k)[0] == '_');
    assert(check_function_name(prefix, k)[0] == '_');
    assert(init_function_name(bits)[0] == 'i');
}

/// The grow and check functions of memory `index` are among `names`.
pub open spec fn memory_functions_of(names: Seq<Seq<char>>, prefix: Seq<char>, index: nat) -> bool {
    &&& names.contains(grow_function_name(prefix, index))
    &&& names.contains(check_function_name(prefix, index))
}

/// The grow and check functions of the memories from `start` to `end`
/// (exclusive) are among `names`.
pub open spec fn memory_functions_declared(names: Seq<Seq<char>>, prefix: Seq<char>, start: nat, end: nat) -> bool {
    forall|k: nat| start <= k < end ==> #[trigger] memory_functions_of(names, prefix, k)
}

/// Declared memory functions stay declared as symbols are kept.
pub proof fn lemma_memory_functions_kept(a: &BuildContext, b: &BuildContext, prefix: Seq<char>, start: nat, end: nat)
    requires
        b.keeps_symbols(a),
        memory_functions_declared(a.module.function_names(), prefix, start, end),
    ensures
        memory_functions_declared(b.module.function_names(), prefix, start, end),
{
    assert forall|k: nat| start <= k < end implies #[trigger] memory_functions_of(b.module.function_names(), prefix, k) by {
        assert(memory_functions_of(a.module.function_names(), prefix, k));
        lemma_name_kept(a, b, grow_function_name(prefix, k));
        lemma_name_kept(a, b, check_function_name(prefix, k));
    }
}

/// Keeping symbols is transitive.
pub proof fn lemma_keeps_trans(a: &BuildContext, b: &BuildContext, c: &BuildContext)
    requires
        b.keeps_symbols(a),
        c.keeps_symbols(b),
    ensures
        c.keeps_symbols(a),
{
}

/// A function name stays as symbols are kept.
pub proof fn lemma_name_kept(a: &BuildContext, b: &BuildContext, name: Seq<char>)
    requires
        b.keeps_symbols(a),
        a.module.function_names().contains(name),
    ensures
        b.module.function_names().contains(name),
{
    let i = choose|i: int| 0 <= i < a.module.function_names().len() && a.module.function_names()[i] == name;
    assert(b.module.function_names()[i] == a.module.function_names()[i]);
}

/// A declared memory stays declared as symbols are kept.
pub proof fn lemma_memory_kept(a: &BuildContext, b: &BuildContext, prefix: Seq<char>, index: nat)
    requires
        b.keeps_symbols(a),
        crate::memory::memory_declared(a.module.global_names(), prefix, index),
    ensures
        crate::memory::memory_declared(b.module.global_names(), prefix, index),
{
    let x = choose|g: int| 0 <= g < a.module.global_names().len() && a.module.global_names()[g] == crate::memory::memory_name(prefix, index);
    let y = choose|g: int| 0 <= g < a.module.global_names().len() && a.module.global_names()[g] == memory_size_name(prefix, index);
    assert(b.module.global_names()[x] == a.module.global_names()[x]);
    assert(b.module.global_names()[y] == a.module.global_names()[y]);
}

} // verus!
