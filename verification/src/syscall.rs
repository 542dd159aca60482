use vstd::prelude::*;
use crate::build_context::BuildContext;
use crate::error::{ErrorView, RuntimeError};
use crate::instructions::linear_prefix;
use crate::calls::{build_call_and_set, call_emitted};
use crate::ir::{int_wasm_ptr, spec_int_wasm_ptr, BinaryOp, CastOp, Constant, FunctionType, IntPredicate, IrType, Op, OpView, PointeeType};
use crate::memory::{grow_function_name, memory_name, LinearMemoryCompiler, LinearMemoryTypeContext, MemoryTypeContext};
use crate::types::WasmIntType;
use crate::wasm::{wasm_function_name, WasmCompiler};

verus! {

/// The numbers by which the programs ask for system calls.
pub const WASM_SYS_UMASK: u64 = 60;
pub const WASM_SYS_BRK: u64 = 45;
pub const WASM_SYS_WRITEV: u64 = 146;
pub const WASM_SYS_MMAP2: u64 = 192;
pub const WASM_SYS_LLSEEK: u64 = 140;
pub const WASM_SYS_FUTEX: u64 = 240;
pub const WASM_SYS_IOCTL: u64 = 54;

/// The numbers of the host's system calls that the calls are passed on to.
pub const SYS_FUTEX: u64 = 202;
pub const SYS_LLSEEK: u64 = 2;

/// What a case of a syscall function does when its number is asked for.
#[derive(Clone, Copy, Debug, PartialEq, Eq, Structural)]
pub enum SysCallAction {
    /// Maps memory by growing linear memory 0.
    Mmap2,
}

/// A case of a syscall function: the number it answers and what it does.
#[derive(Clone, Copy, Debug, PartialEq, Eq, Structural)]
pub struct SysCallCase {
    pub code: u64,
    pub action: SysCallAction,
}

/// One parameter operation for each of the first `count` parameters.
pub open spec fn param_ops(count: nat) -> Seq<OpView> {
    Seq::new(count, |i: int| OpView::Param { index: i as u32 })
}

/// The values of `count` parameter operations emitted from position `start` on.
pub open spec fn param_ids(start: nat, count: nat) -> Seq<usize> {
    Seq::new(count, |i: int| (start + i) as usize)
}

/// The start of a syscall function at position `entry`: its entry block,
/// entered, and its `count` parameters.
pub open spec fn head_ops(entry: nat, count: nat) -> Seq<OpView> {
    seq![OpView::AppendBlock, OpView::PositionAtEnd { block: entry as usize }] + param_ops(count)
}

/// The end of a syscall function at position `at`: 0 returned.
pub open spec fn ret_zero_ops(at: nat, ty: IrType) -> Seq<OpView> {
    seq![
        OpView::Const { value: Constant::Int { ty, value: 0, sign_extend: false } },
        OpView::Ret { value: at as usize },
    ]
}

/// The test of a case at position `p`: its number compared with the
/// first parameter `n`, the case's block and the next block, the branch,
/// and the case's block entered.
pub open spec fn test_ops(p: nat, code: u64, n: usize, ty: IrType) -> Seq<OpView> {
    seq![
        OpView::Const { value: Constant::Int { ty, value: code, sign_extend: false } },
        OpView::ICmp { predicate: IntPredicate::Eq, lhs: p as usize, rhs: n },
        OpView::AppendBlock,
        OpView::AppendBlock,
        OpView::CondBr { cond: (p + 1) as usize, then_block: (p + 2) as usize, else_block: (p + 3) as usize },
        OpView::PositionAtEnd { block: (p + 2) as usize },
    ]
}

/// The real address, at position `q`, of `addr` in the memory whose base
/// address global is `memory`.
pub open spec fn real_address_ops(q: nat, addr: usize, memory: usize) -> Seq<OpView> {
    seq![
        OpView::GlobalRef { global: memory },
        OpView::Load { ptr: q as usize },
        OpView::Gep { ptr: (q + 1) as usize, indices: seq![addr] },
    ]
}

/// The arguments of `mmap2` after the address converted: the length to an
/// address-wide integer, protection, flags and descriptor to 32 bits, the
/// offset to 64 bits.
pub open spec fn mmap2_convert_ops(params: Seq<usize>) -> Seq<OpView> {
    seq![
        OpView::Cast { op: CastOp::IntCast, operand: params[2], ty: IrType::IntPtr },
        OpView::Cast { op: CastOp::IntCast, operand: params[3], ty: IrType::Int32 },
        OpView::Cast { op: CastOp::IntCast, operand: params[4], ty: IrType::Int32 },
        OpView::Cast { op: CastOp::IntCast, operand: params[5], ty: IrType::Int32 },
        OpView::Cast { op: CastOp::IntCast, operand: params[6], ty: IrType::Int64 },
    ]
}

/// The units asked for a length `len`, from position `n` on: the unit
/// size, the length converted, and its whole units plus its remainder.
pub open spec fn grow_request_ops(n: nat, len: usize, ty: IrType) -> Seq<OpView> {
    seq![
        OpView::Const { value: Constant::Int { ty, value: LinearMemoryTypeContext::UNIT_SIZE as u64, sign_extend: false } },
        OpView::Cast { op: CastOp::IntCast, operand: len, ty },
        OpView::Binary { op: BinaryOp::UDiv, lhs: (n + 1) as usize, rhs: n as usize },
        OpView::Binary { op: BinaryOp::URem, lhs: (n + 1) as usize, rhs: n as usize },
        OpView::Binary { op: BinaryOp::Add, lhs: (n + 2) as usize, rhs: (n + 3) as usize },
        OpView::Cast { op: CastOp::IntCast, operand: (n + 4) as usize, ty },
    ]
}

/// After the request from position `n` on: the call of the grow function
/// `grow` with it, and the answer scaled by the unit size.
pub open spec fn grow_call_ops(n: nat, grow: usize) -> Seq<OpView> {
    seq![
        OpView::FunctionRef { function: grow },
        OpView::Call { callee: (n + 6) as usize, args: seq![(n + 5) as usize] },
        OpView::Binary { op: BinaryOp::Mul, lhs: (n + 7) as usize, rhs: n as usize },
    ]
}

/// From position `at` on: the value just before converted to `ty`, and returned.
pub open spec fn ret_ops(at: nat, ty: IrType) -> Seq<OpView> {
    seq![
        OpView::Cast { op: CastOp::IntCast, operand: (at - 1) as usize, ty },
        OpView::Ret { value: at as usize },
    ]
}

/// What `mmap2` does from position `q` on, with the syscall's parameters
/// `params` (the number first): the real address of its first argument in
/// linear memory 0 (through `memory`), the other arguments converted, as
/// many units asked of that memory's grow function `grow` as the length
/// holds whole units plus the remainder in bytes, and the old size scaled
/// back to bytes returned.
pub open spec fn mmap2_ops(q: nat, params: Seq<usize>, ty: IrType, memory: usize, grow: usize) -> Seq<OpView> {
    real_address_ops(q, params[1], memory) + mmap2_convert_ops(params) + grow_request_ops(q + 8, (q + 3) as usize, ty)
        + grow_call_ops(q + 8, grow) + ret_ops(q + 17, ty)
}

/// A case at position `p` of a syscall function with parameters `params`
/// (the number first): its test, then in its own block what it does, then
/// the block where the next test follows entered.
pub open spec fn case_ops(p: nat, case: SysCallCase, params: Seq<usize>, ty: IrType, memory: usize, grow: usize) -> Seq<OpView> {
    match case.action {
        SysCallAction::Mmap2 => test_ops(p, case.code, params[0], ty) + mmap2_ops(p + 6, params, ty, memory, grow)
            + seq![OpView::PositionAtEnd { block: (p + 3) as usize }],
    }
}

/// The number of operations of a case.
pub open spec fn case_len() -> nat {
    26
}

/// At position `at` of the body stands the case `case`, its memory global
/// being that of linear memory 0 and its grow function that memory's.
pub open spec fn case_at(bc: &BuildContext, at: int, case: SysCallCase, params: Seq<usize>, ty: IrType) -> bool {
    &&& bc.global_ref_at(at + 6, memory_name(linear_prefix(), 0))
    &&& bc.function_ref_at(at + 20, grow_function_name(linear_prefix(), 0))
    &&& bc.ops_at(at, case_ops(at as nat, case, params, ty, bc.ops()[at + 6]->global, bc.ops()[at + 20]->function))
}

/// The function being built is named `name`.
pub open spec fn building(bc: &BuildContext, name: Seq<char>) -> bool {
    bc.function matches Some(f) && f < bc.module.functions@.len() && bc.module.function_names()[f as int] == name
}

/// The function being built was declared with `count` parameters of type
/// `ty`, returning `ty`.
pub open spec fn declared_with(bc: &BuildContext, count: nat, ty: IrType) -> bool {
    bc.function matches Some(f) && f < bc.module.functions@.len() && {
        let t = bc.module.functions@[f as int].type_index as int;
        &&& 0 <= t < bc.module.types@.len()
        &&& bc.module.types@[t].ret == ty
        &&& bc.module.types@[t].params@ == Seq::new(count, |i: int| ty)
        &&& !bc.module.types@[t].var_arg
    }
}

/// The body ends with a syscall function without cases that takes
/// `count` parameters.
pub open spec fn ends_with_plain_syscall(bc: &BuildContext, count: nat, ty: IrType) -> bool {
    let e = bc.ops().len() - (count + 4);
    &&& e >= 0
    &&& bc.ops_at(e, head_ops(e as nat, count) + ret_zero_ops((e + count + 2) as nat, ty))
}

/// The body ends with a syscall function of `count` parameters with the
/// one case `case`.
pub open spec fn ends_with_one_case_syscall(bc: &BuildContext, count: nat, case: SysCallCase, ty: IrType) -> bool {
    let e = bc.ops().len() - (count + 4 + case_len());
    &&& e >= 0
    &&& bc.ops_at(e, head_ops(e as nat, count))
    &&& case_at(bc, e + count + 2, case, param_ids((e + 2) as nat, count), ty)
    &&& bc.ops_at(e + count + 2 + case_len(), ret_zero_ops((e + count + 2 + case_len()) as nat, ty))
}

/// The function named `name` has as its body a syscall function without
/// cases that takes `count` parameters of type `ty`: a state in which that
/// function was built stands as its body in `bc`.
pub open spec fn syscall_stored(bc: &BuildContext, name: Seq<char>, count: nat, ty: IrType) -> bool {
    exists|b: BuildContext| #[trigger] ends_with_plain_syscall(&b, count, ty)
        && (b.function matches Some(f) && f < bc.module.functions@.len()
        && bc.module.function_names()[f as int] == name
        && bc.taken_up(f) == b.ops())
}

/// A case stays as the body grows.
proof fn lemma_case_kept(b: &BuildContext, c: &BuildContext, k: nat, at: int, case: SysCallCase, params: Seq<usize>, ty: IrType)
    requires
        c.grown(b, k),
        case_at(b, at, case, params, ty),
    ensures
        case_at(c, at, case, params, ty),
{
    BuildContext::lemma_refs_kept(b, c, k, at + 6);
    BuildContext::lemma_refs_kept(b, c, k, at + 20);
    BuildContext::lemma_kept(b, c, k, at, case_ops(at as nat, case, params, ty, b.ops()[at + 6]->global, b.ops()[at + 20]->function));
}

/// The grow function of linear memory 0 is none of the syscall functions:
/// its name ends in `0`, theirs in their number of arguments.
proof fn lemma_grow_is_no_syscall(name: Seq<char>)
    requires
        name.len() > 0,
        name.last() != '0',
    ensures
        grow_function_name(linear_prefix(), 0) != wasm_function_name(name),
{
    assert(crate::text::decimal(0) == seq!['0']);
    assert(grow_function_name(linear_prefix(), 0).last() == '0');
    assert(wasm_function_name(name).last() == name.last());
}

/// Declares the syscall function `name` with `count` parameters and starts
/// building it: its entry block and its parameters.  Gives the parameters.
fn start_syscall<T: WasmIntType>(bc: &mut BuildContext, name: &str, count: u32, int_type: IrType) -> (params: Vec<usize>)
    requires
        old(bc).wf(),
    ensures
        final(bc).keeps_symbols(old(bc)),
        building(final(bc), wasm_function_name(name@)),
        !old(bc).module.function_names().contains(wasm_function_name(name@)) ==> declared_with(final(bc), count as nat, int_type),
        final(bc).module.function_names() == old(bc).module.function_names().push(wasm_function_name(name@))
            || final(bc).module.function_names() == old(bc).module.function_names(),
        final(bc).ops().len() >= count + 2,
        ({
            let e = final(bc).ops().len() - (count + 2);
            &&& final(bc).ops_at(e, head_ops(e as nat, count as nat))
            &&& params@ == param_ids((e + 2) as nat, count as nat)
        }),
        final(bc).keeps_other_bodies(old(bc)),
{
    let mut types = Vec::new();
    let mut i: u32 = 0;
    while i < count
        invariant
            i <= count,
            types@ == Seq::new(i as nat, |j: int| int_type),
        decreases count - i,
    {
        types.push(int_type);
        i = i + 1;
        assert(types@ =~= Seq::new(i as nat, |j: int| int_type));
    }
    let types_before = bc.module.types.len();
    let f = bc.set_declare_function(WasmCompiler::<T>::wasm_function_name(name), FunctionType { ret: int_type, params: types, var_arg: false });
    let ghost declared = *bc;
    let entry = bc.build_function(f);
    let ghost started = *bc;
    let mut params: Vec<usize> = Vec::new();
    let mut i: u32 = 0;
    while i < count
        invariant
            i <= count,
            bc.emitted(&started, param_ops(i as nat)),
            params@ == param_ids(started.ops().len(), i as nat),
            started.wf(),
        decreases count - i,
    {
        let ghost before = *bc;
        let id = bc.emit(Op::Param { index: i });
        params.push(id);
        proof {
            BuildContext::lemma_emitted_trans(&started, &before, bc, param_ops(i as nat), seq![OpView::Param { index: i }]);
            assert(param_ops(i as nat) + seq![OpView::Param { index: i }] =~= param_ops((i + 1) as nat));
            assert(params@ =~= param_ids(started.ops().len(), (i + 1) as nat));
        }
        i = i + 1;
    }
    proof {
        let e = bc.ops().len() - (count + 2);
        assert(e == entry);
        assert(bc.ops().subrange(e, e + count + 2) =~= head_ops(e as nat, count as nat));
        assert(bc.module.function_names() =~= declared.module.function_names());
        if !old(bc).module.function_names().contains(wasm_function_name(name@)) {
            assert(f == old(bc).module.functions@.len());
            assert(declared.module.functions@[f as int].type_index == types_before);
            assert(bc.module.functions@[f as int] == declared.module.functions@[f as int]);
            assert(bc.module.types@[old(bc).module.types@.len() as int] == declared.module.types@.last());
        }
        assert forall|g: usize| g < old(bc).module.functions@.len() && bc.function != Some(g)
            implies #[trigger] bc.taken_up(g) == old(bc).taken_up(g) by {
            assert(declared.module.bodies@[g as int] == old(bc).module.bodies@[g as int]) by {
                if !old(bc).module.function_names().contains(wasm_function_name(name@)) {
                    assert(declared.module.bodies@.drop_last()[g as int] == old(bc).module.bodies@[g as int]);
                }
            }
            assert(started.taken_up(g) == declared.taken_up(g));
        }
    }
    params
}

/// Returns `ret` converted to `int_type`.
fn build_ret(bc: &mut BuildContext, ret: usize, int_type: IrType)
    requires
        ret + 1 == old(bc).body@.len(),
    ensures
        final(bc).emitted(old(bc), ret_ops((ret + 1) as nat, int_type)),
{
    let value = bc.emit(Op::Cast { op: CastOp::IntCast, operand: ret, ty: int_type });
    bc.emit(Op::Ret { value });
    proof {
        assert(bc.ops() =~= old(bc).ops() + ret_ops((ret + 1) as nat, int_type));
    }
}

/// The real address of `addr` in linear memory 0.
fn build_get_real_address<T: WasmIntType>(bc: &mut BuildContext, linear_memory_compiler: &LinearMemoryCompiler<T>, addr: usize) -> (r: usize)
    requires
        old(bc).wf(),
    ensures
        final(bc).extends(old(bc)),
        final(bc).keeps_initial_values(old(bc)),
        final(bc).ops().len() == old(bc).ops().len() + 3,
        final(bc).body@.len() == old(bc).body@.len() + 3,
        final(bc).ops().take(old(bc).ops().len() as int) == old(bc).ops(),
        final(bc).global_ref_at(old(bc).ops().len() as int, memory_name(linear_prefix(), 0)),
        final(bc).ops()[old(bc).ops().len() + 1 as int] == (OpView::Load { ptr: old(bc).ops().len() as usize }),
        final(bc).ops()[old(bc).ops().len() + 2 as int] == (OpView::Gep { ptr: (old(bc).ops().len() + 1) as usize, indices: seq![addr] }),
        r == old(bc).ops().len() + 2,
        final(bc).module.functions == old(bc).module.functions,
{
    linear_memory_compiler.build_get_real_address(bc, 0, addr)
}

/// Maps `len` bytes for `mmap2`: linear memory 0 grows by the whole units
/// that `len` holds plus the remainder, and the old size in bytes is the
/// result.  The address, protection, flags, descriptor and offset are taken
/// as they are; `syscall6` is the function being built.
#[verifier::rlimit(30)]
pub fn build_mmap2<T: WasmIntType>(
    bc: &mut BuildContext,
    linear_memory_compiler: &LinearMemoryCompiler<T>,
    syscall6: usize,
    addr: usize,
    len: usize,
    prot: usize,
    flags: usize,
    fd: usize,
    off_t: usize,
) -> (r: Result<usize, RuntimeError>)
    requires
        old(bc).wf(),
    ensures
        r is Err <==> !old(bc).module.function_names().contains(grow_function_name(linear_prefix(), 0)),
        r matches Err(e) ==> e@ == (ErrorView::NoSuchLLVMFunction { name: grow_function_name(linear_prefix(), 0) }),
        final(bc).module == old(bc).module,
        final(bc).function == old(bc).function,
        r is Err ==> final(bc).ops() == old(bc).ops() + grow_request_ops(old(bc).ops().len(), len, spec_int_wasm_ptr::<T>()),
        r matches Ok(v) ==> {
            let n = old(bc).ops().len() as int;
            &&& v == n + 8
            &&& final(bc).grown(old(bc), 9)
            &&& final(bc).body@.len() == old(bc).body@.len() + 9
            &&& final(bc).function_ref_at(n + 6, grow_function_name(linear_prefix(), 0))
            &&& final(bc).ops_at(n, grow_request_ops(n as nat, len, spec_int_wasm_ptr::<T>())
                + grow_call_ops(n as nat, final(bc).ops()[n + 6]->function))
        },
{
    let ghost n = old(bc).ops().len() as int;
    let ty = int_wasm_ptr::<T>();
    let ghost six = grow_request_ops(n as nat, len, ty);
    let unit_size = bc.emit(Op::Const { value: Constant::Int { ty, value: LinearMemoryTypeContext::UNIT_SIZE as u64, sign_extend: false } });
    let length = bc.emit(Op::Cast { op: CastOp::IntCast, operand: len, ty });
    let quotient = bc.emit(Op::Binary { op: BinaryOp::UDiv, lhs: length, rhs: unit_size });
    let remainder = bc.emit(Op::Binary { op: BinaryOp::URem, lhs: length, rhs: unit_size });
    let sum = bc.emit(Op::Binary { op: BinaryOp::Add, lhs: quotient, rhs: remainder });
    let requested = bc.emit(Op::Cast { op: CastOp::IntCast, operand: sum, ty });
    let ghost before_grow = *bc;
    proof {
        assert(before_grow.ops() =~= old(bc).ops() + six);
    }
    let grow_ret = match linear_memory_compiler.build_grow(bc, requested, 0) {
        Ok(c) => c,
        Err(e) => {
            return Err(e);
        },
    };
    let ghost after_grow = *bc;
    let r = bc.emit(Op::Binary { op: BinaryOp::Mul, lhs: grow_ret, rhs: unit_size });
    proof {
        assert(before_grow.ops().take(n) =~= old(bc).ops());
        assert(before_grow.ops().subrange(n, n + 6) =~= six);
        assert(bc.ops().take(after_grow.ops().len() as int) =~= after_grow.ops());
        BuildContext::lemma_grown_trans(old(bc), &before_grow, &after_grow, 6, 2);
        BuildContext::lemma_grown_trans(old(bc), &after_grow, bc, 8, 1);
        BuildContext::lemma_grown_trans(&before_grow, &after_grow, bc, 2, 1);
        BuildContext::lemma_kept(&before_grow, bc, 3, n, six);
        BuildContext::lemma_refs_kept(&after_grow, bc, 1, n + 6);
        BuildContext::lemma_refs_kept(&after_grow, bc, 1, n + 7);
        let call = grow_call_ops(n as nat, bc.ops()[n + 6]->function);
        assert(bc.ops().subrange(n + 6, n + 9) =~= call);
        BuildContext::lemma_ops_at_concat(bc, n, six, call);
    }
    Ok(r)
}

/// What a case of `mmap2` at position `p` emits before it finds that there
/// is no grow function: the test of its number, the real address, the
/// converted parameters and the computation of the pages to ask for.
pub open spec fn failed_mmap2_case_ops(p: nat, code: u64, params: Seq<usize>, ty: IrType, memory: usize) -> Seq<OpView> {
    test_ops(p, code, params[0], ty) + real_address_ops(p + 6, params[1], memory) + mmap2_convert_ops(params)
        + grow_request_ops(p + 14, (p + 9) as usize, ty)
}

/// Emits what `mmap2` does, with the syscall's parameters `params`.
#[verifier::rlimit(40)]
fn build_mmap2_case<T: WasmIntType>(bc: &mut BuildContext, function: usize, int_type: IrType, params: &[usize], linear_memory_compiler: &LinearMemoryCompiler<T>) -> (r: Result<(), RuntimeError>)
    requires
        old(bc).wf(),
        params@.len() == 7,
        int_type == spec_int_wasm_ptr::<T>(),
    ensures
        final(bc).extends(old(bc)),
        final(bc).keeps_initial_values(old(bc)),
        final(bc).module.function_names() == old(bc).module.function_names(),
        r is Err <==> !old(bc).module.function_names().contains(grow_function_name(linear_prefix(), 0)),
        r matches Err(e) ==> e@ == (ErrorView::NoSuchLLVMFunction { name: grow_function_name(linear_prefix(), 0) }),
        r is Err ==> {
            let q = old(bc).ops().len();
            &&& final(bc).global_ref_at(q as int, memory_name(linear_prefix(), 0))
            &&& final(bc).ops() == old(bc).ops() + real_address_ops(q, params@[1], final(bc).ops()[q as int]->global)
                + mmap2_convert_ops(params@) + grow_request_ops(q + 8, (q + 3) as usize, int_type)
        },
        r is Ok ==> {
            let q = old(bc).ops().len() as int;
            &&& final(bc).grown(old(bc), 19)
            &&& final(bc).global_ref_at(q, memory_name(linear_prefix(), 0))
            &&& final(bc).function_ref_at(q + 14, grow_function_name(linear_prefix(), 0))
            &&& final(bc).ops_at(q, mmap2_ops(q as nat, params@, int_type, final(bc).ops()[q]->global, final(bc).ops()[q + 14]->function))
        },
{
    let addr = build_get_real_address(bc, linear_memory_compiler, params[1]);
    let ghost addressed = *bc;
    let len = bc.emit(Op::Cast { op: CastOp::IntCast, operand: params[2], ty: IrType::IntPtr });
    let prot = bc.emit(Op::Cast { op: CastOp::IntCast, operand: params[3], ty: IrType::Int32 });
    let flags = bc.emit(Op::Cast { op: CastOp::IntCast, operand: params[4], ty: IrType::Int32 });
    let fd = bc.emit(Op::Cast { op: CastOp::IntCast, operand: params[5], ty: IrType::Int32 });
    let off_t = bc.emit(Op::Cast { op: CastOp::IntCast, operand: params[6], ty: IrType::Int64 });
    let ghost converted = *bc;
    let ret = match build_mmap2(bc, linear_memory_compiler, function, addr, len, prot, flags, fd, off_t) {
        Ok(v) => v,
        Err(e) => {
            proof {
                let q = old(bc).ops().len();
                let g = addressed.ops()[q as int]->global;
                assert(converted.ops() =~= addressed.ops() + mmap2_convert_ops(params@));
                assert(addressed.ops() =~= old(bc).ops() + real_address_ops(q, params@[1], g));
                assert(bc.ops()[q as int] == addressed.ops()[q as int]);
                assert(bc.ops() =~= old(bc).ops() + real_address_ops(q, params@[1], g)
                    + mmap2_convert_ops(params@) + grow_request_ops(q + 8, (q + 3) as usize, int_type));
            }
            return Err(e);
        },
    };
    let ghost mapped = *bc;
    build_ret(bc, ret, int_type);
    proof {
        let q = old(bc).ops().len() as int;
        let ops = bc.ops();
        let g = addressed.ops()[q]->global;
        let f = mapped.ops()[q + 14]->function;
        let piece1 = real_address_ops(q as nat, params@[1], g);
        let piece2 = mmap2_convert_ops(params@);
        let piece3 = grow_request_ops((q + 8) as nat, (q + 3) as usize, int_type) + grow_call_ops((q + 8) as nat, f);
        let piece4 = ret_ops((q + 17) as nat, int_type);
        assert(addressed.ops().subrange(q, q + 3) =~= piece1);
        assert(converted.ops() =~= addressed.ops() + piece2);
        assert(converted.ops().take(addressed.ops().len() as int) =~= addressed.ops());
        assert(converted.ops().subrange(q + 3, q + 8) =~= piece2);
        assert(ops.take(mapped.ops().len() as int) =~= mapped.ops());
        assert(ops.subrange(q + 17, q + 19) =~= piece4);
        BuildContext::lemma_grown_trans(&converted, &mapped, bc, 9, 2);
        BuildContext::lemma_grown_trans(&addressed, &converted, bc, 5, 11);
        BuildContext::lemma_grown_trans(old(bc), &addressed, bc, 3, 16);
        BuildContext::lemma_kept(&addressed, bc, 16, q, piece1);
        BuildContext::lemma_kept(&converted, bc, 11, q + 3, piece2);
        BuildContext::lemma_kept(&mapped, bc, 2, q + 8, piece3);
        BuildContext::lemma_refs_kept(&addressed, bc, 16, q);
        BuildContext::lemma_refs_kept(&mapped, bc, 2, q + 14);
        BuildContext::lemma_ops_at_concat(bc, q, piece1, piece2);
        BuildContext::lemma_ops_at_concat(bc, q, piece1 + piece2, piece3);
        BuildContext::lemma_ops_at_concat(bc, q, piece1 + piece2 + piece3, piece4);
        assert(piece1 + piece2 + piece3 + piece4 =~= mmap2_ops(q as nat, params@, int_type, g, f));
    }
    Ok(())
}

/// Emits a case at the end of the body: the test of its number against the
/// first parameter, then what it does in its own block, and positions after.
#[verifier::rlimit(80)]
fn build_syscall_case<T: WasmIntType>(bc: &mut BuildContext, function: usize, case: SysCallCase, int_type: IrType, params: &[usize], linear_memory_compiler: &LinearMemoryCompiler<T>) -> (r: Result<(), RuntimeError>)
    requires
        old(bc).wf(),
        params@.len() == 7,
        int_type == spec_int_wasm_ptr::<T>(),
    ensures
        final(bc).extends(old(bc)),
        final(bc).keeps_initial_values(old(bc)),
        final(bc).module.function_names() == old(bc).module.function_names(),
        r is Err <==> !old(bc).module.function_names().contains(grow_function_name(linear_prefix(), 0)),
        r matches Err(e) ==> e@ == (ErrorView::NoSuchLLVMFunction { name: grow_function_name(linear_prefix(), 0) }),
        r is Err ==> final(bc).global_ref_at(old(bc).ops().len() + 6int, memory_name(linear_prefix(), 0))
            && final(bc).ops() == old(bc).ops() + failed_mmap2_case_ops(old(bc).ops().len(), case.code, params@, int_type,
                final(bc).ops()[old(bc).ops().len() + 6int]->global),
        r is Ok ==> final(bc).grown(old(bc), case_len())
            && case_at(final(bc), old(bc).ops().len() as int, case, params@, int_type),
{
    let ghost p = old(bc).ops().len() as int;
    let code = bc.emit(Op::Const { value: Constant::Int { ty: int_type, value: case.code, sign_extend: false } });
    let cond = bc.emit(Op::ICmp { predicate: IntPredicate::Eq, lhs: code, rhs: params[0] });
    let then_block = bc.emit(Op::AppendBlock);
    let else_block = bc.emit(Op::AppendBlock);
    bc.emit(Op::CondBr { cond, then_block, else_block });
    bc.emit(Op::PositionAtEnd { block: then_block });
    let ghost tested = *bc;
    proof {
        assert(tested.ops() =~= old(bc).ops() + test_ops(p as nat, case.code, params@[0], int_type));
    }
    match case.action {
        SysCallAction::Mmap2 => {
            match build_mmap2_case(bc, function, int_type, params, linear_memory_compiler) {
                Ok(()) => {},
                Err(e) => {
                    proof {
                        let n = old(bc).ops().len();
                        let test = test_ops(n, case.code, params@[0], int_type);
                        let g = bc.ops()[n + 6int]->global;
                        assert(bc.ops() =~= old(bc).ops() + failed_mmap2_case_ops(n, case.code, params@, int_type, g));
                    }
                    return Err(e);
                },
            }
        },
    }
    let ghost cased = *bc;
    bc.emit(Op::PositionAtEnd { block: else_block });
    proof {
        let ops = bc.ops();
        assert(tested.ops().take(p) =~= old(bc).ops());
        assert(ops.take(cased.ops().len() as int) =~= cased.ops());
        BuildContext::lemma_grown_trans(&tested, &cased, bc, 19, 1);
        BuildContext::lemma_grown_trans(old(bc), &tested, bc, 6, 20);
        BuildContext::lemma_refs_kept(&cased, bc, 1, p + 6);
        BuildContext::lemma_refs_kept(&cased, bc, 1, p + 20);
        let body = mmap2_ops((p + 6) as nat, params@, int_type, ops[p + 6]->global, ops[p + 20]->function);
        BuildContext::lemma_kept(&cased, bc, 1, p + 6, body);
        let test = test_ops(p as nat, case.code, params@[0], int_type);
        let last = seq![OpView::PositionAtEnd { block: (p + 3) as usize }];
        assert(tested.ops().subrange(p, p + 6) =~= test);
        BuildContext::lemma_kept(&tested, bc, 20, p, test);
        assert(ops =~= cased.ops() + last);
        assert(ops.subrange(p + 25, p + 26) =~= last);
        BuildContext::lemma_ops_at_concat(bc, p, test, body);
        BuildContext::lemma_ops_at_concat(bc, p, test + body, last);
    }
    Ok(())
}

/// Emits the cases, one after the other, and then the return of 0 that
/// follows when none of their numbers was asked for.
fn build_syscall_internal<T: WasmIntType>(bc: &mut BuildContext, function: usize, cases: &[SysCallCase], int_type: IrType, params: &[usize], linear_memory_compiler: Option<&LinearMemoryCompiler<T>>) -> (r: Result<(), RuntimeError>)
    requires
        old(bc).wf(),
        cases@.len() > 0 ==> linear_memory_compiler is Some && params@.len() == 7,
        int_type == spec_int_wasm_ptr::<T>(),
    ensures
        final(bc).extends(old(bc)),
        final(bc).keeps_initial_values(old(bc)),
        final(bc).module.function_names() == old(bc).module.function_names(),
        r is Err <==> cases@.len() > 0 && !old(bc).module.function_names().contains(grow_function_name(linear_prefix(), 0)),
        r matches Err(e) ==> e@ == (ErrorView::NoSuchLLVMFunction { name: grow_function_name(linear_prefix(), 0) }),
        r is Err ==> {
            let n = old(bc).ops().len();
            &&& final(bc).global_ref_at(n + 6int, memory_name(linear_prefix(), 0))
            &&& final(bc).ops() == old(bc).ops() + failed_mmap2_case_ops(n, cases@[0].code, params@, int_type, final(bc).ops()[n + 6int]->global)
        },
        r is Ok ==> {
            let n = old(bc).ops().len();
            let end = n + case_len() * cases@.len();
            &&& final(bc).grown(old(bc), case_len() * cases@.len() + 2)
            &&& forall|j: int| 0 <= j < cases@.len() ==> case_at(final(bc), n + case_len() * j, #[trigger] cases@[j], params@, int_type)
            &&& final(bc).ops_at(end as int, ret_zero_ops(end as nat, int_type))
        },
{
    let ghost start = *bc;
    proof {
        assert(bc.ops().take(bc.ops().len() as int) =~= bc.ops());
        assert((case_len() * 0) as nat == 0);
    }
    let mut i: usize = 0;
    while i < cases.len()
        invariant
            start == *old(bc),
            start.wf(),
            i <= cases@.len(),
            cases@.len() > 0 ==> linear_memory_compiler is Some && params@.len() == 7,
            int_type == spec_int_wasm_ptr::<T>(),
            bc.grown(&start, (case_len() * i) as nat),
            bc.module.function_names() == start.module.function_names(),
            i > 0 ==> start.module.function_names().contains(grow_function_name(linear_prefix(), 0)),
            forall|j: int| 0 <= j < i ==> case_at(bc, start.ops().len() + case_len() * j, #[trigger] cases@[j], params@, int_type),
        decreases cases@.len() - i,
    {
        let ghost before = *bc;
        let compiler = match linear_memory_compiler {
            Some(c) => c,
            None => {
                assert(false);
                return Ok(());
            },
        };
        match build_syscall_case(bc, function, cases[i], int_type, params, compiler) {
            Ok(()) => {},
            Err(e) => {
                proof {
                    assert(i == 0);
                    assert(before.ops() =~= start.ops());
                }
                return Err(e);
            },
        }
        proof {
            BuildContext::lemma_grown_trans(&start, &before, bc, (case_len() * i) as nat, case_len());
            assert(case_len() * i + case_len() == case_len() * (i + 1));
            assert forall|j: int| 0 <= j < i + 1 implies case_at(bc, start.ops().len() + case_len() * j, #[trigger] cases@[j], params@, int_type) by {
                if j < i {
                    lemma_case_kept(&before, bc, case_len(), start.ops().len() + case_len() * j, cases@[j], params@, int_type);
                }
            }
        }
        i = i + 1;
    }
    let ghost before = *bc;
    let zero = bc.emit(Op::Const { value: Constant::Int { ty: int_type, value: 0, sign_extend: false } });
    bc.emit(Op::Ret { value: zero });
    proof {
        let n = start.ops().len();
        let end = n + case_len() * cases@.len();
        let tail = ret_zero_ops(end as nat, int_type);
        assert(bc.ops() =~= before.ops() + tail);
        BuildContext::lemma_emitted_grown(&before, bc, tail);
        BuildContext::lemma_grown_trans(&start, &before, bc, case_len() * cases@.len(), 2);
        assert forall|j: int| 0 <= j < cases@.len() implies case_at(bc, n + case_len() * j, #[trigger] cases@[j], params@, int_type) by {
            lemma_case_kept(&before, bc, 2, n + case_len() * j, cases@[j], params@, int_type);
        }
    }
    Ok(())
}

/// Builds `__syscall1`: it takes the number and one argument and answers 0.
fn build_syscall1<T: WasmIntType>(bc: &mut BuildContext, int_type: IrType, linear_memory_compiler: Option<&LinearMemoryCompiler<T>>) -> (r: Result<(), RuntimeError>)
    requires
        old(bc).wf(),
        int_type == spec_int_wasm_ptr::<T>(),
    ensures
        r is Ok,
        final(bc).keeps_symbols(old(bc)),
        final(bc).module.function_names().contains(wasm_function_name("__syscall1"@)),
        building(final(bc), wasm_function_name("__syscall1"@)),
        !old(bc).module.function_names().contains(wasm_function_name("__syscall1"@)) ==> declared_with(final(bc), 2, int_type),
        ends_with_plain_syscall(final(bc), 2, int_type),
        final(bc).module.function_names() == old(bc).module.function_names().push(wasm_function_name("__syscall1"@))
            || final(bc).module.function_names() == old(bc).module.function_names(),
        final(bc).keeps_other_bodies(old(bc)),
{
    proof {
        reveal_strlit("__syscall1");
    }
    let params = start_syscall::<T>(bc, "__syscall1", 2, int_type);
    let ghost started = *bc;
    let function = match bc.function {
        Some(f) => f,
        None => 0,
    };
    let cases: Vec<SysCallCase> = Vec::new();
    build_plain_syscall_end(bc, function, cases.as_slice(), int_type, params.as_slice(), linear_memory_compiler, 2);
    proof {
        BuildContext::lemma_extends_keeps_other_bodies(&started, bc);
        BuildContext::lemma_keeps_other_bodies_trans(old(bc), &started, bc);
    }
    Ok(())
}

/// Ends a syscall function of `count` parameters without cases.
fn build_plain_syscall_end<T: WasmIntType>(bc: &mut BuildContext, function: usize, cases: &[SysCallCase], int_type: IrType, params: &[usize], linear_memory_compiler: Option<&LinearMemoryCompiler<T>>, count: u32)
    requires
        old(bc).wf(),
        cases@.len() == 0,
        int_type == spec_int_wasm_ptr::<T>(),
        old(bc).ops().len() >= count + 2,
        ({
            let e = old(bc).ops().len() - (count + 2);
            old(bc).ops_at(e, head_ops(e as nat, count as nat))
        }),
    ensures
        final(bc).extends(old(bc)),
        final(bc).keeps_initial_values(old(bc)),
        final(bc).module.function_names() == old(bc).module.function_names(),
        ends_with_plain_syscall(final(bc), count as nat, int_type),
{
    let ghost before = *bc;
    let r = build_syscall_internal(bc, function, cases, int_type, params, linear_memory_compiler);
    proof {
        let n = before.ops().len();
        let e = n - (count + 2);
        assert(case_len() * 0 == 0);
        BuildContext::lemma_kept(&before, bc, 2, e, head_ops(e as nat, count as nat));
        let all = head_ops(e as nat, count as nat) + ret_zero_ops((e + count + 2) as nat, int_type);
        assert(bc.ops().subrange(e, e + count + 4) =~= all) by {
            assert forall|i: int| 0 <= i < count + 4 implies bc.ops().subrange(e, e + count + 4)[i] == all[i] by {
                if i < count + 2 {
                    assert(bc.ops().subrange(e, e + count + 2)[i] == head_ops(e as nat, count as nat)[i]);
                } else {
                    assert(bc.ops().subrange(n as int, n + 2int)[i - count - 2] == ret_zero_ops(n as nat, int_type)[i - count - 2]);
                }
            }
        }
    }
}

/// Builds `__syscall3`: it takes the number and three arguments and answers 0.
fn build_syscall3<T: WasmIntType>(bc: &mut BuildContext, int_type: IrType, linear_memory_compiler: Option<&LinearMemoryCompiler<T>>) -> (r: Result<(), RuntimeError>)
    requires
        old(bc).wf(),
        int_type == spec_int_wasm_ptr::<T>(),
    ensures
        r is Ok,
        final(bc).keeps_symbols(old(bc)),
        final(bc).module.function_names().contains(wasm_function_name("__syscall3"@)),
        building(final(bc), wasm_function_name("__syscall3"@)),
        !old(bc).module.function_names().contains(wasm_function_name("__syscall3"@)) ==> declared_with(final(bc), 4, int_type),
        ends_with_plain_syscall(final(bc), 4, int_type),
        final(bc).module.function_names() == old(bc).module.function_names().push(wasm_function_name("__syscall3"@))
            || final(bc).module.function_names() == old(bc).module.function_names(),
        final(bc).keeps_other_bodies(old(bc)),
{
    proof {
        reveal_strlit("__syscall3");
    }
    let params = start_syscall::<T>(bc, "__syscall3", 4, int_type);
    let ghost started = *bc;
    let function = match bc.function {
        Some(f) => f,
        None => 0,
    };
    let cases: Vec<SysCallCase> = Vec::new();
    build_plain_syscall_end(bc, function, cases.as_slice(), int_type, params.as_slice(), linear_memory_compiler, 4);
    proof {
        BuildContext::lemma_extends_keeps_other_bodies(&started, bc);
        BuildContext::lemma_keeps_other_bodies_trans(old(bc), &started, bc);
    }
    Ok(())
}

/// Builds `__syscall5`: it takes the number and five arguments and answers 0.
fn build_syscall5<T: WasmIntType>(bc: &mut BuildContext, int_type: IrType, linear_memory_compiler: Option<&LinearMemoryCompiler<T>>) -> (r: Result<(), RuntimeError>)
    requires
        old(bc).wf(),
        int_type == spec_int_wasm_ptr::<T>(),
    ensures
        r is Ok,
        final(bc).keeps_symbols(old(bc)),
        final(bc).module.function_names().contains(wasm_function_name("__syscall5"@)),
        building(final(bc), wasm_function_name("__syscall5"@)),
        !old(bc).module.function_names().contains(wasm_function_name("__syscall5"@)) ==> declared_with(final(bc), 6, int_type),
        ends_with_plain_syscall(final(bc), 6, int_type),
        final(bc).module.function_names() == old(bc).module.function_names().push(wasm_function_name("__syscall5"@))
            || final(bc).module.function_names() == old(bc).module.function_names(),
        final(bc).keeps_other_bodies(old(bc)),
{
    proof {
        reveal_strlit("__syscall5");
    }
    let params = start_syscall::<T>(bc, "__syscall5", 6, int_type);
    let ghost started = *bc;
    let function = match bc.function {
        Some(f) => f,
        None => 0,
    };
    let cases: Vec<SysCallCase> = Vec::new();
    build_plain_syscall_end(bc, function, cases.as_slice(), int_type, params.as_slice(), linear_memory_compiler, 6);
    proof {
        BuildContext::lemma_extends_keeps_other_bodies(&started, bc);
        BuildContext::lemma_keeps_other_bodies_trans(old(bc), &started, bc);
    }
    Ok(())
}

/// Builds `__syscall6`: it takes the number and six arguments.  With a
/// linear memory compiler it answers `mmap2` by growing linear memory 0,
/// and fails when that memory's grow function is not declared; any other
/// number, or any number without a linear memory compiler, answers 0.
fn build_syscall6<T: WasmIntType>(bc: &mut BuildContext, int_type: IrType, linear_memory_compiler: Option<&LinearMemoryCompiler<T>>) -> (r: Result<(), RuntimeError>)
    requires
        old(bc).wf(),
        int_type == spec_int_wasm_ptr::<T>(),
    ensures
        final(bc).keeps_symbols(old(bc)),
        r is Err <==> linear_memory_compiler is Some
            && !old(bc).module.function_names().contains(grow_function_name(linear_prefix(), 0)),
        r matches Err(e) ==> e@ == (ErrorView::NoSuchLLVMFunction { name: grow_function_name(linear_prefix(), 0) }),
        final(bc).module.function_names().contains(wasm_function_name("__syscall6"@)),
        building(final(bc), wasm_function_name("__syscall6"@)),
        !old(bc).module.function_names().contains(wasm_function_name("__syscall6"@)) ==> declared_with(final(bc), 7, int_type),
        final(bc).module.function_names() == old(bc).module.function_names().push(wasm_function_name("__syscall6"@))
            || final(bc).module.function_names() == old(bc).module.function_names(),
        r is Ok && linear_memory_compiler is None ==> ends_with_plain_syscall(final(bc), 7, int_type),
        r is Ok && linear_memory_compiler is Some ==> ends_with_one_case_syscall(final(bc), 7,
            SysCallCase { code: WASM_SYS_MMAP2, action: SysCallAction::Mmap2 }, int_type),
        final(bc).keeps_other_bodies(old(bc)),
{
    proof {
        reveal_strlit("__syscall6");
        assert("__syscall6"@.last() == '6');
        lemma_grow_is_no_syscall("__syscall6"@);
    }
    let params = start_syscall::<T>(bc, "__syscall6", 7, int_type);
    let ghost started = *bc;
    let function = match bc.function {
        Some(f) => f,
        None => 0,
    };
    let mut cases: Vec<SysCallCase> = Vec::new();
    if linear_memory_compiler.is_some() {
        cases.push(SysCallCase { code: WASM_SYS_MMAP2, action: SysCallAction::Mmap2 });
    }
    proof {
        if !old(bc).module.function_names().contains(grow_function_name(linear_prefix(), 0)) {
            assert(!started.module.function_names().contains(grow_function_name(linear_prefix(), 0))) by {
                if started.module.function_names() == old(bc).module.function_names().push(wasm_function_name("__syscall6"@)) {
                    if started.module.function_names().contains(grow_function_name(linear_prefix(), 0)) {
                        let k = choose|k: int| 0 <= k < started.module.function_names().len()
                            && started.module.function_names()[k] == grow_function_name(linear_prefix(), 0);
                        if k < old(bc).module.function_names().len() {
                            assert(old(bc).module.function_names()[k] == started.module.function_names()[k]);
                        }
                    }
                }
            }
        } else {
            BuildContext::lemma_function_kept(old(bc), &started, grow_function_name(linear_prefix(), 0));
        }
    }
    let r = build_syscall_internal(bc, function, cases.as_slice(), int_type, params.as_slice(), linear_memory_compiler);
    proof {
        BuildContext::lemma_extends_keeps_other_bodies(&started, bc);
        BuildContext::lemma_keeps_other_bodies_trans(old(bc), &started, bc);
        let n = started.ops().len();
        let e = n - 9;
        assert(bc.module.function_names() == started.module.function_names());
        if r is Ok {
            BuildContext::lemma_kept(&started, bc, case_len() * cases@.len() + 2, e, head_ops(e as nat, 7));
            if linear_memory_compiler is None {
                assert(case_len() * cases@.len() == 0);
                let all = head_ops(e as nat, 7) + ret_zero_ops((e + 9) as nat, int_type);
                assert(bc.ops().subrange(e, e + 11) =~= all) by {
                    assert forall|i: int| 0 <= i < 11 implies bc.ops().subrange(e, e + 11)[i] == all[i] by {
                        if i < 9 {
                            assert(bc.ops().subrange(e, e + 9)[i] == head_ops(e as nat, 7)[i]);
                        } else {
                            assert(bc.ops().subrange(n as int, n + 2int)[i - 9] == ret_zero_ops(n as nat, int_type)[i - 9]);
                        }
                    }
                }
            } else {
                assert(cases@.len() == 1);
                assert(case_len() * cases@.len() == 26);
                assert(cases@[0] == SysCallCase { code: WASM_SYS_MMAP2, action: SysCallAction::Mmap2 });
                assert(case_at(bc, n + 0int, cases@[0], params@, int_type));
            }
        }
    }
    r
}

/// Builds the syscall functions `__syscall1`, `__syscall3`, `__syscall5`
/// and `__syscall6`, whose words are address-wide integers.  Fails only
/// when `mmap2` is to be answered and linear memory 0 has no grow function.
pub fn build_syscalls<T: WasmIntType>(bc: &mut BuildContext, linear_memory_compiler: Option<&LinearMemoryCompiler<T>>) -> (r: Result<(), RuntimeError>)
    requires
        old(bc).wf(),
    ensures
        final(bc).keeps_symbols(old(bc)),
        r is Err <==> linear_memory_compiler is Some
            && !old(bc).module.function_names().contains(grow_function_name(linear_prefix(), 0)),
        r matches Err(e) ==> e@ == (ErrorView::NoSuchLLVMFunction { name: grow_function_name(linear_prefix(), 0) }),
        final(bc).module.function_names().contains(wasm_function_name("__syscall1"@)),
        final(bc).module.function_names().contains(wasm_function_name("__syscall3"@)),
        final(bc).module.function_names().contains(wasm_function_name("__syscall5"@)),
        final(bc).module.function_names().contains(wasm_function_name("__syscall6"@)),
        building(final(bc), wasm_function_name("__syscall6"@)),
        r is Ok && linear_memory_compiler is None ==> ends_with_plain_syscall(final(bc), 7, spec_int_wasm_ptr::<T>()),
        r is Ok && linear_memory_compiler is Some ==> ends_with_one_case_syscall(final(bc), 7,
            SysCallCase { code: WASM_SYS_MMAP2, action: SysCallAction::Mmap2 }, spec_int_wasm_ptr::<T>()),
        r is Ok ==> syscall_stored(final(bc), wasm_function_name("__syscall1"@), 2, spec_int_wasm_ptr::<T>()),
        r is Ok ==> syscall_stored(final(bc), wasm_function_name("__syscall3"@), 4, spec_int_wasm_ptr::<T>()),
        r is Ok ==> syscall_stored(final(bc), wasm_function_name("__syscall5"@), 6, spec_int_wasm_ptr::<T>()),
{
    let int_type = int_wasm_ptr::<T>();
    let ghost b0 = *bc;
    build_syscall1::<T>(bc, int_type, linear_memory_compiler)?;
    let ghost b1 = *bc;
    build_syscall3::<T>(bc, int_type, linear_memory_compiler)?;
    let ghost b3 = *bc;
    build_syscall5::<T>(bc, int_type, linear_memory_compiler)?;
    let ghost b5 = *bc;
    proof {
        lemma_names_grown(b0.module.function_names(), b1.module.function_names(), b3.module.function_names(), b5.module.function_names(),
            wasm_function_name("__syscall1"@), wasm_function_name("__syscall3"@), wasm_function_name("__syscall5"@));
        reveal_strlit("__syscall1");
        reveal_strlit("__syscall3");
        reveal_strlit("__syscall5");
        assert("__syscall1"@.last() == '1');
        assert("__syscall3"@.last() == '3');
        assert("__syscall5"@.last() == '5');
        lemma_grow_is_no_syscall("__syscall1"@);
        lemma_grow_is_no_syscall("__syscall3"@);
        lemma_grow_is_no_syscall("__syscall5"@);
    }
    let r = build_syscall6::<T>(bc, int_type, linear_memory_compiler);
    proof {
        BuildContext::lemma_function_kept(&b1, bc, wasm_function_name("__syscall1"@));
        BuildContext::lemma_function_kept(&b3, bc, wasm_function_name("__syscall3"@));
        BuildContext::lemma_function_kept(&b5, bc, wasm_function_name("__syscall5"@));
        let ty = spec_int_wasm_ptr::<T>();
        let f1 = b1.function->0;
        let f3 = b3.function->0;
        let f5 = b5.function->0;
        let f6 = bc.function->0;
        assert(b3.module.function_names()[f1 as int] == b1.module.function_names()[f1 as int]);
        assert(b5.module.function_names()[f1 as int] == b1.module.function_names()[f1 as int]);
        assert(bc.module.function_names()[f1 as int] == b1.module.function_names()[f1 as int]);
        assert(b5.module.function_names()[f3 as int] == b3.module.function_names()[f3 as int]);
        assert(bc.module.function_names()[f3 as int] == b3.module.function_names()[f3 as int]);
        assert(bc.module.function_names()[f5 as int] == b5.module.function_names()[f5 as int]);
        assert(wasm_function_name("__syscall1"@) != wasm_function_name("__syscall3"@)) by {
            assert(wasm_function_name("__syscall1"@).last() != wasm_function_name("__syscall3"@).last());
        }
        assert(wasm_function_name("__syscall1"@) != wasm_function_name("__syscall5"@)) by {
            assert(wasm_function_name("__syscall1"@).last() != wasm_function_name("__syscall5"@).last());
        }
        assert(wasm_function_name("__syscall3"@) != wasm_function_name("__syscall5"@)) by {
            assert(wasm_function_name("__syscall3"@).last() != wasm_function_name("__syscall5"@).last());
        }
        reveal_strlit("__syscall6");
        assert(wasm_function_name("__syscall6"@).last() == '6');
        assert(bc.taken_up(f1) == b1.ops());
        assert(bc.taken_up(f3) == b3.ops());
        assert(bc.taken_up(f5) == b5.ops());
        assert(ends_with_plain_syscall(&b1, 2, ty));
        assert(ends_with_plain_syscall(&b3, 4, ty));
        assert(ends_with_plain_syscall(&b5, 6, ty));
    }
    r
}

/// A name that none of three pushes added was there before.
proof fn lemma_names_grown(n0: Seq<Seq<char>>, n1: Seq<Seq<char>>, n3: Seq<Seq<char>>, n5: Seq<Seq<char>>, s1: Seq<char>, s3: Seq<char>, s5: Seq<char>)
    requires
        n1 == n0.push(s1) || n1 == n0,
        n3 == n1.push(s3) || n3 == n1,
        n5 == n3.push(s5) || n5 == n3,
    ensures
        forall|x: Seq<char>| x != s1 && x != s3 && x != s5 ==> (#[trigger] n5.contains(x) <==> n0.contains(x)),
{
    assert forall|x: Seq<char>| x != s1 && x != s3 && x != s5 implies (#[trigger] n5.contains(x) <==> n0.contains(x)) by {
        if n5.contains(x) {
            let k = choose|k: int| 0 <= k < n5.len() && n5[k] == x;
            assert(n3.contains(x)) by { assert(n3[k] == x); }
            let k3 = choose|k: int| 0 <= k < n3.len() && n3[k] == x;
            assert(n1.contains(x)) by { assert(n1[k3] == x); }
            let k1 = choose|k: int| 0 <= k < n1.len() && n1[k] == x;
            assert(n0[k1] == x);
        }
        if n0.contains(x) {
            let k = choose|k: int| 0 <= k < n0.len() && n0[k] == x;
            assert(n1[k] == x);
            assert(n3[k] == x);
            assert(n5[k] == x);
        }
    }
}

/// The type of a pointer to bytes, as the C functions take it.
pub fn new_real_pointer_type() -> (t: IrType)
    ensures
        t == IrType::Ptr(PointeeType::Int8),
{
    IrType::Ptr(PointeeType::Int8)
}

/// Calls `brk(addr)`.
pub fn build_call_and_set_brk(bc: &mut BuildContext, addr: usize) -> (r: usize)
    requires
        old(bc).wf(),
    ensures
        call_emitted(final(bc), old(bc), "brk"@, seq![addr]),
        r == old(bc).ops().len() + 1,
{
    let args = vec![addr];
    assert(args@ =~= seq![addr]);
    build_call_and_set(bc, "brk", FunctionType { ret: IrType::Int32, params: vec![new_real_pointer_type()], var_arg: false }, args)
}

/// Calls the program's own `writev_c(d, iovec, iovec_count)`, whose words
/// are address-wide integers.
pub fn build_call_and_set_writev<T: WasmIntType>(bc: &mut BuildContext, d: usize, iovec: usize, iovec_count: usize) -> (r: usize)
    requires
        old(bc).wf(),
    ensures
        call_emitted(final(bc), old(bc), wasm_function_name("writev_c"@), seq![d, iovec, iovec_count]),
        r == old(bc).ops().len() + 1,
{
    let int_type = int_wasm_ptr::<T>();
    let name = WasmCompiler::<T>::wasm_function_name("writev_c");
    proof {
        reveal_strlit("writev_c");
    }
    let args = vec![d, iovec, iovec_count];
    assert(args@ =~= seq![d, iovec, iovec_count]);
    build_call_and_set(bc, name.as_str(), FunctionType { ret: int_type, params: vec![int_type, int_type, int_type], var_arg: false }, args)
}

/// Calls `umask(mask)`.
pub fn build_call_and_set_umask(bc: &mut BuildContext, mask: usize) -> (r: usize)
    requires
        old(bc).wf(),
    ensures
        call_emitted(final(bc), old(bc), "umask"@, seq![mask]),
        r == old(bc).ops().len() + 1,
{
    let args = vec![mask];
    assert(args@ =~= seq![mask]);
    build_call_and_set(bc, "umask", FunctionType { ret: IrType::Int32, params: vec![IrType::Int32], var_arg: false }, args)
}

/// Calls `ioctl(fd, request, argp...)`.
pub fn build_call_and_set_ioctl(bc: &mut BuildContext, fd: usize, request: usize, argp: &[usize]) -> (r: usize)
    requires
        old(bc).wf(),
    ensures
        call_emitted(final(bc), old(bc), "ioctl"@, seq![fd, request] + argp@),
        r == old(bc).ops().len() + 1,
{
    let mut params = vec![fd, request];
    let mut i: usize = 0;
    while i < argp.len()
        invariant
            i <= argp@.len(),
            params@ == seq![fd, request] + argp@.take(i as int),
        decreases argp@.len() - i,
    {
        params.push(argp[i]);
        i = i + 1;
        assert(params@ =~= seq![fd, request] + argp@.take(i as int));
    }
    assert(argp@.take(argp@.len() as int) =~= argp@);
    build_call_and_set(bc, "ioctl", FunctionType {
        ret: IrType::Int32,
        params: vec![IrType::Int32, IrType::IntPtr, new_real_pointer_type()],
        var_arg: true,
    }, params)
}

/// Calls the host's `syscall(n, args...)`.
pub fn build_call_and_set_libc_syscall(bc: &mut BuildContext, n: usize, args: &[usize]) -> (r: usize)
    requires
        old(bc).wf(),
    ensures
        call_emitted(final(bc), old(bc), "syscall"@, seq![n] + args@),
        r == old(bc).ops().len() + 1,
{
    let mut params = vec![n];
    let mut i: usize = 0;
    while i < args.len()
        invariant
            i <= args@.len(),
            params@ == seq![n] + args@.take(i as int),
        decreases args@.len() - i,
    {
        params.push(args[i]);
        i = i + 1;
        assert(params@ =~= seq![n] + args@.take(i as int));
    }
    assert(args@.take(args@.len() as int) =~= args@);
    build_call_and_set(bc, "syscall", FunctionType { ret: IrType::IntPtr, params: vec![IrType::IntPtr, IrType::IntPtr], var_arg: true }, params)
}

/// The conversions of futex arguments at position `n`, after the syscall
/// number: each argument made an address-wide integer, pointers by their
/// address and integers by resizing.
pub open spec fn futex_args_ops(args: Seq<(usize, bool)>) -> Seq<OpView> {
    args.map_values(|a: (usize, bool)| if a.1 {
        OpView::Cast { op: CastOp::PtrToInt, operand: a.0, ty: IrType::IntPtr }
    } else {
        OpView::Cast { op: CastOp::IntCast, operand: a.0, ty: IrType::IntPtr }
    })
}

/// Emits the number of `futex` and its arguments made address-wide, then
/// the host's `syscall` with them; `args` pairs each argument with whether
/// it is a pointer.
fn build_futex(bc: &mut BuildContext, args: &[(usize, bool)]) -> (r: usize)
    requires
        old(bc).wf(),
    ensures
        ({
            let n = old(bc).ops().len();
            let k = args@.len();
            &&& final(bc).grown(old(bc), k + 3)
            &&& final(bc).ops_at(n as int, seq![OpView::Const { value: Constant::Int { ty: IrType::IntPtr, value: SYS_FUTEX, sign_extend: false } }]
                + futex_args_ops(args@))
            &&& crate::calls::call_at(final(bc), n + 1 + k, "syscall"@, Seq::new(k + 1, |i: int| (n + i) as usize))
            &&& r == n + k + 2
        }),
{
    let ghost n = old(bc).ops().len();
    let number = bc.emit(Op::Const { value: Constant::Int { ty: IrType::IntPtr, value: SYS_FUTEX, sign_extend: false } });
    let mut params: Vec<usize> = Vec::new();
    let mut i: usize = 0;
    while i < args.len()
        invariant
            i <= args@.len(),
            n == old(bc).ops().len(),
            bc.emitted(old(bc), seq![OpView::Const { value: Constant::Int { ty: IrType::IntPtr, value: SYS_FUTEX, sign_extend: false } }]
                + futex_args_ops(args@.take(i as int))),
            params@ == Seq::new(i as nat, |j: int| (n + 1 + j) as usize),
            old(bc).wf(),
        decreases args@.len() - i,
    {
        let (value, is_pointer) = args[i];
        let ghost before = *bc;
        let converted = if is_pointer {
            bc.emit(Op::Cast { op: CastOp::PtrToInt, operand: value, ty: IrType::IntPtr })
        } else {
            bc.emit(Op::Cast { op: CastOp::IntCast, operand: value, ty: IrType::IntPtr })
        };
        params.push(converted);
        proof {
            let head = seq![OpView::Const { value: Constant::Int { ty: IrType::IntPtr, value: SYS_FUTEX, sign_extend: false } }];
            let cast = futex_args_ops(args@.take(i + 1))[i as int];
            assert(bc.ops() =~= before.ops() + seq![cast]);
            BuildContext::lemma_emitted_trans(old(bc), &before, bc, head + futex_args_ops(args@.take(i as int)), seq![cast]);
            assert(head + futex_args_ops(args@.take(i as int)) + seq![cast] =~= head + futex_args_ops(args@.take(i + 1)));
            assert(args@.take(i + 1) =~= args@.take(i as int).push(args@[i as int]));
            assert(futex_args_ops(args@.take(i + 1)) =~= futex_args_ops(args@.take(i as int)).push(futex_args_ops(args@.take(i + 1))[i as int]));
            assert(params@ =~= Seq::new((i + 1) as nat, |j: int| (n + 1 + j) as usize));
        }
        i = i + 1;
    }
    assert(args@.take(args@.len() as int) =~= args@);
    let ghost converted = *bc;
    let r = build_call_and_set_libc_syscall(bc, number, params.as_slice());
    proof {
        let k = args@.len();
        let head = seq![OpView::Const { value: Constant::Int { ty: IrType::IntPtr, value: SYS_FUTEX, sign_extend: false } }] + futex_args_ops(args@);
        assert(seq![number] + params@ =~= Seq::new(k + 1, |i: int| (n + i) as usize));
        assert(converted.ops().take(n as int) =~= old(bc).ops());
        assert(converted.ops().subrange(n as int, (n + k + 1) as int) =~= head);
        BuildContext::lemma_kept(&converted, bc, 2, n as int, head);
        BuildContext::lemma_grown_trans(old(bc), &converted, bc, k + 1, 2);
    }
    r
}

/// Calls `futex(uaddr, op, val)` through the host's `syscall`.
pub fn build_call_and_set_futex3(bc: &mut BuildContext, uaddr: usize, op: usize, val: usize) -> (r: usize)
    requires
        old(bc).wf(),
    ensures
        ({
            let n = old(bc).ops().len();
            &&& final(bc).grown(old(bc), 6)
            &&& final(bc).ops_at(n as int, seq![
                OpView::Const { value: Constant::Int { ty: IrType::IntPtr, value: SYS_FUTEX, sign_extend: false } },
                OpView::Cast { op: CastOp::PtrToInt, operand: uaddr, ty: IrType::IntPtr },
                OpView::Cast { op: CastOp::IntCast, operand: op, ty: IrType::IntPtr },
                OpView::Cast { op: CastOp::IntCast, operand: val, ty: IrType::IntPtr },
            ])
            &&& crate::calls::call_at(final(bc), n + 4, "syscall"@, seq![n as usize, (n + 1) as usize, (n + 2) as usize, (n + 3) as usize])
            &&& r == n + 5
        }),
{
    let args = vec![(uaddr, true), (op, false), (val, false)];
    let r = build_futex(bc, args.as_slice());
    proof {
        let n = old(bc).ops().len();
        assert(seq![OpView::Const { value: Constant::Int { ty: IrType::IntPtr, value: SYS_FUTEX, sign_extend: false } }] + futex_args_ops(args@) =~= seq![
            OpView::Const { value: Constant::Int { ty: IrType::IntPtr, value: SYS_FUTEX, sign_extend: false } },
            OpView::Cast { op: CastOp::PtrToInt, operand: uaddr, ty: IrType::IntPtr },
            OpView::Cast { op: CastOp::IntCast, operand: op, ty: IrType::IntPtr },
            OpView::Cast { op: CastOp::IntCast, operand: val, ty: IrType::IntPtr },
        ]);
        assert(Seq::new(4, |i: int| (n + i) as usize) =~= seq![n as usize, (n + 1) as usize, (n + 2) as usize, (n + 3) as usize]);
    }
    r
}

/// Calls `futex(uaddr, op, val, timeout, uaddr2, val3)` through the host's `syscall`.
pub fn build_call_and_set_futex6(bc: &mut BuildContext, uaddr: usize, op: usize, val: usize, timeout: usize, uaddr2: usize, val3: usize) -> (r: usize)
    requires
        old(bc).wf(),
    ensures
        ({
            let n = old(bc).ops().len();
            &&& final(bc).grown(old(bc), 9)
            &&& final(bc).ops_at(n as int, seq![
                OpView::Const { value: Constant::Int { ty: IrType::IntPtr, value: SYS_FUTEX, sign_extend: false } },
                OpView::Cast { op: CastOp::PtrToInt, operand: uaddr, ty: IrType::IntPtr },
                OpView::Cast { op: CastOp::IntCast, operand: op, ty: IrType::IntPtr },
                OpView::Cast { op: CastOp::IntCast, operand: val, ty: IrType::IntPtr },
                OpView::Cast { op: CastOp::PtrToInt, operand: timeout, ty: IrType::IntPtr },
                OpView::Cast { op: CastOp::PtrToInt, operand: uaddr2, ty: IrType::IntPtr },
                OpView::Cast { op: CastOp::IntCast, operand: val3, ty: IrType::IntPtr },
            ])
            &&& crate::calls::call_at(final(bc), n + 7, "syscall"@, Seq::new(7, |i: int| (n + i) as usize))
            &&& r == n + 8
        }),
{
    let args = vec![(uaddr, true), (op, false), (val, false), (timeout, true), (uaddr2, true), (val3, false)];
    let r = build_futex(bc, args.as_slice());
    proof {
        assert(seq![OpView::Const { value: Constant::Int { ty: IrType::IntPtr, value: SYS_FUTEX, sign_extend: false } }] + futex_args_ops(args@) =~= seq![
            OpView::Const { value: Constant::Int { ty: IrType::IntPtr, value: SYS_FUTEX, sign_extend: false } },
            OpView::Cast { op: CastOp::PtrToInt, operand: uaddr, ty: IrType::IntPtr },
            OpView::Cast { op: CastOp::IntCast, operand: op, ty: IrType::IntPtr },
            OpView::Cast { op: CastOp::IntCast, operand: val, ty: IrType::IntPtr },
            OpView::Cast { op: CastOp::PtrToInt, operand: timeout, ty: IrType::IntPtr },
            OpView::Cast { op: CastOp::PtrToInt, operand: uaddr2, ty: IrType::IntPtr },
            OpView::Cast { op: CastOp::IntCast, operand: val3, ty: IrType::IntPtr },
        ]);
    }
    r
}

} // verus!
