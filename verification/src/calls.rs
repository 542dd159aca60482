use vstd::prelude::*;
use crate::build_context::BuildContext;
use crate::ir::{Constant, FunctionType, IrType, Op, OpView, PointeeType};

verus! {

/// At position `at` of the body of `new` stand a reference to the function
/// named `name` and a call of it with `args`.
pub open spec fn call_at(new: &BuildContext, at: nat, name: Seq<char>, args: Seq<usize>) -> bool {
    &&& new.ops()[at as int] matches OpView::FunctionRef { function }
        && function < new.module.functions@.len()
        && new.module.function_names()[function as int] == name
    &&& new.ops()[at + 1 as int] == (OpView::Call { callee: at as usize, args })
}

/// A call stays as the body grows.
pub proof fn lemma_call_at_kept(b: &BuildContext, c: &BuildContext, k: nat, at: nat, name: Seq<char>, args: Seq<usize>)
    requires
        c.grown(b, k),
        at + 1 < b.ops().len(),
        call_at(b, at, name, args),
    ensures
        call_at(c, at, name, args),
{
    assert(c.ops()[at as int] == c.ops().take(b.ops().len() as int)[at as int]);
    assert(c.ops()[at + 1int] == c.ops().take(b.ops().len() as int)[at + 1int]);
    let f = b.ops()[at as int]->function;
    assert(c.module.function_names()[f as int] == b.module.function_names()[f as int]);
}

/// `new` is `old` with a reference to the function named `name` and a call
/// of it with `args` appended; the call is the last operation.
pub open spec fn call_emitted(new: &BuildContext, old: &BuildContext, name: Seq<char>, args: Seq<usize>) -> bool {
    let n = old.ops().len();
    &&& new.extends(old)
    &&& new.keeps_initial_values(old)
    &&& new.module.globals == old.module.globals
    &&& new.ops().len() == n + 2
    &&& new.body@.len() == n + 2
    &&& new.ops().take(n as int) == old.ops()
    &&& call_at(new, n, name, args)
}

/// Declares the function named `name` of type `ty`, unless there is one,
/// and calls it with `args`.  Gives the call.
pub fn build_call_and_set(bc: &mut BuildContext, name: &str, ty: FunctionType, args: Vec<usize>) -> (r: usize)
    requires
        old(bc).wf(),
    ensures
        call_emitted(final(bc), old(bc), name@, args@),
        r == old(bc).ops().len() + 1,
        final(bc).module.function_names() == old(bc).module.function_names()
            || final(bc).module.function_names() == old(bc).module.function_names().push(name@),
{
    let ghost args_view = args@;
    let f = bc.set_declare_function(String::from_str(name), ty);
    let ghost mid = *bc;
    let callee = bc.emit(Op::FunctionRef { function: f });
    let r = bc.emit(Op::Call { callee, args });
    proof {
        assert(bc.ops().take(old(bc).ops().len() as int) =~= old(bc).ops());
        assert forall|i: int| 0 <= i < old(bc).module.functions@.len() implies #[trigger] bc.module.functions@[i] == old(bc).module.functions@[i] by {
            if old(bc).module.function_names().contains(name@) {
            } else {
                assert(bc.module.functions@[i] == old(bc).module.functions@.push(bc.module.functions@.last())[i]);
            }
        }
    }
    r
}

/// Calls `fminf` on `x` and `y`.
pub fn build_call_and_set_fminf(bc: &mut BuildContext, x: usize, y: usize) -> (r: usize)
    requires
        old(bc).wf(),
    ensures
        call_emitted(final(bc), old(bc), "fminf"@, seq![x, y]),
        r == old(bc).ops().len() + 1,
{
    build_call_and_set(bc, "fminf", FunctionType { ret: IrType::Float32, params: vec![IrType::Float32, IrType::Float32], var_arg: false }, vec![x, y])
}

/// Calls `fmin` on `x` and `y`.
pub fn build_call_and_set_fmin(bc: &mut BuildContext, x: usize, y: usize) -> (r: usize)
    requires
        old(bc).wf(),
    ensures
        call_emitted(final(bc), old(bc), "fmin"@, seq![x, y]),
        r == old(bc).ops().len() + 1,
{
    build_call_and_set(bc, "fmin", FunctionType { ret: IrType::Float64, params: vec![IrType::Float64, IrType::Float64], var_arg: false }, vec![x, y])
}

/// Calls `fmaxf` on `x` and `y`.
pub fn build_call_and_set_fmaxf(bc: &mut BuildContext, x: usize, y: usize) -> (r: usize)
    requires
        old(bc).wf(),
    ensures
        call_emitted(final(bc), old(bc), "fmaxf"@, seq![x, y]),
        r == old(bc).ops().len() + 1,
{
    build_call_and_set(bc, "fmaxf", FunctionType { ret: IrType::Float32, params: vec![IrType::Float32, IrType::Float32], var_arg: false }, vec![x, y])
}

/// Calls `fmax` on `x` and `y`.
pub fn build_call_and_set_fmax(bc: &mut BuildContext, x: usize, y: usize) -> (r: usize)
    requires
        old(bc).wf(),
    ensures
        call_emitted(final(bc), old(bc), "fmax"@, seq![x, y]),
        r == old(bc).ops().len() + 1,
{
    build_call_and_set(bc, "fmax", FunctionType { ret: IrType::Float64, params: vec![IrType::Float64, IrType::Float64], var_arg: false }, vec![x, y])
}

/// Calls `copysignf` on `x` and `y`.
pub fn build_call_and_set_copysignf(bc: &mut BuildContext, x: usize, y: usize) -> (r: usize)
    requires
        old(bc).wf(),
    ensures
        call_emitted(final(bc), old(bc), "copysignf"@, seq![x, y]),
        r == old(bc).ops().len() + 1,
{
    build_call_and_set(bc, "copysignf", FunctionType { ret: IrType::Float32, params: vec![IrType::Float32, IrType::Float32], var_arg: false }, vec![x, y])
}

/// Calls `copysign` on `x` and `y`.
pub fn build_call_and_set_copysign(bc: &mut BuildContext, x: usize, y: usize) -> (r: usize)
    requires
        old(bc).wf(),
    ensures
        call_emitted(final(bc), old(bc), "copysign"@, seq![x, y]),
        r == old(bc).ops().len() + 1,
{
    build_call_and_set(bc, "copysign", FunctionType { ret: IrType::Float64, params: vec![IrType::Float64, IrType::Float64], var_arg: false }, vec![x, y])
}

/// Calls `llvm.ctlz.i32` on `x`, with zero defined at zero.
pub fn build_call_and_set_ctlz_i32(bc: &mut BuildContext, x: usize) -> (r: usize)
    requires
        old(bc).wf(),
    ensures
        final(bc).ops()[old(bc).ops().len() as int] == (OpView::Const { value: Constant::Int { ty: IrType::Int1, value: 0, sign_extend: false } }),
        r == old(bc).ops().len() + 2,
        final(bc).extends(old(bc)),
        final(bc).keeps_initial_values(old(bc)),
        final(bc).ops().len() == old(bc).ops().len() + 3,
        final(bc).body@.len() == old(bc).body@.len() + 3,
        final(bc).ops().take(old(bc).ops().len() as int) == old(bc).ops(),
        call_at(final(bc), old(bc).ops().len() + 1, "llvm.ctlz.i32"@, seq![x, old(bc).ops().len() as usize]),
{
    let zero = bc.emit(Op::Const { value: Constant::Int { ty: IrType::Int1, value: 0, sign_extend: false } });
    let ghost mid = *bc;
    let r = build_call_and_set(bc, "llvm.ctlz.i32", FunctionType { ret: IrType::Int32, params: vec![IrType::Int32, IrType::Int1], var_arg: false }, vec![x, zero]);
    proof {
        assert(bc.ops().take(mid.ops().len() as int) == mid.ops());
        assert(bc.ops()[old(bc).ops().len() as int] == bc.ops().take(mid.ops().len() as int)[old(bc).ops().len() as int]);
        assert(bc.ops().take(old(bc).ops().len() as int) =~= old(bc).ops());
        assert(call_emitted(bc, &mid, "llvm.ctlz.i32"@, seq![x, zero]));
    }
    r
}

/// Calls `llvm.cttz.i32` on `x`, with zero defined at zero.
pub fn build_call_and_set_cttz_i32(bc: &mut BuildContext, x: usize) -> (r: usize)
    requires
        old(bc).wf(),
    ensures
        final(bc).ops()[old(bc).ops().len() as int] == (OpView::Const { value: Constant::Int { ty: IrType::Int1, value: 0, sign_extend: false } }),
        r == old(bc).ops().len() + 2,
        final(bc).extends(old(bc)),
        final(bc).keeps_initial_values(old(bc)),
        final(bc).ops().len() == old(bc).ops().len() + 3,
        final(bc).body@.len() == old(bc).body@.len() + 3,
        final(bc).ops().take(old(bc).ops().len() as int) == old(bc).ops(),
        call_at(final(bc), old(bc).ops().len() + 1, "llvm.cttz.i32"@, seq![x, old(bc).ops().len() as usize]),
{
    let zero = bc.emit(Op::Const { value: Constant::Int { ty: IrType::Int1, value: 0, sign_extend: false } });
    let ghost mid = *bc;
    let r = build_call_and_set(bc, "llvm.cttz.i32", FunctionType { ret: IrType::Int32, params: vec![IrType::Int32, IrType::Int1], var_arg: false }, vec![x, zero]);
    proof {
        assert(bc.ops().take(mid.ops().len() as int) == mid.ops());
        assert(bc.ops()[old(bc).ops().len() as int] == bc.ops().take(mid.ops().len() as int)[old(bc).ops().len() as int]);
        assert(bc.ops().take(old(bc).ops().len() as int) =~= old(bc).ops());
        assert(call_emitted(bc, &mid, "llvm.cttz.i32"@, seq![x, zero]));
    }
    r
}

/// Calls `llvm.ctlz.i64` on `x`, with zero defined at zero.
pub fn build_call_and_set_ctlz_i64(bc: &mut BuildContext, x: usize) -> (r: usize)
    requires
        old(bc).wf(),
    ensures
        final(bc).ops()[old(bc).ops().len() as int] == (OpView::Const { value: Constant::Int { ty: IrType::Int1, value: 0, sign_extend: false } }),
        r == old(bc).ops().len() + 2,
        final(bc).extends(old(bc)),
        final(bc).keeps_initial_values(old(bc)),
        final(bc).ops().len() == old(bc).ops().len() + 3,
        final(bc).body@.len() == old(bc).body@.len() + 3,
        final(bc).ops().take(old(bc).ops().len() as int) == old(bc).ops(),
        call_at(final(bc), old(bc).ops().len() + 1, "llvm.ctlz.i64"@, seq![x, old(bc).ops().len() as usize]),
{
    let zero = bc.emit(Op::Const { value: Constant::Int { ty: IrType::Int1, value: 0, sign_extend: false } });
    let ghost mid = *bc;
    let r = build_call_and_set(bc, "llvm.ctlz.i64", FunctionType { ret: IrType::Int64, params: vec![IrType::Int64, IrType::Int1], var_arg: false }, vec![x, zero]);
    proof {
        assert(bc.ops().take(mid.ops().len() as int) == mid.ops());
        assert(bc.ops()[old(bc).ops().len() as int] == bc.ops().take(mid.ops().len() as int)[old(bc).ops().len() as int]);
        assert(bc.ops().take(old(bc).ops().len() as int) =~= old(bc).ops());
        assert(call_emitted(bc, &mid, "llvm.ctlz.i64"@, seq![x, zero]));
    }
    r
}

/// Calls `llvm.cttz.i64` on `x`, with zero defined at zero.
pub fn build_call_and_set_cttz_i64(bc: &mut BuildContext, x: usize) -> (r: usize)
    requires
        old(bc).wf(),
    ensures
        final(bc).ops()[old(bc).ops().len() as int] == (OpView::Const { value: Constant::Int { ty: IrType::Int1, value: 0, sign_extend: false } }),
        r == old(bc).ops().len() + 2,
        final(bc).extends(old(bc)),
        final(bc).keeps_initial_values(old(bc)),
        final(bc).ops().len() == old(bc).ops().len() + 3,
        final(bc).body@.len() == old(bc).body@.len() + 3,
        final(bc).ops().take(old(bc).ops().len() as int) == old(bc).ops(),
        call_at(final(bc), old(bc).ops().len() + 1, "llvm.cttz.i64"@, seq![x, old(bc).ops().len() as usize]),
{
    let zero = bc.emit(Op::Const { value: Constant::Int { ty: IrType::Int1, value: 0, sign_extend: false } });
    let ghost mid = *bc;
    let r = build_call_and_set(bc, "llvm.cttz.i64", FunctionType { ret: IrType::Int64, params: vec![IrType::Int64, IrType::Int1], var_arg: false }, vec![x, zero]);
    proof {
        assert(bc.ops().take(mid.ops().len() as int) == mid.ops());
        assert(bc.ops()[old(bc).ops().len() as int] == bc.ops().take(mid.ops().len() as int)[old(bc).ops().len() as int]);
        assert(bc.ops().take(old(bc).ops().len() as int) =~= old(bc).ops());
        assert(call_emitted(bc, &mid, "llvm.cttz.i64"@, seq![x, zero]));
    }
    r
}

/// Calls `llvm.ctpop.i32` on `x`.
pub fn build_call_and_set_ctpop_i32(bc: &mut BuildContext, x: usize) -> (r: usize)
    requires
        old(bc).wf(),
    ensures
        call_emitted(final(bc), old(bc), "llvm.ctpop.i32"@, seq![x]),
        r == old(bc).ops().len() + 1,
{
    let args = vec![x];
    assert(args@ =~= seq![x]);
    build_call_and_set(bc, "llvm.ctpop.i32", FunctionType { ret: IrType::Int32, params: vec![IrType::Int32], var_arg: false }, args)
}

/// Calls `llvm.ctpop.i64` on `x`.
pub fn build_call_and_set_ctpop_i64(bc: &mut BuildContext, x: usize) -> (r: usize)
    requires
        old(bc).wf(),
    ensures
        call_emitted(final(bc), old(bc), "llvm.ctpop.i64"@, seq![x]),
        r == old(bc).ops().len() + 1,
{
    let args = vec![x];
    assert(args@ =~= seq![x]);
    build_call_and_set(bc, "llvm.ctpop.i64", FunctionType { ret: IrType::Int64, params: vec![IrType::Int64], var_arg: false }, args)
}

/// Calls `llvm.fabs.f32` on `x`.
pub fn build_call_and_set_fabs_f32(bc: &mut BuildContext, x: usize) -> (r: usize)
    requires
        old(bc).wf(),
    ensures
        call_emitted(final(bc), old(bc), "llvm.fabs.f32"@, seq![x]),
        r == old(bc).ops().len() + 1,
{
    let args = vec![x];
    assert(args@ =~= seq![x]);
    build_call_and_set(bc, "llvm.fabs.f32", FunctionType { ret: IrType::Float32, params: vec![IrType::Float32], var_arg: false }, args)
}

/// Calls `llvm.fabs.f64` on `x`.
pub fn build_call_and_set_fabs_f64(bc: &mut BuildContext, x: usize) -> (r: usize)
    requires
        old(bc).wf(),
    ensures
        call_emitted(final(bc), old(bc), "llvm.fabs.f64"@, seq![x]),
        r == old(bc).ops().len() + 1,
{
    let args = vec![x];
    assert(args@ =~= seq![x]);
    build_call_and_set(bc, "llvm.fabs.f64", FunctionType { ret: IrType::Float64, params: vec![IrType::Float64], var_arg: false }, args)
}

/// Calls `llvm.sqrt.f32` on `x`.
pub fn build_call_and_set_sqrt_f32(bc: &mut BuildContext, x: usize) -> (r: usize)
    requires
        old(bc).wf(),
    ensures
        call_emitted(final(bc), old(bc), "llvm.sqrt.f32"@, seq![x]),
        r == old(bc).ops().len() + 1,
{
    let args = vec![x];
    assert(args@ =~= seq![x]);
    build_call_and_set(bc, "llvm.sqrt.f32", FunctionType { ret: IrType::Float32, params: vec![IrType::Float32], var_arg: false }, args)
}

/// Calls `llvm.sqrt.f64` on `x`.
pub fn build_call_and_set_sqrt_f64(bc: &mut BuildContext, x: usize) -> (r: usize)
    requires
        old(bc).wf(),
    ensures
        call_emitted(final(bc), old(bc), "llvm.sqrt.f64"@, seq![x]),
        r == old(bc).ops().len() + 1,
{
    let args = vec![x];
    assert(args@ =~= seq![x]);
    build_call_and_set(bc, "llvm.sqrt.f64", FunctionType { ret: IrType::Float64, params: vec![IrType::Float64], var_arg: false }, args)
}

/// Calls `llvm.ceil.f32` on `x`.
pub fn build_call_and_set_ceil_f32(bc: &mut BuildContext, x: usize) -> (r: usize)
    requires
        old(bc).wf(),
    ensures
        call_emitted(final(bc), old(bc), "llvm.ceil.f32"@, seq![x]),
        r == old(bc).ops().len() + 1,
{
    let args = vec![x];
    assert(args@ =~= seq![x]);
    build_call_and_set(bc, "llvm.ceil.f32", FunctionType { ret: IrType::Float32, params: vec![IrType::Float32], var_arg: false }, args)
}

/// Calls `llvm.ceil.f64` on `x`.
pub fn build_call_and_set_ceil_f64(bc: &mut BuildContext, x: usize) -> (r: usize)
    requires
        old(bc).wf(),
    ensures
        call_emitted(final(bc), old(bc), "llvm.ceil.f64"@, seq![x]),
        r == old(bc).ops().len() + 1,
{
    let args = vec![x];
    assert(args@ =~= seq![x]);
    build_call_and_set(bc, "llvm.ceil.f64", FunctionType { ret: IrType::Float64, params: vec![IrType::Float64], var_arg: false }, args)
}

/// Calls `llvm.floor.f32` on `x`.
pub fn build_call_and_set_floor_f32(bc: &mut BuildContext, x: usize) -> (r: usize)
    requires
        old(bc).wf(),
    ensures
        call_emitted(final(bc), old(bc), "llvm.floor.f32"@, seq![x]),
        r == old(bc).ops().len() + 1,
{
    let args = vec![x];
    assert(args@ =~= seq![x]);
    build_call_and_set(bc, "llvm.floor.f32", FunctionType { ret: IrType::Float32, params: vec![IrType::Float32], var_arg: false }, args)
}

/// Calls `llvm.floor.f64` on `x`.
pub fn build_call_and_set_floor_f64(bc: &mut BuildContext, x: usize) -> (r: usize)
    requires
        old(bc).wf(),
    ensures
        call_emitted(final(bc), old(bc), "llvm.floor.f64"@, seq![x]),
        r == old(bc).ops().len() + 1,
{
    let args = vec![x];
    assert(args@ =~= seq![x]);
    build_call_and_set(bc, "llvm.floor.f64", FunctionType { ret: IrType::Float64, params: vec![IrType::Float64], var_arg: false }, args)
}

/// Calls `llvm.trunc.f32` on `x`.
pub fn build_call_and_set_trunc_f32(bc: &mut BuildContext, x: usize) -> (r: usize)
    requires
        old(bc).wf(),
    ensures
        call_emitted(final(bc), old(bc), "llvm.trunc.f32"@, seq![x]),
        r == old(bc).ops().len() + 1,
{
    let args = vec![x];
    assert(args@ =~= seq![x]);
    build_call_and_set(bc, "llvm.trunc.f32", FunctionType { ret: IrType::Float32, params: vec![IrType::Float32], var_arg: false }, args)
}

/// Calls `llvm.trunc.f64` on `x`.
pub fn build_call_and_set_trunc_f64(bc: &mut BuildContext, x: usize) -> (r: usize)
    requires
        old(bc).wf(),
    ensures
        call_emitted(final(bc), old(bc), "llvm.trunc.f64"@, seq![x]),
        r == old(bc).ops().len() + 1,
{
    let args = vec![x];
    assert(args@ =~= seq![x]);
    build_call_and_set(bc, "llvm.trunc.f64", FunctionType { ret: IrType::Float64, params: vec![IrType::Float64], var_arg: false }, args)
}

/// Calls `llvm.nearbyint.f32` on `x`.
pub fn build_call_and_set_nearbyint_f32(bc: &mut BuildContext, x: usize) -> (r: usize)
    requires
        old(bc).wf(),
    ensures
        call_emitted(final(bc), old(bc), "llvm.nearbyint.f32"@, seq![x]),
        r == old(bc).ops().len() + 1,
{
    let args = vec![x];
    assert(args@ =~= seq![x]);
    build_call_and_set(bc, "llvm.nearbyint.f32", FunctionType { ret: IrType::Float32, params: vec![IrType::Float32], var_arg: false }, args)
}

/// Calls `llvm.nearbyint.f64` on `x`.
pub fn build_call_and_set_nearbyint_f64(bc: &mut BuildContext, x: usize) -> (r: usize)
    requires
        old(bc).wf(),
    ensures
        call_emitted(final(bc), old(bc), "llvm.nearbyint.f64"@, seq![x]),
        r == old(bc).ops().len() + 1,
{
    let args = vec![x];
    assert(args@ =~= seq![x]);
    build_call_and_set(bc, "llvm.nearbyint.f64", FunctionType { ret: IrType::Float64, params: vec![IrType::Float64], var_arg: false }, args)
}

/// Calls `llvm.donothing`.
pub fn build_call_and_set_donothing(bc: &mut BuildContext) -> (r: usize)
    requires
        old(bc).wf(),
    ensures
        call_emitted(final(bc), old(bc), "llvm.donothing"@, seq![]),
        r == old(bc).ops().len() + 1,
{
    build_call_and_set(bc, "llvm.donothing", FunctionType { ret: IrType::Void, params: vec![], var_arg: false }, vec![])
}

/// Calls `llvm.trap`.
pub fn build_call_and_set_trap(bc: &mut BuildContext) -> (r: usize)
    requires
        old(bc).wf(),
    ensures
        call_emitted(final(bc), old(bc), "llvm.trap"@, seq![]),
        r == old(bc).ops().len() + 1,
{
    build_call_and_set(bc, "llvm.trap", FunctionType { ret: IrType::Void, params: vec![], var_arg: false }, vec![])
}

/// Calls `mmap(addr, length, prot, flags, fd, offset)`.
pub fn build_call_and_set_mmap(bc: &mut BuildContext, addr: usize, length: usize, prot: usize, flags: usize, fd: usize, offset: usize) -> (r: usize)
    requires
        old(bc).wf(),
    ensures
        call_emitted(final(bc), old(bc), "mmap"@, seq![addr, length, prot, flags, fd, offset]),
        r == old(bc).ops().len() + 1,
{
    let void_ptr = IrType::Ptr(PointeeType::Void);
    build_call_and_set(bc, "mmap", FunctionType {
        ret: void_ptr,
        params: vec![void_ptr, IrType::IntPtr, IrType::Int32, IrType::Int32, IrType::Int32, IrType::Int32],
        var_arg: false,
    }, vec![addr, length, prot, flags, fd, offset])
}

/// Calls `munmap(addr, length)`.
pub fn build_call_and_set_munmap(bc: &mut BuildContext, addr: usize, length: usize) -> (r: usize)
    requires
        old(bc).wf(),
    ensures
        call_emitted(final(bc), old(bc), "munmap"@, seq![addr, length]),
        r == old(bc).ops().len() + 1,
{
    build_call_and_set(bc, "munmap", FunctionType {
        ret: IrType::Int32,
        params: vec![IrType::Ptr(PointeeType::Void), IrType::IntPtr],
        var_arg: false,
    }, vec![addr, length])
}

/// Calls `abort()`.
pub fn build_call_and_set_abort(bc: &mut BuildContext) -> (r: usize)
    requires
        old(bc).wf(),
    ensures
        call_emitted(final(bc), old(bc), "abort"@, seq![]),
        r == old(bc).ops().len() + 1,
        final(bc).module.function_names() == old(bc).module.function_names()
            || final(bc).module.function_names() == old(bc).module.function_names().push("abort"@),
{
    build_call_and_set(bc, "abort", FunctionType { ret: IrType::Void, params: vec![], var_arg: false }, vec![])
}

/// Calls `raise(sig)`.
pub fn build_call_and_set_raise(bc: &mut BuildContext, sig: usize) -> (r: usize)
    requires
        old(bc).wf(),
    ensures
        call_emitted(final(bc), old(bc), "raise"@, seq![sig]),
        r == old(bc).ops().len() + 1,
{
    let args = vec![sig];
    assert(args@ =~= seq![sig]);
    build_call_and_set(bc, "raise", FunctionType { ret: IrType::Int32, params: vec![IrType::Int32], var_arg: false }, args)
}

/// Calls `raise` with the signal number `sig`, a 32-bit constant.
pub fn build_call_and_set_raise_const(bc: &mut BuildContext, sig: i32) -> (r: usize)
    requires
        old(bc).wf(),
    ensures
        final(bc).grown(old(bc), 3),
        final(bc).ops()[old(bc).ops().len() as int] == (OpView::Const { value: Constant::Int { ty: IrType::Int32, value: sig as u64, sign_extend: false } }),
        call_at(final(bc), old(bc).ops().len() + 1, "raise"@, seq![old(bc).ops().len() as usize]),
        r == old(bc).ops().len() + 2,
{
    let value = bc.emit(Op::Const { value: Constant::Int { ty: IrType::Int32, value: sig as u64, sign_extend: false } });
    let ghost mid = *bc;
    let r = build_call_and_set_raise(bc, value);
    proof {
        assert(mid.ops().take(old(bc).ops().len() as int) =~= old(bc).ops());
        assert(bc.ops().take(mid.ops().len() as int) == mid.ops());
        assert(bc.ops()[old(bc).ops().len() as int] == mid.ops()[old(bc).ops().len() as int]);
        assert(bc.ops().take(old(bc).ops().len() as int) =~= old(bc).ops());
    }
    r
}

} // verus!
