use vstd::prelude::*;
use crate::build_context::BuildContext;
use crate::calls::{
    build_call_and_set_ceil_f32, build_call_and_set_ceil_f64, build_call_and_set_copysign, build_call_and_set_copysignf,
    build_call_and_set_ctlz_i32, build_call_and_set_ctlz_i64, build_call_and_set_ctpop_i32, build_call_and_set_ctpop_i64,
    build_call_and_set_cttz_i32, build_call_and_set_cttz_i64, build_call_and_set_fabs_f32, build_call_and_set_fabs_f64,
    build_call_and_set_floor_f32, build_call_and_set_floor_f64, build_call_and_set_fmax, build_call_and_set_fmaxf,
    build_call_and_set_fmin, build_call_and_set_fminf, build_call_and_set_nearbyint_f32, build_call_and_set_nearbyint_f64,
    build_call_and_set_sqrt_f32, build_call_and_set_sqrt_f64, build_call_and_set_trunc_f32, build_call_and_set_trunc_f64,
    call_at, call_emitted,
};
use crate::ir::{BinaryOp, CastOp, Constant, IntPredicate, IrType, Op, OpView, RealPredicate, UnaryOp};

verus! {

/// The one-operand operations of WebAssembly, by how they are built.
#[derive(Clone, Copy, Debug, PartialEq, Eq, Structural)]
pub enum UnaryOperation {
    FNeg,
    Ctlz32,
    Cttz32,
    Ctlz64,
    Cttz64,
    Ctpop32,
    Ctpop64,
    Fabs32,
    Fabs64,
    Sqrt32,
    Sqrt64,
    Ceil32,
    Ceil64,
    Floor32,
    Floor64,
    Trunc32,
    Trunc64,
    Nearest32,
    Nearest64,
}

/// The two-operand operations of WebAssembly, by how they are built.
#[derive(Clone, Copy, Debug, PartialEq, Eq, Structural)]
pub enum BinaryOperation {
    Instr(BinaryOp),
    FMinF,
    FMin,
    FMaxF,
    FMax,
    CopySignF,
    CopySign,
    Rotl32,
    Rotr32,
    Rotl64,
    Rotr64,
}

/// The comparisons of WebAssembly.
#[derive(Clone, Copy, Debug, PartialEq, Eq, Structural)]
pub enum Comparison {
    Int(IntPredicate),
    Real(RealPredicate),
}

/// The function that a unary operation calls, with the zero-is-defined
/// flag as second argument (`counts`) or not.
pub open spec fn unary_callee(op: UnaryOperation) -> Seq<char> {
    match op {
        UnaryOperation::FNeg => seq![],
        UnaryOperation::Ctlz32 => "llvm.ctlz.i32"@,
        UnaryOperation::Cttz32 => "llvm.cttz.i32"@,
        UnaryOperation::Ctlz64 => "llvm.ctlz.i64"@,
        UnaryOperation::Cttz64 => "llvm.cttz.i64"@,
        UnaryOperation::Ctpop32 => "llvm.ctpop.i32"@,
        UnaryOperation::Ctpop64 => "llvm.ctpop.i64"@,
        UnaryOperation::Fabs32 => "llvm.fabs.f32"@,
        UnaryOperation::Fabs64 => "llvm.fabs.f64"@,
        UnaryOperation::Sqrt32 => "llvm.sqrt.f32"@,
        UnaryOperation::Sqrt64 => "llvm.sqrt.f64"@,
        UnaryOperation::Ceil32 => "llvm.ceil.f32"@,
        UnaryOperation::Ceil64 => "llvm.ceil.f64"@,
        UnaryOperation::Floor32 => "llvm.floor.f32"@,
        UnaryOperation::Floor64 => "llvm.floor.f64"@,
        UnaryOperation::Trunc32 => "llvm.trunc.f32"@,
        UnaryOperation::Trunc64 => "llvm.trunc.f64"@,
        UnaryOperation::Nearest32 => "llvm.nearbyint.f32"@,
        UnaryOperation::Nearest64 => "llvm.nearbyint.f64"@,
    }
}

/// The bit counts that take the zero-is-defined flag.
pub open spec fn is_count(op: UnaryOperation) -> bool {
    op is Ctlz32 || op is Cttz32 || op is Ctlz64 || op is Cttz64
}

/// The number of operations a unary operation takes.
pub open spec fn unary_len(op: UnaryOperation) -> nat {
    if op is FNeg { 1 } else if is_count(op) { 3 } else { 2 }
}

/// At position `at` stand the operations of `op` applied to `x`; the
/// last of them yields the result.
pub open spec fn unary_at(bc: &BuildContext, at: nat, op: UnaryOperation, x: usize) -> bool {
    if op is FNeg {
        bc.ops_at(at as int, seq![OpView::Unary { op: UnaryOp::FNeg, operand: x }])
    } else if is_count(op) {
        &&& bc.ops_at(at as int, seq![OpView::Const { value: Constant::Int { ty: IrType::Int1, value: 0, sign_extend: false } }])
        &&& call_at(bc, at + 1, unary_callee(op), seq![x, at as usize])
    } else {
        call_at(bc, at, unary_callee(op), seq![x])
    }
}

/// The function that a two-operand operation calls, if it is a call.
pub open spec fn binary_callee(op: BinaryOperation) -> Seq<char> {
    match op {
        BinaryOperation::FMinF => "fminf"@,
        BinaryOperation::FMin => "fmin"@,
        BinaryOperation::FMaxF => "fmaxf"@,
        BinaryOperation::FMax => "fmax"@,
        BinaryOperation::CopySignF => "copysignf"@,
        BinaryOperation::CopySign => "copysign"@,
        _ => seq![],
    }
}

/// The rotations, with the width of their operands.
pub open spec fn rotation_type(op: BinaryOperation) -> IrType {
    if op is Rotl32 || op is Rotr32 { IrType::Int32 } else { IrType::Int64 }
}

/// The number of operations a two-operand operation takes.
pub open spec fn binary_len(op: BinaryOperation) -> nat {
    match op {
        BinaryOperation::Instr(_) => 1,
        BinaryOperation::Rotl32 | BinaryOperation::Rotr32 | BinaryOperation::Rotl64 | BinaryOperation::Rotr64 => 7,
        _ => 2,
    }
}

/// A rotation of `lhs` by `rhs` at position `at`: the shift one way, or'ed
/// with the shift the other way by the negated amount masked to the width.
pub open spec fn rotation_ops(at: nat, left: bool, ty: IrType, lhs: usize, rhs: usize) -> Seq<OpView> {
    let bits: u64 = if ty == IrType::Int32 { 32 } else { 64 };
    seq![
        OpView::Const { value: Constant::Int { ty, value: (bits - 1) as u64, sign_extend: false } },
        OpView::Binary { op: if left { BinaryOp::Shl } else { BinaryOp::LShr }, lhs, rhs },
        OpView::Const { value: Constant::Int { ty, value: 0, sign_extend: false } },
        OpView::Binary { op: BinaryOp::Sub, lhs: (at + 2) as usize, rhs },
        OpView::Binary { op: BinaryOp::And, lhs: (at + 3) as usize, rhs: at as usize },
        OpView::Binary { op: if left { BinaryOp::LShr } else { BinaryOp::Shl }, lhs, rhs: (at + 4) as usize },
        OpView::Binary { op: BinaryOp::Or, lhs: (at + 1) as usize, rhs: (at + 5) as usize },
    ]
}

/// At position `at` stand the operations of `op` applied to `lhs` and
/// `rhs`; the last of them yields the result.
pub open spec fn binary_at(bc: &BuildContext, at: nat, op: BinaryOperation, lhs: usize, rhs: usize) -> bool {
    match op {
        BinaryOperation::Instr(o) => bc.ops_at(at as int, seq![OpView::Binary { op: o, lhs, rhs }]),
        BinaryOperation::Rotl32 | BinaryOperation::Rotl64 => bc.ops_at(at as int, rotation_ops(at, true, rotation_type(op), lhs, rhs)),
        BinaryOperation::Rotr32 | BinaryOperation::Rotr64 => bc.ops_at(at as int, rotation_ops(at, false, rotation_type(op), lhs, rhs)),
        _ => call_at(bc, at, binary_callee(op), seq![lhs, rhs]),
    }
}

/// A call stays where it is as the body grows.
pub proof fn lemma_call_kept(b: &BuildContext, c: &BuildContext, k: nat, at: nat, name: Seq<char>, args: Seq<usize>)
    requires
        c.grown(b, k),
        at + 1 < b.ops().len(),
        call_at(b, at, name, args),
    ensures
        call_at(c, at, name, args),
{
    BuildContext::lemma_refs_kept(b, c, k, at as int);
    BuildContext::lemma_refs_kept(b, c, k, (at + 1) as int);
    assert(b.function_ref_at(at as int, name));
}

/// Builds `op` on `x`; gives the result.
pub fn build_unary(bc: &mut BuildContext, op: UnaryOperation, x: usize) -> (r: usize)
    requires
        old(bc).wf(),
    ensures
        final(bc).grown(old(bc), unary_len(op)),
        unary_at(final(bc), old(bc).ops().len(), op, x),
        r == old(bc).ops().len() + unary_len(op) - 1,
{
    let ghost n = old(bc).ops().len();
    match op {
        UnaryOperation::FNeg => {
            let r = bc.emit(Op::Unary { op: UnaryOp::FNeg, operand: x });
            proof { BuildContext::lemma_emitted_grown(old(bc), bc, seq![OpView::Unary { op: UnaryOp::FNeg, operand: x }]); }
            r
        },
        UnaryOperation::Ctlz32 | UnaryOperation::Cttz32 | UnaryOperation::Ctlz64 | UnaryOperation::Cttz64 => {
            let r = match op {
                UnaryOperation::Ctlz32 => build_call_and_set_ctlz_i32(bc, x),
                UnaryOperation::Cttz32 => build_call_and_set_cttz_i32(bc, x),
                UnaryOperation::Ctlz64 => build_call_and_set_ctlz_i64(bc, x),
                _ => build_call_and_set_cttz_i64(bc, x),
            };
            proof {
                assert(bc.ops().subrange(n as int, (n + 1) as int) =~= seq![OpView::Const { value: Constant::Int { ty: IrType::Int1, value: 0, sign_extend: false } }]);
            }
            r
        },
        _ => {
            let r = match op {
                UnaryOperation::Ctpop32 => build_call_and_set_ctpop_i32(bc, x),
                UnaryOperation::Ctpop64 => build_call_and_set_ctpop_i64(bc, x),
                UnaryOperation::Fabs32 => build_call_and_set_fabs_f32(bc, x),
                UnaryOperation::Fabs64 => build_call_and_set_fabs_f64(bc, x),
                UnaryOperation::Sqrt32 => build_call_and_set_sqrt_f32(bc, x),
                UnaryOperation::Sqrt64 => build_call_and_set_sqrt_f64(bc, x),
                UnaryOperation::Ceil32 => build_call_and_set_ceil_f32(bc, x),
                UnaryOperation::Ceil64 => build_call_and_set_ceil_f64(bc, x),
                UnaryOperation::Floor32 => build_call_and_set_floor_f32(bc, x),
                UnaryOperation::Floor64 => build_call_and_set_floor_f64(bc, x),
                UnaryOperation::Trunc32 => build_call_and_set_trunc_f32(bc, x),
                UnaryOperation::Trunc64 => build_call_and_set_trunc_f64(bc, x),
                UnaryOperation::Nearest32 => build_call_and_set_nearbyint_f32(bc, x),
                _ => build_call_and_set_nearbyint_f64(bc, x),
            };
            r
        },
    }
}

/// Builds `op` on `lhs` and `rhs`; gives the result.
pub fn build_binary(bc: &mut BuildContext, op: BinaryOperation, lhs: usize, rhs: usize) -> (r: usize)
    requires
        old(bc).wf(),
    ensures
        final(bc).grown(old(bc), binary_len(op)),
        binary_at(final(bc), old(bc).ops().len(), op, lhs, rhs),
        r == old(bc).ops().len() + binary_len(op) - 1,
{
    let ghost n = old(bc).ops().len();
    match op {
        BinaryOperation::Instr(o) => {
            let r = bc.emit(Op::Binary { op: o, lhs, rhs });
            proof { BuildContext::lemma_emitted_grown(old(bc), bc, seq![OpView::Binary { op: o, lhs, rhs }]); }
            r
        },
        BinaryOperation::Rotl32 | BinaryOperation::Rotr32 | BinaryOperation::Rotl64 | BinaryOperation::Rotr64 => {
            let left = match op {
                BinaryOperation::Rotl32 | BinaryOperation::Rotl64 => true,
                _ => false,
            };
            let (ty, bits) = match op {
                BinaryOperation::Rotl32 | BinaryOperation::Rotr32 => (IrType::Int32, 32u64),
                _ => (IrType::Int64, 64u64),
            };
            let mask = bc.emit(Op::Const { value: Constant::Int { ty, value: bits - 1, sign_extend: false } });
            let first = bc.emit(Op::Binary { op: if left { BinaryOp::Shl } else { BinaryOp::LShr }, lhs, rhs });
            let zero = bc.emit(Op::Const { value: Constant::Int { ty, value: 0, sign_extend: false } });
            let negated = bc.emit(Op::Binary { op: BinaryOp::Sub, lhs: zero, rhs });
            let masked = bc.emit(Op::Binary { op: BinaryOp::And, lhs: negated, rhs: mask });
            let second = bc.emit(Op::Binary { op: if left { BinaryOp::LShr } else { BinaryOp::Shl }, lhs, rhs: masked });
            let r = bc.emit(Op::Binary { op: BinaryOp::Or, lhs: first, rhs: second });
            proof {
                let ops = rotation_ops(n, left, ty, lhs, rhs);
                assert(bc.ops() =~= old(bc).ops() + ops);
                assert(bc.emitted(old(bc), ops));
                BuildContext::lemma_emitted_grown(old(bc), bc, ops);
            }
            r
        },
        BinaryOperation::FMinF => build_call_and_set_fminf(bc, lhs, rhs),
        BinaryOperation::FMin => build_call_and_set_fmin(bc, lhs, rhs),
        BinaryOperation::FMaxF => build_call_and_set_fmaxf(bc, lhs, rhs),
        BinaryOperation::FMax => build_call_and_set_fmax(bc, lhs, rhs),
        BinaryOperation::CopySignF => build_call_and_set_copysignf(bc, lhs, rhs),
        BinaryOperation::CopySign => build_call_and_set_copysign(bc, lhs, rhs),
    }
}

/// The comparison instruction of `c` at position `at`.
pub open spec fn compare_op(c: Comparison, lhs: usize, rhs: usize) -> OpView {
    match c {
        Comparison::Int(predicate) => OpView::ICmp { predicate, lhs, rhs },
        Comparison::Real(predicate) => OpView::FCmp { predicate, lhs, rhs },
    }
}

/// Compares `lhs` with `rhs` and widens the truth value to 32 bits.
pub fn build_compare(bc: &mut BuildContext, c: Comparison, lhs: usize, rhs: usize) -> (r: usize)
    requires
        old(bc).wf(),
    ensures
        final(bc).emitted(old(bc), seq![
            compare_op(c, lhs, rhs),
            OpView::Cast { op: CastOp::ZExtOrBitCast, operand: old(bc).ops().len() as usize, ty: IrType::Int32 },
        ]),
        r == old(bc).ops().len() + 1,
{
    let test = match c {
        Comparison::Int(predicate) => bc.emit(Op::ICmp { predicate, lhs, rhs }),
        Comparison::Real(predicate) => bc.emit(Op::FCmp { predicate, lhs, rhs }),
    };
    let r = bc.emit(Op::Cast { op: CastOp::ZExtOrBitCast, operand: test, ty: IrType::Int32 });
    proof {
        assert(bc.ops() =~= old(bc).ops() + seq![
            compare_op(c, lhs, rhs),
            OpView::Cast { op: CastOp::ZExtOrBitCast, operand: old(bc).ops().len() as usize, ty: IrType::Int32 },
        ]);
    }
    r
}

} // verus!
