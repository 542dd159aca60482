use vstd::prelude::*;
use crate::build_context::BuildContext;
use crate::instructions::{
    br_ops, else_error, else_ops, end_error, end_ops, is_branch, kind_done, load_done, spec_classify, spec_value_type_to_type,
    store_done, InstructionKind,
};
use crate::ir::{CastOp, Constant, IrType, OpView, PointeeType};
use crate::stack::frame_previous;
use crate::stack::{value_loads, LabelType, StackView, WasmValue};
use crate::wasm_module::{Instruction, ValueType};

verus! {

/// The number of bits of a WebAssembly value type.
pub open spec fn value_type_bits(vt: ValueType) -> nat {
    match vt {
        ValueType::I32 => 32,
        ValueType::I64 => 64,
        ValueType::F32 => 32,
        ValueType::F64 => 64,
    }
}

/// Whether a WebAssembly value type is a floating point type.
pub open spec fn value_type_is_float(vt: ValueType) -> bool {
    vt is F32 || vt is F64
}

/// The number of bits of a scalar type of the plan; zero for the others.
pub open spec fn ir_type_bits(ty: IrType) -> nat {
    match ty {
        IrType::Int1 => 1,
        IrType::Int8 => 8,
        IrType::Int16 => 16,
        IrType::Int32 => 32,
        IrType::Int64 => 64,
        IrType::Float32 => 32,
        IrType::Float64 => 64,
        _ => 0,
    }
}

/// Whether a type of the plan is a floating point type.
pub open spec fn ir_type_is_float(ty: IrType) -> bool {
    ty is Float32 || ty is Float64
}

/// Law: the type that the plan gives a WebAssembly value type has that
/// type's width and kind: 32 or 64 bits, integer or floating point.  So a
/// 64-bit float is held in a double, never in a single precision float.
pub proof fn lemma_value_type_width(vt: ValueType)
    ensures
        ir_type_bits(spec_value_type_to_type(vt)) == value_type_bits(vt),
        ir_type_is_float(spec_value_type_to_type(vt)) == value_type_is_float(vt),
{
}

/// The number of bytes that a memory element of kind `p` takes.
pub open spec fn pointee_bytes(p: PointeeType) -> nat {
    match p {
        PointeeType::Void => 0,
        PointeeType::Int8 => 1,
        PointeeType::Int16 => 2,
        PointeeType::Int32 => 4,
        PointeeType::Int64 => 8,
        PointeeType::Float32 => 4,
        PointeeType::Float64 => 8,
    }
}

/// The memory access of a WebAssembly instruction, as the WebAssembly
/// specification fixes it: whether it stores, how many bytes it moves, and
/// its alignment and offset immediates; `None` for other instructions.
pub open spec fn wasm_memory_access(i: Instruction) -> Option<(bool, nat, u32, u32)> {
    match i {
        Instruction::I32Store(a, o) => Some((true, 4, a, o)),
        Instruction::I64Store(a, o) => Some((true, 8, a, o)),
        Instruction::F32Store(a, o) => Some((true, 4, a, o)),
        Instruction::F64Store(a, o) => Some((true, 8, a, o)),
        Instruction::I32Store8(a, o) => Some((true, 1, a, o)),
        Instruction::I32Store16(a, o) => Some((true, 2, a, o)),
        Instruction::I64Store8(a, o) => Some((true, 1, a, o)),
        Instruction::I64Store16(a, o) => Some((true, 2, a, o)),
        Instruction::I64Store32(a, o) => Some((true, 4, a, o)),
        Instruction::I32Load(a, o) => Some((false, 4, a, o)),
        Instruction::I64Load(a, o) => Some((false, 8, a, o)),
        Instruction::I32Load8S(a, o) => Some((false, 1, a, o)),
        Instruction::I32Load8U(a, o) => Some((false, 1, a, o)),
        Instruction::I32Load16S(a, o) => Some((false, 2, a, o)),
        Instruction::I32Load16U(a, o) => Some((false, 2, a, o)),
        Instruction::I64Load8S(a, o) => Some((false, 1, a, o)),
        Instruction::I64Load8U(a, o) => Some((false, 1, a, o)),
        Instruction::I64Load16S(a, o) => Some((false, 2, a, o)),
        Instruction::I64Load16U(a, o) => Some((false, 2, a, o)),
        Instruction::I64Load32S(a, o) => Some((false, 4, a, o)),
        Instruction::I64Load32U(a, o) => Some((false, 4, a, o)),
        _ => None,
    }
}

/// Law: each integer store and load of memory is translated as a store or a
/// load of an element exactly as wide as the instruction's access, with its
/// own alignment and offset.
pub proof fn lemma_memory_access_width(i: Instruction)
    requires
        wasm_memory_access(i) is Some,
    ensures
        ({
            let (stores, bytes, a, o) = wasm_memory_access(i)->0;
            match spec_classify(i) {
                InstructionKind::Store { align, offset, ty } => stores && pointee_bytes(ty) == bytes && align == a && offset == o,
                InstructionKind::Load { align, offset, ty } => !stores && pointee_bytes(ty) == bytes && align == a && offset == o,
                _ => false,
            }
        }),
{
}

/// Law: the translation of a store or load of memory accesses the memory
/// through a pointer to an element exactly as wide as the instruction's
/// access: among the operations it emits stands the cast of the address to
/// that pointer, followed by the store or the load through it.
#[verifier::rlimit(80)]
pub proof fn lemma_emitted_access_width(ob: &BuildContext, nb: &BuildContext, s: StackView, i: Instruction)
    requires
        wasm_memory_access(i) is Some,
        kind_done(ob, nb, s, i),
    ensures
        ({
            let (stores, bytes, a, o) = wasm_memory_access(i)->0;
            exists|k: int|
                ob.ops().len() <= k && k + 1 < nb.ops().len()
                && (#[trigger] nb.ops()[k] matches OpView::Cast { op: CastOp::BitCast, operand, ty: IrType::Ptr(p) }
                    && operand == (ob.ops().len() + 6) as usize && pointee_bytes(p) == bytes)
                && (if stores {
                    nb.ops()[k + 1] matches OpView::Store { ptr, .. } && ptr == k
                } else {
                    nb.ops()[k + 1] == (OpView::Load { ptr: k as usize })
                })
        }),
{
    lemma_memory_access_width(i);
    let (stores, bytes, a, o) = wasm_memory_access(i)->0;
    match spec_classify(i) {
        InstructionKind::Store { align, offset, ty } => {
            assert(store_done(ob, nb, s.values.last(), ty, align, offset));
            lemma_store_access(ob, nb, s.values.last(), ty, align, offset);
            let k = choose|k: int|
                ob.ops().len() <= k && k + 1 < nb.ops().len()
                && #[trigger] nb.ops()[k] == (OpView::Cast { op: CastOp::BitCast, operand: (ob.ops().len() + 6) as usize, ty: IrType::Ptr(ty) })
                && (nb.ops()[k + 1] matches OpView::Store { ptr, .. } && ptr == k);
            assert(stores && pointee_bytes(ty) == bytes);
        },
        InstructionKind::Load { align, offset, ty } => {
            assert(load_done(ob, nb, ty, align, offset));
            lemma_load_access(ob, nb, ty, align, offset);
            let k = choose|k: int|
                ob.ops().len() <= k && k + 1 < nb.ops().len()
                && #[trigger] nb.ops()[k] == (OpView::Cast { op: CastOp::BitCast, operand: (ob.ops().len() + 6) as usize, ty: IrType::Ptr(ty) })
                && nb.ops()[k + 1] == (OpView::Load { ptr: k as usize });
            assert(!stores && pointee_bytes(ty) == bytes);
        },
        _ => {},
    }
}

/// Where a store writes: the cast of the address to a pointer to its
/// element kind, then the store through it.
proof fn lemma_store_access(ob: &BuildContext, nb: &BuildContext, v: WasmValue, ty: PointeeType, align: u32, offset: u32)
    requires
        store_done(ob, nb, v, ty, align, offset),
    ensures
        exists|k: int|
            ob.ops().len() <= k && k + 1 < nb.ops().len()
            && #[trigger] nb.ops()[k] == (OpView::Cast { op: CastOp::BitCast, operand: (ob.ops().len() + 6) as usize, ty: IrType::Ptr(ty) })
            && (nb.ops()[k + 1] matches OpView::Store { ptr, .. } && ptr == k),
{
    let n = ob.ops().len() as int;
    let m = n + 7 + value_loads(v).len();
    let k = m + 2;
    assert(nb.ops().len() == nb.body@.len() && nb.body@.len() == nb.body.len());
    assert(nb.ops()[k] == nb.ops().subrange(m, m + 4)[2]);
    assert(nb.ops()[k + 1] == nb.ops().subrange(m, m + 4)[3]);
}

/// Where a load reads: the cast of the address to a pointer to its element
/// kind, then the load through it.
proof fn lemma_load_access(ob: &BuildContext, nb: &BuildContext, ty: PointeeType, align: u32, offset: u32)
    requires
        load_done(ob, nb, ty, align, offset),
    ensures
        exists|k: int|
            ob.ops().len() <= k && k + 1 < nb.ops().len()
            && #[trigger] nb.ops()[k] == (OpView::Cast { op: CastOp::BitCast, operand: (ob.ops().len() + 6) as usize, ty: IrType::Ptr(ty) })
            && nb.ops()[k + 1] == (OpView::Load { ptr: k as usize }),
{
    let n = ob.ops().len() as int;
    let k = n + 7;
    assert(nb.ops()[k] == nb.ops().subrange(n + 7, n + 10)[0]);
    assert(nb.ops()[k + 1] == nb.ops().subrange(n + 7, n + 10)[1]);
}

/// Law: a branch to an open label leaves for where that label's structure
/// goes on: the block after a block, the block after an if (never the if's
/// else arm), and the start of a loop.  The branch is the last operation
/// that the translation of `br` emits.
pub proof fn lemma_branch_destination(s: StackView, index: u32, n: nat)
    requires
        index < s.labels.len(),
    ensures
        br_ops(s, index, n).last() matches OpView::Br { block } && match s.labels[index as int].label_type {
            LabelType::Loop { start, .. } => block == start,
            LabelType::Block { next, .. } => block == next,
            LabelType::If { next, .. } => block == next,
        },
{
}

/// Law: a branch out of an if whose else arm is a block of its own does not
/// enter that arm.
pub proof fn lemma_branch_skips_else(s: StackView, index: u32, n: nat)
    requires
        index < s.labels.len(),
        s.labels[index as int].label_type matches LabelType::If { else_block, next, .. } && else_block != next,
    ensures
        br_ops(s, index, n).last() != (OpView::Br { block: s.labels[index as int].label_type->else_block }),
{
    lemma_branch_destination(s, index, n);
}

/// Law: an `else` ends the then arm by going on to the block after the if,
/// and goes on translating in the if's else block.
pub proof fn lemma_else_leaves_then_arm(s: StackView, n: nat)
    requires
        else_error(s) is None,
    ensures
        ({
            let ops = else_ops(s, n);
            s.labels.last().label_type matches LabelType::If { else_block, next, .. }
                && ops.len() >= 2
                && ops[ops.len() - 2] == (OpView::Br { block: next })
                && ops[ops.len() - 1] == (OpView::PositionAtEnd { block: else_block })
        }),
{
}

/// Law: closing a label goes on in the block after it, whatever kind of
/// label it is: the block is moved last and entered, and, unless the last
/// instruction translated was a branch, control goes there.
pub proof fn lemma_end_goes_on_after_label(ob: &BuildContext, s: StackView)
    requires
        end_error(s) is None,
        s.labels.len() > 0,
    ensures
        ({
            let ops = end_ops(ob, s);
            let next = match s.labels.last().label_type {
                LabelType::Loop { next, .. } => next,
                LabelType::Block { next, .. } => next,
                LabelType::If { next, .. } => next,
            };
            &&& ops.len() >= 2
            &&& ops[ops.len() - 2] == (OpView::MoveAfterLastBlock { block: next })
            &&& ops[ops.len() - 1] == (OpView::PositionAtEnd { block: next })
            &&& !is_branch(frame_previous(s)->0) ==> ops.len() >= 3 && ops[ops.len() - 3] == (OpView::Br { block: next })
        }),
{
}

/// Law: a constant instruction yields a constant of its own width and kind
/// holding its immediate: `i32.const` and `i64.const` sign-extended
/// integers of 32 and 64 bits, `f32.const` and `f64.const` floats from
/// their bits.
pub proof fn lemma_constant_widths(i: Instruction)
    requires
        i is I32Const || i is I64Const || i is F32Const || i is F64Const,
    ensures
        match i {
            Instruction::I32Const(v) => spec_classify(i) matches InstructionKind::Const(Constant::Int { ty, value, sign_extend })
                && ir_type_bits(ty) == 32 && !ir_type_is_float(ty) && value == v as u64 && sign_extend,
            Instruction::I64Const(v) => spec_classify(i) matches InstructionKind::Const(Constant::Int { ty, value, sign_extend })
                && ir_type_bits(ty) == 64 && !ir_type_is_float(ty) && value == v as u64 && sign_extend,
            Instruction::F32Const(v) => spec_classify(i) == InstructionKind::Const(Constant::Real32 { bits: v }),
            Instruction::F64Const(v) => spec_classify(i) == InstructionKind::Const(Constant::Real64 { bits: v }),
            _ => false,
        },
{
}

} // verus!
