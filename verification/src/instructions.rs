use vstd::prelude::*;
use crate::build_context::BuildContext;
use crate::error::{ErrorView, RuntimeError};
use crate::ir::{BinaryOp, CastOp, Constant, IntPredicate, IrType, Op, OpView, PointeeType, RealPredicate};
use crate::memory::{check_function_name, grow_function_name, memory_name, memory_size_name, LinearMemoryCompiler,
    LinearMemoryTypeContext, MemoryTypeContext};
use crate::calls::{build_call_and_set_donothing, build_call_and_set_trap, call_at, call_emitted};
use vstd::arithmetic::power2::{lemma2_to64, lemma_pow2_strictly_increases, lemma_pow2_unfold, pow2};
use crate::operations::{binary_at, binary_len, build_binary, build_compare, build_unary, compare_op, unary_at, unary_len,
    BinaryOperation, Comparison, UnaryOperation};
use crate::stack::{empty_history, frame_previous, record_in_frame, value_id, value_loads, Activations, BlockReturnValue, FrameView, Label, LabelType, LocalValue, Stack, StackView, WasmValue};
use crate::text::{decimal, prefixed_decimal};
use crate::types::WasmIntType;
use crate::wasm_module::{BlockType, Instruction, ValueType};

verus! {

/// The name of the global with index `index`.
pub open spec fn global_name(index: nat) -> Seq<char> {
    "__WASM_GLOBAL_"@ + decimal(index)
}

/// The name of the global with index `index`.
pub fn get_global_name(index: u32) -> (r: String)
    ensures
        r@ == global_name(index as nat),
{
    proof {
        reveal_strlit("__WASM_GLOBAL_");
    }
    prefixed_decimal("__WASM_GLOBAL_", index)
}

/// The type of the plan for a WebAssembly value type.
pub open spec fn spec_value_type_to_type(value_type: ValueType) -> IrType {
    match value_type {
        ValueType::I32 => IrType::Int32,
        ValueType::I64 => IrType::Int64,
        ValueType::F32 => IrType::Float32,
        ValueType::F64 => IrType::Float64,
    }
}

/// The type of the plan for a WebAssembly value type.
pub fn value_type_to_type(value_type: ValueType) -> (r: IrType)
    ensures
        r == spec_value_type_to_type(value_type),
{
    match value_type {
        ValueType::I32 => IrType::Int32,
        ValueType::I64 => IrType::Int64,
        ValueType::F32 => IrType::Float32,
        ValueType::F64 => IrType::Float64,
    }
}

/// The 64-bit constant `v`.
pub fn i64_const_internal(v: i64) -> (r: Constant)
    ensures
        r == (Constant::Int { ty: IrType::Int64, value: v as u64, sign_extend: true }),
{
    Constant::Int { ty: IrType::Int64, value: v as u64, sign_extend: true }
}

/// The 32-bit constant `v`, sign extended to the 64 bits of the constant.
pub fn i32_const_internal(v: i32) -> (r: Constant)
    ensures
        r == (Constant::Int { ty: IrType::Int32, value: v as u64, sign_extend: true }),
{
    Constant::Int { ty: IrType::Int32, value: v as u64, sign_extend: true }
}

/// The double precision constant with the bits `bits`.
pub fn f64_const_internal(bits: u64) -> (r: Constant)
    ensures
        r == (Constant::Real64 { bits }),
{
    Constant::Real64 { bits }
}

/// The single precision constant with the bits `bits`.
pub fn f32_const_internal(bits: u32) -> (r: Constant)
    ensures
        r == (Constant::Real32 { bits }),
{
    Constant::Real32 { bits }
}

/// The value types of the results of the structured instructions among
/// `instructions`, in order; blocks without a result are skipped.
pub open spec fn label_block_types(instructions: Seq<Instruction>) -> Seq<ValueType>
    decreases instructions.len(),
{
    if instructions.len() == 0 {
        seq![]
    } else {
        let rest = label_block_types(instructions.drop_last());
        match instructions.last() {
            Instruction::Block(BlockType::Value(v)) | Instruction::Loop(BlockType::Value(v)) | Instruction::If(BlockType::Value(v)) => rest.push(v),
            _ => rest,
        }
    }
}

/// The value types of the results of the structured instructions among
/// `instructions`, in order.
pub fn filter_label_block_types(instructions: &[Instruction]) -> (r: Vec<ValueType>)
    ensures
        r@ == label_block_types(instructions@),
{
    let mut r: Vec<ValueType> = Vec::new();
    let mut i: usize = 0;
    while i < instructions.len()
        invariant
            i <= instructions@.len(),
            r@ == label_block_types(instructions@.take(i as int)),
        decreases instructions@.len() - i,
    {
        assert(instructions@.take(i + 1).drop_last() =~= instructions@.take(i as int));
        match &instructions[i] {
            Instruction::Block(BlockType::Value(v)) | Instruction::Loop(BlockType::Value(v)) | Instruction::If(BlockType::Value(v)) => {
                r.push(*v);
            },
            _ => {},
        }
        i = i + 1;
    }
    assert(instructions@.take(instructions@.len() as int) =~= instructions@);
    r
}

/// `s` with `v` pushed.
pub open spec fn push_value(s: StackView, v: WasmValue) -> StackView {
    StackView { values: s.values.push(v), ..s }
}

/// `s` with its top value popped.
pub open spec fn pop_value(s: StackView) -> StackView {
    StackView { values: s.values.drop_last(), ..s }
}

/// The value below the top.
pub open spec fn below_top(s: StackView) -> WasmValue {
    s.values[s.values.len() - 2]
}

/// The plain value that operation `id` yields.
pub open spec fn plain(id: int) -> WasmValue {
    WasmValue::Value { value: id as usize }
}

/// Pushes the constant `c`.
pub fn push_const<T: WasmIntType>(bc: &mut BuildContext, c: Constant, stack: Stack<T>) -> (r: Stack<T>)
    requires
        old(bc).wf(),
    ensures
        r.instances() == stack.instances(),
        final(bc).emitted(old(bc), seq![OpView::Const { value: c }]),
        r@ == push_value(stack@, plain(old(bc).ops().len() as int)),
{
    let mut stack = stack;
    let v = bc.emit(Op::Const { value: c });
    stack.values.push(WasmValue::new_value(v));
    stack
}

/// The global with index `index`, or the error that it is not declared.
pub fn get_global_internal(bc: &BuildContext, index: u32) -> (r: Result<usize, RuntimeError>)
    requires
        bc.wf(),
    ensures
        r is Ok <==> bc.module.global_names().contains(global_name(index as nat)),
        r matches Ok(g) ==> g < bc.module.globals@.len() && bc.module.global_names()[g as int] == global_name(index as nat),
        r matches Err(e) ==> e@ == (ErrorView::NoSuchLLVMGlobalValue { name: global_name(index as nat) }),
{
    let name = get_global_name(index);
    match bc.get_named_global(&name) {
        Some(g) => Ok(g),
        None => Err(RuntimeError::NoSuchLLVMGlobalValue { name }),
    }
}

/// The operations of `get_global`: the global's address, then its value.
pub open spec fn get_global_done(ob: &BuildContext, nb: &BuildContext, index: u32) -> bool {
    let n = ob.ops().len() as int;
    &&& nb.grown(ob, 2)
    &&& nb.global_ref_at(n, global_name(index as nat))
    &&& nb.ops()[n + 1] == (OpView::Load { ptr: n as usize })
}

/// Pushes the value of global `index`.
pub fn get_global<T: WasmIntType>(bc: &mut BuildContext, index: u32, stack: Stack<T>) -> (r: Result<Stack<T>, RuntimeError>)
    requires
        old(bc).wf(),
    ensures
        r matches Ok(s) ==> s.instances() == stack.instances(),
        final(bc).extends(old(bc)),
        final(bc).keeps_initial_values(old(bc)),
        r is Ok <==> old(bc).module.global_names().contains(global_name(index as nat)),
        r matches Err(e) ==> e@ == (ErrorView::NoSuchLLVMGlobalValue { name: global_name(index as nat) }),
        r is Err ==> *final(bc) == *old(bc),
        r matches Ok(s) ==> get_global_done(old(bc), final(bc), index)
            && s@ == push_value(stack@, plain(old(bc).ops().len() + 1int)),
{
    let mut stack = stack;
    let g = get_global_internal(bc, index)?;
    let reference = bc.emit(Op::GlobalRef { global: g });
    let v = bc.emit(Op::Load { ptr: reference });
    stack.values.push(WasmValue::new_value(v));
    proof {
        assert(bc.ops().take(old(bc).ops().len() as int) =~= old(bc).ops());
    }
    Ok(stack)
}

/// The operations of `set_global`: the value, the global's address, the store.
pub open spec fn set_global_done(ob: &BuildContext, nb: &BuildContext, index: u32, v: WasmValue) -> bool {
    let n = ob.ops().len() as int;
    let l = value_loads(v).len() as int;
    &&& nb.grown(ob, (l + 2) as nat)
    &&& nb.ops_at(n, value_loads(v))
    &&& nb.global_ref_at(n + l, global_name(index as nat))
    &&& nb.ops()[n + l + 1] == (OpView::Store { value: value_id(v, n as nat), ptr: (n + l) as usize })
}

/// Pops a value into global `index`.
pub fn set_global<T: WasmIntType>(bc: &mut BuildContext, index: u32, stack: Stack<T>) -> (r: Result<Stack<T>, RuntimeError>)
    requires
        old(bc).wf(),
    ensures
        r matches Ok(s) ==> s.instances() == stack.instances(),
        final(bc).extends(old(bc)),
        final(bc).keeps_initial_values(old(bc)),
        r is Ok <==> old(bc).module.global_names().contains(global_name(index as nat)) && stack@.values.len() > 0,
        r matches Err(e) ==> if !old(bc).module.global_names().contains(global_name(index as nat)) {
            e@ == (ErrorView::NoSuchLLVMGlobalValue { name: global_name(index as nat) })
        } else {
            e is NotExistValue
        },
        r is Err ==> *final(bc) == *old(bc),
        r matches Ok(s) ==> set_global_done(old(bc), final(bc), index, stack@.values.last())
            && s@ == pop_value(stack@),
{
    let mut stack = stack;
    let g = get_global_internal(bc, index)?;
    let v = match stack.values.pop() {
        Some(v) => v,
        None => return Err(RuntimeError::NotExistValue),
    };
    let value = v.to_value(bc);
    let ghost mid = *bc;
    let reference = bc.emit(Op::GlobalRef { global: g });
    bc.emit(Op::Store { value, ptr: reference });
    proof {
        let n = old(bc).ops().len();
        BuildContext::lemma_emitted_grown(old(bc), &mid, value_loads(v));
        assert(bc.ops() =~= mid.ops() + seq![OpView::GlobalRef { global: g }, OpView::Store { value, ptr: mid.ops().len() as usize }]);
        assert(bc.ops().take(n as int) =~= old(bc).ops());
        assert(bc.ops().subrange(n as int, (n + value_loads(v).len()) as int) =~= mid.ops().subrange(n as int, (n + value_loads(v).len()) as int));
    }
    Ok(stack)
}

/// The error of reading local `index`, if it cannot be read.
pub open spec fn get_local_error(s: StackView, index: u32) -> Option<ErrorView> {
    if s.frames.len() == 0 {
        Some(ErrorView::NotExistFrame)
    } else if index >= s.frames[0].locals.len() || s.frames[0].locals[index as int].value is None {
        Some(ErrorView::NoSuchLocalValue { index })
    } else {
        None
    }
}

/// Pushes the value of local `index` of the current frame.
pub fn get_local<T: WasmIntType>(index: u32, stack: Stack<T>) -> (r: Result<Stack<T>, RuntimeError>)
    ensures
        r matches Ok(s) ==> s.instances() == stack.instances(),
        r is Ok <==> get_local_error(stack@, index) is None,
        r matches Err(e) ==> get_local_error(stack@, index) == Some(e@),
        r matches Ok(s) ==> s@ == push_value(stack@, stack@.frames[0].locals[index as int].value->0),
{
    let mut stack = stack;
    let v = {
        let current_frame = stack.activations.current()?;
        if index as usize >= current_frame.locals.len() {
            return Err(RuntimeError::NoSuchLocalValue { index });
        }
        match current_frame.locals[index as usize].value {
            Some(v) => v,
            None => return Err(RuntimeError::NoSuchLocalValue { index }),
        }
    };
    stack.values.push(v);
    Ok(stack)
}

/// `s` with local `index` of the current frame set to `v`.
pub open spec fn set_local_value(s: StackView, index: u32, v: WasmValue) -> StackView {
    let frame = s.frames[0];
    let local = frame.locals[index as int];
    StackView {
        frames: s.frames.update(0, FrameView {
            locals: frame.locals.update(index as int, LocalValue { value: Some(v), value_type: local.value_type }),
            ..frame
        }),
        ..s
    }
}

/// The error of writing local `index` from the stack, if it cannot be written.
pub open spec fn set_local_error(s: StackView, index: u32) -> Option<ErrorView> {
    if s.frames.len() == 0 {
        Some(ErrorView::NotExistFrame)
    } else if index >= s.frames[0].locals.len() {
        Some(ErrorView::NoSuchLocalValue { index })
    } else if s.values.len() == 0 {
        Some(ErrorView::NotExistValue)
    } else {
        None
    }
}

/// Sets local `index` of the current frame to `v`.
fn update_local<T: WasmIntType>(stack: Stack<T>, index: u32, v: WasmValue) -> (r: Stack<T>)
    requires
        stack@.frames.len() > 0,
        index < stack@.frames[0].locals.len(),
    ensures
        r@ == set_local_value(stack@, index, v),
        r.instances() == stack.instances(),
{
    let ghost orig = stack@;
    let ghost instances = stack.instances();
    let mut stack = stack;
    let mut frames = Vec::new();
    core::mem::swap(&mut frames, &mut stack.activations);
    let mut current = frames.remove(0);
    let local = current.locals[index as usize];
    current.locals.set(index as usize, LocalValue { value: Some(v), value_type: local.value_type });
    frames.insert(0, current);
    stack.activations = frames;
    proof {
        assert(stack@.frames =~= set_local_value(orig, index, v).frames);
        assert(stack.instances() =~= instances);
    }
    stack
}

/// Pops a value into local `index` of the current frame.
pub fn set_local<T: WasmIntType>(index: u32, stack: Stack<T>) -> (r: Result<Stack<T>, RuntimeError>)
    ensures
        r matches Ok(s) ==> s.instances() == stack.instances(),
        r is Ok <==> set_local_error(stack@, index) is None,
        r matches Err(e) ==> set_local_error(stack@, index) == Some(e@),
        r matches Ok(s) ==> s@ == set_local_value(pop_value(stack@), index, stack@.values.last()),
{
    let mut stack = stack;
    let frames = stack.activations.current()?.locals.len();
    if index as usize >= frames {
        return Err(RuntimeError::NoSuchLocalValue { index });
    }
    let v = match stack.values.pop() {
        Some(v) => v,
        None => return Err(RuntimeError::NotExistValue),
    };
    Ok(update_local(stack, index, v))
}

/// Copies the top value into local `index` of the current frame.
pub fn tee_local<T: WasmIntType>(index: u32, stack: Stack<T>) -> (r: Result<Stack<T>, RuntimeError>)
    ensures
        r matches Ok(s) ==> s.instances() == stack.instances(),
        r is Ok <==> set_local_error(stack@, index) is None,
        r matches Err(e) ==> set_local_error(stack@, index) == Some(e@),
        r matches Ok(s) ==> s@ == set_local_value(stack@, index, stack@.values.last()),
{
    let frames = stack.activations.current()?.locals.len();
    if index as usize >= frames {
        return Err(RuntimeError::NoSuchLocalValue { index });
    }
    if stack.values.len() == 0 {
        return Err(RuntimeError::NotExistValue);
    }
    let v = stack.values[stack.values.len() - 1];
    Ok(update_local(stack, index, v))
}

/// Law: a value that `set_local` writes into a local is what `get_local`
/// then reads back, and a `tee_local` leaves the operand stack as it was.
pub proof fn lemma_set_local_then_get_local(s: StackView, index: u32)
    requires
        set_local_error(s, index) is None,
    ensures
        get_local_error(set_local_value(pop_value(s), index, s.values.last()), index) is None,
        set_local_value(pop_value(s), index, s.values.last()).frames[0].locals[index as int].value == Some(s.values.last()),
        push_value(set_local_value(pop_value(s), index, s.values.last()), s.values.last()).values == s.values,
        set_local_value(s, index, s.values.last()).values == s.values,
{
    assert(s.values.drop_last().push(s.values.last()) =~= s.values);
}

/// Law: popping a pushed value gives back the stack as it was.
pub proof fn lemma_push_then_pop(s: StackView, v: WasmValue)
    ensures
        pop_value(push_value(s, v)) == s,
        push_value(s, v).values.last() == v,
{
    assert(s.values.push(v).drop_last() =~= s.values);
}

/// Law: distinct global indices have distinct global names.
pub proof fn lemma_global_names_distinct(i: nat, j: nat)
    requires
        i != j,
    ensures
        global_name(i) != global_name(j),
{
    crate::text::lemma_prefixed_decimal_injective("__WASM_GLOBAL_"@, i, j);
}

/// The operations of an operation on the top value `x`: its loads, then
/// `ops` at the position that follows them.
pub open spec fn one_operand_done(ob: &BuildContext, nb: &BuildContext, x: WasmValue, k: nat) -> bool {
    let n = ob.ops().len();
    let l = value_loads(x).len();
    &&& nb.grown(ob, l + k)
    &&& nb.ops_at(n as int, value_loads(x))
}

/// The operations of an operation on the two top values `lhs` (below) and
/// `rhs`: the loads of each, then `k` operations.
pub open spec fn two_operands_done(ob: &BuildContext, nb: &BuildContext, lhs: WasmValue, rhs: WasmValue, k: nat) -> bool {
    let n = ob.ops().len();
    let l1 = value_loads(lhs).len();
    let l2 = value_loads(rhs).len();
    &&& nb.grown(ob, l1 + l2 + k)
    &&& nb.ops_at(n as int, value_loads(lhs))
    &&& nb.ops_at((n + l1) as int, value_loads(rhs))
}

/// Where the operations after the loads of `x` start.
pub open spec fn after_one(ob: &BuildContext, x: WasmValue) -> nat {
    ob.ops().len() + value_loads(x).len()
}

/// Where the operations after the loads of `lhs` and `rhs` start.
pub open spec fn after_two(ob: &BuildContext, lhs: WasmValue, rhs: WasmValue) -> nat {
    ob.ops().len() + value_loads(lhs).len() + value_loads(rhs).len()
}

/// The operation that yields `rhs` once `lhs` is loaded.
pub open spec fn rhs_id(ob: &BuildContext, lhs: WasmValue, rhs: WasmValue) -> usize {
    value_id(rhs, ob.ops().len() + value_loads(lhs).len())
}

/// Pops the top value and makes it usable; gives it and its operation.
fn pop_operand<T: WasmIntType>(bc: &mut BuildContext, stack: &mut Stack<T>) -> (r: Result<(WasmValue, usize), RuntimeError>)
    requires
        old(bc).wf(),
    ensures
        final(stack).activations == old(stack).activations,
        r is Ok <==> old(stack)@.values.len() > 0,
        r matches Err(e) ==> e is NotExistValue && *final(bc) == *old(bc) && final(stack)@ == old(stack)@,
        r matches Ok((v, id)) ==> {
            &&& v == old(stack)@.values.last()
            &&& final(stack)@ == pop_value(old(stack)@)
            &&& id == value_id(v, old(bc).ops().len())
            &&& final(bc).grown(old(bc), value_loads(v).len())
            &&& final(bc).ops_at(old(bc).ops().len() as int, value_loads(v))
        },
{
    match stack.values.pop() {
        Some(v) => {
            let id = v.to_value(bc);
            proof {
                BuildContext::lemma_emitted_grown(old(bc), bc, value_loads(v));
            }
            Ok((v, id))
        },
        None => Err(RuntimeError::NotExistValue),
    }
}

/// Replaces the top value by `op` applied to it.
fn unop<T: WasmIntType>(bc: &mut BuildContext, stack: Stack<T>, op: UnaryOperation) -> (r: Result<Stack<T>, RuntimeError>)
    requires
        old(bc).wf(),
    ensures
        r matches Ok(s) ==> s.instances() == stack.instances(),
        r is Err ==> *final(bc) == *old(bc),
        final(bc).extends(old(bc)),
        final(bc).keeps_initial_values(old(bc)),
        r is Ok <==> stack@.values.len() > 0,
        r matches Err(e) ==> e is NotExistValue,
        r matches Ok(s) ==> {
            let x = stack@.values.last();
            &&& one_operand_done(old(bc), final(bc), x, unary_len(op))
            &&& unary_at(final(bc), after_one(old(bc), x), op, value_id(x, old(bc).ops().len()))
            &&& s@ == push_value(pop_value(stack@), plain(after_one(old(bc), x) + unary_len(op) - 1))
        },
{
    let mut stack = stack;
    let (x, id) = pop_operand(bc, &mut stack)?;
    let ghost b1 = *bc;
    let r = build_unary(bc, op, id);
    proof {
        BuildContext::lemma_grown_trans(old(bc), &b1, bc, value_loads(x).len(), unary_len(op));
        BuildContext::lemma_kept(&b1, bc, unary_len(op), old(bc).ops().len() as int, value_loads(x));
    }
    stack.values.push(WasmValue::new_value(r));
    Ok(stack)
}

/// Pops the two top values and makes them usable, the lower first; gives
/// them and their operations.
fn pop_operands<T: WasmIntType>(bc: &mut BuildContext, stack: &mut Stack<T>) -> (r: Result<(WasmValue, usize, WasmValue, usize), RuntimeError>)
    requires
        old(bc).wf(),
    ensures
        final(stack).activations == old(stack).activations,
        r is Ok <==> old(stack)@.values.len() >= 2,
        r matches Err(e) ==> e is NotExistValue && *final(bc) == *old(bc),
        r matches Ok((lhs, lid, rhs, rid)) ==> {
            &&& lhs == below_top(old(stack)@)
            &&& rhs == old(stack)@.values.last()
            &&& final(stack)@ == pop_value(pop_value(old(stack)@))
            &&& lid == value_id(lhs, old(bc).ops().len())
            &&& rid == rhs_id(old(bc), lhs, rhs)
            &&& two_operands_done(old(bc), final(bc), lhs, rhs, 0)
        },
{
    let rhs = match stack.values.pop() {
        Some(v) => v,
        None => return Err(RuntimeError::NotExistValue),
    };
    let lhs = match stack.values.pop() {
        Some(v) => v,
        None => return Err(RuntimeError::NotExistValue),
    };
    let lid = lhs.to_value(bc);
    let ghost b1 = *bc;
    let rid = rhs.to_value(bc);
    proof {
        BuildContext::lemma_emitted_grown(old(bc), &b1, value_loads(lhs));
        BuildContext::lemma_emitted_grown(&b1, bc, value_loads(rhs));
        BuildContext::lemma_grown_trans(old(bc), &b1, bc, value_loads(lhs).len(), value_loads(rhs).len());
        BuildContext::lemma_kept(&b1, bc, value_loads(rhs).len(), old(bc).ops().len() as int, value_loads(lhs));
    }
    Ok((lhs, lid, rhs, rid))
}

/// Replaces the two top values by `op` applied to them.
fn binop<T: WasmIntType>(bc: &mut BuildContext, stack: Stack<T>, op: BinaryOperation) -> (r: Result<Stack<T>, RuntimeError>)
    requires
        old(bc).wf(),
    ensures
        r matches Ok(s) ==> s.instances() == stack.instances(),
        r is Err ==> *final(bc) == *old(bc),
        final(bc).extends(old(bc)),
        final(bc).keeps_initial_values(old(bc)),
        r is Ok <==> stack@.values.len() >= 2,
        r matches Err(e) ==> e is NotExistValue,
        r matches Ok(s) ==> {
            let lhs = below_top(stack@);
            let rhs = stack@.values.last();
            &&& two_operands_done(old(bc), final(bc), lhs, rhs, binary_len(op))
            &&& binary_at(final(bc), after_two(old(bc), lhs, rhs), op, value_id(lhs, old(bc).ops().len()), rhs_id(old(bc), lhs, rhs))
            &&& s@ == push_value(pop_value(pop_value(stack@)), plain(after_two(old(bc), lhs, rhs) + binary_len(op) - 1))
        },
{
    let mut stack = stack;
    let (lhs, lid, rhs, rid) = pop_operands(bc, &mut stack)?;
    let ghost b1 = *bc;
    let r = build_binary(bc, op, lid, rid);
    proof {
        let n = old(bc).ops().len();
        let l1 = value_loads(lhs).len();
        BuildContext::lemma_grown_trans(old(bc), &b1, bc, l1 + value_loads(rhs).len(), binary_len(op));
        BuildContext::lemma_kept(&b1, bc, binary_len(op), n as int, value_loads(lhs));
        BuildContext::lemma_kept(&b1, bc, binary_len(op), (n + l1) as int, value_loads(rhs));
    }
    stack.values.push(WasmValue::new_value(r));
    Ok(stack)
}

/// Replaces the two top values by their comparison, widened to 32 bits.
fn relop<T: WasmIntType>(bc: &mut BuildContext, stack: Stack<T>, c: Comparison) -> (r: Result<Stack<T>, RuntimeError>)
    requires
        old(bc).wf(),
    ensures
        r matches Ok(s) ==> s.instances() == stack.instances(),
        r is Err ==> *final(bc) == *old(bc),
        final(bc).extends(old(bc)),
        final(bc).keeps_initial_values(old(bc)),
        r is Ok <==> stack@.values.len() >= 2,
        r matches Err(e) ==> e is NotExistValue,
        r matches Ok(s) ==> {
            let lhs = below_top(stack@);
            let rhs = stack@.values.last();
            let at = after_two(old(bc), lhs, rhs);
            &&& two_operands_done(old(bc), final(bc), lhs, rhs, 2)
            &&& final(bc).ops_at(at as int, seq![
                compare_op(c, value_id(lhs, old(bc).ops().len()), rhs_id(old(bc), lhs, rhs)),
                OpView::Cast { op: CastOp::ZExtOrBitCast, operand: at as usize, ty: IrType::Int32 },
            ])
            &&& s@ == push_value(pop_value(pop_value(stack@)), plain(at as int + 1))
        },
{
    let mut stack = stack;
    let (lhs, lid, rhs, rid) = pop_operands(bc, &mut stack)?;
    let ghost b1 = *bc;
    let r = build_compare(bc, c, lid, rid);
    proof {
        let n = old(bc).ops().len();
        let l1 = value_loads(lhs).len();
        BuildContext::lemma_emitted_grown(&b1, bc, seq![
            compare_op(c, lid, rid),
            OpView::Cast { op: CastOp::ZExtOrBitCast, operand: b1.ops().len() as usize, ty: IrType::Int32 },
        ]);
        BuildContext::lemma_grown_trans(old(bc), &b1, bc, l1 + value_loads(rhs).len(), 2);
        BuildContext::lemma_kept(&b1, bc, 2, n as int, value_loads(lhs));
        BuildContext::lemma_kept(&b1, bc, 2, (n + l1) as int, value_loads(rhs));
    }
    stack.values.push(WasmValue::new_value(r));
    Ok(stack)
}

/// Replaces the top value, an integer of type `ty`, by whether it is zero.
fn eqz<T: WasmIntType>(bc: &mut BuildContext, ty: IrType, stack: Stack<T>) -> (r: Result<Stack<T>, RuntimeError>)
    requires
        old(bc).wf(),
    ensures
        r matches Ok(s) ==> s.instances() == stack.instances(),
        r is Err ==> *final(bc) == *old(bc),
        final(bc).extends(old(bc)),
        final(bc).keeps_initial_values(old(bc)),
        r is Ok <==> stack@.values.len() > 0,
        r matches Err(e) ==> e is NotExistValue,
        r matches Ok(s) ==> {
            let x = stack@.values.last();
            let at = after_one(old(bc), x);
            &&& one_operand_done(old(bc), final(bc), x, 2)
            &&& final(bc).ops_at(at as int, seq![
                OpView::Const { value: Constant::Int { ty, value: 0, sign_extend: false } },
                OpView::ICmp { predicate: IntPredicate::Eq, lhs: value_id(x, old(bc).ops().len()), rhs: at as usize },
            ])
            &&& s@ == push_value(pop_value(stack@), plain(at as int + 1))
        },
{
    let mut stack = stack;
    let (x, id) = pop_operand(bc, &mut stack)?;
    let ghost b1 = *bc;
    let zero = bc.emit(Op::Const { value: Constant::Int { ty, value: 0, sign_extend: false } });
    let r = bc.emit(Op::ICmp { predicate: IntPredicate::Eq, lhs: id, rhs: zero });
    proof {
        let ops = seq![
            OpView::Const { value: Constant::Int { ty, value: 0, sign_extend: false } },
            OpView::ICmp { predicate: IntPredicate::Eq, lhs: id, rhs: zero },
        ];
        assert(bc.ops() =~= b1.ops() + ops);
        BuildContext::lemma_emitted_grown(&b1, bc, ops);
        BuildContext::lemma_grown_trans(old(bc), &b1, bc, value_loads(x).len(), 2);
        BuildContext::lemma_kept(&b1, bc, 2, old(bc).ops().len() as int, value_loads(x));
    }
    stack.values.push(WasmValue::new_value(r));
    Ok(stack)
}

/// Replaces the top value by its conversion `op` to type `ty`.
fn cutop<T: WasmIntType>(bc: &mut BuildContext, stack: Stack<T>, op: CastOp, ty: IrType) -> (r: Result<Stack<T>, RuntimeError>)
    requires
        old(bc).wf(),
    ensures
        r matches Ok(s) ==> s.instances() == stack.instances(),
        r is Err ==> *final(bc) == *old(bc),
        final(bc).extends(old(bc)),
        final(bc).keeps_initial_values(old(bc)),
        r is Ok <==> stack@.values.len() > 0,
        r matches Err(e) ==> e is NotExistValue,
        r matches Ok(s) ==> {
            let x = stack@.values.last();
            let at = after_one(old(bc), x);
            &&& one_operand_done(old(bc), final(bc), x, 1)
            &&& final(bc).ops_at(at as int, seq![OpView::Cast { op, operand: value_id(x, old(bc).ops().len()), ty }])
            &&& s@ == push_value(pop_value(stack@), plain(at as int))
        },
{
    let mut stack = stack;
    let (x, id) = pop_operand(bc, &mut stack)?;
    let ghost b1 = *bc;
    let r = bc.emit(Op::Cast { op, operand: id, ty });
    proof {
        BuildContext::lemma_emitted_grown(&b1, bc, seq![OpView::Cast { op, operand: id, ty }]);
        BuildContext::lemma_grown_trans(old(bc), &b1, bc, value_loads(x).len(), 1);
        BuildContext::lemma_kept(&b1, bc, 1, old(bc).ops().len() as int, value_loads(x));
    }
    stack.values.push(WasmValue::new_value(r));
    Ok(stack)
}

/// The alignment in bytes for the alignment exponent `align`.
pub fn alignment(align: u32) -> (r: u32)
    requires
        align < 32,
    ensures
        r == pow2(align as nat),
{
    proof {
        lemma2_to64();
    }
    let mut r: u32 = 1;
    let mut i: u32 = 0;
    while i < align
        invariant
            i <= align < 32,
            r == pow2(i as nat),
        decreases align - i,
    {
        proof {
            lemma_pow2_unfold((i + 1) as nat);
            lemma_pow2_strictly_increases((i + 1) as nat, 32);
            lemma2_to64();
        }
        r = r * 2;
        i = i + 1;
    }
    r
}

/// The type of the plan for a pointed-to element kind.
pub open spec fn pointee_type(p: PointeeType) -> IrType {
    match p {
        PointeeType::Void => IrType::Void,
        PointeeType::Int8 => IrType::Int8,
        PointeeType::Int16 => IrType::Int16,
        PointeeType::Int32 => IrType::Int32,
        PointeeType::Int64 => IrType::Int64,
        PointeeType::Float32 => IrType::Float32,
        PointeeType::Float64 => IrType::Float64,
    }
}

fn pointee_type_exec(p: PointeeType) -> (r: IrType)
    ensures
        r == pointee_type(p),
{
    match p {
        PointeeType::Void => IrType::Void,
        PointeeType::Int8 => IrType::Int8,
        PointeeType::Int16 => IrType::Int16,
        PointeeType::Int32 => IrType::Int32,
        PointeeType::Int64 => IrType::Int64,
        PointeeType::Float32 => IrType::Float32,
        PointeeType::Float64 => IrType::Float64,
    }
}

/// The prefix of the symbols of the linear memories.
pub open spec fn linear_prefix() -> Seq<char> {
    LinearMemoryTypeContext::MEMORY_NAME_PREFIX@
}

/// The operations of a bounds check of byte `target` of memory `index`:
/// the address and a call of the memory's check function.
pub open spec fn check_done(nb: &BuildContext, at: nat, index: u32, target: u32) -> bool {
    &&& nb.ops_at(at as int, seq![OpView::Const { value: Constant::Int { ty: IrType::Int32, value: target as u64, sign_extend: false } }])
    &&& call_at(nb, at + 1, check_function_name(linear_prefix(), index as nat), seq![at as usize])
}

/// Calls the check function of linear memory `index` on the address `target`.
fn build_check_memory_size_const<T: WasmIntType>(bc: &mut BuildContext, index: u32, target: u32, linear_memory_compiler: &LinearMemoryCompiler<T>) -> (r: Result<(), RuntimeError>)
    requires
        old(bc).wf(),
    ensures
        r is Ok <==> old(bc).module.function_names().contains(check_function_name(linear_prefix(), index as nat)),
        r matches Err(e) ==> e@ == (ErrorView::NoSuchLLVMFunction { name: check_function_name(linear_prefix(), index as nat) })
            && *final(bc) == *old(bc),
        r is Ok ==> final(bc).grown(old(bc), 3) && check_done(final(bc), old(bc).ops().len(), index, target),
{
    let name = linear_memory_compiler.get_memory_real_check_name(index);
    let f = match bc.get_named_function(&name) {
        Some(f) => f,
        None => return Err(RuntimeError::NoSuchLLVMFunction { name }),
    };
    let address = bc.emit(Op::Const { value: Constant::Int { ty: IrType::Int32, value: target as u64, sign_extend: false } });
    let callee = bc.emit(Op::FunctionRef { function: f });
    let args = vec![address];
    assert(args@ =~= seq![address]);
    bc.emit(Op::Call { callee, args });
    proof {
        let n = old(bc).ops().len();
        assert(bc.ops().take(n as int) =~= old(bc).ops());
        assert(bc.ops().subrange(n as int, n + 1int) =~= seq![OpView::Const { value: Constant::Int { ty: IrType::Int32, value: target as u64, sign_extend: false } }]);
        assert(bc.ops()[n + 2int] == (OpView::Call { callee: (n + 1) as usize, args: seq![n as usize] }));
    }
    Ok(())
}

/// The error of a memory access, if it fails.
pub open spec fn memory_access_error(ob: &BuildContext, s: StackView) -> Option<ErrorView> {
    let check = check_function_name(linear_prefix(), 0);
    if s.frames.len() == 0 {
        Some(ErrorView::NotExistFrame)
    } else if !ob.module.function_names().contains(check) {
        Some(ErrorView::NoSuchLLVMFunction { name: check })
    } else {
        None
    }
}

/// The error of a store, if it fails.
pub open spec fn store_error(ob: &BuildContext, s: StackView) -> Option<ErrorView> {
    if memory_access_error(ob, s) is Some {
        memory_access_error(ob, s)
    } else if s.values.len() == 0 {
        Some(ErrorView::NotExistValue)
    } else {
        None
    }
}

/// The address of byte `offset` of linear memory 0 at position `at`: the
/// offset, the base address global, its value and the pointer arithmetic.
pub open spec fn address_done(nb: &BuildContext, at: nat, offset: u32) -> bool {
    &&& nb.ops_at(at as int, seq![OpView::Const { value: Constant::Int { ty: IrType::Int32, value: offset as u64, sign_extend: false } }])
    &&& nb.global_ref_at(at + 1int, memory_name(linear_prefix(), 0))
    &&& nb.ops_at(at + 2int, seq![
        OpView::Load { ptr: (at + 1) as usize },
        OpView::Gep { ptr: (at + 2) as usize, indices: seq![at as usize] },
    ])
}

/// Emits the address of byte `offset` of linear memory 0; gives it.
fn build_offset_address<T: WasmIntType>(bc: &mut BuildContext, offset: u32, linear_memory_compiler: &LinearMemoryCompiler<T>) -> (r: usize)
    requires
        old(bc).wf(),
    ensures
        final(bc).grown(old(bc), 4),
        address_done(final(bc), old(bc).ops().len(), offset),
        r == old(bc).ops().len() + 3,
{
    let address = bc.emit(Op::Const { value: Constant::Int { ty: IrType::Int32, value: offset as u64, sign_extend: false } });
    let ghost b1 = *bc;
    let r = linear_memory_compiler.build_get_real_address(bc, 0, address);
    proof {
        let n = old(bc).ops().len();
        BuildContext::lemma_emitted_grown(old(bc), &b1, seq![OpView::Const { value: Constant::Int { ty: IrType::Int32, value: offset as u64, sign_extend: false } }]);
        assert(bc.ops().take(b1.ops().len() as int) == b1.ops());
        assert(bc.grown(&b1, 3));
        BuildContext::lemma_grown_trans(old(bc), &b1, bc, 1, 3);
        BuildContext::lemma_kept(&b1, bc, 3, n as int, seq![OpView::Const { value: Constant::Int { ty: IrType::Int32, value: offset as u64, sign_extend: false } }]);
        assert(bc.ops().subrange(n + 2int, n + 4int) =~= seq![
            OpView::Load { ptr: (n + 1) as usize },
            OpView::Gep { ptr: (n + 2) as usize, indices: seq![n as usize] },
        ]);
    }
    r
}

/// The operations of a store of `v`, of element kind `ty`, to byte
/// `offset` of linear memory 0 with alignment exponent `align`.
pub open spec fn store_done(ob: &BuildContext, nb: &BuildContext, v: WasmValue, ty: PointeeType, align: u32, offset: u32) -> bool {
    let n = ob.ops().len();
    let l = value_loads(v).len();
    let m = n + 7 + l;
    &&& nb.grown(ob, 11 + l)
    &&& check_done(nb, n, 0, offset)
    &&& address_done(nb, n + 3, offset)
    &&& nb.ops_at(n + 7int, value_loads(v))
    &&& nb.ops_at(m as int, seq![
        OpView::Cast { op: CastOp::Trunc, operand: value_id(v, n + 7), ty: pointee_type(ty) },
        OpView::SetAlignment { value: m as usize, align: pow2(align as nat) as u32 },
        OpView::Cast { op: CastOp::BitCast, operand: (n + 6) as usize, ty: IrType::Ptr(ty) },
        OpView::Store { value: m as usize, ptr: (m + 2) as usize },
    ])
}

/// Pops a value, truncated to element kind `ty`, into byte `offset` of
/// linear memory 0, after a bounds check of that byte.
fn store<T: WasmIntType>(bc: &mut BuildContext, align: u32, offset: u32, stack: Stack<T>, ty: PointeeType) -> (r: Result<Stack<T>, RuntimeError>)
    requires
        old(bc).wf(),
        align < 32,
    ensures
        r matches Ok(s) ==> s.instances() == stack.instances(),
        final(bc).extends(old(bc)),
        final(bc).keeps_initial_values(old(bc)),
        r is Ok <==> store_error(old(bc), stack@) is None,
        r matches Err(e) ==> store_error(old(bc), stack@) == Some(e@),
        r matches Ok(s) ==> store_done(old(bc), final(bc), stack@.values.last(), ty, align, offset)
            && s@ == pop_value(stack@),
{
    let mut stack = stack;
    let _ = stack.activations.current()?;
    let linear_memory_compiler = LinearMemoryCompiler::<T>::new();
    build_check_memory_size_const(bc, 0, offset, &linear_memory_compiler)?;
    let ghost b1 = *bc;
    let v = match stack.values.pop() {
        Some(v) => v,
        None => return Err(RuntimeError::NotExistValue),
    };
    let memory = build_offset_address(bc, offset, &linear_memory_compiler);
    let ghost b2 = *bc;
    let value = v.to_value(bc);
    let ghost b3 = *bc;
    let ty_value = pointee_type_exec(ty);
    let cast = bc.emit(Op::Cast { op: CastOp::Trunc, operand: value, ty: ty_value });
    bc.emit(Op::SetAlignment { value: cast, align: alignment(align) });
    let target = bc.emit(Op::Cast { op: CastOp::BitCast, operand: memory, ty: IrType::Ptr(ty) });
    bc.emit(Op::Store { value: cast, ptr: target });
    proof {
        let n = old(bc).ops().len();
        let l = value_loads(v).len();
        let m = n + 7 + l;
        let tail = seq![
            OpView::Cast { op: CastOp::Trunc, operand: value_id(v, n + 7), ty: pointee_type(ty) },
            OpView::SetAlignment { value: m as usize, align: pow2(align as nat) as u32 },
            OpView::Cast { op: CastOp::BitCast, operand: (n + 6) as usize, ty: IrType::Ptr(ty) },
            OpView::Store { value: m as usize, ptr: (m + 2) as usize },
        ];
        assert(bc.ops() =~= b3.ops() + tail);
        BuildContext::lemma_emitted_grown(&b3, bc, tail);
        BuildContext::lemma_emitted_grown(&b2, &b3, value_loads(v));
        BuildContext::lemma_grown_trans(old(bc), &b1, &b2, 3, 4);
        BuildContext::lemma_grown_trans(old(bc), &b2, &b3, 7, l);
        BuildContext::lemma_grown_trans(old(bc), &b3, bc, 7 + l, 4);
        BuildContext::lemma_grown_trans(&b1, &b2, &b3, 4, l);
        BuildContext::lemma_grown_trans(&b1, &b3, bc, 4 + l, 4);
        BuildContext::lemma_grown_trans(&b2, &b3, bc, l, 4);
        BuildContext::lemma_kept(&b1, bc, 8 + l, n as int, seq![OpView::Const { value: Constant::Int { ty: IrType::Int32, value: offset as u64, sign_extend: false } }]);
        crate::operations::lemma_call_kept(&b1, bc, 8 + l, n + 1, check_function_name(linear_prefix(), 0), seq![n as usize]);
        BuildContext::lemma_kept(&b2, bc, 4 + l, n + 3int, seq![OpView::Const { value: Constant::Int { ty: IrType::Int32, value: offset as u64, sign_extend: false } }]);
        BuildContext::lemma_refs_kept(&b2, bc, 4 + l, n + 4int);
        BuildContext::lemma_kept(&b2, bc, 4 + l, n + 5int, seq![
            OpView::Load { ptr: (n + 4) as usize },
            OpView::Gep { ptr: (n + 5) as usize, indices: seq![(n + 3) as usize] },
        ]);
        BuildContext::lemma_kept(&b3, bc, 4, n + 7int, value_loads(v));
    }
    Ok(stack)
}

/// The operations of a load of element kind `ty` from byte `offset` of
/// linear memory 0 with alignment exponent `align`; the load is at `n + 8`.
pub open spec fn load_done(ob: &BuildContext, nb: &BuildContext, ty: PointeeType, align: u32, offset: u32) -> bool {
    let n = ob.ops().len();
    &&& nb.grown(ob, 10)
    &&& check_done(nb, n, 0, offset)
    &&& address_done(nb, n + 3, offset)
    &&& nb.ops_at(n + 7int, seq![
        OpView::Cast { op: CastOp::BitCast, operand: (n + 6) as usize, ty: IrType::Ptr(ty) },
        OpView::Load { ptr: (n + 7) as usize },
        OpView::SetAlignment { value: (n + 8) as usize, align: pow2(align as nat) as u32 },
    ])
}

/// Pushes the value of element kind `ty` at byte `offset` of linear
/// memory 0, after a bounds check of that byte.
fn load<T: WasmIntType>(bc: &mut BuildContext, align: u32, offset: u32, stack: Stack<T>, ty: PointeeType) -> (r: Result<Stack<T>, RuntimeError>)
    requires
        old(bc).wf(),
        align < 32,
    ensures
        r matches Ok(s) ==> s.instances() == stack.instances(),
        r is Err ==> *final(bc) == *old(bc),
        final(bc).extends(old(bc)),
        final(bc).keeps_initial_values(old(bc)),
        r is Ok <==> memory_access_error(old(bc), stack@) is None,
        r matches Err(e) ==> memory_access_error(old(bc), stack@) == Some(e@),
        r matches Ok(s) ==> load_done(old(bc), final(bc), ty, align, offset)
            && s@ == push_value(stack@, plain(old(bc).ops().len() + 8int)),
{
    let mut stack = stack;
    let _ = stack.activations.current()?;
    let linear_memory_compiler = LinearMemoryCompiler::<T>::new();
    build_check_memory_size_const(bc, 0, offset, &linear_memory_compiler)?;
    let ghost b1 = *bc;
    let memory = build_offset_address(bc, offset, &linear_memory_compiler);
    let ghost b2 = *bc;
    let target = bc.emit(Op::Cast { op: CastOp::BitCast, operand: memory, ty: IrType::Ptr(ty) });
    let v = bc.emit(Op::Load { ptr: target });
    bc.emit(Op::SetAlignment { value: v, align: alignment(align) });
    proof {
        let n = old(bc).ops().len();
        let tail = seq![
            OpView::Cast { op: CastOp::BitCast, operand: (n + 6) as usize, ty: IrType::Ptr(ty) },
            OpView::Load { ptr: (n + 7) as usize },
            OpView::SetAlignment { value: (n + 8) as usize, align: pow2(align as nat) as u32 },
        ];
        assert(bc.ops() =~= b2.ops() + tail);
        BuildContext::lemma_emitted_grown(&b2, bc, tail);
        BuildContext::lemma_grown_trans(old(bc), &b1, &b2, 3, 4);
        BuildContext::lemma_grown_trans(old(bc), &b2, bc, 7, 3);
        BuildContext::lemma_grown_trans(&b1, &b2, bc, 4, 3);
        BuildContext::lemma_kept(&b1, bc, 7, n as int, seq![OpView::Const { value: Constant::Int { ty: IrType::Int32, value: offset as u64, sign_extend: false } }]);
        crate::operations::lemma_call_kept(&b1, bc, 7, n + 1, check_function_name(linear_prefix(), 0), seq![n as usize]);
        BuildContext::lemma_kept(&b2, bc, 3, n + 3int, seq![OpView::Const { value: Constant::Int { ty: IrType::Int32, value: offset as u64, sign_extend: false } }]);
        BuildContext::lemma_refs_kept(&b2, bc, 3, n + 4int);
        BuildContext::lemma_kept(&b2, bc, 3, n + 5int, seq![
            OpView::Load { ptr: (n + 4) as usize },
            OpView::Gep { ptr: (n + 5) as usize, indices: seq![(n + 3) as usize] },
        ]);
    }
    stack.values.push(WasmValue::new_value(v));
    Ok(stack)
}

/// Pushes the size in pages of linear memory `index`.
pub fn current_memory<T: WasmIntType>(bc: &mut BuildContext, index: u8, stack: Stack<T>) -> (r: Result<Stack<T>, RuntimeError>)
    requires
        old(bc).wf(),
    ensures
        r matches Ok(s) ==> s.instances() == stack.instances(),
        r is Err ==> *final(bc) == *old(bc),
        final(bc).extends(old(bc)),
        final(bc).keeps_initial_values(old(bc)),
        r is Ok <==> stack@.frames.len() > 0,
        r matches Err(e) ==> e is NotExistFrame,
        r matches Ok(s) ==> {
            let n = old(bc).ops().len();
            &&& final(bc).grown(old(bc), 2)
            &&& final(bc).global_ref_at(n as int, memory_size_name(linear_prefix(), index as nat))
            &&& final(bc).ops()[n + 1int] == (OpView::Load { ptr: n as usize })
            &&& s@ == push_value(stack@, plain(n + 1int))
        },
{
    let mut stack = stack;
    let _ = stack.activations.current()?;
    let linear_memory_compiler = LinearMemoryCompiler::<T>::new();
    let v = linear_memory_compiler.build_get_memory_size(bc, index as u32);
    stack.values.push(WasmValue::new_value(v));
    Ok(stack)
}

/// The error of growing linear memory `index`, if it fails.
pub open spec fn grow_memory_error(ob: &BuildContext, s: StackView, index: u8) -> Option<ErrorView> {
    let grow = grow_function_name(linear_prefix(), index as nat);
    if s.frames.len() == 0 {
        Some(ErrorView::NotExistFrame)
    } else if !ob.module.function_names().contains(grow) {
        Some(ErrorView::NoSuchLLVMFunction { name: grow })
    } else if s.values.len() == 0 {
        Some(ErrorView::NotExistValue)
    } else {
        None
    }
}

/// Replaces the top value, a number of pages, by the result of the grow
/// function of linear memory `index` called on it.
pub fn grow_memory<T: WasmIntType>(bc: &mut BuildContext, index: u8, stack: Stack<T>) -> (r: Result<Stack<T>, RuntimeError>)
    requires
        old(bc).wf(),
    ensures
        r matches Ok(s) ==> s.instances() == stack.instances(),
        r is Err ==> *final(bc) == *old(bc),
        final(bc).extends(old(bc)),
        final(bc).keeps_initial_values(old(bc)),
        r is Ok <==> grow_memory_error(old(bc), stack@, index) is None,
        r matches Err(e) ==> grow_memory_error(old(bc), stack@, index) == Some(e@),
        r matches Ok(s) ==> {
            let x = stack@.values.last();
            let at = after_one(old(bc), x);
            &&& one_operand_done(old(bc), final(bc), x, 2)
            &&& call_at(final(bc), at, grow_function_name(linear_prefix(), index as nat), seq![value_id(x, old(bc).ops().len())])
            &&& s@ == push_value(pop_value(stack@), plain(at as int + 1))
        },
{
    let mut stack = stack;
    let _ = stack.activations.current()?;
    let linear_memory_compiler = LinearMemoryCompiler::<T>::new();
    let name = linear_memory_compiler.get_grow_function_name(index as u32);
    let f = match bc.get_named_function(&name) {
        Some(f) => f,
        None => return Err(RuntimeError::NoSuchLLVMFunction { name }),
    };
    let (x, id) = pop_operand(bc, &mut stack)?;
    let ghost b1 = *bc;
    let callee = bc.emit(Op::FunctionRef { function: f });
    let args = vec![id];
    assert(args@ =~= seq![id]);
    let r = bc.emit(Op::Call { callee, args });
    proof {
        let ops = seq![OpView::FunctionRef { function: f }, OpView::Call { callee, args: seq![id] }];
        assert(bc.ops() =~= b1.ops() + ops);
        BuildContext::lemma_emitted_grown(&b1, bc, ops);
        BuildContext::lemma_grown_trans(old(bc), &b1, bc, value_loads(x).len(), 2);
        BuildContext::lemma_kept(&b1, bc, 2, old(bc).ops().len() as int, value_loads(x));
        assert(bc.ops()[b1.ops().len() as int] == ops[0]);
    }
    stack.values.push(WasmValue::new_value(r));
    Ok(stack)
}

/// The slot allocation for the result of a block of type `bt`.
pub open spec fn return_slot_ops(bt: BlockType) -> Seq<OpView> {
    match bt {
        BlockType::Value(vt) => seq![OpView::Alloca { ty: spec_value_type_to_type(vt) }],
        BlockType::NoResult => seq![],
    }
}

/// The result slot of a block of type `bt` allocated at position `at`.
pub open spec fn return_slot(bt: BlockType, at: nat) -> Option<BlockReturnValue> {
    match bt {
        BlockType::Value(vt) => Some(BlockReturnValue { value_ptr: at as usize, value_type: spec_value_type_to_type(vt) }),
        BlockType::NoResult => None,
    }
}

/// Allocates the result slot of a block of type `bt`, if it has a result.
fn build_return_slot(bc: &mut BuildContext, bt: BlockType) -> (r: Option<BlockReturnValue>)
    ensures
        final(bc).emitted(old(bc), return_slot_ops(bt)),
        r == return_slot(bt, old(bc).ops().len()),
{
    match bt {
        BlockType::Value(value_type) => Some(BlockReturnValue::new(bc, value_type)),
        BlockType::NoResult => {
            assert(bc.ops() =~= bc.ops() + seq![]);
            None
        },
    }
}

/// The kinds of structured blocks that open with a plain branch.
#[derive(Clone, Copy, Debug, PartialEq, Eq, Structural)]
pub enum BlockKind {
    Block,
    Loop,
}

/// The label of a block or loop from `start` to `next`.
pub open spec fn block_label(kind: BlockKind, start: nat, next: nat, rv: Option<BlockReturnValue>) -> Label {
    match kind {
        BlockKind::Block => Label { label_type: LabelType::Block { start: start as usize, next: next as usize, history: empty_history() }, return_value: rv },
        BlockKind::Loop => Label { label_type: LabelType::Loop { start: start as usize, next: next as usize, history: empty_history() }, return_value: rv },
    }
}

/// The operations of a block or loop of type `bt` at position `n`: its
/// result slot, its start and next blocks, and the branch into the start.
pub open spec fn block_ops(bt: BlockType, n: nat) -> Seq<OpView> {
    let k = return_slot_ops(bt).len();
    return_slot_ops(bt) + seq![
        OpView::AppendBlock,
        OpView::AppendBlock,
        OpView::Br { block: (n + k) as usize },
        OpView::PositionAtEnd { block: (n + k) as usize },
    ]
}

/// `s` with label `l` opened.
pub open spec fn push_label(s: StackView, l: Label) -> StackView {
    StackView { labels: s.labels.push(l), ..s }
}

/// Opens a block or a loop of type `bt`.
fn open_block<T: WasmIntType>(bc: &mut BuildContext, stack: Stack<T>, bt: BlockType, kind: BlockKind) -> (r: Stack<T>)
    requires
        old(bc).wf(),
    ensures
        r.instances() == stack.instances(),
        final(bc).extends(old(bc)),
        final(bc).keeps_initial_values(old(bc)),
        final(bc).emitted(old(bc), block_ops(bt, old(bc).ops().len())),
        r@ == push_label(stack@, block_label(kind, old(bc).ops().len() + return_slot_ops(bt).len(),
            old(bc).ops().len() + return_slot_ops(bt).len() + 1, return_slot(bt, old(bc).ops().len()))),
{
    let mut stack = stack;
    let block_return_value = build_return_slot(bc, bt);
    let ghost b1 = *bc;
    let start = bc.emit(Op::AppendBlock);
    let next = bc.emit(Op::AppendBlock);
    bc.emit(Op::Br { block: start });
    bc.emit(Op::PositionAtEnd { block: start });
    let label = match kind {
        BlockKind::Block => Label::new_block(start, next, block_return_value),
        BlockKind::Loop => Label::new_loop(start, next, block_return_value),
    };
    stack.labels.push(label);
    proof {
        assert(bc.ops() =~= old(bc).ops() + block_ops(bt, old(bc).ops().len()));
    }
    stack
}

/// The conditional branch on `cond` at position `at`: `cond` compared
/// with zero of its type, and the branch to `then_block` when it differs.
pub open spec fn cond_br_ops(at: nat, cond: usize, then_block: usize, else_block: usize) -> Seq<OpView> {
    seq![
        OpView::Const { value: Constant::Int { ty: IrType::TypeOf(cond), value: 0, sign_extend: false } },
        OpView::ICmp { predicate: IntPredicate::Ne, lhs: cond, rhs: at as usize },
        OpView::CondBr { cond: (at + 1) as usize, then_block, else_block },
    ]
}

/// Branches to `then_block` if `cond` is not zero, else to `else_block`.
fn build_cond_br(bc: &mut BuildContext, cond: usize, then_block: usize, else_block: usize) -> (r: usize)
    ensures
        final(bc).emitted(old(bc), cond_br_ops(old(bc).ops().len(), cond, then_block, else_block)),
        r == old(bc).ops().len() + 2,
{
    let zero = bc.emit(Op::Const { value: Constant::Int { ty: IrType::TypeOf(cond), value: 0, sign_extend: false } });
    let test = bc.emit(Op::ICmp { predicate: IntPredicate::Ne, lhs: cond, rhs: zero });
    let r = bc.emit(Op::CondBr { cond: test, then_block, else_block });
    proof {
        assert(bc.ops() =~= old(bc).ops() + cond_br_ops(old(bc).ops().len(), cond, then_block, else_block));
    }
    r
}

/// The operations of an if of type `bt` at position `n` with condition
/// `cond`: the result slot, the three blocks, the loads of the condition,
/// the conditional branch and the entry into the first arm.
pub open spec fn if_ops(bt: BlockType, n: nat, cond: WasmValue) -> Seq<OpView> {
    let k = return_slot_ops(bt).len();
    let at = n + k + 3 + value_loads(cond).len();
    return_slot_ops(bt) + seq![OpView::AppendBlock, OpView::AppendBlock, OpView::AppendBlock]
        + value_loads(cond)
        + cond_br_ops(at, value_id(cond, n + k + 3), (n + k) as usize, (n + k + 1) as usize)
        + seq![OpView::PositionAtEnd { block: (n + k) as usize }]
}

/// The label of an if with arms from `start` and `start + 1`, continuing at `start + 2`.
pub open spec fn if_label(start: nat, rv: Option<BlockReturnValue>) -> Label {
    Label {
        label_type: LabelType::If {
            start: start as usize,
            else_block: (start + 1) as usize,
            next: (start + 2) as usize,
            if_history: empty_history(),
            else_history: None,
        },
        return_value: rv,
    }
}

/// Opens an if of type `bt` on the popped condition.
fn if_instruction<T: WasmIntType>(bc: &mut BuildContext, stack: Stack<T>, bt: BlockType) -> (r: Result<Stack<T>, RuntimeError>)
    requires
        old(bc).wf(),
    ensures
        r matches Ok(s) ==> s.instances() == stack.instances(),
        final(bc).extends(old(bc)),
        final(bc).keeps_initial_values(old(bc)),
        r is Ok <==> stack@.values.len() > 0,
        r matches Err(e) ==> e is NotExistValue,
        r matches Ok(s) ==> final(bc).emitted(old(bc), if_ops(bt, old(bc).ops().len(), stack@.values.last()))
            && s@ == push_label(pop_value(stack@), if_label(old(bc).ops().len() + return_slot_ops(bt).len(), return_slot(bt, old(bc).ops().len()))),
{
    let mut stack = stack;
    let block_return_value = build_return_slot(bc, bt);
    let start = bc.emit(Op::AppendBlock);
    let else_block = bc.emit(Op::AppendBlock);
    let next = bc.emit(Op::AppendBlock);
    let ghost b1 = *bc;
    let cond = match stack.values.pop() {
        Some(v) => v,
        None => return Err(RuntimeError::NotExistValue),
    };
    let id = cond.to_value(bc);
    let ghost b2 = *bc;
    build_cond_br(bc, id, start, else_block);
    bc.emit(Op::PositionAtEnd { block: start });
    stack.labels.push(Label::new_if(start, else_block, next, block_return_value));
    proof {
        assert(bc.ops() =~= old(bc).ops() + if_ops(bt, old(bc).ops().len(), cond));
    }
    Ok(stack)
}

/// The error of `else`, if it fails.
pub open spec fn else_error(s: StackView) -> Option<ErrorView> {
    if s.labels.len() == 0 {
        Some(ErrorView::NotExistLabel)
    } else if !(s.labels.last().label_type is If) {
        Some(ErrorView::InvalidLabelType)
    } else if s.labels.last().return_value is Some && s.values.len() == 0 {
        Some(ErrorView::NotExistValue)
    } else {
        None
    }
}

/// The store of the top value into the result slot `rv`, if there is one,
/// at position `n`.
pub open spec fn result_store_ops(rv: Option<BlockReturnValue>, top: WasmValue, n: nat) -> Seq<OpView> {
    match rv {
        Some(slot) => value_loads(top) + seq![OpView::Store { value: value_id(top, n), ptr: slot.value_ptr }],
        None => seq![],
    }
}

/// The operations of `else` at position `n`: the result of the first arm
/// stored, the branch to the end and the entry into the second arm.
pub open spec fn else_ops(s: StackView, n: nat) -> Seq<OpView> {
    let label = s.labels.last();
    match label.label_type {
        LabelType::If { else_block, next, .. } => result_store_ops(label.return_value, s.values.last(), n)
            + seq![OpView::Br { block: next }, OpView::PositionAtEnd { block: else_block }],
        _ => seq![],
    }
}

/// The stack after `else`: the first arm's result popped if the if has one.
pub open spec fn else_stack(s: StackView) -> StackView {
    if s.labels.last().return_value is Some { pop_value(s) } else { s }
}

/// Stores the top value into `slot`, popping it; gives nothing else.
fn store_result<T: WasmIntType>(bc: &mut BuildContext, stack: &mut Stack<T>, slot: BlockReturnValue) -> (r: Result<(), RuntimeError>)
    ensures
        r is Ok <==> old(stack)@.values.len() > 0,
        r matches Err(e) ==> e is NotExistValue && *final(bc) == *old(bc),
        final(stack).activations == old(stack).activations,
        r is Ok ==> final(bc).emitted(old(bc), result_store_ops(Some(slot), old(stack)@.values.last(), old(bc).ops().len()))
            && final(stack)@ == pop_value(old(stack)@),
{
    let v = match stack.values.pop() {
        Some(v) => v,
        None => return Err(RuntimeError::NotExistValue),
    };
    let id = v.to_value(bc);
    slot.store(bc, id);
    proof {
        assert(bc.ops() =~= old(bc).ops() + result_store_ops(Some(slot), v, old(bc).ops().len()));
    }
    Ok(())
}

/// Ends the first arm of the innermost if and enters its second arm.
fn else_instruction<T: WasmIntType>(bc: &mut BuildContext, stack: Stack<T>) -> (r: Result<Stack<T>, RuntimeError>)
    requires
        old(bc).wf(),
    ensures
        r matches Ok(s) ==> s.instances() == stack.instances(),
        final(bc).extends(old(bc)),
        final(bc).keeps_initial_values(old(bc)),
        r is Ok <==> else_error(stack@) is None,
        r matches Err(e) ==> else_error(stack@) == Some(e@),
        r is Err ==> *final(bc) == *old(bc),
        r matches Ok(s) ==> final(bc).emitted(old(bc), else_ops(stack@, old(bc).ops().len())) && s@ == else_stack(stack@),
{
    let ghost orig = stack@;
    let mut stack = stack;
    if stack.labels.len() == 0 {
        return Err(RuntimeError::NotExistLabel);
    }
    let (else_block, next, return_value) = match &stack.labels[stack.labels.len() - 1] {
        Label { label_type: LabelType::If { else_block, next, .. }, return_value } => (*else_block, *next, *return_value),
        _ => return Err(RuntimeError::InvalidLabelType),
    };
    let ghost b0 = *bc;
    if let Some(slot) = return_value {
        store_result(bc, &mut stack, slot)?;
    } else {
        assert(bc.ops() =~= bc.ops() + result_store_ops(None, stack@.values.last(), bc.ops().len()));
    }
    let ghost b1 = *bc;
    bc.emit(Op::Br { block: next });
    bc.emit(Op::PositionAtEnd { block: else_block });
    proof {
        assert(bc.ops() =~= old(bc).ops() + else_ops(orig, old(bc).ops().len()));
    }
    Ok(stack)
}

/// Where a branch to `label` goes: the start of a loop, the end of anything else.
pub open spec fn br_target(label: Label) -> usize {
    match label.label_type {
        LabelType::Loop { start, .. } => start,
        LabelType::Block { next, .. } => next,
        LabelType::If { next, .. } => next,
    }
}

/// The error of a branch to label `index`, counted from the outermost.
pub open spec fn br_error(s: StackView, index: u32) -> Option<ErrorView> {
    if index >= s.labels.len() {
        Some(ErrorView::NoSuchLabel { index })
    } else if s.labels[index as int].return_value is Some && s.values.len() == 0 {
        Some(ErrorView::NotExistValue)
    } else {
        None
    }
}

/// The operations of a branch to label `index` at position `n`: the top
/// value stored into the label's result slot, if it has one, and the branch.
pub open spec fn br_ops(s: StackView, index: u32, n: nat) -> Seq<OpView> {
    let label = s.labels[index as int];
    result_store_ops(label.return_value, s.values.last(), n) + seq![OpView::Br { block: br_target(label) }]
}

/// Branches to label `index`, counted from the outermost; the top value,
/// which stays, goes into the label's result slot if it has one.
fn br<T: WasmIntType>(bc: &mut BuildContext, stack: Stack<T>, index: u32) -> (r: Result<Stack<T>, RuntimeError>)
    requires
        old(bc).wf(),
    ensures
        r matches Ok(s) ==> s.instances() == stack.instances(),
        final(bc).extends(old(bc)),
        final(bc).keeps_initial_values(old(bc)),
        r is Ok <==> br_error(stack@, index) is None,
        r matches Err(e) ==> br_error(stack@, index) == Some(e@),
        r is Err ==> *final(bc) == *old(bc),
        r matches Ok(s) ==> final(bc).emitted(old(bc), br_ops(stack@, index, old(bc).ops().len())) && s@ == stack@,
{
    if index as usize >= stack.labels.len() {
        return Err(RuntimeError::NoSuchLabel { index });
    }
    let label = &stack.labels[index as usize];
    if let Some(slot) = label.return_value {
        if stack.values.len() == 0 {
            return Err(RuntimeError::NotExistValue);
        }
        let v = stack.values[stack.values.len() - 1];
        let id = v.to_value(bc);
        slot.store(bc, id);
    } else {
        assert(bc.ops() =~= bc.ops() + seq![]);
    }
    let target = match &label.label_type {
        LabelType::Loop { start, .. } => *start,
        LabelType::Block { next, .. } => *next,
        LabelType::If { next, .. } => *next,
    };
    bc.emit(Op::Br { block: target });
    proof {
        assert(bc.ops() =~= old(bc).ops() + br_ops(stack@, index, old(bc).ops().len()));
    }
    Ok(stack)
}

/// The error of `br_if`, if it fails.
pub open spec fn br_if_error(s: StackView, index: u32) -> Option<ErrorView> {
    if s.values.len() == 0 {
        Some(ErrorView::NotExistValue)
    } else {
        br_error(pop_value(s), index)
    }
}

/// The operations of `br_if` at position `n`: a block for the branch and
/// one for going on, the conditional branch on the popped condition, the
/// branch in its block, and the entry into the other block.
pub open spec fn br_if_ops(s: StackView, index: u32, n: nat) -> Seq<OpView> {
    let cond = s.values.last();
    let l = value_loads(cond).len();
    let after = n + 2 + l + 3;
    seq![OpView::AppendBlock, OpView::AppendBlock] + value_loads(cond)
        + cond_br_ops(n + 2 + l, value_id(cond, n + 2), n as usize, (n + 1) as usize)
        + seq![OpView::PositionAtEnd { block: n as usize }]
        + br_ops(pop_value(s), index, after + 1)
        + seq![OpView::PositionAtEnd { block: (n + 1) as usize }]
}

/// Branches to label `index` if the popped condition is not zero.
fn br_if<T: WasmIntType>(bc: &mut BuildContext, stack: Stack<T>, index: u32) -> (r: Result<Stack<T>, RuntimeError>)
    requires
        old(bc).wf(),
    ensures
        r matches Ok(s) ==> s.instances() == stack.instances(),
        final(bc).extends(old(bc)),
        final(bc).keeps_initial_values(old(bc)),
        r is Ok <==> br_if_error(stack@, index) is None,
        r matches Err(e) ==> br_if_error(stack@, index) == Some(e@),
        r matches Ok(s) ==> final(bc).emitted(old(bc), br_if_ops(stack@, index, old(bc).ops().len())) && s@ == pop_value(stack@),
{
    let ghost orig = stack@;
    let mut stack = stack;
    let cond = match stack.values.pop() {
        Some(v) => v,
        None => return Err(RuntimeError::NotExistValue),
    };
    let br_block = bc.emit(Op::AppendBlock);
    let nothing_br_block = bc.emit(Op::AppendBlock);
    let id = cond.to_value(bc);
    build_cond_br(bc, id, br_block, nothing_br_block);
    bc.emit(Op::PositionAtEnd { block: br_block });
    let ghost b1 = *bc;
    let stack = br(bc, stack, index)?;
    bc.emit(Op::PositionAtEnd { block: nothing_br_block });
    proof {
        assert(bc.ops() =~= old(bc).ops() + br_if_ops(orig, index, old(bc).ops().len()));
    }
    Ok(stack)
}

/// The error of the first branch among `indices` that fails, in order.
pub open spec fn first_br_error(s: StackView, indices: Seq<u32>) -> Option<ErrorView>
    decreases indices.len(),
{
    if indices.len() == 0 {
        None
    } else {
        match first_br_error(s, indices.drop_last()) {
            Some(e) => Some(e),
            None => br_error(s, indices.last()),
        }
    }
}

/// A failing branch among the first indices decides the error, whatever follows.
pub proof fn lemma_first_br_error_prefix(s: StackView, a: Seq<u32>, b: Seq<u32>)
    requires
        first_br_error(s, a) is Some,
    ensures
        first_br_error(s, a + b) == first_br_error(s, a),
    decreases b.len(),
{
    if b.len() == 0 {
        assert(a + b =~= a);
    } else {
        assert((a + b).drop_last() =~= a + b.drop_last());
        lemma_first_br_error_prefix(s, a, b.drop_last());
    }
}

/// The error of `br_table`, if it fails.
pub open spec fn br_table_error(s: StackView, indices: Seq<u32>, default: u32) -> Option<ErrorView> {
    if s.values.len() == 0 {
        Some(ErrorView::NotExistValue)
    } else {
        first_br_error(pop_value(s), indices.push(default))
    }
}

/// The operations of one case of `br_table` at position `at`: the
/// comparison of the selector `selector` with `index`, a block for the
/// branch and one for going on, the conditional branch, the branch to
/// label `index` in its block, and the entry into the other block.
pub open spec fn br_table_case(s: StackView, selector: WasmValue, index: u32, at: nat) -> Seq<OpView> {
    let c = at + 1 + value_loads(selector).len();
    seq![OpView::Const { value: Constant::Int { ty: IrType::Int32, value: index as u64, sign_extend: false } }]
        + value_loads(selector)
        + seq![
            OpView::ICmp { predicate: IntPredicate::Eq, lhs: value_id(selector, at + 1), rhs: at as usize },
            OpView::AppendBlock,
            OpView::AppendBlock,
        ]
        + cond_br_ops(c + 3, c as usize, (c + 1) as usize, (c + 2) as usize)
        + seq![OpView::PositionAtEnd { block: (c + 1) as usize }]
        + br_ops(s, index, c + 7)
        + seq![OpView::PositionAtEnd { block: (c + 2) as usize }]
}

/// The operations of the cases for `indices` from position `at` on.
pub open spec fn br_table_cases(s: StackView, selector: WasmValue, indices: Seq<u32>, at: nat) -> Seq<OpView>
    decreases indices.len(),
{
    if indices.len() == 0 {
        seq![]
    } else {
        let before = br_table_cases(s, selector, indices.drop_last(), at);
        before + br_table_case(s, selector, indices.last(), at + before.len())
    }
}

/// The operations of `br_table` at position `n`: one case per index, then
/// the branch to the default label.
pub open spec fn br_table_ops(s: StackView, indices: Seq<u32>, default: u32, n: nat) -> Seq<OpView> {
    let cases = br_table_cases(pop_value(s), s.values.last(), indices, n);
    cases + br_ops(pop_value(s), default, n + cases.len())
}

/// One case of `br_table`: branches to label `index` if the selector equals it.
fn br_table_case_exec<T: WasmIntType>(bc: &mut BuildContext, stack: Stack<T>, selector: WasmValue, index: u32) -> (r: Result<Stack<T>, RuntimeError>)
    requires
        old(bc).wf(),
    ensures
        r matches Ok(s) ==> s.instances() == stack.instances(),
        final(bc).extends(old(bc)),
        final(bc).keeps_initial_values(old(bc)),
        r is Ok <==> br_error(stack@, index) is None,
        r matches Err(e) ==> br_error(stack@, index) == Some(e@),
        r matches Ok(s) ==> final(bc).emitted(old(bc), br_table_case(stack@, selector, index, old(bc).ops().len()))
            && s@ == stack@,
{
    let ghost at = old(bc).ops().len();
    let target = bc.emit(Op::Const { value: Constant::Int { ty: IrType::Int32, value: index as u64, sign_extend: false } });
    let id = selector.to_value(bc);
    let test = bc.emit(Op::ICmp { predicate: IntPredicate::Eq, lhs: id, rhs: target });
    let br_block = bc.emit(Op::AppendBlock);
    let else_block = bc.emit(Op::AppendBlock);
    build_cond_br(bc, test, br_block, else_block);
    bc.emit(Op::PositionAtEnd { block: br_block });
    let ghost b1 = *bc;
    let stack = br(bc, stack, index)?;
    bc.emit(Op::PositionAtEnd { block: else_block });
    proof {
        let c = at + 1 + value_loads(selector).len();
        assert(b1.ops() =~= old(bc).ops() + (seq![OpView::Const { value: Constant::Int { ty: IrType::Int32, value: index as u64, sign_extend: false } }]
            + value_loads(selector)
            + seq![
                OpView::ICmp { predicate: IntPredicate::Eq, lhs: value_id(selector, at + 1), rhs: at as usize },
                OpView::AppendBlock,
                OpView::AppendBlock,
            ]
            + cond_br_ops(c + 3, c as usize, (c + 1) as usize, (c + 2) as usize)
            + seq![OpView::PositionAtEnd { block: (c + 1) as usize }]));
        assert(bc.ops() =~= old(bc).ops() + br_table_case(stack@, selector, index, at));
    }
    Ok(stack)
}

/// Branches to the label among `label_indexes` that equals the popped
/// selector, else to `label_index`.
fn br_table<T: WasmIntType>(bc: &mut BuildContext, stack: Stack<T>, label_indexes: &Vec<u32>, label_index: u32) -> (r: Result<Stack<T>, RuntimeError>)
    requires
        old(bc).wf(),
    ensures
        r matches Ok(s) ==> s.instances() == stack.instances(),
        final(bc).extends(old(bc)),
        final(bc).keeps_initial_values(old(bc)),
        r is Ok <==> br_table_error(stack@, label_indexes@, label_index) is None,
        r matches Err(e) ==> br_table_error(stack@, label_indexes@, label_index) == Some(e@),
        r matches Ok(s) ==> final(bc).emitted(old(bc), br_table_ops(stack@, label_indexes@, label_index, old(bc).ops().len()))
            && s@ == pop_value(stack@),
{
    let ghost orig = stack@;
    let mut cur = stack;
    let selector = match cur.values.pop() {
        Some(v) => v,
        None => return Err(RuntimeError::NotExistValue),
    };
    let ghost popped = cur@;
    let ghost n = old(bc).ops().len();
    let mut i: usize = 0;
    while i < label_indexes.len()
        invariant
            orig == stack@,
            n == old(bc).ops().len(),
            bc.extends(old(bc)),
            i <= label_indexes@.len(),
            cur@ == popped,
            cur.instances() == stack.instances(),
            popped == pop_value(orig),
            orig.values.len() > 0,
            selector == orig.values.last(),
            first_br_error(popped, label_indexes@.take(i as int)) is None,
            bc.emitted(old(bc), br_table_cases(popped, selector, label_indexes@.take(i as int), n)),
        decreases label_indexes@.len() - i,
    {
        let index = label_indexes[i];
        let ghost b0 = *bc;
        proof {
            assert(label_indexes@.take(i + 1).drop_last() =~= label_indexes@.take(i as int));
            assert(label_indexes@.take(i + 1).last() == index);
        }
        cur = match br_table_case_exec(bc, cur, selector, index) {
            Ok(next) => next,
            Err(e) => {
                proof {
                    assert(first_br_error(popped, label_indexes@.take(i + 1)) == br_error(popped, index));
                    assert(label_indexes@.push(label_index) =~= label_indexes@.take(i + 1) + label_indexes@.skip(i + 1).push(label_index));
                    lemma_first_br_error_prefix(popped, label_indexes@.take(i + 1), label_indexes@.skip(i + 1).push(label_index));
                }
                return Err(e);
            },
        };
        proof {
            let before = br_table_cases(popped, selector, label_indexes@.take(i as int), n);
            assert(br_table_cases(popped, selector, label_indexes@.take(i + 1), n)
                == before + br_table_case(popped, selector, index, n + before.len()));
            assert(bc.ops() =~= old(bc).ops() + br_table_cases(popped, selector, label_indexes@.take(i + 1), n));
        }
        i = i + 1;
    }
    proof {
        assert(label_indexes@.take(label_indexes@.len() as int) =~= label_indexes@);
        assert(label_indexes@.push(label_index).drop_last() =~= label_indexes@);
    }
    let ghost b2 = *bc;
    let cur = br(bc, cur, label_index)?;
    proof {
        assert(bc.ops() =~= old(bc).ops() + br_table_ops(orig, label_indexes@, label_index, n));
    }
    Ok(cur)
}

/// The last instruction was a branch.
pub open spec fn is_branch(p: Option<Instruction>) -> bool {
    p matches Some(Instruction::Br(_)) || p matches Some(Instruction::BrTable(_, _))
}

/// The last instruction was `unreachable`.
pub open spec fn is_unreachable(p: Option<Instruction>) -> bool {
    p matches Some(Instruction::Unreachable)
}

/// The block where a label's instruction continues.
pub open spec fn label_next(label: Label) -> usize {
    match label.label_type {
        LabelType::Loop { next, .. } => next,
        LabelType::Block { next, .. } => next,
        LabelType::If { next, .. } => next,
    }
}

/// The error of `end`, if it fails: first the lack of a current frame,
/// whose last instruction decides what closing does; then, closing a label
/// with a result that a value must fill, the lack of that value.
pub open spec fn end_error(s: StackView) -> Option<ErrorView> {
    if frame_previous(s) is None {
        Some(ErrorView::NotExistFrame)
    } else if s.labels.len() > 0 {
        let p = frame_previous(s)->0;
        if !is_branch(p) && s.labels.last().return_value is Some && !is_unreachable(p) && s.values.len() == 0 {
            Some(ErrorView::NotExistValue)
        } else {
            None
        }
    } else {
        None
    }
}

/// The result type of function `f` of the module, if it is known.
pub open spec fn return_type(bc: &BuildContext, f: usize) -> Option<IrType> {
    if f < bc.module.functions@.len() && bc.module.functions@[f as int].type_index < bc.module.types@.len() {
        Some(bc.module.types@[bc.module.functions@[f as int].type_index as int].ret)
    } else {
        None
    }
}

/// The return of a zero of type `ret` at position `n`, for the types that
/// WebAssembly functions return; nothing for other types.
pub open spec fn zero_return_ops(ret: Option<IrType>, n: nat) -> Seq<OpView> {
    match ret {
        Some(IrType::Void) => seq![OpView::RetVoid],
        Some(IrType::Int32) => seq![OpView::Const { value: Constant::Int { ty: IrType::Int32, value: 0, sign_extend: false } }, OpView::Ret { value: n as usize }],
        Some(IrType::Int64) => seq![OpView::Const { value: Constant::Int { ty: IrType::Int64, value: 0, sign_extend: false } }, OpView::Ret { value: n as usize }],
        Some(IrType::Float32) => seq![OpView::Const { value: Constant::Real32 { bits: 0 } }, OpView::Ret { value: n as usize }],
        Some(IrType::Float64) => seq![OpView::Const { value: Constant::Real64 { bits: 0 } }, OpView::Ret { value: n as usize }],
        _ => seq![],
    }
}

/// The operations of `end` at position `n`, as decided by the last
/// instruction translated in the current frame.  Closing a label: unless
/// that instruction is a branch, the label's result is stored (when there
/// is a value to store) and control goes on to its next block; the next
/// block is moved last and entered.  Closing the function: the top value is
/// returned, or nothing, or after `unreachable` a zero of the result type.
pub open spec fn end_ops(ob: &BuildContext, s: StackView) -> Seq<OpView> {
    let n = ob.ops().len();
    let p = frame_previous(s)->0;
    if s.labels.len() > 0 {
        let label = s.labels.last();
        let next = label_next(label);
        let store = if !is_branch(p) && s.values.len() > 0 { result_store_ops(label.return_value, s.values.last(), n) } else { seq![] };
        let branch = if !is_branch(p) { seq![OpView::Br { block: next }] } else { seq![] };
        store + branch + seq![OpView::MoveAfterLastBlock { block: next }, OpView::PositionAtEnd { block: next }]
    } else if s.values.len() > 0 {
        value_loads(s.values.last()) + seq![OpView::Ret { value: value_id(s.values.last(), n) }]
    } else if is_unreachable(p) {
        zero_return_ops(return_type(ob, s.current_function), n)
    } else {
        seq![OpView::RetVoid]
    }
}

/// The stack after `end`.
pub open spec fn end_stack(s: StackView) -> StackView {
    let p = frame_previous(s)->0;
    if s.labels.len() > 0 {
        let label = s.labels.last();
        let closed = StackView { labels: s.labels.drop_last(), ..s };
        if !is_branch(p) && label.return_value is Some {
            let popped = if s.values.len() > 0 { pop_value(closed) } else { closed };
            push_value(popped, WasmValue::BlockReturnValue { return_value: label.return_value->0 })
        } else {
            closed
        }
    } else if s.values.len() > 0 {
        pop_value(s)
    } else {
        s
    }
}

/// Returns a zero of type `ret`, when it is one that functions return.
fn build_zero_return(bc: &mut BuildContext, ret: Option<IrType>) -> (r: ())
    ensures
        final(bc).emitted(old(bc), zero_return_ops(ret, old(bc).ops().len())),
{
    let zero = match ret {
        Some(IrType::Void) => {
            bc.emit(Op::RetVoid);
            return;
        },
        Some(IrType::Int32) => Constant::Int { ty: IrType::Int32, value: 0, sign_extend: false },
        Some(IrType::Int64) => Constant::Int { ty: IrType::Int64, value: 0, sign_extend: false },
        Some(IrType::Float32) => Constant::Real32 { bits: 0 },
        Some(IrType::Float64) => Constant::Real64 { bits: 0 },
        _ => {
            assert(bc.ops() =~= bc.ops() + seq![]);
            return;
        },
    };
    let value = bc.emit(Op::Const { value: zero });
    bc.emit(Op::Ret { value });
    proof {
        assert(bc.ops() =~= old(bc).ops() + zero_return_ops(ret, old(bc).ops().len()));
    }
}

/// The result type of function `f` of the module, if it is known.
fn get_return_type(bc: &BuildContext, f: usize) -> (r: Option<IrType>)
    ensures
        r == return_type(bc, f),
{
    if f < bc.module.functions.len() {
        let type_index = bc.module.functions[f].type_index;
        if type_index < bc.module.types.len() {
            return Some(bc.module.types[type_index].ret);
        }
    }
    None
}

/// Closes the innermost label, or the function when no label is open.
fn end<T: WasmIntType>(bc: &mut BuildContext, stack: Stack<T>) -> (r: Result<Stack<T>, RuntimeError>)
    requires
        old(bc).wf(),
    ensures
        final(bc).extends(old(bc)),
        final(bc).keeps_initial_values(old(bc)),
        r is Ok <==> end_error(stack@) is None,
        r matches Err(e) ==> end_error(stack@) == Some(e@),
        r is Err ==> *final(bc) == *old(bc),
        r matches Ok(s) ==> final(bc).emitted(old(bc), end_ops(old(bc), stack@)) && s@ == end_stack(stack@),
        r matches Ok(s) ==> s.instances() == stack.instances(),
{
    let ghost orig = stack@;
    let mut stack = stack;
    let (branch, unreachable) = match &stack.activations.current()?.previous_instruction {
        Some(Instruction::Br(_)) | Some(Instruction::BrTable(_, _)) => (true, false),
        Some(Instruction::Unreachable) => (false, true),
        _ => (false, false),
    };
    let ghost p = frame_previous(orig)->0;
    assert(branch == is_branch(p) && unreachable == is_unreachable(p));
    if let Some(label) = stack.labels.pop() {
        let next = match label.label_type {
            LabelType::If { next, .. } => next,
            LabelType::Block { next, .. } => next,
            LabelType::Loop { next, .. } => next,
        };
        let ghost b0 = *bc;
        if !branch {
            if let Some(return_value) = label.return_value {
                if unreachable {
                    if stack.values.len() > 0 {
                        store_result(bc, &mut stack, return_value)?;
                    } else {
                        assert(bc.ops() =~= bc.ops() + seq![]);
                    }
                } else {
                    store_result(bc, &mut stack, return_value)?;
                }
                stack.values.push(WasmValue::new_block_return_value(return_value));
            } else {
                assert(bc.ops() =~= bc.ops() + seq![]);
            }
            bc.emit(Op::Br { block: next });
        }
        bc.emit(Op::MoveAfterLastBlock { block: next });
        bc.emit(Op::PositionAtEnd { block: next });
        proof {
            assert(bc.ops() =~= old(bc).ops() + end_ops(old(bc), orig));
            assert(stack@.labels =~= end_stack(orig).labels);
            assert(stack@.values =~= end_stack(orig).values);
        }
    } else {
        let ghost b0 = *bc;
        match stack.values.pop() {
            Some(v) => {
                let value = v.to_value(bc);
                bc.emit(Op::Ret { value });
            },
            None => {
                if unreachable {
                    let ret = get_return_type(bc, stack.current_function);
                    build_zero_return(bc, ret);
                } else {
                    bc.emit(Op::RetVoid);
                }
            },
        }
        proof {
            assert(bc.ops() =~= old(bc).ops() + end_ops(old(bc), orig));
            assert(stack@.values =~= end_stack(orig).values);
        }
    }
    Ok(stack)
}

/// Does nothing, explicitly.
fn nop<T: WasmIntType>(bc: &mut BuildContext, stack: Stack<T>) -> (r: Stack<T>)
    requires
        old(bc).wf(),
    ensures
        r.instances() == stack.instances(),
        call_emitted(final(bc), old(bc), "llvm.donothing"@, seq![]),
        r@ == stack@,
{
    build_call_and_set_donothing(bc);
    stack
}

/// Traps.
fn unreachable<T: WasmIntType>(bc: &mut BuildContext, stack: Stack<T>) -> (r: Stack<T>)
    requires
        old(bc).wf(),
    ensures
        r.instances() == stack.instances(),
        call_emitted(final(bc), old(bc), "llvm.trap"@, seq![]),
        r@ == stack@,
{
    build_call_and_set_trap(bc);
    stack
}

/// What the translation does with an instruction, with the immediates it uses.
#[derive(Clone, Copy, Debug, PartialEq, Eq, Structural)]
pub enum InstructionKind {
    Const(Constant),
    GetGlobal(u32),
    SetGlobal(u32),
    GetLocal(u32),
    SetLocal(u32),
    TeeLocal(u32),
    Store { align: u32, offset: u32, ty: PointeeType },
    Load { align: u32, offset: u32, ty: PointeeType },
    CurrentMemory(u8),
    GrowMemory(u8),
    Unary(UnaryOperation),
    Binary(BinaryOperation),
    Eqz(IrType),
    Compare(Comparison),
    Convert(CastOp, IrType),
    Block(BlockType),
    Loop(BlockType),
    If(BlockType),
    Else,
    Br(u32),
    BrIf(u32),
    BrTable,
    End,
    Nop,
    Unreachable,
    /// An instruction that the translation does not handle.
    Invalid,
}

/// What the translation does with `instruction`.
pub open spec fn spec_classify(instruction: Instruction) -> InstructionKind {
    match instruction {
        Instruction::I32Const(v) => InstructionKind::Const(Constant::Int { ty: IrType::Int32, value: v as u64, sign_extend: true }),
        Instruction::I64Const(v) => InstructionKind::Const(Constant::Int { ty: IrType::Int64, value: v as u64, sign_extend: true }),
        Instruction::F32Const(v) => InstructionKind::Const(Constant::Real32 { bits: v }),
        Instruction::F64Const(v) => InstructionKind::Const(Constant::Real64 { bits: v }),
        Instruction::GetGlobal(i) => InstructionKind::GetGlobal(i),
        Instruction::SetGlobal(i) => InstructionKind::SetGlobal(i),
        Instruction::GetLocal(i) => InstructionKind::GetLocal(i),
        Instruction::SetLocal(i) => InstructionKind::SetLocal(i),
        Instruction::TeeLocal(i) => InstructionKind::TeeLocal(i),
        Instruction::F32Store(a, o) => InstructionKind::Store { align: a, offset: o, ty: PointeeType::Float32 },
        Instruction::F64Store(a, o) => InstructionKind::Store { align: a, offset: o, ty: PointeeType::Float64 },
        Instruction::I32Store(a, o) => InstructionKind::Store { align: a, offset: o, ty: PointeeType::Int32 },
        Instruction::I64Store(a, o) => InstructionKind::Store { align: a, offset: o, ty: PointeeType::Int64 },
        Instruction::I32Store8(a, o) => InstructionKind::Store { align: a, offset: o, ty: PointeeType::Int8 },
        Instruction::I32Store16(a, o) => InstructionKind::Store { align: a, offset: o, ty: PointeeType::Int16 },
        Instruction::I64Store8(a, o) => InstructionKind::Store { align: a, offset: o, ty: PointeeType::Int8 },
        Instruction::I64Store16(a, o) => InstructionKind::Store { align: a, offset: o, ty: PointeeType::Int16 },
        Instruction::I64Store32(a, o) => InstructionKind::Store { align: a, offset: o, ty: PointeeType::Int32 },
        Instruction::I32Load8S(a, o) => InstructionKind::Load { align: a, offset: o, ty: PointeeType::Int8 },
        Instruction::I32Load8U(a, o) => InstructionKind::Load { align: a, offset: o, ty: PointeeType::Int8 },
        Instruction::I32Load16S(a, o) => InstructionKind::Load { align: a, offset: o, ty: PointeeType::Int16 },
        Instruction::I32Load16U(a, o) => InstructionKind::Load { align: a, offset: o, ty: PointeeType::Int16 },
        Instruction::I32Load(a, o) => InstructionKind::Load { align: a, offset: o, ty: PointeeType::Int32 },
        Instruction::I64Load(a, o) => InstructionKind::Load { align: a, offset: o, ty: PointeeType::Int64 },
        Instruction::I64Load8S(a, o) => InstructionKind::Load { align: a, offset: o, ty: PointeeType::Int8 },
        Instruction::I64Load8U(a, o) => InstructionKind::Load { align: a, offset: o, ty: PointeeType::Int8 },
        Instruction::I64Load16S(a, o) => InstructionKind::Load { align: a, offset: o, ty: PointeeType::Int16 },
        Instruction::I64Load16U(a, o) => InstructionKind::Load { align: a, offset: o, ty: PointeeType::Int16 },
        Instruction::I64Load32S(a, o) => InstructionKind::Load { align: a, offset: o, ty: PointeeType::Int32 },
        Instruction::I64Load32U(a, o) => InstructionKind::Load { align: a, offset: o, ty: PointeeType::Int32 },
        Instruction::CurrentMemory(v) => InstructionKind::CurrentMemory(v),
        Instruction::GrowMemory(v) => InstructionKind::GrowMemory(v),
        Instruction::I32Clz => InstructionKind::Unary(UnaryOperation::Ctlz32),
        Instruction::I32Ctz => InstructionKind::Unary(UnaryOperation::Cttz32),
        Instruction::I64Clz => InstructionKind::Unary(UnaryOperation::Ctlz64),
        Instruction::I64Ctz => InstructionKind::Unary(UnaryOperation::Cttz64),
        Instruction::I32Popcnt => InstructionKind::Unary(UnaryOperation::Ctpop32),
        Instruction::I64Popcnt => InstructionKind::Unary(UnaryOperation::Ctpop64),
        Instruction::F32Abs => InstructionKind::Unary(UnaryOperation::Fabs32),
        Instruction::F64Abs => InstructionKind::Unary(UnaryOperation::Fabs64),
        Instruction::F32Neg => InstructionKind::Unary(UnaryOperation::FNeg),
        Instruction::F64Neg => InstructionKind::Unary(UnaryOperation::FNeg),
        Instruction::F32Sqrt => InstructionKind::Unary(UnaryOperation::Sqrt32),
        Instruction::F64Sqrt => InstructionKind::Unary(UnaryOperation::Sqrt64),
        Instruction::F32Ceil => InstructionKind::Unary(UnaryOperation::Ceil32),
        Instruction::F64Ceil => InstructionKind::Unary(UnaryOperation::Ceil64),
        Instruction::F32Floor => InstructionKind::Unary(UnaryOperation::Floor32),
        Instruction::F64Floor => InstructionKind::Unary(UnaryOperation::Floor64),
        Instruction::F32Trunc => InstructionKind::Unary(UnaryOperation::Trunc32),
        Instruction::F64Trunc => InstructionKind::Unary(UnaryOperation::Trunc64),
        Instruction::F32Nearest => InstructionKind::Unary(UnaryOperation::Nearest32),
        Instruction::F64Nearest => InstructionKind::Unary(UnaryOperation::Nearest64),
        Instruction::I32Add => InstructionKind::Binary(BinaryOperation::Instr(BinaryOp::Add)),
        Instruction::I64Add => InstructionKind::Binary(BinaryOperation::Instr(BinaryOp::Add)),
        Instruction::F32Add => InstructionKind::Binary(BinaryOperation::Instr(BinaryOp::FAdd)),
        Instruction::F64Add => InstructionKind::Binary(BinaryOperation::Instr(BinaryOp::FAdd)),
        Instruction::I32Mul => InstructionKind::Binary(BinaryOperation::Instr(BinaryOp::Mul)),
        Instruction::I64Mul => InstructionKind::Binary(BinaryOperation::Instr(BinaryOp::Mul)),
        Instruction::F32Mul => InstructionKind::Binary(BinaryOperation::Instr(BinaryOp::FMul)),
        Instruction::F64Mul => InstructionKind::Binary(BinaryOperation::Instr(BinaryOp::FMul)),
        Instruction::I32Sub => InstructionKind::Binary(BinaryOperation::Instr(BinaryOp::Sub)),
        Instruction::I64Sub => InstructionKind::Binary(BinaryOperation::Instr(BinaryOp::Sub)),
        Instruction::F32Sub => InstructionKind::Binary(BinaryOperation::Instr(BinaryOp::FSub)),
        Instruction::F64Sub => InstructionKind::Binary(BinaryOperation::Instr(BinaryOp::FSub)),
        Instruction::I32DivS => InstructionKind::Binary(BinaryOperation::Instr(BinaryOp::SDiv)),
        Instruction::I32DivU => InstructionKind::Binary(BinaryOperation::Instr(BinaryOp::UDiv)),
        Instruction::I64DivS => InstructionKind::Binary(BinaryOperation::Instr(BinaryOp::SDiv)),
        Instruction::I64DivU => InstructionKind::Binary(BinaryOperation::Instr(BinaryOp::UDiv)),
        Instruction::F32Div => InstructionKind::Binary(BinaryOperation::Instr(BinaryOp::FDiv)),
        Instruction::F64Div => InstructionKind::Binary(BinaryOperation::Instr(BinaryOp::FDiv)),
        Instruction::I32RemS => InstructionKind::Binary(BinaryOperation::Instr(BinaryOp::SRem)),
        Instruction::I32RemU => InstructionKind::Binary(BinaryOperation::Instr(BinaryOp::URem)),
        Instruction::I64RemS => InstructionKind::Binary(BinaryOperation::Instr(BinaryOp::SRem)),
        Instruction::I64RemU => InstructionKind::Binary(BinaryOperation::Instr(BinaryOp::URem)),
        Instruction::I32And => InstructionKind::Binary(BinaryOperation::Instr(BinaryOp::And)),
        Instruction::I64And => InstructionKind::Binary(BinaryOperation::Instr(BinaryOp::And)),
        Instruction::I32Or => InstructionKind::Binary(BinaryOperation::Instr(BinaryOp::Or)),
        Instruction::I64Or => InstructionKind::Binary(BinaryOperation::Instr(BinaryOp::Or)),
        Instruction::I32Xor => InstructionKind::Binary(BinaryOperation::Instr(BinaryOp::Xor)),
        Instruction::I64Xor => InstructionKind::Binary(BinaryOperation::Instr(BinaryOp::Xor)),
        Instruction::I32Shl => InstructionKind::Binary(BinaryOperation::Instr(BinaryOp::Shl)),
        Instruction::I64Shl => InstructionKind::Binary(BinaryOperation::Instr(BinaryOp::Shl)),
        Instruction::I32ShrS => InstructionKind::Binary(BinaryOperation::Instr(BinaryOp::AShr)),
        Instruction::I32ShrU => InstructionKind::Binary(BinaryOperation::Instr(BinaryOp::LShr)),
        Instruction::I64ShrS => InstructionKind::Binary(BinaryOperation::Instr(BinaryOp::AShr)),
        Instruction::I64ShrU => InstructionKind::Binary(BinaryOperation::Instr(BinaryOp::LShr)),
        Instruction::I32Rotl => InstructionKind::Binary(BinaryOperation::Rotl32),
        Instruction::I32Rotr => InstructionKind::Binary(BinaryOperation::Rotr32),
        Instruction::I64Rotl => InstructionKind::Binary(BinaryOperation::Rotl64),
        Instruction::I64Rotr => InstructionKind::Binary(BinaryOperation::Rotr64),
        Instruction::F32Min => InstructionKind::Binary(BinaryOperation::FMinF),
        Instruction::F64Min => InstructionKind::Binary(BinaryOperation::FMin),
        Instruction::F32Max => InstructionKind::Binary(BinaryOperation::FMaxF),
        Instruction::F64Max => InstructionKind::Binary(BinaryOperation::FMax),
        Instruction::F32Copysign => InstructionKind::Binary(BinaryOperation::CopySignF),
        Instruction::F64Copysign => InstructionKind::Binary(BinaryOperation::CopySign),
        Instruction::I32Eqz => InstructionKind::Eqz(IrType::Int32),
        Instruction::I64Eqz => InstructionKind::Eqz(IrType::Int64),
        Instruction::I32Eq => InstructionKind::Compare(Comparison::Int(IntPredicate::Eq)),
        Instruction::I64Eq => InstructionKind::Compare(Comparison::Int(IntPredicate::Eq)),
        Instruction::F32Eq => InstructionKind::Compare(Comparison::Real(RealPredicate::Oeq)),
        Instruction::F64Eq => InstructionKind::Compare(Comparison::Real(RealPredicate::Oeq)),
        Instruction::I32Ne => InstructionKind::Compare(Comparison::Int(IntPredicate::Ne)),
        Instruction::I64Ne => InstructionKind::Compare(Comparison::Int(IntPredicate::Ne)),
        Instruction::F32Ne => InstructionKind::Compare(Comparison::Real(RealPredicate::One)),
        Instruction::F64Ne => InstructionKind::Compare(Comparison::Real(RealPredicate::One)),
        Instruction::I32LtS => InstructionKind::Compare(Comparison::Int(IntPredicate::Slt)),
        Instruction::I32LtU => InstructionKind::Compare(Comparison::Int(IntPredicate::Ult)),
        Instruction::I64LtS => InstructionKind::Compare(Comparison::Int(IntPredicate::Slt)),
        Instruction::I64LtU => InstructionKind::Compare(Comparison::Int(IntPredicate::Ult)),
        Instruction::F32Lt => InstructionKind::Compare(Comparison::Real(RealPredicate::Olt)),
        Instruction::F64Lt => InstructionKind::Compare(Comparison::Real(RealPredicate::Olt)),
        Instruction::I32GtS => InstructionKind::Compare(Comparison::Int(IntPredicate::Sgt)),
        Instruction::I32GtU => InstructionKind::Compare(Comparison::Int(IntPredicate::Ugt)),
        Instruction::I64GtS => InstructionKind::Compare(Comparison::Int(IntPredicate::Sgt)),
        Instruction::I64GtU => InstructionKind::Compare(Comparison::Int(IntPredicate::Ugt)),
        Instruction::F32Gt => InstructionKind::Compare(Comparison::Real(RealPredicate::Ogt)),
        Instruction::F64Gt => InstructionKind::Compare(Comparison::Real(RealPredicate::Ogt)),
        Instruction::I32LeS => InstructionKind::Compare(Comparison::Int(IntPredicate::Sle)),
        Instruction::I32LeU => InstructionKind::Compare(Comparison::Int(IntPredicate::Ule)),
        Instruction::I64LeS => InstructionKind::Compare(Comparison::Int(IntPredicate::Sle)),
        Instruction::I64LeU => InstructionKind::Compare(Comparison::Int(IntPredicate::Ule)),
        Instruction::F32Le => InstructionKind::Compare(Comparison::Real(RealPredicate::Ole)),
        Instruction::F64Le => InstructionKind::Compare(Comparison::Real(RealPredicate::Ole)),
        Instruction::I32GeS => InstructionKind::Compare(Comparison::Int(IntPredicate::Sge)),
        Instruction::I32GeU => InstructionKind::Compare(Comparison::Int(IntPredicate::Uge)),
        Instruction::I64GeS => InstructionKind::Compare(Comparison::Int(IntPredicate::Sge)),
        Instruction::I64GeU => InstructionKind::Compare(Comparison::Int(IntPredicate::Uge)),
        Instruction::F32Ge => InstructionKind::Compare(Comparison::Real(RealPredicate::Oge)),
        Instruction::F64Ge => InstructionKind::Compare(Comparison::Real(RealPredicate::Oge)),
        Instruction::I64ExtendSI32 => InstructionKind::Convert(CastOp::SExt, IrType::Int64),
        Instruction::I64ExtendUI32 => InstructionKind::Convert(CastOp::ZExt, IrType::Int64),
        Instruction::I32WrapI64 => InstructionKind::Convert(CastOp::Trunc, IrType::Int32),
        Instruction::I32TruncSF32 => InstructionKind::Convert(CastOp::FpToSi, IrType::Int32),
        Instruction::I32TruncSF64 => InstructionKind::Convert(CastOp::FpToSi, IrType::Int32),
        Instruction::I32TruncUF32 => InstructionKind::Convert(CastOp::FpToUi, IrType::Int32),
        Instruction::I32TruncUF64 => InstructionKind::Convert(CastOp::FpToUi, IrType::Int32),
        Instruction::I64TruncSF32 => InstructionKind::Convert(CastOp::FpToSi, IrType::Int64),
        Instruction::I64TruncSF64 => InstructionKind::Convert(CastOp::FpToSi, IrType::Int64),
        Instruction::I64TruncUF32 => InstructionKind::Convert(CastOp::FpToUi, IrType::Int64),
        Instruction::I64TruncUF64 => InstructionKind::Convert(CastOp::FpToUi, IrType::Int64),
        Instruction::F32DemoteF64 => InstructionKind::Convert(CastOp::FpTrunc, IrType::Float32),
        Instruction::F64PromoteF32 => InstructionKind::Convert(CastOp::FpExt, IrType::Float64),
        Instruction::F32ConvertSI32 => InstructionKind::Convert(CastOp::SiToFp, IrType::Float32),
        Instruction::F32ConvertSI64 => InstructionKind::Convert(CastOp::SiToFp, IrType::Float32),
        Instruction::F32ConvertUI32 => InstructionKind::Convert(CastOp::UiToFp, IrType::Float32),
        Instruction::F32ConvertUI64 => InstructionKind::Convert(CastOp::UiToFp, IrType::Float32),
        Instruction::F64ConvertSI32 => InstructionKind::Convert(CastOp::SiToFp, IrType::Float64),
        Instruction::F64ConvertSI64 => InstructionKind::Convert(CastOp::SiToFp, IrType::Float64),
        Instruction::F64ConvertUI32 => InstructionKind::Convert(CastOp::UiToFp, IrType::Float64),
        Instruction::F64ConvertUI64 => InstructionKind::Convert(CastOp::UiToFp, IrType::Float64),
        Instruction::F32ReinterpretI32 => InstructionKind::Convert(CastOp::BitCast, IrType::Float32),
        Instruction::F64ReinterpretI64 => InstructionKind::Convert(CastOp::BitCast, IrType::Float64),
        Instruction::I32ReinterpretF32 => InstructionKind::Convert(CastOp::BitCast, IrType::Int32),
        Instruction::I64ReinterpretF64 => InstructionKind::Convert(CastOp::BitCast, IrType::Int64),
        Instruction::Block(bt) => InstructionKind::Block(bt),
        Instruction::Loop(bt) => InstructionKind::Loop(bt),
        Instruction::If(bt) => InstructionKind::If(bt),
        Instruction::Br(l) => InstructionKind::Br(l),
        Instruction::BrIf(l) => InstructionKind::BrIf(l),
        Instruction::BrTable(_, _) => InstructionKind::BrTable,
        Instruction::Else => InstructionKind::Else,
        Instruction::End => InstructionKind::End,
        Instruction::Nop => InstructionKind::Nop,
        Instruction::Unreachable => InstructionKind::Unreachable,
        _ => InstructionKind::Invalid,
    }
}

/// What the translation does with `instruction`.
pub fn classify(instruction: &Instruction) -> (k: InstructionKind)
    ensures
        k == spec_classify(*instruction),
{
    match instruction {
        Instruction::I32Const(v) => InstructionKind::Const(Constant::Int { ty: IrType::Int32, value: *v as u64, sign_extend: true }),
        Instruction::I64Const(v) => InstructionKind::Const(Constant::Int { ty: IrType::Int64, value: *v as u64, sign_extend: true }),
        Instruction::F32Const(v) => InstructionKind::Const(Constant::Real32 { bits: *v }),
        Instruction::F64Const(v) => InstructionKind::Const(Constant::Real64 { bits: *v }),
        Instruction::GetGlobal(i) => InstructionKind::GetGlobal(*i),
        Instruction::SetGlobal(i) => InstructionKind::SetGlobal(*i),
        Instruction::GetLocal(i) => InstructionKind::GetLocal(*i),
        Instruction::SetLocal(i) => InstructionKind::SetLocal(*i),
        Instruction::TeeLocal(i) => InstructionKind::TeeLocal(*i),
        Instruction::F32Store(a, o) => InstructionKind::Store { align: *a, offset: *o, ty: PointeeType::Float32 },
        Instruction::F64Store(a, o) => InstructionKind::Store { align: *a, offset: *o, ty: PointeeType::Float64 },
        Instruction::I32Store(a, o) => InstructionKind::Store { align: *a, offset: *o, ty: PointeeType::Int32 },
        Instruction::I64Store(a, o) => InstructionKind::Store { align: *a, offset: *o, ty: PointeeType::Int64 },
        Instruction::I32Store8(a, o) => InstructionKind::Store { align: *a, offset: *o, ty: PointeeType::Int8 },
        Instruction::I32Store16(a, o) => InstructionKind::Store { align: *a, offset: *o, ty: PointeeType::Int16 },
        Instruction::I64Store8(a, o) => InstructionKind::Store { align: *a, offset: *o, ty: PointeeType::Int8 },
        Instruction::I64Store16(a, o) => InstructionKind::Store { align: *a, offset: *o, ty: PointeeType::Int16 },
        Instruction::I64Store32(a, o) => InstructionKind::Store { align: *a, offset: *o, ty: PointeeType::Int32 },
        Instruction::I32Load8S(a, o) => InstructionKind::Load { align: *a, offset: *o, ty: PointeeType::Int8 },
        Instruction::I32Load8U(a, o) => InstructionKind::Load { align: *a, offset: *o, ty: PointeeType::Int8 },
        Instruction::I32Load16S(a, o) => InstructionKind::Load { align: *a, offset: *o, ty: PointeeType::Int16 },
        Instruction::I32Load16U(a, o) => InstructionKind::Load { align: *a, offset: *o, ty: PointeeType::Int16 },
        Instruction::I32Load(a, o) => InstructionKind::Load { align: *a, offset: *o, ty: PointeeType::Int32 },
        Instruction::I64Load(a, o) => InstructionKind::Load { align: *a, offset: *o, ty: PointeeType::Int64 },
        Instruction::I64Load8S(a, o) => InstructionKind::Load { align: *a, offset: *o, ty: PointeeType::Int8 },
        Instruction::I64Load8U(a, o) => InstructionKind::Load { align: *a, offset: *o, ty: PointeeType::Int8 },
        Instruction::I64Load16S(a, o) => InstructionKind::Load { align: *a, offset: *o, ty: PointeeType::Int16 },
        Instruction::I64Load16U(a, o) => InstructionKind::Load { align: *a, offset: *o, ty: PointeeType::Int16 },
        Instruction::I64Load32S(a, o) => InstructionKind::Load { align: *a, offset: *o, ty: PointeeType::Int32 },
        Instruction::I64Load32U(a, o) => InstructionKind::Load { align: *a, offset: *o, ty: PointeeType::Int32 },
        Instruction::CurrentMemory(v) => InstructionKind::CurrentMemory(*v),
        Instruction::GrowMemory(v) => InstructionKind::GrowMemory(*v),
        Instruction::I32Clz => InstructionKind::Unary(UnaryOperation::Ctlz32),
        Instruction::I32Ctz => InstructionKind::Unary(UnaryOperation::Cttz32),
        Instruction::I64Clz => InstructionKind::Unary(UnaryOperation::Ctlz64),
        Instruction::I64Ctz => InstructionKind::Unary(UnaryOperation::Cttz64),
        Instruction::I32Popcnt => InstructionKind::Unary(UnaryOperation::Ctpop32),
        Instruction::I64Popcnt => InstructionKind::Unary(UnaryOperation::Ctpop64),
        Instruction::F32Abs => InstructionKind::Unary(UnaryOperation::Fabs32),
        Instruction::F64Abs => InstructionKind::Unary(UnaryOperation::Fabs64),
        Instruction::F32Neg => InstructionKind::Unary(UnaryOperation::FNeg),
        Instruction::F64Neg => InstructionKind::Unary(UnaryOperation::FNeg),
        Instruction::F32Sqrt => InstructionKind::Unary(UnaryOperation::Sqrt32),
        Instruction::F64Sqrt => InstructionKind::Unary(UnaryOperation::Sqrt64),
        Instruction::F32Ceil => InstructionKind::Unary(UnaryOperation::Ceil32),
        Instruction::F64Ceil => InstructionKind::Unary(UnaryOperation::Ceil64),
        Instruction::F32Floor => InstructionKind::Unary(UnaryOperation::Floor32),
        Instruction::F64Floor => InstructionKind::Unary(UnaryOperation::Floor64),
        Instruction::F32Trunc => InstructionKind::Unary(UnaryOperation::Trunc32),
        Instruction::F64Trunc => InstructionKind::Unary(UnaryOperation::Trunc64),
        Instruction::F32Nearest => InstructionKind::Unary(UnaryOperation::Nearest32),
        Instruction::F64Nearest => InstructionKind::Unary(UnaryOperation::Nearest64),
        Instruction::I32Add => InstructionKind::Binary(BinaryOperation::Instr(BinaryOp::Add)),
        Instruction::I64Add => InstructionKind::Binary(BinaryOperation::Instr(BinaryOp::Add)),
        Instruction::F32Add => InstructionKind::Binary(BinaryOperation::Instr(BinaryOp::FAdd)),
        Instruction::F64Add => InstructionKind::Binary(BinaryOperation::Instr(BinaryOp::FAdd)),
        Instruction::I32Mul => InstructionKind::Binary(BinaryOperation::Instr(BinaryOp::Mul)),
        Instruction::I64Mul => InstructionKind::Binary(BinaryOperation::Instr(BinaryOp::Mul)),
        Instruction::F32Mul => InstructionKind::Binary(BinaryOperation::Instr(BinaryOp::FMul)),
        Instruction::F64Mul => InstructionKind::Binary(BinaryOperation::Instr(BinaryOp::FMul)),
        Instruction::I32Sub => InstructionKind::Binary(BinaryOperation::Instr(BinaryOp::Sub)),
        Instruction::I64Sub => InstructionKind::Binary(BinaryOperation::Instr(BinaryOp::Sub)),
        Instruction::F32Sub => InstructionKind::Binary(BinaryOperation::Instr(BinaryOp::FSub)),
        Instruction::F64Sub => InstructionKind::Binary(BinaryOperation::Instr(BinaryOp::FSub)),
        Instruction::I32DivS => InstructionKind::Binary(BinaryOperation::Instr(BinaryOp::SDiv)),
        Instruction::I32DivU => InstructionKind::Binary(BinaryOperation::Instr(BinaryOp::UDiv)),
        Instruction::I64DivS => InstructionKind::Binary(BinaryOperation::Instr(BinaryOp::SDiv)),
        Instruction::I64DivU => InstructionKind::Binary(BinaryOperation::Instr(BinaryOp::UDiv)),
        Instruction::F32Div => InstructionKind::Binary(BinaryOperation::Instr(BinaryOp::FDiv)),
        Instruction::F64Div => InstructionKind::Binary(BinaryOperation::Instr(BinaryOp::FDiv)),
        Instruction::I32RemS => InstructionKind::Binary(BinaryOperation::Instr(BinaryOp::SRem)),
        Instruction::I32RemU => InstructionKind::Binary(BinaryOperation::Instr(BinaryOp::URem)),
        Instruction::I64RemS => InstructionKind::Binary(BinaryOperation::Instr(BinaryOp::SRem)),
        Instruction::I64RemU => InstructionKind::Binary(BinaryOperation::Instr(BinaryOp::URem)),
        Instruction::I32And => InstructionKind::Binary(BinaryOperation::Instr(BinaryOp::And)),
        Instruction::I64And => InstructionKind::Binary(BinaryOperation::Instr(BinaryOp::And)),
        Instruction::I32Or => InstructionKind::Binary(BinaryOperation::Instr(BinaryOp::Or)),
        Instruction::I64Or => InstructionKind::Binary(BinaryOperation::Instr(BinaryOp::Or)),
        Instruction::I32Xor => InstructionKind::Binary(BinaryOperation::Instr(BinaryOp::Xor)),
        Instruction::I64Xor => InstructionKind::Binary(BinaryOperation::Instr(BinaryOp::Xor)),
        Instruction::I32Shl => InstructionKind::Binary(BinaryOperation::Instr(BinaryOp::Shl)),
        Instruction::I64Shl => InstructionKind::Binary(BinaryOperation::Instr(BinaryOp::Shl)),
        Instruction::I32ShrS => InstructionKind::Binary(BinaryOperation::Instr(BinaryOp::AShr)),
        Instruction::I32ShrU => InstructionKind::Binary(BinaryOperation::Instr(BinaryOp::LShr)),
        Instruction::I64ShrS => InstructionKind::Binary(BinaryOperation::Instr(BinaryOp::AShr)),
        Instruction::I64ShrU => InstructionKind::Binary(BinaryOperation::Instr(BinaryOp::LShr)),
        Instruction::I32Rotl => InstructionKind::Binary(BinaryOperation::Rotl32),
        Instruction::I32Rotr => InstructionKind::Binary(BinaryOperation::Rotr32),
        Instruction::I64Rotl => InstructionKind::Binary(BinaryOperation::Rotl64),
        Instruction::I64Rotr => InstructionKind::Binary(BinaryOperation::Rotr64),
        Instruction::F32Min => InstructionKind::Binary(BinaryOperation::FMinF),
        Instruction::F64Min => InstructionKind::Binary(BinaryOperation::FMin),
        Instruction::F32Max => InstructionKind::Binary(BinaryOperation::FMaxF),
        Instruction::F64Max => InstructionKind::Binary(BinaryOperation::FMax),
        Instruction::F32Copysign => InstructionKind::Binary(BinaryOperation::CopySignF),
        Instruction::F64Copysign => InstructionKind::Binary(BinaryOperation::CopySign),
        Instruction::I32Eqz => InstructionKind::Eqz(IrType::Int32),
        Instruction::I64Eqz => InstructionKind::Eqz(IrType::Int64),
        Instruction::I32Eq => InstructionKind::Compare(Comparison::Int(IntPredicate::Eq)),
        Instruction::I64Eq => InstructionKind::Compare(Comparison::Int(IntPredicate::Eq)),
        Instruction::F32Eq => InstructionKind::Compare(Comparison::Real(RealPredicate::Oeq)),
        Instruction::F64Eq => InstructionKind::Compare(Comparison::Real(RealPredicate::Oeq)),
        Instruction::I32Ne => InstructionKind::Compare(Comparison::Int(IntPredicate::Ne)),
        Instruction::I64Ne => InstructionKind::Compare(Comparison::Int(IntPredicate::Ne)),
        Instruction::F32Ne => InstructionKind::Compare(Comparison::Real(RealPredicate::One)),
        Instruction::F64Ne => InstructionKind::Compare(Comparison::Real(RealPredicate::One)),
        Instruction::I32LtS => InstructionKind::Compare(Comparison::Int(IntPredicate::Slt)),
        Instruction::I32LtU => InstructionKind::Compare(Comparison::Int(IntPredicate::Ult)),
        Instruction::I64LtS => InstructionKind::Compare(Comparison::Int(IntPredicate::Slt)),
        Instruction::I64LtU => InstructionKind::Compare(Comparison::Int(IntPredicate::Ult)),
        Instruction::F32Lt => InstructionKind::Compare(Comparison::Real(RealPredicate::Olt)),
        Instruction::F64Lt => InstructionKind::Compare(Comparison::Real(RealPredicate::Olt)),
        Instruction::I32GtS => InstructionKind::Compare(Comparison::Int(IntPredicate::Sgt)),
        Instruction::I32GtU => InstructionKind::Compare(Comparison::Int(IntPredicate::Ugt)),
        Instruction::I64GtS => InstructionKind::Compare(Comparison::Int(IntPredicate::Sgt)),
        Instruction::I64GtU => InstructionKind::Compare(Comparison::Int(IntPredicate::Ugt)),
        Instruction::F32Gt => InstructionKind::Compare(Comparison::Real(RealPredicate::Ogt)),
        Instruction::F64Gt => InstructionKind::Compare(Comparison::Real(RealPredicate::Ogt)),
        Instruction::I32LeS => InstructionKind::Compare(Comparison::Int(IntPredicate::Sle)),
        Instruction::I32LeU => InstructionKind::Compare(Comparison::Int(IntPredicate::Ule)),
        Instruction::I64LeS => InstructionKind::Compare(Comparison::Int(IntPredicate::Sle)),
        Instruction::I64LeU => InstructionKind::Compare(Comparison::Int(IntPredicate::Ule)),
        Instruction::F32Le => InstructionKind::Compare(Comparison::Real(RealPredicate::Ole)),
        Instruction::F64Le => InstructionKind::Compare(Comparison::Real(RealPredicate::Ole)),
        Instruction::I32GeS => InstructionKind::Compare(Comparison::Int(IntPredicate::Sge)),
        Instruction::I32GeU => InstructionKind::Compare(Comparison::Int(IntPredicate::Uge)),
        Instruction::I64GeS => InstructionKind::Compare(Comparison::Int(IntPredicate::Sge)),
        Instruction::I64GeU => InstructionKind::Compare(Comparison::Int(IntPredicate::Uge)),
        Instruction::F32Ge => InstructionKind::Compare(Comparison::Real(RealPredicate::Oge)),
        Instruction::F64Ge => InstructionKind::Compare(Comparison::Real(RealPredicate::Oge)),
        Instruction::I64ExtendSI32 => InstructionKind::Convert(CastOp::SExt, IrType::Int64),
        Instruction::I64ExtendUI32 => InstructionKind::Convert(CastOp::ZExt, IrType::Int64),
        Instruction::I32WrapI64 => InstructionKind::Convert(CastOp::Trunc, IrType::Int32),
        Instruction::I32TruncSF32 => InstructionKind::Convert(CastOp::FpToSi, IrType::Int32),
        Instruction::I32TruncSF64 => InstructionKind::Convert(CastOp::FpToSi, IrType::Int32),
        Instruction::I32TruncUF32 => InstructionKind::Convert(CastOp::FpToUi, IrType::Int32),
        Instruction::I32TruncUF64 => InstructionKind::Convert(CastOp::FpToUi, IrType::Int32),
        Instruction::I64TruncSF32 => InstructionKind::Convert(CastOp::FpToSi, IrType::Int64),
        Instruction::I64TruncSF64 => InstructionKind::Convert(CastOp::FpToSi, IrType::Int64),
        Instruction::I64TruncUF32 => InstructionKind::Convert(CastOp::FpToUi, IrType::Int64),
        Instruction::I64TruncUF64 => InstructionKind::Convert(CastOp::FpToUi, IrType::Int64),
        Instruction::F32DemoteF64 => InstructionKind::Convert(CastOp::FpTrunc, IrType::Float32),
        Instruction::F64PromoteF32 => InstructionKind::Convert(CastOp::FpExt, IrType::Float64),
        Instruction::F32ConvertSI32 => InstructionKind::Convert(CastOp::SiToFp, IrType::Float32),
        Instruction::F32ConvertSI64 => InstructionKind::Convert(CastOp::SiToFp, IrType::Float32),
        Instruction::F32ConvertUI32 => InstructionKind::Convert(CastOp::UiToFp, IrType::Float32),
        Instruction::F32ConvertUI64 => InstructionKind::Convert(CastOp::UiToFp, IrType::Float32),
        Instruction::F64ConvertSI32 => InstructionKind::Convert(CastOp::SiToFp, IrType::Float64),
        Instruction::F64ConvertSI64 => InstructionKind::Convert(CastOp::SiToFp, IrType::Float64),
        Instruction::F64ConvertUI32 => InstructionKind::Convert(CastOp::UiToFp, IrType::Float64),
        Instruction::F64ConvertUI64 => InstructionKind::Convert(CastOp::UiToFp, IrType::Float64),
        Instruction::F32ReinterpretI32 => InstructionKind::Convert(CastOp::BitCast, IrType::Float32),
        Instruction::F64ReinterpretI64 => InstructionKind::Convert(CastOp::BitCast, IrType::Float64),
        Instruction::I32ReinterpretF32 => InstructionKind::Convert(CastOp::BitCast, IrType::Int32),
        Instruction::I64ReinterpretF64 => InstructionKind::Convert(CastOp::BitCast, IrType::Int64),
        Instruction::Block(bt) => InstructionKind::Block(*bt),
        Instruction::Loop(bt) => InstructionKind::Loop(*bt),
        Instruction::If(bt) => InstructionKind::If(*bt),
        Instruction::Br(l) => InstructionKind::Br(*l),
        Instruction::BrIf(l) => InstructionKind::BrIf(*l),
        Instruction::BrTable(_, _) => InstructionKind::BrTable,
        Instruction::Else => InstructionKind::Else,
        Instruction::End => InstructionKind::End,
        Instruction::Nop => InstructionKind::Nop,
        Instruction::Unreachable => InstructionKind::Unreachable,
        _ => InstructionKind::Invalid,
    }
}

/// The instructions that the translation accepts as input: memory
/// instructions carry an alignment exponent below 32.
pub open spec fn instruction_supported(instruction: Instruction) -> bool {
    match spec_classify(instruction) {
        InstructionKind::Store { align, .. } => align < 32,
        InstructionKind::Load { align, .. } => align < 32,
        _ => true,
    }
}

/// The error of an instruction's own step, if it fails.
pub open spec fn kind_error(ob: &BuildContext, s: StackView, instruction: Instruction) -> Option<ErrorView> {
    match spec_classify(instruction) {
        InstructionKind::Const(_) => None,
        InstructionKind::GetGlobal(index) => if !ob.module.global_names().contains(global_name(index as nat)) {
            Some(ErrorView::NoSuchLLVMGlobalValue { name: global_name(index as nat) })
        } else {
            None
        },
        InstructionKind::SetGlobal(index) => if !ob.module.global_names().contains(global_name(index as nat)) {
            Some(ErrorView::NoSuchLLVMGlobalValue { name: global_name(index as nat) })
        } else if s.values.len() == 0 {
            Some(ErrorView::NotExistValue)
        } else {
            None
        },
        InstructionKind::GetLocal(index) => get_local_error(s, index),
        InstructionKind::SetLocal(index) => set_local_error(s, index),
        InstructionKind::TeeLocal(index) => set_local_error(s, index),
        InstructionKind::Store { .. } => store_error(ob, s),
        InstructionKind::Load { .. } => memory_access_error(ob, s),
        InstructionKind::CurrentMemory(_) => if s.frames.len() == 0 { Some(ErrorView::NotExistFrame) } else { None },
        InstructionKind::GrowMemory(index) => grow_memory_error(ob, s, index),
        InstructionKind::Unary(_) | InstructionKind::Eqz(_) | InstructionKind::Convert(_, _) | InstructionKind::If(_) =>
            if s.values.len() == 0 { Some(ErrorView::NotExistValue) } else { None },
        InstructionKind::Binary(_) | InstructionKind::Compare(_) =>
            if s.values.len() < 2 { Some(ErrorView::NotExistValue) } else { None },
        InstructionKind::Block(_) | InstructionKind::Loop(_) | InstructionKind::Nop | InstructionKind::Unreachable => None,
        InstructionKind::Else => else_error(s),
        InstructionKind::Br(index) => br_error(s, index),
        InstructionKind::BrIf(index) => br_if_error(s, index),
        InstructionKind::BrTable => match instruction {
            Instruction::BrTable(indices, default) => br_table_error(s, indices@, default),
            _ => None,
        },
        InstructionKind::End => end_error(s),
        InstructionKind::Invalid => Some(ErrorView::InvalidInstruction { instruction }),
    }
}

/// The stack after an instruction's own step, before the instruction is recorded.
pub open spec fn kind_stack(ob: &BuildContext, s: StackView, instruction: Instruction) -> StackView {
    let n = ob.ops().len();
    let top = s.values.last();
    match spec_classify(instruction) {
        InstructionKind::Const(_) => push_value(s, plain(n as int)),
        InstructionKind::GetGlobal(_) => push_value(s, plain(n + 1int)),
        InstructionKind::SetGlobal(_) => pop_value(s),
        InstructionKind::GetLocal(index) => push_value(s, s.frames[0].locals[index as int].value->0),
        InstructionKind::SetLocal(index) => set_local_value(pop_value(s), index, top),
        InstructionKind::TeeLocal(index) => set_local_value(s, index, top),
        InstructionKind::Store { .. } => pop_value(s),
        InstructionKind::Load { .. } => push_value(s, plain(n + 8int)),
        InstructionKind::CurrentMemory(_) => push_value(s, plain(n + 1int)),
        InstructionKind::GrowMemory(_) => push_value(pop_value(s), plain(after_one(ob, top) + 1int)),
        InstructionKind::Unary(op) => push_value(pop_value(s), plain(after_one(ob, top) + unary_len(op) - 1)),
        InstructionKind::Binary(op) => push_value(pop_value(pop_value(s)), plain(after_two(ob, below_top(s), top) + binary_len(op) - 1)),
        InstructionKind::Eqz(_) => push_value(pop_value(s), plain(after_one(ob, top) + 1int)),
        InstructionKind::Compare(_) => push_value(pop_value(pop_value(s)), plain(after_two(ob, below_top(s), top) + 1int)),
        InstructionKind::Convert(_, _) => push_value(pop_value(s), plain(after_one(ob, top) as int)),
        InstructionKind::Block(bt) => push_label(s, block_label(BlockKind::Block, n + return_slot_ops(bt).len(),
            n + return_slot_ops(bt).len() + 1, return_slot(bt, n))),
        InstructionKind::Loop(bt) => push_label(s, block_label(BlockKind::Loop, n + return_slot_ops(bt).len(),
            n + return_slot_ops(bt).len() + 1, return_slot(bt, n))),
        InstructionKind::If(bt) => push_label(pop_value(s), if_label(n + return_slot_ops(bt).len(), return_slot(bt, n))),
        InstructionKind::Else => else_stack(s),
        InstructionKind::BrIf(_) | InstructionKind::BrTable => pop_value(s),
        InstructionKind::End => end_stack(s),
        InstructionKind::Br(_) | InstructionKind::Nop | InstructionKind::Unreachable | InstructionKind::Invalid => s,
    }
}

/// The operations of an instruction's own step, from `ob` to `nb`.
pub open spec fn kind_done(ob: &BuildContext, nb: &BuildContext, s: StackView, instruction: Instruction) -> bool {
    let n = ob.ops().len();
    let top = s.values.last();
    let id = value_id(top, n);
    match spec_classify(instruction) {
        InstructionKind::Const(c) => nb.emitted(ob, seq![OpView::Const { value: c }]),
        InstructionKind::GetGlobal(index) => get_global_done(ob, nb, index),
        InstructionKind::SetGlobal(index) => set_global_done(ob, nb, index, top),
        InstructionKind::GetLocal(_) | InstructionKind::SetLocal(_) | InstructionKind::TeeLocal(_) => *nb == *ob,
        InstructionKind::Store { align, offset, ty } => store_done(ob, nb, top, ty, align, offset),
        InstructionKind::Load { align, offset, ty } => load_done(ob, nb, ty, align, offset),
        InstructionKind::CurrentMemory(index) => {
            &&& nb.grown(ob, 2)
            &&& nb.global_ref_at(n as int, memory_size_name(linear_prefix(), index as nat))
            &&& nb.ops()[n + 1int] == (OpView::Load { ptr: n as usize })
        },
        InstructionKind::GrowMemory(index) => {
            &&& one_operand_done(ob, nb, top, 2)
            &&& call_at(nb, after_one(ob, top), grow_function_name(linear_prefix(), index as nat), seq![id])
        },
        InstructionKind::Unary(op) => one_operand_done(ob, nb, top, unary_len(op)) && unary_at(nb, after_one(ob, top), op, id),
        InstructionKind::Binary(op) => {
            &&& two_operands_done(ob, nb, below_top(s), top, binary_len(op))
            &&& binary_at(nb, after_two(ob, below_top(s), top), op, value_id(below_top(s), n), rhs_id(ob, below_top(s), top))
        },
        InstructionKind::Eqz(ty) => {
            &&& one_operand_done(ob, nb, top, 2)
            &&& nb.ops_at(after_one(ob, top) as int, seq![
                OpView::Const { value: Constant::Int { ty, value: 0, sign_extend: false } },
                OpView::ICmp { predicate: IntPredicate::Eq, lhs: id, rhs: after_one(ob, top) as usize },
            ])
        },
        InstructionKind::Compare(c) => {
            &&& two_operands_done(ob, nb, below_top(s), top, 2)
            &&& nb.ops_at(after_two(ob, below_top(s), top) as int, seq![
                compare_op(c, value_id(below_top(s), n), rhs_id(ob, below_top(s), top)),
                OpView::Cast { op: CastOp::ZExtOrBitCast, operand: after_two(ob, below_top(s), top) as usize, ty: IrType::Int32 },
            ])
        },
        InstructionKind::Convert(op, ty) => {
            &&& one_operand_done(ob, nb, top, 1)
            &&& nb.ops_at(after_one(ob, top) as int, seq![OpView::Cast { op, operand: id, ty }])
        },
        InstructionKind::Block(bt) | InstructionKind::Loop(bt) => nb.emitted(ob, block_ops(bt, n)),
        InstructionKind::If(bt) => nb.emitted(ob, if_ops(bt, n, top)),
        InstructionKind::Else => nb.emitted(ob, else_ops(s, n)),
        InstructionKind::Br(index) => nb.emitted(ob, br_ops(s, index, n)),
        InstructionKind::BrIf(index) => nb.emitted(ob, br_if_ops(s, index, n)),
        InstructionKind::BrTable => match instruction {
            Instruction::BrTable(indices, default) => nb.emitted(ob, br_table_ops(s, indices@, default, n)),
            _ => true,
        },
        InstructionKind::End => nb.emitted(ob, end_ops(ob, s)),
        InstructionKind::Nop => call_emitted(nb, ob, "llvm.donothing"@, seq![]),
        InstructionKind::Unreachable => call_emitted(nb, ob, "llvm.trap"@, seq![]),
        InstructionKind::Invalid => true,
    }
}

/// The error of translating `instruction`, if it fails: its own step's,
/// else the lack of a current frame.
pub open spec fn progress_error(ob: &BuildContext, s: StackView, instruction: Instruction) -> Option<ErrorView> {
    match kind_error(ob, s, instruction) {
        Some(e) => Some(e),
        None => {
            let mid = kind_stack(ob, s, instruction);
            if mid.frames.len() == 0 { Some(ErrorView::NotExistFrame) } else { None }
        },
    }
}

/// The translation of `instruction` may emit operations before it fails:
/// a store checks the address first, and an if and a branch emit their
/// blocks and branches before they find what they lack.
pub open spec fn emits_before_failing(instruction: Instruction) -> bool {
    match spec_classify(instruction) {
        InstructionKind::Store { .. } | InstructionKind::If(_) | InstructionKind::BrIf(_)
            | InstructionKind::BrTable => true,
        _ => false,
    }
}

/// Translates one instruction: emits its operations, updates the stack and
/// records the instruction as the last one translated in the current
/// frame, which must exist; the labels' histories are left as they are.
#[verifier::rlimit(40)]
pub fn progress_instruction<T: WasmIntType>(bc: &mut BuildContext, instruction: Instruction, stack: Stack<T>) -> (r: Result<Stack<T>, RuntimeError>)
    requires
        old(bc).wf(),
        instruction_supported(instruction),
    ensures
        r matches Ok(s) ==> s.instances() == stack.instances(),
        final(bc).extends(old(bc)),
        final(bc).keeps_initial_values(old(bc)),
        r is Ok <==> progress_error(old(bc), stack@, instruction) is None,
        r matches Err(e) ==> progress_error(old(bc), stack@, instruction) == Some(e@),
        r is Err && kind_error(old(bc), stack@, instruction) is Some && !emits_before_failing(instruction)
            ==> *final(bc) == *old(bc),
        r matches Ok(s) ==> kind_done(old(bc), final(bc), stack@, instruction)
            && s@ == record_in_frame(kind_stack(old(bc), stack@, instruction), instruction),
{
    let ghost orig = stack@;
    let kind = classify(&instruction);
    let stack = match kind {
        InstructionKind::Const(c) => push_const(bc, c, stack),
        InstructionKind::GetGlobal(index) => get_global(bc, index, stack)?,
        InstructionKind::SetGlobal(index) => set_global(bc, index, stack)?,
        InstructionKind::GetLocal(index) => get_local(index, stack)?,
        InstructionKind::SetLocal(index) => set_local(index, stack)?,
        InstructionKind::TeeLocal(index) => tee_local(index, stack)?,
        InstructionKind::Store { align, offset, ty } => store(bc, align, offset, stack, ty)?,
        InstructionKind::Load { align, offset, ty } => load(bc, align, offset, stack, ty)?,
        InstructionKind::CurrentMemory(index) => current_memory(bc, index, stack)?,
        InstructionKind::GrowMemory(index) => grow_memory(bc, index, stack)?,
        InstructionKind::Unary(op) => unop(bc, stack, op)?,
        InstructionKind::Binary(op) => binop(bc, stack, op)?,
        InstructionKind::Eqz(ty) => eqz(bc, ty, stack)?,
        InstructionKind::Compare(c) => relop(bc, stack, c)?,
        InstructionKind::Convert(op, ty) => cutop(bc, stack, op, ty)?,
        InstructionKind::Block(bt) => open_block(bc, stack, bt, BlockKind::Block),
        InstructionKind::Loop(bt) => open_block(bc, stack, bt, BlockKind::Loop),
        InstructionKind::If(bt) => if_instruction(bc, stack, bt)?,
        InstructionKind::Else => else_instruction(bc, stack)?,
        InstructionKind::Br(index) => br(bc, stack, index)?,
        InstructionKind::BrIf(index) => br_if(bc, stack, index)?,
        InstructionKind::BrTable => match &instruction {
            Instruction::BrTable(indices, default) => br_table(bc, stack, indices, *default)?,
            _ => stack,
        },
        InstructionKind::End => end(bc, stack)?,
        InstructionKind::Nop => nop(bc, stack),
        InstructionKind::Unreachable => unreachable(bc, stack),
        InstructionKind::Invalid => return Err(RuntimeError::InvalidInstruction { instruction }),
    };
    record_previous_instruction(stack, instruction)
}

/// Records `instruction` as the last one translated in the current frame.
fn record_previous_instruction<T: WasmIntType>(stack: Stack<T>, instruction: Instruction) -> (r: Result<Stack<T>, RuntimeError>)
    ensures
        r is Ok <==> stack@.frames.len() > 0,
        r matches Err(e) ==> e is NotExistFrame,
        r matches Ok(s) ==> s@ == record_in_frame(stack@, instruction) && s.instances() == stack.instances(),
{
    let ghost orig = stack@;
    let ghost instances = stack.instances();
    let mut stack = stack;
    if stack.activations.len() == 0 {
        return Err(RuntimeError::NotExistFrame);
    }
    let mut frames = Vec::new();
    core::mem::swap(&mut frames, &mut stack.activations);
    let mut current = frames.remove(0);
    current.previous_instruction = Some(instruction);
    frames.insert(0, current);
    stack.activations = frames;
    proof {
        assert(stack@.frames =~= record_in_frame(orig, instruction).frames);
        assert(stack.instances() =~= instances);
    }
    Ok(stack)
}

/// One instruction translated without error, from context `ob` and stack
/// `s` into context `nb` and stack `t`: what `progress_instruction` does.
pub open spec fn step_translated(ob: BuildContext, nb: BuildContext, s: StackView, t: StackView, instruction: Instruction) -> bool {
    &&& nb.extends(&ob)
    &&& step_done(ob, nb, s, t, instruction)
}

/// What one instruction's translation emits and leaves on the stack, when
/// it does not fail: the statement of `progress_instruction`.
#[verifier::opaque]
pub open spec fn step_done(ob: BuildContext, nb: BuildContext, s: StackView, t: StackView, instruction: Instruction) -> bool {
    &&& progress_error(&ob, s, instruction) is None
    &&& kind_done(&ob, &nb, s, instruction)
    &&& t == record_in_frame(kind_stack(&ob, s, instruction), instruction)
}

/// The states `ctxs` and stacks `stacks` trace the translation of `code`
/// without error: each instruction takes the state and stack before it to
/// those after it.
pub open spec fn trace_translates(ctxs: Seq<BuildContext>, stacks: Seq<StackView>, code: Seq<Instruction>) -> bool {
    &&& ctxs.len() == code.len() + 1
    &&& stacks.len() == code.len() + 1
    &&& forall|i: int| 0 <= i < code.len() ==> #[trigger] step_translated(ctxs[i], ctxs[i + 1], stacks[i], stacks[i + 1], code[i])
}

/// The instructions `code` translated one after the other without error,
/// from context `ob` and stack `s` into context `nb` and stack `t`.
pub open spec fn code_translated(ob: BuildContext, nb: BuildContext, s: StackView, t: StackView, code: Seq<Instruction>) -> bool {
    exists|ctxs: Seq<BuildContext>, stacks: Seq<StackView>| #[trigger] trace_translates(ctxs, stacks, code)
        && ctxs[0] == ob && ctxs.last() == nb && stacks[0] == s && stacks.last() == t
}

/// The translation of `code` fails with `e`: the instructions before
/// instruction `k` are translated, and instruction `k` fails with `e`.
pub open spec fn code_failed(ob: BuildContext, s: StackView, code: Seq<Instruction>, e: ErrorView) -> bool {
    exists|k: int, mid: BuildContext, ms: StackView|
        0 <= k < code.len()
        && #[trigger] code_translated(ob, mid, s, ms, code.take(k))
        && progress_error(&mid, ms, code[k]) == Some(e)
}

} // verus!
