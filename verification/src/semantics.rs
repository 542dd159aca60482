use vstd::prelude::*;
use crate::build_context::BuildContext;
use crate::instructions::{get_global_done, set_global_done};
use crate::ir::{BinaryOp, Constant, IrType, OpView};
use crate::operations::rotation_ops;
use crate::stack::WasmValue;

verus! {

// The meaning of the straight-line integer operations of a plan: what value
// each operation yields, on 32-bit and on 64-bit integers, as LLVM defines
// the instructions.  Shifts by the width or more yield no value (LLVM makes
// them poison); operations that this model leaves out yield none either.

/// `a - b` modulo 2^32.
pub open spec fn sub_u32(a: u32, b: u32) -> u32 {
    if a >= b { (a - b) as u32 } else { (a + 0x1_0000_0000 - b) as u32 }
}

/// `a + b` modulo 2^32.
pub open spec fn add_u32(a: u32, b: u32) -> u32 {
    ((a + b) % 0x1_0000_0000) as u32
}

/// `a * b` modulo 2^32.
pub open spec fn mul_u32(a: u32, b: u32) -> u32 {
    ((a * b) % 0x1_0000_0000) as u32
}

/// The value of the two-operand instruction `op` on the 32-bit integers `a`
/// and `b`.
pub open spec fn binary_u32(op: BinaryOp, a: u32, b: u32) -> Option<u32> {
    match op {
        BinaryOp::Add => Some(add_u32(a, b)),
        BinaryOp::Sub => Some(sub_u32(a, b)),
        BinaryOp::Mul => Some(mul_u32(a, b)),
        BinaryOp::UDiv => if b != 0 { Some(a / b) } else { None },
        BinaryOp::URem => if b != 0 { Some(a % b) } else { None },
        BinaryOp::And => Some(a & b),
        BinaryOp::Or => Some(a | b),
        BinaryOp::Xor => Some(a ^ b),
        BinaryOp::Shl => if b < 32 { Some(a << b) } else { None },
        BinaryOp::LShr => if b < 32 { Some(a >> b) } else { None },
        _ => None,
    }
}

/// The value of operation `op` on 32-bit integers, with `env` the values
/// of the earlier operations by position.
pub open spec fn eval_op_u32(op: OpView, env: Map<int, u32>) -> Option<u32> {
    match op {
        OpView::Const { value: Constant::Int { ty: IrType::Int32, value, .. } } => Some(value as u32),
        OpView::Binary { op, lhs, rhs } =>
            if env.dom().contains(lhs as int) && env.dom().contains(rhs as int) {
                binary_u32(op, env[lhs as int], env[rhs as int])
            } else {
                None
            },
        _ => None,
    }
}

/// The values of the operations `ops`, the first at position `at`, added to
/// `env`; `None` when one of them has no value.
pub open spec fn eval_ops_u32(ops: Seq<OpView>, at: int, env: Map<int, u32>) -> Option<Map<int, u32>>
    decreases ops.len(),
{
    if ops.len() == 0 {
        Some(env)
    } else {
        match eval_op_u32(ops[0], env) {
            Some(v) => eval_ops_u32(ops.drop_first(), at + 1, env.insert(at, v)),
            None => None,
        }
    }
}

/// Evaluating two runs of operations one after the other.
pub proof fn lemma_eval_concat_u32(a: Seq<OpView>, b: Seq<OpView>, at: int, env: Map<int, u32>)
    ensures
        eval_ops_u32(a + b, at, env) == match eval_ops_u32(a, at, env) {
            Some(e) => eval_ops_u32(b, at + a.len(), e),
            None => None,
        },
    decreases a.len(),
{
    if a.len() > 0 {
        assert((a + b).drop_first() =~= a.drop_first() + b);
        assert((a + b)[0] == a[0]);
        match eval_op_u32(a[0], env) {
            Some(v) => lemma_eval_concat_u32(a.drop_first(), b, at + 1, env.insert(at, v)),
            None => {},
        }
    } else {
        assert(a + b =~= b);
    }
}

/// The amount of the opposite shift of a 32-bit rotation by `k`: `-k`
/// masked to the width.
pub open spec fn opposite_u32(k: u32) -> u32 {
    sub_u32(0, k) & 31
}

/// A 32-bit rotation of `x` by `k`, as its operations compute it: left,
/// or right.
pub open spec fn rotate_u32(left: bool, x: u32, k: u32) -> u32 {
    if left { (x << k) | (x >> opposite_u32(k)) } else { (x >> k) | (x << opposite_u32(k)) }
}

/// The opposite shift of a rotation by less than the width is the width
/// minus the amount, or zero.
proof fn lemma_opposite_u32(k: u32)
    requires
        k < 32,
    ensures
        opposite_u32(k) == (if k == 0 { 0u32 } else { (32 - k) as u32 }),
{
    let w = sub_u32(0, k);
    assert(w == (if k == 0 { 0u32 } else { (0xffff_ffffu32 - k + 1) as u32 }));
    assert((w & 31u32) == (if k == 0 { 0u32 } else { (32 - k) as u32 })) by (bit_vector)
        requires
            k < 32,
            w == (if k == 0 { 0u32 } else { (0xffff_ffffu32 - k + 1) as u32 });
}

/// The operations of a 32-bit rotation of the value at `lhs` by the value at
/// `rhs`, placed at `at`, yield the rotation at `at + 6` and keep the
/// earlier values.
pub proof fn lemma_rotation_u32(at: nat, left: bool, lhs: usize, rhs: usize, env: Map<int, u32>)
    requires
        env.dom().contains(lhs as int),
        env.dom().contains(rhs as int),
        env[rhs as int] < 32,
        lhs < at,
        rhs < at,
        at + 6 <= usize::MAX,
    ensures
        eval_ops_u32(rotation_ops(at, left, IrType::Int32, lhs, rhs), at as int, env) matches Some(e)
            && e.dom().contains(at + 6int)
            && e[at + 6int] == rotate_u32(left, env[lhs as int], env[rhs as int])
            && forall|i: int| #[trigger] env.dom().contains(i) && i < at ==> e.dom().contains(i) && e[i] == env[i],
{
    let ops = rotation_ops(at, left, IrType::Int32, lhs, rhs);
    let x = env[lhs as int];
    let k = env[rhs as int];
    lemma_opposite_u32(k);
    let e0 = env.insert(at as int, 31u32);
    let e1 = e0.insert(at + 1int, if left { x << k } else { x >> k });
    let e2 = e1.insert(at + 2int, 0u32);
    let e3 = e2.insert(at + 3int, sub_u32(0, k));
    let e4 = e3.insert(at + 4int, opposite_u32(k));
    let e5 = e4.insert(at + 5int, if left { x >> opposite_u32(k) } else { x << opposite_u32(k) });
    let e6 = e5.insert(at + 6int, rotate_u32(left, x, k));
    assert(eval_ops_u32(ops.skip(7), at + 7int, e6) == Some(e6));
    assert(ops.skip(6).drop_first() =~= ops.skip(7));
    assert(eval_ops_u32(ops.skip(6), at + 6int, e5) == Some(e6));
    assert(ops.skip(5).drop_first() =~= ops.skip(6));
    assert(eval_ops_u32(ops.skip(5), at + 5int, e4) == Some(e6));
    assert(ops.skip(4).drop_first() =~= ops.skip(5));
    assert(eval_ops_u32(ops.skip(4), at + 4int, e3) == Some(e6));
    assert(ops.skip(3).drop_first() =~= ops.skip(4));
    assert(eval_ops_u32(ops.skip(3), at + 3int, e2) == Some(e6));
    assert(ops.skip(2).drop_first() =~= ops.skip(3));
    assert(eval_ops_u32(ops.skip(2), at + 2int, e1) == Some(e6));
    assert(ops.skip(1).drop_first() =~= ops.skip(2));
    assert(eval_ops_u32(ops.skip(1), at + 1int, e0) == Some(e6));
    assert(ops.drop_first() =~= ops.skip(1));
    assert(eval_ops_u32(ops, at as int, env) == Some(e6));
}

/// Rotating right by `k` undoes rotating left by `k`, on 32 bits.
pub proof fn lemma_rotate_back_u32(x: u32, k: u32)
    requires
        k < 32,
    ensures
        rotate_u32(false, rotate_u32(true, x, k), k) == x,
{
    lemma_opposite_u32(k);
    let m = opposite_u32(k);
    let y = rotate_u32(true, x, k);
    assert(((((x << k) | (x >> m)) >> k) | (((x << k) | (x >> m)) << m)) == x) by (bit_vector)
        requires
            k < 32,
            m == (if k == 0 { 0u32 } else { (32 - k) as u32 });
}

/// Law: on 32-bit integers, the operations that translate `i32.rotl` by `k`
/// (below the width) followed by those that translate `i32.rotr` of its
/// result by the same `k` give back the rotated value `x`.
pub proof fn lemma_rotr_undoes_rotl_u32(x: u32, k: u32, lhs: usize, rhs: usize, at: nat)
    requires
        k < 32,
        lhs < at,
        rhs < at,
        lhs != rhs,
        at + 13 <= usize::MAX,
    ensures
        ({
            let env = map![lhs as int => x, rhs as int => k];
            let ops = rotation_ops(at, true, IrType::Int32, lhs, rhs)
                + rotation_ops(at + 7, false, IrType::Int32, (at + 6) as usize, rhs);
            eval_ops_u32(ops, at as int, env) matches Some(e) && e.dom().contains(at + 13int) && e[at + 13int] == x
        }),
{
    let env = map![lhs as int => x, rhs as int => k];
    let a = rotation_ops(at, true, IrType::Int32, lhs, rhs);
    let b = rotation_ops(at + 7, false, IrType::Int32, (at + 6) as usize, rhs);
    lemma_rotation_u32(at, true, lhs, rhs, env);
    let e = eval_ops_u32(a, at as int, env)->0;
    assert(env.dom().contains(rhs as int));
    lemma_rotation_u32(at + 7, false, (at + 6) as usize, rhs, e);
    lemma_eval_concat_u32(a, b, at as int, env);
    lemma_rotate_back_u32(x, k);
}

/// `a - b` modulo 2^64.
pub open spec fn sub_u64(a: u64, b: u64) -> u64 {
    if a >= b { (a - b) as u64 } else { (a + 0x1_0000_0000_0000_0000 - b) as u64 }
}

/// `a + b` modulo 2^64.
pub open spec fn add_u64(a: u64, b: u64) -> u64 {
    ((a + b) % 0x1_0000_0000_0000_0000) as u64
}

/// `a * b` modulo 2^64.
pub open spec fn mul_u64(a: u64, b: u64) -> u64 {
    ((a * b) % 0x1_0000_0000_0000_0000) as u64
}

/// The value of the two-operand instruction `op` on the 64-bit integers `a`
/// and `b`.
pub open spec fn binary_u64(op: BinaryOp, a: u64, b: u64) -> Option<u64> {
    match op {
        BinaryOp::Add => Some(add_u64(a, b)),
        BinaryOp::Sub => Some(sub_u64(a, b)),
        BinaryOp::Mul => Some(mul_u64(a, b)),
        BinaryOp::UDiv => if b != 0 { Some(a / b) } else { None },
        BinaryOp::URem => if b != 0 { Some(a % b) } else { None },
        BinaryOp::And => Some(a & b),
        BinaryOp::Or => Some(a | b),
        BinaryOp::Xor => Some(a ^ b),
        BinaryOp::Shl => if b < 64 { Some(a << b) } else { None },
        BinaryOp::LShr => if b < 64 { Some(a >> b) } else { None },
        _ => None,
    }
}

/// The value of operation `op` on 64-bit integers, with `env` the values
/// of the earlier operations by position.
pub open spec fn eval_op_u64(op: OpView, env: Map<int, u64>) -> Option<u64> {
    match op {
        OpView::Const { value: Constant::Int { ty: IrType::Int64, value, .. } } => Some(value as u64),
        OpView::Binary { op, lhs, rhs } =>
            if env.dom().contains(lhs as int) && env.dom().contains(rhs as int) {
                binary_u64(op, env[lhs as int], env[rhs as int])
            } else {
                None
            },
        _ => None,
    }
}

/// The values of the operations `ops`, the first at position `at`, added to
/// `env`; `None` when one of them has no value.
pub open spec fn eval_ops_u64(ops: Seq<OpView>, at: int, env: Map<int, u64>) -> Option<Map<int, u64>>
    decreases ops.len(),
{
    if ops.len() == 0 {
        Some(env)
    } else {
        match eval_op_u64(ops[0], env) {
            Some(v) => eval_ops_u64(ops.drop_first(), at + 1, env.insert(at, v)),
            None => None,
        }
    }
}

/// Evaluating two runs of operations one after the other.
pub proof fn lemma_eval_concat_u64(a: Seq<OpView>, b: Seq<OpView>, at: int, env: Map<int, u64>)
    ensures
        eval_ops_u64(a + b, at, env) == match eval_ops_u64(a, at, env) {
            Some(e) => eval_ops_u64(b, at + a.len(), e),
            None => None,
        },
    decreases a.len(),
{
    if a.len() > 0 {
        assert((a + b).drop_first() =~= a.drop_first() + b);
        assert((a + b)[0] == a[0]);
        match eval_op_u64(a[0], env) {
            Some(v) => lemma_eval_concat_u64(a.drop_first(), b, at + 1, env.insert(at, v)),
            None => {},
        }
    } else {
        assert(a + b =~= b);
    }
}

/// The amount of the opposite shift of a 64-bit rotation by `k`: `-k`
/// masked to the width.
pub open spec fn opposite_u64(k: u64) -> u64 {
    sub_u64(0, k) & 63
}

/// A 64-bit rotation of `x` by `k`, as its operations compute it: left,
/// or right.
pub open spec fn rotate_u64(left: bool, x: u64, k: u64) -> u64 {
    if left { (x << k) | (x >> opposite_u64(k)) } else { (x >> k) | (x << opposite_u64(k)) }
}

/// The opposite shift of a rotation by less than the width is the width
/// minus the amount, or zero.
proof fn lemma_opposite_u64(k: u64)
    requires
        k < 64,
    ensures
        opposite_u64(k) == (if k == 0 { 0u64 } else { (64 - k) as u64 }),
{
    let w = sub_u64(0, k);
    assert(w == (if k == 0 { 0u64 } else { (0xffff_ffff_ffff_ffffu64 - k + 1) as u64 }));
    assert((w & 63u64) == (if k == 0 { 0u64 } else { (64 - k) as u64 })) by (bit_vector)
        requires
            k < 64,
            w == (if k == 0 { 0u64 } else { (0xffff_ffff_ffff_ffffu64 - k + 1) as u64 });
}

/// The operations of a 64-bit rotation of the value at `lhs` by the value at
/// `rhs`, placed at `at`, yield the rotation at `at + 6` and keep the
/// earlier values.
pub proof fn lemma_rotation_u64(at: nat, left: bool, lhs: usize, rhs: usize, env: Map<int, u64>)
    requires
        env.dom().contains(lhs as int),
        env.dom().contains(rhs as int),
        env[rhs as int] < 64,
        lhs < at,
        rhs < at,
        at + 6 <= usize::MAX,
    ensures
        eval_ops_u64(rotation_ops(at, left, IrType::Int64, lhs, rhs), at as int, env) matches Some(e)
            && e.dom().contains(at + 6int)
            && e[at + 6int] == rotate_u64(left, env[lhs as int], env[rhs as int])
            && forall|i: int| #[trigger] env.dom().contains(i) && i < at ==> e.dom().contains(i) && e[i] == env[i],
{
    let ops = rotation_ops(at, left, IrType::Int64, lhs, rhs);
    let x = env[lhs as int];
    let k = env[rhs as int];
    lemma_opposite_u64(k);
    let e0 = env.insert(at as int, 63u64);
    let e1 = e0.insert(at + 1int, if left { x << k } else { x >> k });
    let e2 = e1.insert(at + 2int, 0u64);
    let e3 = e2.insert(at + 3int, sub_u64(0, k));
    let e4 = e3.insert(at + 4int, opposite_u64(k));
    let e5 = e4.insert(at + 5int, if left { x >> opposite_u64(k) } else { x << opposite_u64(k) });
    let e6 = e5.insert(at + 6int, rotate_u64(left, x, k));
    assert(eval_ops_u64(ops.skip(7), at + 7int, e6) == Some(e6));
    assert(ops.skip(6).drop_first() =~= ops.skip(7));
    assert(eval_ops_u64(ops.skip(6), at + 6int, e5) == Some(e6));
    assert(ops.skip(5).drop_first() =~= ops.skip(6));
    assert(eval_ops_u64(ops.skip(5), at + 5int, e4) == Some(e6));
    assert(ops.skip(4).drop_first() =~= ops.skip(5));
    assert(eval_ops_u64(ops.skip(4), at + 4int, e3) == Some(e6));
    assert(ops.skip(3).drop_first() =~= ops.skip(4));
    assert(eval_ops_u64(ops.skip(3), at + 3int, e2) == Some(e6));
    assert(ops.skip(2).drop_first() =~= ops.skip(3));
    assert(eval_ops_u64(ops.skip(2), at + 2int, e1) == Some(e6));
    assert(ops.skip(1).drop_first() =~= ops.skip(2));
    assert(eval_ops_u64(ops.skip(1), at + 1int, e0) == Some(e6));
    assert(ops.drop_first() =~= ops.skip(1));
    assert(eval_ops_u64(ops, at as int, env) == Some(e6));
}

/// Rotating right by `k` undoes rotating left by `k`, on 64 bits.
pub proof fn lemma_rotate_back_u64(x: u64, k: u64)
    requires
        k < 64,
    ensures
        rotate_u64(false, rotate_u64(true, x, k), k) == x,
{
    lemma_opposite_u64(k);
    let m = opposite_u64(k);
    let y = rotate_u64(true, x, k);
    assert(((((x << k) | (x >> m)) >> k) | (((x << k) | (x >> m)) << m)) == x) by (bit_vector)
        requires
            k < 64,
            m == (if k == 0 { 0u64 } else { (64 - k) as u64 });
}

/// Law: on 64-bit integers, the operations that translate `i64.rotl` by `k`
/// (below the width) followed by those that translate `i64.rotr` of its
/// result by the same `k` give back the rotated value `x`.
pub proof fn lemma_rotr_undoes_rotl_u64(x: u64, k: u64, lhs: usize, rhs: usize, at: nat)
    requires
        k < 64,
        lhs < at,
        rhs < at,
        lhs != rhs,
        at + 13 <= usize::MAX,
    ensures
        ({
            let env = map![lhs as int => x, rhs as int => k];
            let ops = rotation_ops(at, true, IrType::Int64, lhs, rhs)
                + rotation_ops(at + 7, false, IrType::Int64, (at + 6) as usize, rhs);
            eval_ops_u64(ops, at as int, env) matches Some(e) && e.dom().contains(at + 13int) && e[at + 13int] == x
        }),
{
    let env = map![lhs as int => x, rhs as int => k];
    let a = rotation_ops(at, true, IrType::Int64, lhs, rhs);
    let b = rotation_ops(at + 7, false, IrType::Int64, (at + 6) as usize, rhs);
    lemma_rotation_u64(at, true, lhs, rhs, env);
    let e = eval_ops_u64(a, at as int, env)->0;
    assert(env.dom().contains(rhs as int));
    lemma_rotation_u64(at + 7, false, (at + 6) as usize, rhs, e);
    lemma_eval_concat_u64(a, b, at as int, env);
    lemma_rotate_back_u64(x, k);
}

/// The state of a run of operations on globals: the values of earlier
/// operations by position, the globals that earlier operations refer to by
/// position, and the values of the globals by index.
pub type GlobalsState = (Map<int, u64>, Map<int, usize>, Map<usize, u64>);

/// The state after operation `op` at position `at`, for the operations that
/// refer to, load and store globals; `None` for other operations or when a
/// load or a store has nothing to work on.
pub open spec fn eval_global_op(op: OpView, at: int, st: GlobalsState) -> Option<GlobalsState> {
    let (values, refs, globals) = st;
    match op {
        OpView::GlobalRef { global } => Some((values, refs.insert(at, global), globals)),
        OpView::Load { ptr } =>
            if refs.dom().contains(ptr as int) && globals.dom().contains(refs[ptr as int]) {
                Some((values.insert(at, globals[refs[ptr as int]]), refs, globals))
            } else {
                None
            },
        OpView::Store { value, ptr } =>
            if values.dom().contains(value as int) && refs.dom().contains(ptr as int) {
                Some((values, refs, globals.insert(refs[ptr as int], values[value as int])))
            } else {
                None
            },
        _ => None,
    }
}

/// The state after the operations `ops`, the first at position `at`.
pub open spec fn eval_global_ops(ops: Seq<OpView>, at: int, st: GlobalsState) -> Option<GlobalsState>
    decreases ops.len(),
{
    if ops.len() == 0 {
        Some(st)
    } else {
        match eval_global_op(ops[0], at, st) {
            Some(next) => eval_global_ops(ops.drop_first(), at + 1, next),
            None => None,
        }
    }
}

/// Law: the operations that write a plain value into global `index`,
/// followed by those that read global `index`, give back the value written.
pub proof fn lemma_get_global_after_set_global(a: &BuildContext, b: &BuildContext, c: &BuildContext, index: u32, v: usize, st: GlobalsState)
    requires
        c.wf(),
        set_global_done(a, b, index, WasmValue::Value { value: v }),
        get_global_done(b, c, index),
        v < a.ops().len(),
        st.0.dom().contains(v as int),
    ensures
        ({
            let n = a.ops().len() as int;
            eval_global_ops(c.ops().subrange(n, n + 4), n, st) matches Some(end)
                && end.0.dom().contains(n + 3) && end.0[n + 3] == st.0[v as int]
        }),
{
    let n = a.ops().len() as int;
    let w = WasmValue::Value { value: v };
    assert(crate::stack::value_loads(w).len() == 0);
    let g1 = b.ops()[n]->GlobalRef_global;
    let g2 = c.ops()[n + 2]->GlobalRef_global;
    assert(c.ops()[n] == b.ops()[n]) by {
        assert(c.ops()[n] == c.ops().take(b.ops().len() as int)[n]);
    }
    assert(c.ops()[n + 1] == b.ops()[n + 1]) by {
        assert(c.ops()[n + 1] == c.ops().take(b.ops().len() as int)[n + 1]);
    }
    assert(c.module.global_names()[g1 as int] == b.module.global_names()[g1 as int]);
    assert(g1 == g2);
    let ops = c.ops().subrange(n, n + 4);
    assert(ops[0] == (OpView::GlobalRef { global: g1 }));
    assert(ops[1] == (OpView::Store { value: v, ptr: n as usize }));
    assert(ops[2] == (OpView::GlobalRef { global: g1 }));
    assert(ops[3] == (OpView::Load { ptr: (n + 2) as usize }));
    assert(c.body@.len() == c.body.len());
    assert(c.ops().len() == c.body@.len());
    assert((n as usize) as int == n && ((n + 2) as usize) as int == n + 2);
    assert(ops.skip(1)[0] == ops[1] && ops.skip(2)[0] == ops[2] && ops.skip(3)[0] == ops[3]);
    let s1 = (st.0, st.1.insert(n, g1), st.2);
    let s2 = (s1.0, s1.1, s1.2.insert(g1, st.0[v as int]));
    let s3 = (s2.0, s2.1.insert(n + 2, g1), s2.2);
    let s4 = (s3.0.insert(n + 3, st.0[v as int]), s3.1, s3.2);
    assert(eval_global_ops(ops.skip(4), n + 4, s4) == Some(s4));
    assert(ops.skip(3).drop_first() =~= ops.skip(4));
    assert(eval_global_ops(ops.skip(3), n + 3, s3) == Some(s4));
    assert(ops.skip(2).drop_first() =~= ops.skip(3));
    assert(eval_global_ops(ops.skip(2), n + 2, s2) == Some(s4));
    assert(ops.skip(1).drop_first() =~= ops.skip(2));
    assert(eval_global_ops(ops.skip(1), n + 1, s1) == Some(s4));
    assert(ops.drop_first() =~= ops.skip(1));
    assert(eval_global_ops(ops, n, st) == Some(s4));
}

} // verus!
