use wasm_llvm::instructions::{
    current_memory, f32_const_internal, f64_const_internal, get_global, get_global_name, get_local, grow_memory,
    i32_const_internal, i64_const_internal, progress_instruction, set_global, set_local, tee_local,
};
use wasm_llvm::error::RuntimeError;
use wasm_llvm::linear_memory::LinearMemoryCompiler as OldLinearMemoryCompiler;
use wasm_llvm::calls::{build_call_and_set_abort, build_call_and_set_raise_const};
use wasm_llvm::syscall::{
    build_call_and_set_brk, build_call_and_set_futex3, build_call_and_set_futex6, build_call_and_set_ioctl,
    build_call_and_set_libc_syscall, build_call_and_set_umask, build_call_and_set_writev, build_syscalls,
    new_real_pointer_type,
};
use wasm_llvm::table::TableInitializer;
use wasm_llvm::engine::Engine;
use wasm_llvm::instructions::alignment;
use wasm_llvm::wasm::{accepts_module, WasmCompiler};
use wasm_llvm::wasm_module::{
    BlockType, DataSegment, ExportEntry, Func, FuncBody, FunctionType as WasmFunctionType, GlobalEntry, GlobalType, InitExpr,
    Instruction, Internal, MemoryType, Module, TableType as WasmTableType, Type, ValueType,
};
use std::collections::HashMap;

use wasm_llvm::build_context::BuildContext;
use wasm_llvm::ir::{
    BinaryOp, CastOp, Constant, FunctionType, IntPredicate, IrModule, IrType, Op, PointeeType, RealPredicate, UnaryOp,
};
use wasm_llvm::memory::LinearMemoryCompiler;
use wasm_llvm::stack::{BlockReturnValue, Frame, Label, LocalValue, ModuleInstance, Stack, WasmValue};
use wasm_llvm::table::FunctionTableCompiler;
use wasm_llvm::wasm_module::ResizableLimits;

// An interpreter of the plans that the library emits: each function body
// is split into its basic blocks and run operation by operation, the way
// the lowered LLVM code would run.

/// What a pointer points into.
#[derive(Clone, Copy, Debug, PartialEq)]
enum Target {
    Null,
    Address(u64),
    Global(usize),
    Slot(usize),
    Region(usize),
}

/// The kinds of values an interpreted pointer may point to.
#[derive(Clone, Copy, Debug, PartialEq)]
enum Kind {
    Int(u32),
    F32,
    F64,
    Ptr,
    Array(usize),
    Void,
}

/// A value of the interpreted code.
#[derive(Clone, Copy, Debug, PartialEq)]
enum Val {
    Int { bits: u64, width: u32 },
    F32(f32),
    F64(f64),
    Ptr { target: Target, offset: i64, pointee: Kind },
    Func(usize),
    Block(usize),
    Array(usize),
    Void,
}

fn mask(bits: u64, width: u32) -> u64 {
    if width >= 64 { bits } else { bits & ((1u64 << width) - 1) }
}

fn sext(bits: u64, width: u32) -> i64 {
    if width >= 64 { bits as i64 } else { ((bits << (64 - width)) as i64) >> (64 - width) }
}

fn int_val(bits: u64, width: u32) -> Val {
    Val::Int { bits: mask(bits, width), width }
}

impl Val {
    /// The integer, sign or zero extended to 64 bits.
    fn to_int(&self, signed: bool) -> u64 {
        match *self {
            Val::Int { bits, width } => if signed { sext(bits, width) as u64 } else { bits },
            other => panic!("not an integer: {:?}", other),
        }
    }

    /// The floating point value, widened to double precision.
    fn to_float(&self) -> f64 {
        match *self {
            Val::F32(f) => f as f64,
            Val::F64(f) => f,
            other => panic!("not a float: {:?}", other),
        }
    }

    fn kind(&self) -> Kind {
        match *self {
            Val::Int { width, .. } => Kind::Int(width),
            Val::F32(_) => Kind::F32,
            Val::F64(_) => Kind::F64,
            Val::Array(a) => Kind::Array(a),
            Val::Ptr { .. } | Val::Func(_) => Kind::Ptr,
            _ => Kind::Void,
        }
    }
}

fn pointee_kind(p: PointeeType) -> Kind {
    match p {
        PointeeType::Void | PointeeType::Int8 => Kind::Int(8),
        PointeeType::Int16 => Kind::Int(16),
        PointeeType::Int32 => Kind::Int(32),
        PointeeType::Int64 => Kind::Int(64),
        PointeeType::Float32 => Kind::F32,
        PointeeType::Float64 => Kind::F64,
    }
}

fn size_of(k: Kind) -> i64 {
    match k {
        Kind::Int(w) => ((w + 7) / 8) as i64,
        Kind::F32 => 4,
        Kind::F64 => 8,
        Kind::Ptr => 8,
        _ => 1,
    }
}

fn zero_of(k: Kind) -> Val {
    match k {
        Kind::Int(w) => int_val(0, w),
        Kind::F32 => Val::F32(0.0),
        Kind::F64 => Val::F64(0.0),
        Kind::Ptr => Val::Ptr { target: Target::Null, offset: 0, pointee: Kind::Int(8) },
        _ => Val::Void,
    }
}

/// A mapped region: its bytes, and the pointers stored into it.
struct Region {
    bytes: HashMap<i64, u8>,
    pointers: HashMap<i64, Val>,
}

/// A running module: its globals, stack slots, mapped regions and arrays.
struct Machine<'a> {
    module: &'a IrModule,
    globals: Vec<Val>,
    slots: Vec<Val>,
    regions: Vec<Region>,
    arrays: Vec<Vec<Val>>,
}

/// The values of one activation.
struct Activation<'b> {
    body: &'b [Op],
    args: Vec<Val>,
    values: Vec<Option<Val>>,
}

impl<'a> Machine<'a> {
    fn new(module: &'a IrModule) -> Machine<'a> {
        let mut m = Machine { module, globals: Vec::new(), slots: Vec::new(), regions: Vec::new(), arrays: Vec::new() };
        for (g, decl) in module.globals.iter().enumerate() {
            let v = match module.initializers[g] {
                Some(c) => m.constant(c, None),
                None => zero_of(m.kind_of(decl.ty, None)),
            };
            m.globals.push(v);
        }
        m
    }

    fn function(&self, name: &str) -> usize {
        self.module.functions.iter().position(|f| f.name == name).unwrap_or_else(|| panic!("no function {}", name))
    }

    fn global(&self, name: &str) -> Val {
        let g = self.module.globals.iter().position(|d| d.name == name).unwrap_or_else(|| panic!("no global {}", name));
        self.globals[g]
    }

    fn kind_of(&self, t: IrType, act: Option<&Activation>) -> Kind {
        match t {
            IrType::Void => Kind::Void,
            IrType::Int1 => Kind::Int(1),
            IrType::Int8 => Kind::Int(8),
            IrType::Int16 => Kind::Int(16),
            IrType::Int32 => Kind::Int(32),
            IrType::Int64 | IrType::IntPtr => Kind::Int(64),
            IrType::Float32 => Kind::F32,
            IrType::Float64 => Kind::F64,
            IrType::Ptr(_) | IrType::PtrToTypeOf(_) | IrType::PtrToFunctionPtr(_) => Kind::Ptr,
            IrType::TypeOf(i) => act.and_then(|a| a.values[i]).map(|v| v.kind()).unwrap_or(Kind::Void),
        }
    }

    fn constant(&mut self, c: Constant, act: Option<&Activation>) -> Val {
        match c {
            Constant::Int { ty, value, .. } => match self.kind_of(ty, act) {
                Kind::Int(w) => int_val(value, w),
                k => panic!("integer constant of kind {:?}", k),
            },
            Constant::Real32 { bits } => Val::F32(f32::from_bits(bits)),
            Constant::Real64 { bits } => Val::F64(f64::from_bits(bits)),
            Constant::Null { .. } => zero_of(Kind::Ptr),
        }
    }

    fn read(&self, ptr: Val) -> Val {
        match ptr {
            Val::Ptr { target: Target::Slot(s), .. } => self.slots[s],
            Val::Ptr { target: Target::Global(g), offset: 0, .. } => self.globals[g],
            Val::Ptr { target: Target::Region(r), offset, pointee: Kind::Ptr } => {
                *self.regions[r].pointers.get(&offset).unwrap_or(&zero_of(Kind::Ptr))
            },
            Val::Ptr { target: Target::Region(r), offset, pointee } => {
                let n = size_of(pointee);
                let mut bits: u64 = 0;
                for i in 0..n {
                    let byte = *self.regions[r].bytes.get(&(offset + i)).unwrap_or(&0) as u64;
                    bits |= byte << (8 * i);
                }
                match pointee {
                    Kind::Int(w) => int_val(bits, w),
                    Kind::F32 => Val::F32(f32::from_bits(bits as u32)),
                    Kind::F64 => Val::F64(f64::from_bits(bits)),
                    k => panic!("load of kind {:?} from memory", k),
                }
            },
            other => panic!("load through {:?}", other),
        }
    }

    fn write(&mut self, ptr: Val, v: Val) {
        match ptr {
            Val::Ptr { target: Target::Slot(s), .. } => self.slots[s] = v,
            Val::Ptr { target: Target::Global(g), offset: 0, .. } => self.globals[g] = v,
            Val::Ptr { target: Target::Region(r), offset, pointee } => {
                let bits = match v {
                    Val::Int { bits, .. } => bits,
                    Val::F32(f) => f.to_bits() as u64,
                    Val::F64(f) => f.to_bits(),
                    Val::Array(a) => {
                        let elements = self.arrays[a].clone();
                        for (i, e) in elements.iter().enumerate() {
                            match e {
                                Val::Int { bits, .. } => {
                                    self.regions[r].bytes.insert(offset + i as i64, *bits as u8);
                                },
                                other => {
                                    self.regions[r].pointers.insert(offset + 8 * i as i64, *other);
                                },
                            }
                        }
                        return;
                    },
                    Val::Func(_) | Val::Ptr { .. } => {
                        self.regions[r].pointers.insert(offset, v);
                        return;
                    },
                    other => panic!("store of {:?} to memory", other),
                };
                for i in 0..size_of(pointee) {
                    self.regions[r].bytes.insert(offset + i, (bits >> (8 * i)) as u8);
                }
            },
            other => panic!("store through {:?}", other),
        }
    }

    /// The pointer stored at `offset` of the region that the pointer global `name` points into.
    fn memory_pointer(&self, name: &str, offset: i64) -> Val {
        match self.global(name) {
            Val::Ptr { target: Target::Region(r), offset: base, .. } => {
                *self.regions[r].pointers.get(&(base + offset)).unwrap_or(&zero_of(Kind::Ptr))
            },
            other => panic!("{} holds {:?}", name, other),
        }
    }

    /// The bytes at `offset` of the region that the pointer global `name` points into.
    fn memory_bytes(&self, name: &str, offset: i64, len: i64) -> Vec<u8> {
        match self.global(name) {
            Val::Ptr { target: Target::Region(r), offset: base, .. } => {
                (0..len).map(|i| *self.regions[r].bytes.get(&(base + offset + i)).unwrap_or(&0)).collect()
            },
            other => panic!("{} holds {:?}", name, other),
        }
    }

    fn value(&mut self, act: &mut Activation, i: usize) -> Val {
        if let Some(v) = act.values[i] {
            return v;
        }
        let v = match &act.body[i] {
            Op::Param { index } => act.args[*index as usize],
            Op::Const { value } => self.constant(*value, Some(act)),
            Op::ConstArray { elements, .. } => {
                let vs: Vec<Val> = elements.iter().map(|e| self.value(act, *e)).collect();
                self.arrays.push(vs);
                Val::Array(self.arrays.len() - 1)
            },
            Op::ConstCast { op, value, ty } => {
                let v = self.value(act, *value);
                self.cast(*op, v, *ty, act)
            },
            Op::GlobalRef { global } => {
                let pointee = self.globals[*global].kind();
                Val::Ptr { target: Target::Global(*global), offset: 0, pointee }
            },
            Op::FunctionRef { function } => Val::Func(*function),
            Op::AppendBlock => Val::Block(i),
            other => panic!("operation {} is not evaluated yet: {:?}", i, other),
        };
        act.values[i] = Some(v);
        v
    }

    fn cast(&mut self, op: CastOp, v: Val, ty: IrType, act: &Activation) -> Val {
        let k = match ty {
            IrType::Ptr(p) => {
                return match v {
                    Val::Ptr { target, offset, .. } => Val::Ptr { target, offset, pointee: pointee_kind(p) },
                    Val::Func(f) => Val::Func(f),
                    other => if let CastOp::IntToPtr = op {
                        Val::Ptr { target: Target::Address(other.to_int(false)), offset: 0, pointee: pointee_kind(p) }
                    } else {
                        panic!("pointer cast of {:?}", other)
                    },
                };
            },
            IrType::PtrToTypeOf(i) => {
                let pointee = act.values[i].map(|x| x.kind()).unwrap_or(Kind::Void);
                return match v {
                    Val::Ptr { target, offset, .. } => Val::Ptr { target, offset, pointee },
                    other => panic!("pointer cast of {:?}", other),
                };
            },
            IrType::PtrToFunctionPtr(_) => {
                return match v {
                    Val::Ptr { target, offset, .. } => Val::Ptr { target, offset, pointee: Kind::Ptr },
                    other => other,
                };
            },
            IrType::TypeOf(i) if act.values[i].map(|x| x.kind()) == Some(Kind::Ptr) => {
                return match (op, v) {
                    (CastOp::IntToPtr, Val::Int { bits, .. }) => Val::Ptr { target: Target::Address(bits), offset: 0, pointee: Kind::Int(8) },
                    (_, Val::Ptr { target, offset, .. }) => Val::Ptr { target, offset, pointee: Kind::Int(8) },
                    (_, other) => panic!("pointer cast of {:?}", other),
                };
            },
            t => self.kind_of(t, Some(act)),
        };
        match (op, v, k) {
            (CastOp::Trunc, Val::Int { bits, .. }, Kind::Int(w)) => int_val(bits, w),
            (CastOp::ZExt, Val::Int { bits, .. }, Kind::Int(w)) => int_val(bits, w),
            (CastOp::ZExtOrBitCast, Val::Int { bits, .. }, Kind::Int(w)) => int_val(bits, w),
            (CastOp::SExt, Val::Int { bits, width }, Kind::Int(w)) => int_val(sext(bits, width) as u64, w),
            (CastOp::IntCast, Val::Int { bits, width }, Kind::Int(w)) => int_val(sext(bits, width) as u64, w),
            (CastOp::FpToSi, f, Kind::Int(w)) => int_val(f.to_float() as i64 as u64, w),
            (CastOp::FpToUi, f, Kind::Int(w)) => int_val(f.to_float() as u64, w),
            (CastOp::SiToFp, Val::Int { bits, width }, Kind::F32) => Val::F32(sext(bits, width) as f32),
            (CastOp::SiToFp, Val::Int { bits, width }, Kind::F64) => Val::F64(sext(bits, width) as f64),
            (CastOp::UiToFp, Val::Int { bits, .. }, Kind::F32) => Val::F32(bits as f32),
            (CastOp::UiToFp, Val::Int { bits, .. }, Kind::F64) => Val::F64(bits as f64),
            (CastOp::FpTrunc, f, Kind::F32) => Val::F32(f.to_float() as f32),
            (CastOp::FpExt, f, Kind::F64) => Val::F64(f.to_float()),
            (CastOp::BitCast, Val::Int { bits, .. }, Kind::F32) => Val::F32(f32::from_bits(bits as u32)),
            (CastOp::BitCast, Val::Int { bits, .. }, Kind::F64) => Val::F64(f64::from_bits(bits)),
            (CastOp::BitCast, Val::F32(f), Kind::Int(w)) => int_val(f.to_bits() as u64, w),
            (CastOp::BitCast, Val::F64(f), Kind::Int(w)) => int_val(f.to_bits(), w),
            (CastOp::PtrToInt, Val::Ptr { target: Target::Address(a), offset, .. }, Kind::Int(w)) => int_val(a.wrapping_add(offset as u64), w),
            (op, v, k) => panic!("cast {:?} of {:?} to {:?}", op, v, k),
        }
    }

    fn binary(&self, op: BinaryOp, l: Val, r: Val) -> Val {
        match (l, r) {
            (Val::Int { bits: a, width }, Val::Int { bits: b, .. }) => {
                let sa = sext(a, width);
                let sb = sext(b, width);
                let v = match op {
                    BinaryOp::Add => a.wrapping_add(b),
                    BinaryOp::Sub => a.wrapping_sub(b),
                    BinaryOp::Mul => a.wrapping_mul(b),
                    BinaryOp::UDiv => a / b,
                    BinaryOp::SDiv => sa.wrapping_div(sb) as u64,
                    BinaryOp::URem => a % b,
                    BinaryOp::SRem => sa.wrapping_rem(sb) as u64,
                    BinaryOp::And => a & b,
                    BinaryOp::Or => a | b,
                    BinaryOp::Xor => a ^ b,
                    BinaryOp::Shl => if b >= width as u64 { 0 } else { a << b },
                    BinaryOp::AShr => if b >= width as u64 { (sa >> 63) as u64 } else { (sa >> b) as u64 },
                    BinaryOp::LShr => if b >= width as u64 { 0 } else { a >> b },
                    other => panic!("{:?} on integers", other),
                };
                int_val(v, width)
            },
            (Val::F32(a), Val::F32(b)) => Val::F32(match op {
                BinaryOp::FAdd => a + b,
                BinaryOp::FSub => a - b,
                BinaryOp::FMul => a * b,
                BinaryOp::FDiv => a / b,
                other => panic!("{:?} on floats", other),
            }),
            (Val::F64(a), Val::F64(b)) => Val::F64(match op {
                BinaryOp::FAdd => a + b,
                BinaryOp::FSub => a - b,
                BinaryOp::FMul => a * b,
                BinaryOp::FDiv => a / b,
                other => panic!("{:?} on floats", other),
            }),
            (l, r) => panic!("{:?} of {:?} and {:?}", op, l, r),
        }
    }

    fn compare(&self, p: IntPredicate, l: Val, r: Val) -> bool {
        match (l, r) {
            (Val::Int { bits: a, width }, Val::Int { bits: b, .. }) => {
                let (sa, sb) = (sext(a, width), sext(b, width));
                match p {
                    IntPredicate::Eq => a == b,
                    IntPredicate::Ne => a != b,
                    IntPredicate::Ugt => a > b,
                    IntPredicate::Uge => a >= b,
                    IntPredicate::Ult => a < b,
                    IntPredicate::Ule => a <= b,
                    IntPredicate::Sgt => sa > sb,
                    IntPredicate::Sge => sa >= sb,
                    IntPredicate::Slt => sa < sb,
                    IntPredicate::Sle => sa <= sb,
                }
            },
            (Val::Ptr { target: t1, offset: o1, .. }, Val::Ptr { target: t2, offset: o2, .. }) => match p {
                IntPredicate::Eq => t1 == t2 && o1 == o2,
                IntPredicate::Ne => !(t1 == t2 && o1 == o2),
                other => panic!("{:?} on pointers", other),
            },
            (l, r) => panic!("{:?} of {:?} and {:?}", p, l, r),
        }
    }

    fn external(&mut self, f: usize, args: &[Val]) -> Val {
        let name = self.module.functions[f].name.clone();
        let ret = self.module.types[self.module.functions[f].type_index].ret;
        let width = match self.kind_of(ret, None) {
            Kind::Int(w) => w,
            _ => 64,
        };
        let i = |k: usize| args[k].to_int(false);
        let f32_of = |k: usize| args[k].to_float() as f32;
        let f64_of = |k: usize| args[k].to_float();
        match name.as_str() {
            "llvm.ctlz.i32" => int_val((i(0) as u32).leading_zeros() as u64, 32),
            "llvm.cttz.i32" => int_val((i(0) as u32).trailing_zeros() as u64, 32),
            "llvm.ctlz.i64" => int_val(i(0).leading_zeros() as u64, 64),
            "llvm.cttz.i64" => int_val(i(0).trailing_zeros() as u64, 64),
            "llvm.ctpop.i32" => int_val((i(0) as u32).count_ones() as u64, 32),
            "llvm.ctpop.i64" => int_val(i(0).count_ones() as u64, 64),
            "llvm.fabs.f32" => Val::F32(f32_of(0).abs()),
            "llvm.fabs.f64" => Val::F64(f64_of(0).abs()),
            "llvm.sqrt.f32" => Val::F32(f32_of(0).sqrt()),
            "llvm.sqrt.f64" => Val::F64(f64_of(0).sqrt()),
            "llvm.ceil.f32" => Val::F32(f32_of(0).ceil()),
            "llvm.ceil.f64" => Val::F64(f64_of(0).ceil()),
            "llvm.floor.f32" => Val::F32(f32_of(0).floor()),
            "llvm.floor.f64" => Val::F64(f64_of(0).floor()),
            "llvm.trunc.f32" => Val::F32(f32_of(0).trunc()),
            "llvm.trunc.f64" => Val::F64(f64_of(0).trunc()),
            "llvm.nearbyint.f32" => Val::F32(f32_of(0).round_ties_even()),
            "llvm.nearbyint.f64" => Val::F64(f64_of(0).round_ties_even()),
            "fminf" => Val::F32(f32_of(0).min(f32_of(1))),
            "fmin" => Val::F64(f64_of(0).min(f64_of(1))),
            "fmaxf" => Val::F32(f32_of(0).max(f32_of(1))),
            "fmax" => Val::F64(f64_of(0).max(f64_of(1))),
            "copysignf" => Val::F32(f32_of(0).copysign(f32_of(1))),
            "copysign" => Val::F64(f64_of(0).copysign(f64_of(1))),
            "llvm.donothing" => Val::Void,
            "mmap" => {
                self.regions.push(Region { bytes: HashMap::new(), pointers: HashMap::new() });
                Val::Ptr { target: Target::Region(self.regions.len() - 1), offset: 0, pointee: Kind::Int(8) }
            },
            "munmap" => int_val(0, width),
            "llvm.trap" | "abort" => panic!("trap"),
            other => panic!("call of undefined function {}", other),
        }
    }

    /// Calls function `f` with `args` and gives what it returns.
    fn call(&mut self, f: usize, args: Vec<Val>) -> Val {
        let module = self.module;
        let body = &module.bodies[f];
        if body.is_empty() {
            return self.external(f, &args);
        }
        let mut blocks: HashMap<usize, Vec<usize>> = HashMap::new();
        let mut entry = None;
        let mut current = None;
        for (i, op) in body.iter().enumerate() {
            match op {
                Op::AppendBlock => {
                    blocks.insert(i, Vec::new());
                    if entry.is_none() {
                        entry = Some(i);
                    }
                },
                Op::PositionAtEnd { block } => current = Some(*block),
                Op::Param { .. } | Op::Const { .. } | Op::ConstArray { .. } | Op::ConstCast { .. } | Op::GlobalRef { .. }
                | Op::FunctionRef { .. } | Op::MoveAfterLastBlock { .. } | Op::SetAlignment { .. } => {},
                _ => blocks.get_mut(&current.expect("an instruction outside any block")).expect("a block").push(i),
            }
        }
        let mut act = Activation { body: body.as_slice(), args, values: vec![None; body.len()] };
        let mut block = entry.expect("an entry block");
        let mut steps = 0;
        loop {
            let ops = blocks[&block].clone();
            let mut next = None;
            for i in ops {
                steps += 1;
                assert!(steps < 1_000_000, "the function does not stop");
                let v = match &body[i] {
                    Op::Alloca { ty } => {
                        let k = self.kind_of(*ty, Some(&act));
                        self.slots.push(zero_of(k));
                        Val::Ptr { target: Target::Slot(self.slots.len() - 1), offset: 0, pointee: k }
                    },
                    Op::Load { ptr } => {
                        let p = self.value(&mut act, *ptr);
                        self.read(p)
                    },
                    Op::Store { value, ptr } => {
                        let v = self.value(&mut act, *value);
                        let p = self.value(&mut act, *ptr);
                        self.write(p, v);
                        Val::Void
                    },
                    Op::Gep { ptr, indices } => {
                        let p = self.value(&mut act, *ptr);
                        let index = self.value(&mut act, indices[indices.len() - 1]).to_int(true) as i64;
                        match p {
                            Val::Ptr { target, offset, pointee } => Val::Ptr { target, offset: offset + index * size_of(pointee), pointee },
                            other => panic!("pointer arithmetic on {:?}", other),
                        }
                    },
                    Op::Binary { op, lhs, rhs } => {
                        let l = self.value(&mut act, *lhs);
                        let r = self.value(&mut act, *rhs);
                        self.binary(*op, l, r)
                    },
                    Op::Unary { op, operand } => match (op, self.value(&mut act, *operand)) {
                        (UnaryOp::Neg, Val::Int { bits, width }) => int_val(0u64.wrapping_sub(bits), width),
                        (UnaryOp::FNeg, Val::F32(f)) => Val::F32(-f),
                        (UnaryOp::FNeg, Val::F64(f)) => Val::F64(-f),
                        (op, v) => panic!("{:?} of {:?}", op, v),
                    },
                    Op::ICmp { predicate, lhs, rhs } => {
                        let l = self.value(&mut act, *lhs);
                        let r = self.value(&mut act, *rhs);
                        int_val(self.compare(*predicate, l, r) as u64, 1)
                    },
                    Op::FCmp { predicate, lhs, rhs } => {
                        let l = self.value(&mut act, *lhs).to_float();
                        let r = self.value(&mut act, *rhs).to_float();
                        let ordered = !l.is_nan() && !r.is_nan();
                        let b = ordered && match predicate {
                            RealPredicate::Oeq => l == r,
                            RealPredicate::One => l != r,
                            RealPredicate::Olt => l < r,
                            RealPredicate::Ole => l <= r,
                            RealPredicate::Ogt => l > r,
                            RealPredicate::Oge => l >= r,
                        };
                        int_val(b as u64, 1)
                    },
                    Op::Cast { op, operand, ty } => {
                        let v = self.value(&mut act, *operand);
                        self.cast(*op, v, *ty, &act)
                    },
                    Op::Call { callee, args } => {
                        let c = self.value(&mut act, *callee);
                        let vs: Vec<Val> = args.iter().map(|a| self.value(&mut act, *a)).collect();
                        match c {
                            Val::Func(g) => self.call(g, vs),
                            Val::Ptr { target: Target::Slot(s), .. } => match self.slots[s] {
                                Val::Func(g) => self.call(g, vs),
                                other => panic!("call of {:?}", other),
                            },
                            other => panic!("call of {:?}", other),
                        }
                    },
                    Op::Br { block: b } => {
                        next = Some(*b);
                        Val::Void
                    },
                    Op::CondBr { cond, then_block, else_block } => {
                        let c = self.value(&mut act, *cond).to_int(false);
                        next = Some(if c != 0 { *then_block } else { *else_block });
                        Val::Void
                    },
                    Op::Ret { value } => return self.value(&mut act, *value),
                    Op::RetVoid => return Val::Void,
                    other => panic!("operation {:?} in a block", other),
                };
                act.values[i] = Some(v);
                if next.is_some() {
                    break;
                }
            }
            match next {
                Some(b) => block = b,
                None => panic!("block {} ends without a terminator", block),
            }
        }
    }

    fn run(&mut self, name: &str) -> Val {
        let f = self.function(name);
        self.call(f, Vec::new())
    }
}

fn new_compilers() -> (FunctionTableCompiler<u32>, LinearMemoryCompiler<u32>) {
    (FunctionTableCompiler::<u32>::new(), LinearMemoryCompiler::<u32>::new())
}

/// An activation with `locals` in a module without types or functions.
fn new_test_frame(locals: Vec<LocalValue>) -> Frame<u32> {
    let (ft, lt) = new_compilers();
    Frame::new(locals, ModuleInstance::new(Vec::new(), Vec::new(), ft, lt))
}

/// Declares `name` returning `ret`, starts its body and gives a stack that
/// holds the constants `values` and the activations `frames`.
fn build_test_instruction_function(bc: &mut BuildContext, ret: IrType, name: &str, values: &[Constant], frames: Vec<Frame<u32>>) -> Stack<u32> {
    let f = bc.set_declare_function(name.to_string(), FunctionType { ret, params: Vec::new(), var_arg: false });
    bc.build_function(f);
    let values: Vec<WasmValue> = values.iter().map(|c| WasmValue::new_value(bc.emit(Op::Const { value: *c }))).collect();
    Stack::new(f, Vec::new(), values, frames)
}

/// The constant integer `value` of type `ty`.
fn const_int(ty: IrType, value: u64, sign_extend: bool) -> Constant {
    Constant::Int { ty, value, sign_extend }
}

/// The constant float `value` of type `ty`.
fn const_real(ty: IrType, value: f64) -> Constant {
    match ty {
        IrType::Float32 => Constant::Real32 { bits: (value as f32).to_bits() },
        _ => Constant::Real64 { bits: value.to_bits() },
    }
}

/// Builds the function `test_function` of return type `ret` over the
/// stack values `values` by the instructions `instructions` in one frame,
/// and runs it.
fn run_instructions(ret: IrType, values: &[Constant], instructions: Vec<Instruction>) -> Val {
    let mut bc = BuildContext::new("test_module");
    let stack = build_test_instruction_function(&mut bc, ret, "test_function", values, vec![new_test_frame(Vec::new())]);
    let mut stack = stack;
    for instruction in instructions {
        stack = progress_instruction(&mut bc, instruction, stack).unwrap();
    }
    let module = bc.move_module();
    Machine::new(&module).run("test_function")
}

/// Builds the memory functions of linear memory 0, unless they exist, and
/// gives the name of the function that maps the memories.
fn init_test_memory(bc: &mut BuildContext) -> String {
    let lt = LinearMemoryCompiler::<u32>::new();
    let name = lt.get_init_function_name();
    if bc.get_named_function(&name).is_none() {
        lt.build_memory_functions(bc, 0, &[ResizableLimits { initial: 1, maximum: None }]).unwrap();
    }
    name
}

fn i32_reinterpret_f32(f: f32) -> u32 {
    f.to_bits()
}

fn i64_reinterpret_f64(f: f64) -> u64 {
    f.to_bits()
}

fn f32_reinterpret_i32(i: u32) -> f32 {
    f32::from_bits(i)
}

fn f64_reinterpret_i64(i: u64) -> f64 {
    f64::from_bits(i)
}

/// Builds the instructions like `run_instructions` without running them.
fn run_instructions_built(ret: IrType, values: &[Constant], instructions: Vec<Instruction>) -> IrModule {
    let mut bc = BuildContext::new("test_module");
    let mut stack = build_test_instruction_function(&mut bc, ret, "test_function", values, vec![new_test_frame(Vec::new())]);
    for instruction in instructions {
        stack = progress_instruction(&mut bc, instruction, stack).unwrap();
    }
    bc.move_module()
}

/// Declares `name` returning `ret` and starts its body.
fn declare_test_function(bc: &mut BuildContext, ret: IrType, name: &str) -> usize {
    let f = bc.set_declare_function(name.to_string(), FunctionType { ret, params: Vec::new(), var_arg: false });
    bc.build_function(f);
    f
}

#[test]
fn i32_const_internal_works() {
    let expected: i32 = i32::MAX;
    match i32_const_internal(expected) {
        Constant::Int { ty, value, .. } => {
            assert_eq!(ty, IrType::Int32);
            assert_eq!(expected, value as i32);
        },
        other => panic!("{:?}", other),
    }
}

#[test]
fn i64_const_internal_works() {
    let expected = i64::MAX;
    match i64_const_internal(expected) {
        Constant::Int { ty, value, .. } => {
            assert_eq!(ty, IrType::Int64);
            assert_eq!(expected, value as i64);
        },
        other => panic!("{:?}", other),
    }
}

#[test]
fn f32_const_internal_works() {
    let expected = f32::MAX;
    match f32_const_internal(expected.to_bits()) {
        Constant::Real32 { bits } => assert_eq!(expected, f32::from_bits(bits)),
        other => panic!("{:?}", other),
    }
}

#[test]
fn f64_const_internal_works() {
    let expected = f64::MAX;
    match f64_const_internal(expected.to_bits()) {
        Constant::Real64 { bits } => assert_eq!(expected, f64::from_bits(bits)),
        other => panic!("{:?}", other),
    }
}

#[test]
fn globals_works() {
    let mut bc = BuildContext::new("globals_works");
    let global_name = get_global_name(0);
    let global = bc.set_declare_global(global_name, IrType::Int32);
    bc.set_initializer(global, const_int(IrType::Int32, 0, false));
    let expected = 22;
    let stack = build_test_instruction_function(&mut bc, IrType::Int32, "test_function", &[const_int(IrType::Int32, expected, false)], vec![]);
    let stack = set_global(&mut bc, 0, stack).unwrap();
    let stack = get_global(&mut bc, 0, stack).unwrap();
    let value = stack.values.last().unwrap().to_value(&mut bc);
    bc.emit(Op::Ret { value });
    let module = bc.move_module();
    let ret = Machine::new(&module).run("test_function");
    assert_eq!(expected, ret.to_int(false));
}

#[test]
fn get_local_works() {
    let mut bc = BuildContext::new("get_local_works");
    let expected = 22;
    let f = declare_test_function(&mut bc, IrType::Int32, "test_function");
    let local = bc.emit(Op::Const { value: const_int(IrType::Int32, expected as u64, false) });
    let stack: Stack<u32> = Stack::new(f, Vec::new(), Vec::new(), vec![new_test_frame(vec![LocalValue::from_value(local)])]);
    let stack = get_local(0, stack).unwrap();
    let _ = progress_instruction(&mut bc, Instruction::End, stack).unwrap();
    let module = bc.move_module();
    let ret = Machine::new(&module).run("test_function");
    assert_eq!(expected, ret.to_int(false));
}

#[test]
fn set_local_works() {
    let mut bc = BuildContext::new("set_local_works");
    let expected = 35;
    let f = declare_test_function(&mut bc, IrType::Int32, "test_function");
    let value = bc.emit(Op::Const { value: const_int(IrType::Int32, expected, false) });
    let local = bc.emit(Op::Const { value: const_int(IrType::Int32, 0, false) });
    let stack: Stack<u32> = Stack::new(f, Vec::new(), vec![WasmValue::new_value(value)], vec![new_test_frame(vec![LocalValue::from_value(local)])]);
    let stack = set_local(0, stack).unwrap();
    let stack = get_local(0, stack).unwrap();
    let _ = progress_instruction(&mut bc, Instruction::End, stack).unwrap();
    let module = bc.move_module();
    let ret = Machine::new(&module).run("test_function");
    assert_eq!(expected, ret.to_int(false));
}

#[test]
fn tee_local_works() {
    let mut bc = BuildContext::new("tee_local_works");
    let expected = 35;
    let f = declare_test_function(&mut bc, IrType::Int32, "test_function");
    let value = bc.emit(Op::Const { value: const_int(IrType::Int32, expected, false) });
    let local = bc.emit(Op::Const { value: const_int(IrType::Int32, 0, false) });
    let stack: Stack<u32> = Stack::new(f, Vec::new(), vec![WasmValue::new_value(value)], vec![new_test_frame(vec![LocalValue::from_value(local)])]);
    let stack = tee_local(0, stack).unwrap();
    let _ = progress_instruction(&mut bc, Instruction::End, stack).unwrap();
    let module = bc.move_module();
    let ret = Machine::new(&module).run("test_function");
    assert_eq!(expected, ret.to_int(false));
}

#[test]
fn store_and_load_works() {
    let mut bc = BuildContext::new("load_and_store_works");
    let expected = 3000;
    let (_ft, lt) = new_compilers();
    let init_memory_function_name = init_test_memory(&mut bc);
    let stack = build_test_instruction_function(&mut bc, IrType::Int32, "test_function", &[], vec![new_test_frame(Vec::new())]);
    let stack = progress_instruction(&mut bc, Instruction::I32Const(3000), stack).unwrap();
    let stack = progress_instruction(&mut bc, Instruction::I32Store(2, 500), stack).unwrap();
    let stack = progress_instruction(&mut bc, Instruction::I32Load(2, 500), stack).unwrap();
    let _ = progress_instruction(&mut bc, Instruction::End, stack).unwrap();
    let module = bc.move_module();
    let mut machine = Machine::new(&module);
    let ret = machine.run(&init_memory_function_name);
    assert_eq!(1, ret.to_int(false));
    let ret = machine.run("test_function");
    assert_eq!(expected, ret.to_int(false));
    let bytes = machine.memory_bytes(&lt.get_memory_name(0), 500, 2);
    assert_eq!(expected as u16, u16::from_le_bytes([bytes[0], bytes[1]]));
}

#[test]
fn current_memory_works() {
    let mut bc = BuildContext::new("current_memory_works");
    let (_ft, lt) = new_compilers();
    let expected = 17;
    lt.build_memory_functions(&mut bc, 0, &[ResizableLimits { initial: expected, maximum: None }]).unwrap();
    let stack = build_test_instruction_function(&mut bc, IrType::Int32, "test_function", &[], vec![new_test_frame(Vec::new())]);
    let stack = current_memory(&mut bc, 0, stack).unwrap();
    let _ = progress_instruction(&mut bc, Instruction::End, stack).unwrap();
    let init_memory_function_name = init_test_memory(&mut bc);
    let module = bc.move_module();
    let mut machine = Machine::new(&module);
    let ret = machine.run(&init_memory_function_name);
    assert_eq!(1, ret.to_int(false));
    let ret = machine.run("test_function");
    assert_eq!(expected as u64, ret.to_int(false));
    let memory_size = machine.global(&lt.get_memory_size_name(0)).to_int(false) as u32;
    assert_eq!(memory_size as u64, ret.to_int(false));
}

#[test]
fn grow_memory_works() {
    let mut bc = BuildContext::new("current_memory_works");
    let (_ft, lt) = new_compilers();
    let expected = 18;
    let expected_ret = 17;
    lt.build_memory_functions(&mut bc, 0, &[ResizableLimits { initial: expected_ret, maximum: None }]).unwrap();
    let stack = build_test_instruction_function(&mut bc, IrType::Int32, "test_function", &[const_int(IrType::Int32, 1, false)], vec![new_test_frame(Vec::new())]);
    let stack = grow_memory(&mut bc, 0, stack).unwrap();
    let _ = progress_instruction(&mut bc, Instruction::End, stack).unwrap();
    let init_memory_function_name = init_test_memory(&mut bc);
    let module = bc.move_module();
    let mut machine = Machine::new(&module);
    let ret = machine.run(&init_memory_function_name);
    assert_eq!(1, ret.to_int(false));
    let ret = machine.run("test_function");
    assert_eq!(expected_ret as u64, ret.to_int(false));
    let memory_size = machine.global(&lt.get_memory_size_name(0)).to_int(false) as u32;
    assert_eq!(expected, memory_size);
}

#[test]
fn grow_memory_not_works() {
    let mut bc = BuildContext::new("current_memory_works");
    let (_ft, lt) = new_compilers();
    let expected = 17;
    let expected_ret = -1_i32;
    lt.build_memory_functions(&mut bc, 0, &[ResizableLimits { initial: expected, maximum: Some(20) }]).unwrap();
    let stack = build_test_instruction_function(&mut bc, IrType::Int32, "test_function", &[const_int(IrType::Int32, 4, false)], vec![new_test_frame(Vec::new())]);
    let stack = grow_memory(&mut bc, 0, stack).unwrap();
    let _ = progress_instruction(&mut bc, Instruction::End, stack).unwrap();
    let init_memory_function_name = init_test_memory(&mut bc);
    let module = bc.move_module();
    let mut machine = Machine::new(&module);
    let ret = machine.run(&init_memory_function_name);
    assert_eq!(1, ret.to_int(false));
    let ret = machine.run("test_function");
    assert_eq!(expected_ret, ret.to_int(false) as i32);
    let memory_size = machine.global(&lt.get_memory_size_name(0)).to_int(false) as u32;
    assert_eq!(expected, memory_size);
}

#[test]
fn loop_return_i32() {
    let mut bc = BuildContext::new("loop_return_i32");
    let expected = 5;
    let init_memory_function_name = init_test_memory(&mut bc);
    let mut stack = build_test_instruction_function(&mut bc, IrType::Int32, "loop_return_i32", &[], vec![new_test_frame(Vec::new())]);
    for instruction in vec![
        Instruction::Block(BlockType::Value(ValueType::I32)),
        Instruction::I32Const(0),
        Instruction::I32Store(2, 500),
        Instruction::Loop(BlockType::Value(ValueType::I32)),
        Instruction::I32Load(2, 500),
        Instruction::I32Const(1),
        Instruction::I32Add,
        Instruction::I32Store(2, 500),
        Instruction::I32Load(2, 500),
        Instruction::I32Load(2, 500),
        Instruction::I32Const(4),
        Instruction::I32GtS,
        Instruction::BrIf(0),
        Instruction::I32Const(12),
        Instruction::Br(1),
        Instruction::End,
        Instruction::I32Const(2),
        Instruction::End,
        Instruction::End,
    ] {
        stack = progress_instruction(&mut bc, instruction, stack).unwrap();
    }
    let module = bc.move_module();
    let mut machine = Machine::new(&module);
    let ret = machine.run(&init_memory_function_name);
    assert_eq!(1, ret.to_int(false));
    let ret = machine.run("loop_return_i32");
    assert_eq!(expected, ret.to_int(false));
}

#[test]
fn clz_i32_works() {
    let ret = run_instructions(IrType::Int32, &[const_int(IrType::Int32, (2) as u64, false)], vec![Instruction::I32Clz, Instruction::End]);
    assert_eq!(30, ret.to_int(false) as u32);
}

#[test]
fn ctz_i32_works() {
    let ret = run_instructions(IrType::Int32, &[const_int(IrType::Int32, (2) as u64, false)], vec![Instruction::I32Ctz, Instruction::End]);
    assert_eq!(1, ret.to_int(false) as u32);
}

#[test]
fn clz_i64_works() {
    let ret = run_instructions(IrType::Int64, &[const_int(IrType::Int64, (2) as u64, false)], vec![Instruction::I64Clz, Instruction::End]);
    assert_eq!(62, ret.to_int(false) as u64);
}

#[test]
fn ctz_i64_works() {
    let ret = run_instructions(IrType::Int64, &[const_int(IrType::Int64, (2) as u64, false)], vec![Instruction::I64Ctz, Instruction::End]);
    assert_eq!(1, ret.to_int(false) as u64);
}

#[test]
fn popcnt_i32_works() {
    let ret = run_instructions(IrType::Int32, &[const_int(IrType::Int32, (0xFF_00_FF_00) as u64, false)], vec![Instruction::I32Popcnt, Instruction::End]);
    assert_eq!(16, ret.to_int(false) as u32);
}

#[test]
fn popcnt_i64_works() {
    let ret = run_instructions(IrType::Int64, &[const_int(IrType::Int64, (0xFF_00_FF_00_FF_00_FF_00) as u64, false)], vec![Instruction::I64Popcnt, Instruction::End]);
    assert_eq!(32, ret.to_int(false) as u64);
}

#[test]
fn abs_f32_negative_works() {
    let ret = run_instructions(IrType::Float32, &[const_real(IrType::Float32, (-3.5_f32) as f64)], vec![Instruction::F32Abs, Instruction::End]);
    assert_eq!(3.5, ret.to_float() as f32);
}

#[test]
fn abs_f32_positive_works() {
    let ret = run_instructions(IrType::Float32, &[const_real(IrType::Float32, (3.5_f32) as f64)], vec![Instruction::F32Abs, Instruction::End]);
    assert_eq!(3.5, ret.to_float() as f32);
}

#[test]
fn abs_f64_negative_works() {
    let ret = run_instructions(IrType::Float64, &[const_real(IrType::Float64, (-4.402823e+38_f64) as f64)], vec![Instruction::F64Abs, Instruction::End]);
    assert_eq!(4.402823e+38, ret.to_float() as f64);
}

#[test]
fn abs_f64_positive_works() {
    let ret = run_instructions(IrType::Float64, &[const_real(IrType::Float64, (4.402823e+38) as f64)], vec![Instruction::F64Abs, Instruction::End]);
    assert_eq!(4.402823e+38, ret.to_float() as f64);
}

#[test]
fn neg_f32_works() {
    let ret = run_instructions(IrType::Float32, &[const_real(IrType::Float32, (3.5) as f64)], vec![Instruction::F32Neg, Instruction::End]);
    assert_eq!(-3.5_f32, ret.to_float() as f32);
}

#[test]
fn neg_f64_works() {
    let ret = run_instructions(IrType::Float64, &[const_real(IrType::Float64, (4.402823e+38) as f64)], vec![Instruction::F64Neg, Instruction::End]);
    assert_eq!(-4.402823e+38_f64, ret.to_float() as f64);
}

#[test]
fn sqrt_f32_works() {
    let ret = run_instructions(IrType::Float32, &[const_real(IrType::Float32, (2.0) as f64)], vec![Instruction::F32Sqrt, Instruction::End]);
    assert_eq!(1.4142135, ret.to_float() as f32);
}

#[test]
fn sqrt_f64_works() {
    let ret = run_instructions(IrType::Float64, &[const_real(IrType::Float64, (2.0) as f64)], vec![Instruction::F64Sqrt, Instruction::End]);
    assert_eq!(1.4142135623730951, ret.to_float() as f64);
}

#[test]
fn ceil_f32_works() {
    let ret = run_instructions(IrType::Float32, &[const_real(IrType::Float32, (2.1) as f64)], vec![Instruction::F32Ceil, Instruction::End]);
    assert_eq!(3.0, ret.to_float() as f32);
}

#[test]
fn ceil_f64_works() {
    let ret = run_instructions(IrType::Float64, &[const_real(IrType::Float64, (2.1) as f64)], vec![Instruction::F64Ceil, Instruction::End]);
    assert_eq!(3.0, ret.to_float() as f64);
}

#[test]
fn floor_f32_works() {
    let ret = run_instructions(IrType::Float32, &[const_real(IrType::Float32, (2.9) as f64)], vec![Instruction::F32Floor, Instruction::End]);
    assert_eq!(2.0, ret.to_float() as f32);
}

#[test]
fn floor_f64_works() {
    let ret = run_instructions(IrType::Float64, &[const_real(IrType::Float64, (2.9) as f64)], vec![Instruction::F64Floor, Instruction::End]);
    assert_eq!(2.0, ret.to_float() as f64);
}

#[test]
fn floor_f32_negative_works() {
    let ret = run_instructions(IrType::Float32, &[const_real(IrType::Float32, (-0.9_f32) as f64)], vec![Instruction::F32Floor, Instruction::End]);
    assert_eq!(-1.0_f32, ret.to_float() as f32);
}

#[test]
fn floor_f64_negative_works() {
    let ret = run_instructions(IrType::Float64, &[const_real(IrType::Float64, (-0.9_f64) as f64)], vec![Instruction::F64Floor, Instruction::End]);
    assert_eq!(-1.0_f64, ret.to_float() as f64);
}

#[test]
fn trunc_f32_works() {
    let ret = run_instructions(IrType::Float32, &[const_real(IrType::Float32, (2.9) as f64)], vec![Instruction::F32Trunc, Instruction::End]);
    assert_eq!(2.0, ret.to_float() as f32);
}

#[test]
fn trunc_f64_works() {
    let ret = run_instructions(IrType::Float64, &[const_real(IrType::Float64, (2.9) as f64)], vec![Instruction::F64Trunc, Instruction::End]);
    assert_eq!(2.0, ret.to_float() as f64);
}

#[test]
fn trunc_f32_negative_works() {
    let ret = run_instructions(IrType::Float32, &[const_real(IrType::Float32, (-2.9_f32) as f64)], vec![Instruction::F32Trunc, Instruction::End]);
    assert_eq!(-2.0_f32, ret.to_float() as f32);
}

#[test]
fn trunc_f64_negative_works() {
    let ret = run_instructions(IrType::Float64, &[const_real(IrType::Float64, (-2.9_f64) as f64)], vec![Instruction::F64Trunc, Instruction::End]);
    assert_eq!(-2.0_f64, ret.to_float() as f64);
}

#[test]
fn nearest_f32_works() {
    let ret = run_instructions(IrType::Float32, &[const_real(IrType::Float32, (2.5_f32) as f64)], vec![Instruction::F32Nearest, Instruction::End]);
    assert_eq!(2.0_f32, ret.to_float() as f32);
}

#[test]
fn nearest_f64_works() {
    let ret = run_instructions(IrType::Float64, &[const_real(IrType::Float64, (2.5_f64) as f64)], vec![Instruction::F64Nearest, Instruction::End]);
    assert_eq!(2.0_f64, ret.to_float() as f64);
}

#[test]
fn nearest_f32_odd_works() {
    let ret = run_instructions(IrType::Float32, &[const_real(IrType::Float32, (3.5_f32) as f64)], vec![Instruction::F32Nearest, Instruction::End]);
    assert_eq!(4.0_f32, ret.to_float() as f32);
}

#[test]
fn nearest_f64_odd_works() {
    let ret = run_instructions(IrType::Float64, &[const_real(IrType::Float64, (3.5_f64) as f64)], vec![Instruction::F64Nearest, Instruction::End]);
    assert_eq!(4.0_f64, ret.to_float() as f64);
}

#[test]
fn add_i32_works() {
    let ret = run_instructions(IrType::Int32, &[const_int(IrType::Int32, (2) as u64, false), const_int(IrType::Int32, (3) as u64, false)], vec![Instruction::I32Add, Instruction::End]);
    assert_eq!(5, ret.to_int(false) as u32);
}

#[test]
fn add_i64_works() {
    let ret = run_instructions(IrType::Int64, &[const_int(IrType::Int64, (2) as u64, false), const_int(IrType::Int64, (3) as u64, false)], vec![Instruction::I64Add, Instruction::End]);
    assert_eq!(5, ret.to_int(false));
}

#[test]
fn add_f32_works() {
    let ret = run_instructions(IrType::Float32, &[const_real(IrType::Float32, (2.25) as f64), const_real(IrType::Float32, (3.25) as f64)], vec![Instruction::F32Add, Instruction::End]);
    assert_eq!(5.5, ret.to_float() as f32);
}

#[test]
fn add_f64_works() {
    let ret = run_instructions(IrType::Float64, &[const_real(IrType::Float64, (2.25) as f64), const_real(IrType::Float64, (3.25) as f64)], vec![Instruction::F64Add, Instruction::End]);
    assert_eq!(5.5, ret.to_float());
}

#[test]
fn mul_i32_works() {
    let ret = run_instructions(IrType::Int32, &[const_int(IrType::Int32, (2) as u64, false), const_int(IrType::Int32, (3) as u64, false)], vec![Instruction::I32Mul, Instruction::End]);
    assert_eq!(6, ret.to_int(false) as u32);
}

#[test]
fn mul_i64_works() {
    let ret = run_instructions(IrType::Int64, &[const_int(IrType::Int64, (2) as u64, false), const_int(IrType::Int64, (3) as u64, false)], vec![Instruction::I64Mul, Instruction::End]);
    assert_eq!(6, ret.to_int(false));
}

#[test]
fn mul_f32_works() {
    let ret = run_instructions(IrType::Float32, &[const_real(IrType::Float32, (2.0) as f64), const_real(IrType::Float32, (3.5) as f64)], vec![Instruction::F32Mul, Instruction::End]);
    assert_eq!(7.0, ret.to_float() as f32);
}

#[test]
fn mul_f64_works() {
    let ret = run_instructions(IrType::Float64, &[const_real(IrType::Float64, (2.0) as f64), const_real(IrType::Float64, (3.5) as f64)], vec![Instruction::F64Mul, Instruction::End]);
    assert_eq!(7.0, ret.to_float());
}

#[test]
fn sub_i32_works() {
    let ret = run_instructions(IrType::Int32, &[const_int(IrType::Int32, (2) as u64, true), const_int(IrType::Int32, (3) as u64, true)], vec![Instruction::I32Sub, Instruction::End]);
    assert_eq!(-1_i32, ret.to_int(true) as i32);
}

#[test]
fn sub_i64_works() {
    let ret = run_instructions(IrType::Int64, &[const_int(IrType::Int64, (2) as u64, true), const_int(IrType::Int64, (3) as u64, true)], vec![Instruction::I64Sub, Instruction::End]);
    assert_eq!(-1_i64, ret.to_int(true) as i64);
}

#[test]
fn sub_f32_works() {
    let ret = run_instructions(IrType::Float32, &[const_real(IrType::Float32, (2.0) as f64), const_real(IrType::Float32, (3.5) as f64)], vec![Instruction::F32Sub, Instruction::End]);
    assert_eq!(-1.5_f32, ret.to_float() as f32);
}

#[test]
fn sub_f64_works() {
    let ret = run_instructions(IrType::Float64, &[const_real(IrType::Float64, (2.0) as f64), const_real(IrType::Float64, (3.5) as f64)], vec![Instruction::F64Sub, Instruction::End]);
    assert_eq!(-1.5_f64, ret.to_float());
}

#[test]
fn div_u32_works() {
    let ret = run_instructions(IrType::Int32, &[const_int(IrType::Int32, (6) as u64, false), const_int(IrType::Int32, (3) as u64, false)], vec![Instruction::I32DivU, Instruction::End]);
    assert_eq!(2, ret.to_int(false) as u32);
}

#[test]
fn div_u64_works() {
    let ret = run_instructions(IrType::Int64, &[const_int(IrType::Int64, (4) as u64, false), const_int(IrType::Int64, (2) as u64, false)], vec![Instruction::I64DivU, Instruction::End]);
    assert_eq!(2, ret.to_int(false));
}

#[test]
fn div_s32_works() {
    let ret = run_instructions(IrType::Int32, &[const_int(IrType::Int32, (-4_i32) as u64, true), const_int(IrType::Int32, (2) as u64, true)], vec![Instruction::I32DivS, Instruction::End]);
    assert_eq!(-2_i32, ret.to_int(true) as i32);
}

#[test]
fn div_s64_works() {
    let ret = run_instructions(IrType::Int64, &[const_int(IrType::Int64, (-4_i64) as u64, true), const_int(IrType::Int64, (2) as u64, true)], vec![Instruction::I64DivS, Instruction::End]);
    assert_eq!(-2_i64, ret.to_int(true) as i64);
}

#[test]
fn div_f32_works() {
    let ret = run_instructions(IrType::Float32, &[const_real(IrType::Float32, (7.0) as f64), const_real(IrType::Float32, (3.5) as f64)], vec![Instruction::F32Div, Instruction::End]);
    assert_eq!(2.0, ret.to_float() as f32);
}

#[test]
fn div_f64_works() {
    let ret = run_instructions(IrType::Float64, &[const_real(IrType::Float64, (7.0) as f64), const_real(IrType::Float64, (3.5) as f64)], vec![Instruction::F64Div, Instruction::End]);
    assert_eq!(2.0, ret.to_float());
}

#[test]
fn min_float32_right_works() {
    let ret = run_instructions(IrType::Float32, &[const_real(IrType::Float32, (3.0) as f64), const_real(IrType::Float32, (2.0) as f64)], vec![Instruction::F32Min, Instruction::End]);
    assert_eq!(2.0, ret.to_float() as f32);
}

#[test]
fn min_float32_left_works() {
    let ret = run_instructions(IrType::Float32, &[const_real(IrType::Float32, (2.0) as f64), const_real(IrType::Float32, (3.0) as f64)], vec![Instruction::F32Min, Instruction::End]);
    assert_eq!(2.0, ret.to_float() as f32);
}

#[test]
fn min_float64_right_works() {
    let ret = run_instructions(IrType::Float64, &[const_real(IrType::Float64, (3.0) as f64), const_real(IrType::Float64, (2.0) as f64)], vec![Instruction::F64Min, Instruction::End]);
    assert_eq!(2.0, ret.to_float());
}

#[test]
fn min_float64_left_works() {
    let ret = run_instructions(IrType::Float64, &[const_real(IrType::Float64, (2.0) as f64), const_real(IrType::Float64, (3.0) as f64)], vec![Instruction::F64Min, Instruction::End]);
    assert_eq!(2.0, ret.to_float());
}

#[test]
fn max_float32_right_works() {
    let ret = run_instructions(IrType::Float32, &[const_real(IrType::Float32, (2.0) as f64), const_real(IrType::Float32, (3.0) as f64)], vec![Instruction::F32Max, Instruction::End]);
    assert_eq!(3.0, ret.to_float() as f32);
}

#[test]
fn max_float32_left_works() {
    let ret = run_instructions(IrType::Float32, &[const_real(IrType::Float32, (3.0) as f64), const_real(IrType::Float32, (2.0) as f64)], vec![Instruction::F32Max, Instruction::End]);
    assert_eq!(3.0, ret.to_float() as f32);
}

#[test]
fn max_float64_right_works() {
    let ret = run_instructions(IrType::Float64, &[const_real(IrType::Float64, (2.0) as f64), const_real(IrType::Float64, (3.0) as f64)], vec![Instruction::F64Max, Instruction::End]);
    assert_eq!(3.0, ret.to_float());
}

#[test]
fn max_float64_left_works() {
    let ret = run_instructions(IrType::Float64, &[const_real(IrType::Float64, (3.0) as f64), const_real(IrType::Float64, (2.0) as f64)], vec![Instruction::F64Max, Instruction::End]);
    assert_eq!(3.0, ret.to_float());
}

#[test]
fn copysign_float32_copy_works() {
    let ret = run_instructions(IrType::Float32, &[const_real(IrType::Float32, (2.0) as f64), const_real(IrType::Float32, (-1.0_f32) as f64)], vec![Instruction::F32Copysign, Instruction::End]);
    assert_eq!(-2.0_f32, ret.to_float() as f32);
}

#[test]
fn copysign_float32_not_copy_works() {
    let ret = run_instructions(IrType::Float32, &[const_real(IrType::Float32, (2.0) as f64), const_real(IrType::Float32, (1.0) as f64)], vec![Instruction::F32Copysign, Instruction::End]);
    assert_eq!(2.0, ret.to_float() as f32);
}

#[test]
fn copysign_float64_copy_works() {
    let ret = run_instructions(IrType::Float64, &[const_real(IrType::Float64, (2.0) as f64), const_real(IrType::Float64, (-1.0_f64) as f64)], vec![Instruction::F64Copysign, Instruction::End]);
    assert_eq!(-2.0_f64, ret.to_float());
}

#[test]
fn copysign_float64_not_copy_works() {
    let ret = run_instructions(IrType::Float64, &[const_real(IrType::Float64, (2.0) as f64), const_real(IrType::Float64, (1.0) as f64)], vec![Instruction::F64Copysign, Instruction::End]);
    assert_eq!(2.0, ret.to_float());
}

#[test]
fn rem_sint32_1_works() {
    let ret = run_instructions(IrType::Int32, &[const_int(IrType::Int32, (9) as u64, true), const_int(IrType::Int32, (3) as u64, true)], vec![Instruction::I32RemS, Instruction::End]);
    assert_eq!(0, ret.to_int(true) as i32);
}

#[test]
fn rem_sint32_2_works() {
    let ret = run_instructions(IrType::Int32, &[const_int(IrType::Int32, (4) as u64, true), const_int(IrType::Int32, (3) as u64, true)], vec![Instruction::I32RemS, Instruction::End]);
    assert_eq!(1, ret.to_int(true) as i32);
}

#[test]
fn rem_sint32_3_works() {
    let ret = run_instructions(IrType::Int32, &[const_int(IrType::Int32, (-1_i32) as u64, true), const_int(IrType::Int32, (3) as u64, true)], vec![Instruction::I32RemS, Instruction::End]);
    assert_eq!(-1_i32, ret.to_int(true) as i32);
}

#[test]
fn rem_uint32_1_works() {
    let ret = run_instructions(IrType::Int32, &[const_int(IrType::Int32, (9) as u64, false), const_int(IrType::Int32, (3) as u64, false)], vec![Instruction::I32RemU, Instruction::End]);
    assert_eq!(0, ret.to_int(false) as u32);
}

#[test]
fn rem_uint32_2_works() {
    let ret = run_instructions(IrType::Int32, &[const_int(IrType::Int32, (4) as u64, false), const_int(IrType::Int32, (3) as u64, false)], vec![Instruction::I32RemU, Instruction::End]);
    assert_eq!(1, ret.to_int(false) as u32);
}

#[test]
fn rem_uint32_3_works() {
    let ret = run_instructions(IrType::Int32, &[const_int(IrType::Int32, (-1_i32 as u32) as u64, false), const_int(IrType::Int32, (3) as u64, false)], vec![Instruction::I32RemU, Instruction::End]);
    assert_eq!(0, ret.to_int(false) as u32);
}

#[test]
fn rem_sint64_1_works() {
    let ret = run_instructions(IrType::Int64, &[const_int(IrType::Int64, (9) as u64, true), const_int(IrType::Int64, (3) as u64, true)], vec![Instruction::I64RemS, Instruction::End]);
    assert_eq!(0, ret.to_int(true) as i64);
}

#[test]
fn rem_sint64_2_works() {
    let ret = run_instructions(IrType::Int64, &[const_int(IrType::Int64, (4) as u64, true), const_int(IrType::Int64, (3) as u64, true)], vec![Instruction::I64RemS, Instruction::End]);
    assert_eq!(1, ret.to_int(true) as i64);
}

#[test]
fn rem_sint64_3_works() {
    let ret = run_instructions(IrType::Int64, &[const_int(IrType::Int64, (-1_i64) as u64, true), const_int(IrType::Int64, (3) as u64, true)], vec![Instruction::I64RemS, Instruction::End]);
    assert_eq!(-1_i64, ret.to_int(true) as i64);
}

#[test]
fn rem_uint64_1_works() {
    let ret = run_instructions(IrType::Int64, &[const_int(IrType::Int64, (9) as u64, false), const_int(IrType::Int64, (3) as u64, false)], vec![Instruction::I64RemU, Instruction::End]);
    assert_eq!(0, ret.to_int(false));
}

#[test]
fn rem_uint64_2_works() {
    let ret = run_instructions(IrType::Int64, &[const_int(IrType::Int64, (4) as u64, false), const_int(IrType::Int64, (3) as u64, false)], vec![Instruction::I64RemU, Instruction::End]);
    assert_eq!(1, ret.to_int(false));
}

#[test]
fn rem_uint64_3_works() {
    let ret = run_instructions(IrType::Int64, &[const_int(IrType::Int64, (-1_i64 as u64) as u64, false), const_int(IrType::Int64, (3) as u64, false)], vec![Instruction::I64RemU, Instruction::End]);
    assert_eq!(0, ret.to_int(false));
}

#[test]
fn and32_works() {
    let ret = run_instructions(IrType::Int32, &[const_int(IrType::Int32, (-1_i32 as u32) as u64, false), const_int(IrType::Int32, (3) as u64, false)], vec![Instruction::I32And, Instruction::End]);
    assert_eq!(3, ret.to_int(false) as u32);
}

#[test]
fn and64_works() {
    let ret = run_instructions(IrType::Int64, &[const_int(IrType::Int64, (-1_i64 as u64) as u64, false), const_int(IrType::Int64, (3) as u64, false)], vec![Instruction::I64And, Instruction::End]);
    assert_eq!(3, ret.to_int(false));
}

#[test]
fn or32_works() {
    let ret = run_instructions(IrType::Int32, &[const_int(IrType::Int32, (-1_i32 as u32) as u64, false), const_int(IrType::Int32, (3) as u64, false)], vec![Instruction::I32Or, Instruction::End]);
    assert_eq!(-1_i32 as u32, ret.to_int(false) as u32);
}

#[test]
fn or64_works() {
    let ret = run_instructions(IrType::Int64, &[const_int(IrType::Int64, (-1_i64 as u64) as u64, false), const_int(IrType::Int64, (3) as u64, false)], vec![Instruction::I64Or, Instruction::End]);
    assert_eq!(-1_i64 as u64, ret.to_int(false));
}

#[test]
fn xor32_works() {
    let ret = run_instructions(IrType::Int32, &[const_int(IrType::Int32, (-1_i32 as u32) as u64, false), const_int(IrType::Int32, (3) as u64, false)], vec![Instruction::I32Xor, Instruction::End]);
    assert_eq!(-4_i32 as u32, ret.to_int(false) as u32);
}

#[test]
fn xor64_works() {
    let ret = run_instructions(IrType::Int64, &[const_int(IrType::Int64, (-1_i64 as u64) as u64, false), const_int(IrType::Int64, (3) as u64, false)], vec![Instruction::I64Xor, Instruction::End]);
    assert_eq!(-4_i64 as u64, ret.to_int(false));
}

#[test]
fn shl32_works() {
    let ret = run_instructions(IrType::Int32, &[const_int(IrType::Int32, (3) as u64, false), const_int(IrType::Int32, (3) as u64, false)], vec![Instruction::I32Shl, Instruction::End]);
    assert_eq!(24, ret.to_int(false) as u32);
}

#[test]
fn shl64_works() {
    let ret = run_instructions(IrType::Int64, &[const_int(IrType::Int64, (3) as u64, false), const_int(IrType::Int64, (3) as u64, false)], vec![Instruction::I64Shl, Instruction::End]);
    assert_eq!(24, ret.to_int(false));
}

#[test]
fn shr_s32_works() {
    let ret = run_instructions(IrType::Int32, &[const_int(IrType::Int32, (24) as u64, true), const_int(IrType::Int32, (2) as u64, true)], vec![Instruction::I32ShrS, Instruction::End]);
    assert_eq!(6, ret.to_int(true) as i32);
}

#[test]
fn shr_s32_sign_works() {
    let ret = run_instructions(IrType::Int32, &[const_int(IrType::Int32, (-24_i32) as u64, true), const_int(IrType::Int32, (2) as u64, true)], vec![Instruction::I32ShrS, Instruction::End]);
    assert_eq!(-6_i32, ret.to_int(true) as i32);
}

#[test]
fn shr_s64_works() {
    let ret = run_instructions(IrType::Int64, &[const_int(IrType::Int64, (24) as u64, true), const_int(IrType::Int64, (2) as u64, true)], vec![Instruction::I64ShrS, Instruction::End]);
    assert_eq!(6, ret.to_int(true) as i64);
}

#[test]
fn shr_s64_sign_works() {
    let ret = run_instructions(IrType::Int64, &[const_int(IrType::Int64, (-24_i64) as u64, true), const_int(IrType::Int64, (2) as u64, true)], vec![Instruction::I64ShrS, Instruction::End]);
    assert_eq!(-6_i64, ret.to_int(true) as i64);
}

#[test]
fn shr_u32_works() {
    let ret = run_instructions(IrType::Int32, &[const_int(IrType::Int32, (24) as u64, false), const_int(IrType::Int32, (2) as u64, false)], vec![Instruction::I32ShrU, Instruction::End]);
    assert_eq!(6, ret.to_int(false) as u32);
}

#[test]
fn shr_u32_unsigned_works() {
    let ret = run_instructions(IrType::Int32, &[const_int(IrType::Int32, (-1_i32 as u32) as u64, false), const_int(IrType::Int32, (2) as u64, false)], vec![Instruction::I32ShrU, Instruction::End]);
    assert_eq!(1073741823, ret.to_int(false) as u32);
}

#[test]
fn shr_u64_works() {
    let ret = run_instructions(IrType::Int64, &[const_int(IrType::Int64, (24) as u64, false), const_int(IrType::Int64, (2) as u64, false)], vec![Instruction::I64ShrU, Instruction::End]);
    assert_eq!(6, ret.to_int(false));
}

#[test]
fn shr_u64_unsigned_works() {
    let ret = run_instructions(IrType::Int64, &[const_int(IrType::Int64, (-1_i64 as u64) as u64, false), const_int(IrType::Int64, (2) as u64, false)], vec![Instruction::I64ShrU, Instruction::End]);
    assert_eq!(4611686018427387903, ret.to_int(false));
}

#[test]
fn rotl_u32_works() {
    let ret = run_instructions(IrType::Int32, &[const_int(IrType::Int32, (4294967295) as u64, false), const_int(IrType::Int32, (5) as u64, false)], vec![Instruction::I32Rotl, Instruction::End]);
    assert_eq!(4294967295, ret.to_int(false) as u32);
}

#[test]
fn rotl_u32_max_works() {
    let ret = run_instructions(IrType::Int32, &[const_int(IrType::Int32, (0x80_00_00_00) as u64, false), const_int(IrType::Int32, (1) as u64, false)], vec![Instruction::I32Rotl, Instruction::End]);
    assert_eq!(1, ret.to_int(false) as u32);
}

#[test]
fn rotr_u32_works() {
    let ret = run_instructions(IrType::Int32, &[const_int(IrType::Int32, (4294967295) as u64, false), const_int(IrType::Int32, (5) as u64, false)], vec![Instruction::I32Rotr, Instruction::End]);
    assert_eq!(4294967295, ret.to_int(false) as u32);
}

#[test]
fn rotr_u32_max_works() {
    let ret = run_instructions(IrType::Int32, &[const_int(IrType::Int32, (1) as u64, false), const_int(IrType::Int32, (1) as u64, false)], vec![Instruction::I32Rotr, Instruction::End]);
    assert_eq!(0x80_00_00_00, ret.to_int(false) as u32);
}

#[test]
fn rotl_u64_works() {
    let ret = run_instructions(IrType::Int64, &[const_int(IrType::Int64, (0xFFFFFFFF_FFFFFFFF) as u64, false), const_int(IrType::Int64, (5) as u64, false)], vec![Instruction::I64Rotl, Instruction::End]);
    assert_eq!(0xFFFFFFFF_FFFFFFFF, ret.to_int(false));
}

#[test]
fn rotl_u64_max_works() {
    let ret = run_instructions(IrType::Int64, &[const_int(IrType::Int64, (0x80000000_00000000) as u64, false), const_int(IrType::Int64, (1) as u64, false)], vec![Instruction::I64Rotl, Instruction::End]);
    assert_eq!(1, ret.to_int(false));
}

#[test]
fn rotr_u64_works() {
    let ret = run_instructions(IrType::Int64, &[const_int(IrType::Int64, (0xFFFFFFFF_FFFFFFFF) as u64, false), const_int(IrType::Int64, (5) as u64, false)], vec![Instruction::I64Rotr, Instruction::End]);
    assert_eq!(0xFFFFFFFF_FFFFFFFF, ret.to_int(false));
}

#[test]
fn rotr_u64_max_works() {
    let ret = run_instructions(IrType::Int64, &[const_int(IrType::Int64, (1) as u64, false), const_int(IrType::Int64, (1) as u64, false)], vec![Instruction::I64Rotr, Instruction::End]);
    assert_eq!(0x80000000_00000000, ret.to_int(false));
}

#[test]
fn eq_i32_true_works() {
    let ret = run_instructions(IrType::Int32, &[const_int(IrType::Int32, (2) as u64, false), const_int(IrType::Int32, (2) as u64, false)], vec![Instruction::I32Eq, Instruction::End]);
    assert_eq!(1, ret.to_int(false) as u32);
}

#[test]
fn eq_i32_false_works() {
    let ret = run_instructions(IrType::Int32, &[const_int(IrType::Int32, (3) as u64, false), const_int(IrType::Int32, (2) as u64, false)], vec![Instruction::I32Eq, Instruction::End]);
    assert_eq!(0, ret.to_int(false) as u32);
}

#[test]
fn eq_i64_true_works() {
    let ret = run_instructions(IrType::Int32, &[const_int(IrType::Int64, (2) as u64, false), const_int(IrType::Int64, (2) as u64, false)], vec![Instruction::I64Eq, Instruction::End]);
    assert_eq!(1, ret.to_int(false) as u32);
}

#[test]
fn eq_i64_false_works() {
    let ret = run_instructions(IrType::Int32, &[const_int(IrType::Int64, (3) as u64, false), const_int(IrType::Int64, (2) as u64, false)], vec![Instruction::I64Eq, Instruction::End]);
    assert_eq!(0, ret.to_int(false) as u32);
}

#[test]
fn eq_f32_true_works() {
    let ret = run_instructions(IrType::Int32, &[const_real(IrType::Float32, (2.0) as f64), const_real(IrType::Float32, (2.0) as f64)], vec![Instruction::F32Eq, Instruction::End]);
    assert_eq!(1, ret.to_int(false) as u32);
}

#[test]
fn eq_f32_false_works() {
    let ret = run_instructions(IrType::Int32, &[const_real(IrType::Float32, (3.0) as f64), const_real(IrType::Float32, (2.0) as f64)], vec![Instruction::F32Eq, Instruction::End]);
    assert_eq!(0, ret.to_int(false) as u32);
}

#[test]
fn eq_f64_true_works() {
    let ret = run_instructions(IrType::Int32, &[const_real(IrType::Float64, (2.0) as f64), const_real(IrType::Float64, (2.0) as f64)], vec![Instruction::F64Eq, Instruction::End]);
    assert_eq!(1, ret.to_int(false) as u32);
}

#[test]
fn eq_f64_false_works() {
    let ret = run_instructions(IrType::Int32, &[const_real(IrType::Float64, (3.0) as f64), const_real(IrType::Float64, (2.0) as f64)], vec![Instruction::F64Eq, Instruction::End]);
    assert_eq!(0, ret.to_int(false) as u32);
}

#[test]
fn ne_i32_true_works() {
    let ret = run_instructions(IrType::Int32, &[const_int(IrType::Int32, (3) as u64, false), const_int(IrType::Int32, (2) as u64, false)], vec![Instruction::I32Ne, Instruction::End]);
    assert_eq!(1, ret.to_int(false) as u32);
}

#[test]
fn ne_i32_false_works() {
    let ret = run_instructions(IrType::Int32, &[const_int(IrType::Int32, (2) as u64, false), const_int(IrType::Int32, (2) as u64, false)], vec![Instruction::I32Ne, Instruction::End]);
    assert_eq!(0, ret.to_int(false) as u32);
}

#[test]
fn ne_i64_true_works() {
    let ret = run_instructions(IrType::Int32, &[const_int(IrType::Int64, (3) as u64, false), const_int(IrType::Int64, (2) as u64, false)], vec![Instruction::I64Ne, Instruction::End]);
    assert_eq!(1, ret.to_int(false) as u32);
}

#[test]
fn ne_i64_false_works() {
    let ret = run_instructions(IrType::Int32, &[const_int(IrType::Int64, (2) as u64, false), const_int(IrType::Int64, (2) as u64, false)], vec![Instruction::I64Ne, Instruction::End]);
    assert_eq!(0, ret.to_int(false) as u32);
}

#[test]
fn ne_f32_true_works() {
    let ret = run_instructions(IrType::Int32, &[const_real(IrType::Float32, (3.0) as f64), const_real(IrType::Float32, (2.0) as f64)], vec![Instruction::F32Ne, Instruction::End]);
    assert_eq!(1, ret.to_int(false) as u32);
}

#[test]
fn ne_f32_false_works() {
    let ret = run_instructions(IrType::Int32, &[const_real(IrType::Float32, (2.0) as f64), const_real(IrType::Float32, (2.0) as f64)], vec![Instruction::F32Ne, Instruction::End]);
    assert_eq!(0, ret.to_int(false) as u32);
}

#[test]
fn ne_f64_true_works() {
    let ret = run_instructions(IrType::Int32, &[const_real(IrType::Float64, (3.0) as f64), const_real(IrType::Float64, (2.0) as f64)], vec![Instruction::F64Ne, Instruction::End]);
    assert_eq!(1, ret.to_int(false) as u32);
}

#[test]
fn ne_f64_false_works() {
    let ret = run_instructions(IrType::Int32, &[const_real(IrType::Float64, (2.0) as f64), const_real(IrType::Float64, (2.0) as f64)], vec![Instruction::F64Ne, Instruction::End]);
    assert_eq!(0, ret.to_int(false) as u32);
}

#[test]
fn lt_s32_true_works() {
    let ret = run_instructions(IrType::Int32, &[const_int(IrType::Int32, (-1_i32) as u64, true), const_int(IrType::Int32, (2) as u64, true)], vec![Instruction::I32LtS, Instruction::End]);
    assert_eq!(1, ret.to_int(false) as u32);
}

#[test]
fn lt_s32_eq_works() {
    let ret = run_instructions(IrType::Int32, &[const_int(IrType::Int32, (2) as u64, true), const_int(IrType::Int32, (2) as u64, true)], vec![Instruction::I32LtS, Instruction::End]);
    assert_eq!(0, ret.to_int(false) as u32);
}

#[test]
fn lt_s32_gt_works() {
    let ret = run_instructions(IrType::Int32, &[const_int(IrType::Int32, (3) as u64, true), const_int(IrType::Int32, (2) as u64, true)], vec![Instruction::I32LtS, Instruction::End]);
    assert_eq!(0, ret.to_int(false) as u32);
}

#[test]
fn lt_u32_true_works() {
    let ret = run_instructions(IrType::Int32, &[const_int(IrType::Int32, (1) as u64, false), const_int(IrType::Int32, (2) as u64, false)], vec![Instruction::I32LtU, Instruction::End]);
    assert_eq!(1, ret.to_int(false) as u32);
}

#[test]
fn lt_u32_eq_works() {
    let ret = run_instructions(IrType::Int32, &[const_int(IrType::Int32, (2) as u64, false), const_int(IrType::Int32, (2) as u64, false)], vec![Instruction::I32LtU, Instruction::End]);
    assert_eq!(0, ret.to_int(false) as u32);
}

#[test]
fn lt_u32_gt_works() {
    let ret = run_instructions(IrType::Int32, &[const_int(IrType::Int32, (-1_i32 as u32) as u64, false), const_int(IrType::Int32, (2) as u64, false)], vec![Instruction::I32LtU, Instruction::End]);
    assert_eq!(0, ret.to_int(false) as u32);
}

#[test]
fn lt_s64_true_works() {
    let ret = run_instructions(IrType::Int32, &[const_int(IrType::Int64, (-1_i64) as u64, true), const_int(IrType::Int64, (2) as u64, true)], vec![Instruction::I64LtS, Instruction::End]);
    assert_eq!(1, ret.to_int(false) as u32);
}

#[test]
fn lt_s64_eq_works() {
    let ret = run_instructions(IrType::Int32, &[const_int(IrType::Int64, (2) as u64, true), const_int(IrType::Int64, (2) as u64, true)], vec![Instruction::I64LtS, Instruction::End]);
    assert_eq!(0, ret.to_int(false) as u32);
}

#[test]
fn lt_s64_gt_works() {
    let ret = run_instructions(IrType::Int32, &[const_int(IrType::Int64, (3) as u64, true), const_int(IrType::Int64, (2) as u64, true)], vec![Instruction::I64LtS, Instruction::End]);
    assert_eq!(0, ret.to_int(false) as u32);
}

#[test]
fn lt_u64_true_works() {
    let ret = run_instructions(IrType::Int32, &[const_int(IrType::Int64, (1) as u64, false), const_int(IrType::Int64, (2) as u64, false)], vec![Instruction::I64LtU, Instruction::End]);
    assert_eq!(1, ret.to_int(false) as u32);
}

#[test]
fn lt_u64_eq_works() {
    let ret = run_instructions(IrType::Int32, &[const_int(IrType::Int64, (2) as u64, false), const_int(IrType::Int64, (2) as u64, false)], vec![Instruction::I64LtU, Instruction::End]);
    assert_eq!(0, ret.to_int(false) as u32);
}

#[test]
fn lt_u64_gt_works() {
    let ret = run_instructions(IrType::Int32, &[const_int(IrType::Int64, (-1_i64 as u64) as u64, false), const_int(IrType::Int64, (2) as u64, false)], vec![Instruction::I64LtU, Instruction::End]);
    assert_eq!(0, ret.to_int(false) as u32);
}

#[test]
fn lt_f32_true_works() {
    let ret = run_instructions(IrType::Int32, &[const_real(IrType::Float32, (1.0) as f64), const_real(IrType::Float32, (2.0) as f64)], vec![Instruction::F32Lt, Instruction::End]);
    assert_eq!(1, ret.to_int(false) as u32);
}

#[test]
fn lt_f32_eq_works() {
    let ret = run_instructions(IrType::Int32, &[const_real(IrType::Float32, (2.0) as f64), const_real(IrType::Float32, (2.0) as f64)], vec![Instruction::F32Lt, Instruction::End]);
    assert_eq!(0, ret.to_int(false) as u32);
}

#[test]
fn lt_f32_gt_works() {
    let ret = run_instructions(IrType::Int32, &[const_real(IrType::Float32, (3.0) as f64), const_real(IrType::Float32, (2.0) as f64)], vec![Instruction::F32Lt, Instruction::End]);
    assert_eq!(0, ret.to_int(false) as u32);
}

#[test]
fn lt_f64_true_works() {
    let ret = run_instructions(IrType::Int32, &[const_real(IrType::Float64, (1.0) as f64), const_real(IrType::Float64, (2.0) as f64)], vec![Instruction::F64Lt, Instruction::End]);
    assert_eq!(1, ret.to_int(false) as u32);
}

#[test]
fn lt_f64_eq_works() {
    let ret = run_instructions(IrType::Int32, &[const_real(IrType::Float64, (2.0) as f64), const_real(IrType::Float64, (2.0) as f64)], vec![Instruction::F64Lt, Instruction::End]);
    assert_eq!(0, ret.to_int(false) as u32);
}

#[test]
fn lt_f64_gt_works() {
    let ret = run_instructions(IrType::Int32, &[const_real(IrType::Float64, (3.0) as f64), const_real(IrType::Float64, (2.0) as f64)], vec![Instruction::F64Lt, Instruction::End]);
    assert_eq!(0, ret.to_int(false) as u32);
}

#[test]
fn le_s32_true_works() {
    let ret = run_instructions(IrType::Int32, &[const_int(IrType::Int32, (-1_i32) as u64, true), const_int(IrType::Int32, (2) as u64, true)], vec![Instruction::I32LeS, Instruction::End]);
    assert_eq!(1, ret.to_int(false) as u32);
}

#[test]
fn le_s32_eq_works() {
    let ret = run_instructions(IrType::Int32, &[const_int(IrType::Int32, (2) as u64, true), const_int(IrType::Int32, (2) as u64, true)], vec![Instruction::I32LeS, Instruction::End]);
    assert_eq!(1, ret.to_int(false) as u32);
}

#[test]
fn le_s32_gt_works() {
    let ret = run_instructions(IrType::Int32, &[const_int(IrType::Int32, (3) as u64, true), const_int(IrType::Int32, (2) as u64, true)], vec![Instruction::I32LeS, Instruction::End]);
    assert_eq!(0, ret.to_int(false) as u32);
}

#[test]
fn le_u32_true_works() {
    let ret = run_instructions(IrType::Int32, &[const_int(IrType::Int32, (1) as u64, false), const_int(IrType::Int32, (2) as u64, false)], vec![Instruction::I32LeU, Instruction::End]);
    assert_eq!(1, ret.to_int(false) as u32);
}

#[test]
fn le_u32_eq_works() {
    let ret = run_instructions(IrType::Int32, &[const_int(IrType::Int32, (2) as u64, false), const_int(IrType::Int32, (2) as u64, false)], vec![Instruction::I32LeU, Instruction::End]);
    assert_eq!(1, ret.to_int(false) as u32);
}

#[test]
fn le_u32_gt_works() {
    let ret = run_instructions(IrType::Int32, &[const_int(IrType::Int32, (-1_i32 as u32) as u64, false), const_int(IrType::Int32, (2) as u64, false)], vec![Instruction::I32LeU, Instruction::End]);
    assert_eq!(0, ret.to_int(false) as u32);
}

#[test]
fn le_s64_true_works() {
    let ret = run_instructions(IrType::Int32, &[const_int(IrType::Int64, (-1_i64) as u64, true), const_int(IrType::Int64, (2) as u64, true)], vec![Instruction::I64LeS, Instruction::End]);
    assert_eq!(1, ret.to_int(false) as u32);
}

#[test]
fn le_s64_eq_works() {
    let ret = run_instructions(IrType::Int32, &[const_int(IrType::Int64, (2) as u64, true), const_int(IrType::Int64, (2) as u64, true)], vec![Instruction::I64LeS, Instruction::End]);
    assert_eq!(1, ret.to_int(false) as u32);
}

#[test]
fn le_s64_gt_works() {
    let ret = run_instructions(IrType::Int32, &[const_int(IrType::Int64, (3) as u64, true), const_int(IrType::Int64, (2) as u64, true)], vec![Instruction::I64LeS, Instruction::End]);
    assert_eq!(0, ret.to_int(false) as u32);
}

#[test]
fn le_u64_true_works() {
    let ret = run_instructions(IrType::Int32, &[const_int(IrType::Int64, (1) as u64, false), const_int(IrType::Int64, (2) as u64, false)], vec![Instruction::I64LeU, Instruction::End]);
    assert_eq!(1, ret.to_int(false) as u32);
}

#[test]
fn le_u64_eq_works() {
    let ret = run_instructions(IrType::Int32, &[const_int(IrType::Int64, (2) as u64, false), const_int(IrType::Int64, (2) as u64, false)], vec![Instruction::I64LeU, Instruction::End]);
    assert_eq!(1, ret.to_int(false) as u32);
}

#[test]
fn le_u64_gt_works() {
    let ret = run_instructions(IrType::Int32, &[const_int(IrType::Int64, (-1_i64 as u64) as u64, false), const_int(IrType::Int64, (2) as u64, false)], vec![Instruction::I64LeU, Instruction::End]);
    assert_eq!(0, ret.to_int(false) as u32);
}

#[test]
fn le_f32_true_works() {
    let ret = run_instructions(IrType::Int32, &[const_real(IrType::Float32, (1.0) as f64), const_real(IrType::Float32, (2.0) as f64)], vec![Instruction::F32Le, Instruction::End]);
    assert_eq!(1, ret.to_int(false) as u32);
}

#[test]
fn le_f32_eq_works() {
    let ret = run_instructions(IrType::Int32, &[const_real(IrType::Float32, (2.0) as f64), const_real(IrType::Float32, (2.0) as f64)], vec![Instruction::F32Le, Instruction::End]);
    assert_eq!(1, ret.to_int(false) as u32);
}

#[test]
fn le_f32_gt_works() {
    let ret = run_instructions(IrType::Int32, &[const_real(IrType::Float32, (3.0) as f64), const_real(IrType::Float32, (2.0) as f64)], vec![Instruction::F32Le, Instruction::End]);
    assert_eq!(0, ret.to_int(false) as u32);
}

#[test]
fn le_f64_true_works() {
    let ret = run_instructions(IrType::Int32, &[const_real(IrType::Float64, (1.0) as f64), const_real(IrType::Float64, (2.0) as f64)], vec![Instruction::F64Le, Instruction::End]);
    assert_eq!(1, ret.to_int(false) as u32);
}

#[test]
fn le_f64_eq_works() {
    let ret = run_instructions(IrType::Int32, &[const_real(IrType::Float64, (2.0) as f64), const_real(IrType::Float64, (2.0) as f64)], vec![Instruction::F64Le, Instruction::End]);
    assert_eq!(1, ret.to_int(false) as u32);
}

#[test]
fn le_f64_gt_works() {
    let ret = run_instructions(IrType::Int32, &[const_real(IrType::Float64, (3.0) as f64), const_real(IrType::Float64, (2.0) as f64)], vec![Instruction::F64Le, Instruction::End]);
    assert_eq!(0, ret.to_int(false) as u32);
}

#[test]
fn gt_s32_true_works() {
    let ret = run_instructions(IrType::Int32, &[const_int(IrType::Int32, (3) as u64, true), const_int(IrType::Int32, (-1_i32) as u64, true)], vec![Instruction::I32GtS, Instruction::End]);
    assert_eq!(1, ret.to_int(false) as u32);
}

#[test]
fn gt_s32_eq_works() {
    let ret = run_instructions(IrType::Int32, &[const_int(IrType::Int32, (2) as u64, true), const_int(IrType::Int32, (2) as u64, true)], vec![Instruction::I32GtS, Instruction::End]);
    assert_eq!(0, ret.to_int(false) as u32);
}

#[test]
fn gt_s32_lt_works() {
    let ret = run_instructions(IrType::Int32, &[const_int(IrType::Int32, (-1_i32) as u64, true), const_int(IrType::Int32, (2) as u64, true)], vec![Instruction::I32GtS, Instruction::End]);
    assert_eq!(0, ret.to_int(false) as u32);
}

#[test]
fn gt_u32_true_works() {
    let ret = run_instructions(IrType::Int32, &[const_int(IrType::Int32, (3) as u64, false), const_int(IrType::Int32, (2) as u64, false)], vec![Instruction::I32GtU, Instruction::End]);
    assert_eq!(1, ret.to_int(false) as u32);
}

#[test]
fn gt_u32_eq_works() {
    let ret = run_instructions(IrType::Int32, &[const_int(IrType::Int32, (2) as u64, false), const_int(IrType::Int32, (2) as u64, false)], vec![Instruction::I32GtU, Instruction::End]);
    assert_eq!(0, ret.to_int(false) as u32);
}

#[test]
fn gt_u32_lt_works() {
    let ret = run_instructions(IrType::Int32, &[const_int(IrType::Int32, (2) as u64, false), const_int(IrType::Int32, (-1_i32 as u32) as u64, false)], vec![Instruction::I32GtU, Instruction::End]);
    assert_eq!(0, ret.to_int(false) as u32);
}

#[test]
fn gt_s64_true_works() {
    let ret = run_instructions(IrType::Int32, &[const_int(IrType::Int64, (2) as u64, true), const_int(IrType::Int64, (-1_i64) as u64, true)], vec![Instruction::I64GtS, Instruction::End]);
    assert_eq!(1, ret.to_int(false) as u32);
}

#[test]
fn gt_s64_eq_works() {
    let ret = run_instructions(IrType::Int32, &[const_int(IrType::Int64, (2) as u64, true), const_int(IrType::Int64, (2) as u64, true)], vec![Instruction::I64GtS, Instruction::End]);
    assert_eq!(0, ret.to_int(false) as u32);
}

#[test]
fn gt_s64_lt_works() {
    let ret = run_instructions(IrType::Int32, &[const_int(IrType::Int64, (-1_i64) as u64, true), const_int(IrType::Int64, (2) as u64, true)], vec![Instruction::I64GtS, Instruction::End]);
    assert_eq!(0, ret.to_int(false) as u32);
}

#[test]
fn gt_u64_true_works() {
    let ret = run_instructions(IrType::Int32, &[const_int(IrType::Int64, (-1_i64 as u64) as u64, false), const_int(IrType::Int64, (1) as u64, false)], vec![Instruction::I64GtU, Instruction::End]);
    assert_eq!(1, ret.to_int(false) as u32);
}

#[test]
fn gt_u64_eq_works() {
    let ret = run_instructions(IrType::Int32, &[const_int(IrType::Int64, (2) as u64, false), const_int(IrType::Int64, (2) as u64, false)], vec![Instruction::I64GtU, Instruction::End]);
    assert_eq!(0, ret.to_int(false) as u32);
}

#[test]
fn gt_u64_lt_works() {
    let ret = run_instructions(IrType::Int32, &[const_int(IrType::Int64, (2) as u64, false), const_int(IrType::Int64, (-1_i64 as u64) as u64, false)], vec![Instruction::I64GtU, Instruction::End]);
    assert_eq!(0, ret.to_int(false) as u32);
}

#[test]
fn gt_f32_true_works() {
    let ret = run_instructions(IrType::Int32, &[const_real(IrType::Float32, (3.0) as f64), const_real(IrType::Float32, (2.0) as f64)], vec![Instruction::F32Gt, Instruction::End]);
    assert_eq!(1, ret.to_int(false) as u32);
}

#[test]
fn gt_f32_eq_works() {
    let ret = run_instructions(IrType::Int32, &[const_real(IrType::Float32, (2.0) as f64), const_real(IrType::Float32, (2.0) as f64)], vec![Instruction::F32Gt, Instruction::End]);
    assert_eq!(0, ret.to_int(false) as u32);
}

#[test]
fn gt_f32_lt_works() {
    let ret = run_instructions(IrType::Int32, &[const_real(IrType::Float32, (1.0) as f64), const_real(IrType::Float32, (2.0) as f64)], vec![Instruction::F32Gt, Instruction::End]);
    assert_eq!(0, ret.to_int(false) as u32);
}

#[test]
fn gt_f64_true_works() {
    let ret = run_instructions(IrType::Int32, &[const_real(IrType::Float64, (3.0) as f64), const_real(IrType::Float64, (2.0) as f64)], vec![Instruction::F64Gt, Instruction::End]);
    assert_eq!(1, ret.to_int(false) as u32);
}

#[test]
fn gt_f64_eq_works() {
    let ret = run_instructions(IrType::Int32, &[const_real(IrType::Float64, (2.0) as f64), const_real(IrType::Float64, (2.0) as f64)], vec![Instruction::F64Gt, Instruction::End]);
    assert_eq!(0, ret.to_int(false) as u32);
}

#[test]
fn gt_f64_lt_works() {
    let ret = run_instructions(IrType::Int32, &[const_real(IrType::Float64, (1.0) as f64), const_real(IrType::Float64, (2.0) as f64)], vec![Instruction::F64Gt, Instruction::End]);
    assert_eq!(0, ret.to_int(false) as u32);
}

#[test]
fn ge_s32_true_works() {
    let ret = run_instructions(IrType::Int32, &[const_int(IrType::Int32, (2) as u64, true), const_int(IrType::Int32, (-1_i32) as u64, true)], vec![Instruction::I32GeS, Instruction::End]);
    assert_eq!(1, ret.to_int(false) as u32);
}

#[test]
fn ge_s32_eq_works() {
    let ret = run_instructions(IrType::Int32, &[const_int(IrType::Int32, (2) as u64, true), const_int(IrType::Int32, (2) as u64, true)], vec![Instruction::I32GeS, Instruction::End]);
    assert_eq!(1, ret.to_int(false) as u32);
}

#[test]
fn ge_s32_lt_works() {
    let ret = run_instructions(IrType::Int32, &[const_int(IrType::Int32, (2) as u64, true), const_int(IrType::Int32, (3) as u64, true)], vec![Instruction::I32GeS, Instruction::End]);
    assert_eq!(0, ret.to_int(false) as u32);
}

#[test]
fn ge_u32_true_works() {
    let ret = run_instructions(IrType::Int32, &[const_int(IrType::Int32, (2) as u64, false), const_int(IrType::Int32, (1) as u64, false)], vec![Instruction::I32GeU, Instruction::End]);
    assert_eq!(1, ret.to_int(false) as u32);
}

#[test]
fn ge_u32_eq_works() {
    let ret = run_instructions(IrType::Int32, &[const_int(IrType::Int32, (2) as u64, false), const_int(IrType::Int32, (2) as u64, false)], vec![Instruction::I32GeU, Instruction::End]);
    assert_eq!(1, ret.to_int(false) as u32);
}

#[test]
fn ge_u32_lt_works() {
    let ret = run_instructions(IrType::Int32, &[const_int(IrType::Int32, (2) as u64, false), const_int(IrType::Int32, (-1_i32 as u32) as u64, false)], vec![Instruction::I32GeU, Instruction::End]);
    assert_eq!(0, ret.to_int(false) as u32);
}

#[test]
fn ge_s64_true_works() {
    let ret = run_instructions(IrType::Int32, &[const_int(IrType::Int64, (2) as u64, true), const_int(IrType::Int64, (-1_i64) as u64, true)], vec![Instruction::I64GeS, Instruction::End]);
    assert_eq!(1, ret.to_int(false) as u32);
}

#[test]
fn ge_s64_eq_works() {
    let ret = run_instructions(IrType::Int32, &[const_int(IrType::Int64, (2) as u64, true), const_int(IrType::Int64, (2) as u64, true)], vec![Instruction::I64GeS, Instruction::End]);
    assert_eq!(1, ret.to_int(false) as u32);
}

#[test]
fn ge_s64_lt_works() {
    let ret = run_instructions(IrType::Int32, &[const_int(IrType::Int64, (2) as u64, true), const_int(IrType::Int64, (3) as u64, true)], vec![Instruction::I64GeS, Instruction::End]);
    assert_eq!(0, ret.to_int(false) as u32);
}

#[test]
fn ge_u64_true_works() {
    let ret = run_instructions(IrType::Int32, &[const_int(IrType::Int64, (2) as u64, false), const_int(IrType::Int64, (1) as u64, false)], vec![Instruction::I64GeU, Instruction::End]);
    assert_eq!(1, ret.to_int(false) as u32);
}

#[test]
fn ge_u64_eq_works() {
    let ret = run_instructions(IrType::Int32, &[const_int(IrType::Int64, (2) as u64, false), const_int(IrType::Int64, (2) as u64, false)], vec![Instruction::I64GeU, Instruction::End]);
    assert_eq!(1, ret.to_int(false) as u32);
}

#[test]
fn ge_u64_lt_works() {
    let ret = run_instructions(IrType::Int32, &[const_int(IrType::Int64, (2) as u64, false), const_int(IrType::Int64, (-1_i64 as u64) as u64, false)], vec![Instruction::I64GeU, Instruction::End]);
    assert_eq!(0, ret.to_int(false) as u32);
}

#[test]
fn ge_f32_true_works() {
    let ret = run_instructions(IrType::Int32, &[const_real(IrType::Float32, (3.0) as f64), const_real(IrType::Float32, (2.0) as f64)], vec![Instruction::F32Ge, Instruction::End]);
    assert_eq!(1, ret.to_int(false) as u32);
}

#[test]
fn ge_f32_eq_works() {
    let ret = run_instructions(IrType::Int32, &[const_real(IrType::Float32, (2.0) as f64), const_real(IrType::Float32, (2.0) as f64)], vec![Instruction::F32Ge, Instruction::End]);
    assert_eq!(1, ret.to_int(false) as u32);
}

#[test]
fn ge_f32_lt_works() {
    let ret = run_instructions(IrType::Int32, &[const_real(IrType::Float32, (1.0) as f64), const_real(IrType::Float32, (2.0) as f64)], vec![Instruction::F32Ge, Instruction::End]);
    assert_eq!(0, ret.to_int(false) as u32);
}

#[test]
fn ge_f64_true_works() {
    let ret = run_instructions(IrType::Int32, &[const_real(IrType::Float64, (3.0) as f64), const_real(IrType::Float64, (2.0) as f64)], vec![Instruction::F64Ge, Instruction::End]);
    assert_eq!(1, ret.to_int(false) as u32);
}

#[test]
fn ge_f64_eq_works() {
    let ret = run_instructions(IrType::Int32, &[const_real(IrType::Float64, (2.0) as f64), const_real(IrType::Float64, (2.0) as f64)], vec![Instruction::F64Ge, Instruction::End]);
    assert_eq!(1, ret.to_int(false) as u32);
}

#[test]
fn ge_f64_lt_works() {
    let ret = run_instructions(IrType::Int32, &[const_real(IrType::Float64, (1.0) as f64), const_real(IrType::Float64, (2.0) as f64)], vec![Instruction::F64Ge, Instruction::End]);
    assert_eq!(0, ret.to_int(false) as u32);
}

#[test]
fn eqz32_false_works() {
    let expected =0;
    let ret = run_instructions(IrType::Int1, &[const_int(IrType::Int32, (22) as u64, false)], vec![Instruction::I32Eqz, Instruction::End]);
    assert_eq!(expected,ret.to_int(false));
}

#[test]
fn eqz32_true_works() {
    let expected =1;
    let ret = run_instructions(IrType::Int1, &[const_int(IrType::Int32, (0) as u64, false)], vec![Instruction::I32Eqz, Instruction::End]);
    assert_eq!(expected,ret.to_int(false));
}

#[test]
fn eqz64_false_works() {
    let expected =0;
    let ret = run_instructions(IrType::Int1, &[const_int(IrType::Int64, (22) as u64, false)], vec![Instruction::I64Eqz, Instruction::End]);
    assert_eq!(expected,ret.to_int(false));
}

#[test]
fn eqz64_true_works() {
    let expected =1;
    let ret = run_instructions(IrType::Int1, &[const_int(IrType::Int64, (0) as u64, false)], vec![Instruction::I64Eqz, Instruction::End]);
    assert_eq!(expected,ret.to_int(false));
}

#[test]
fn wrap_i64_to_i32_works() {
    let expected = 0x0F_FF_FF_FF;
    let ret = run_instructions(IrType::Int32, &[const_int(IrType::Int64, (0x0F_FF_FF_FF_0F_FF_FF_FF as u64) as u64, true)], vec![Instruction::I32WrapI64, Instruction::End]);
    assert_eq!(expected ,ret.to_int(true) );
}

#[test]
fn extend_s32_to_i64_works() {
    let expected = 0xFF_FF_FF_FF_FF_FF_FF_FF;
    let ret = run_instructions(IrType::Int64, &[const_int(IrType::Int32, (0xFF_FF_FF_FF as u64) as u64, true)], vec![Instruction::I64ExtendSI32, Instruction::End]);
    assert_eq!(expected ,ret.to_int(true) );
}

#[test]
fn extend_u32_to_i64_works() {
    let expected = 0xFF_FF_FF_FF;
    let ret = run_instructions(IrType::Int64, &[const_int(IrType::Int32, (0xFF_FF_FF_FF as u64) as u64, true)], vec![Instruction::I64ExtendUI32, Instruction::End]);
    assert_eq!(expected ,ret.to_int(true) );
}

#[test]
fn trunc_f32_to_s32_works() {
    let expected = -3_i32;
    let ret = run_instructions(IrType::Int32, &[const_real(IrType::Float32, (-3.5_f32 as f64) as f64)], vec![Instruction::I32TruncSF32, Instruction::End]);
    assert_eq!(expected ,ret.to_int(true) as i32 );
}

#[test]
fn trunc_f32_to_s64_works() {
    let expected = -3_i64;
    let ret = run_instructions(IrType::Int64, &[const_real(IrType::Float32, (-3.5_f32 as f64) as f64)], vec![Instruction::I64TruncSF32, Instruction::End]);
    assert_eq!(expected ,ret.to_int(true) as i64 );
}

#[test]
fn trunc_f32_to_u32_works() {
    let expected =3;
    let ret = run_instructions(IrType::Int32, &[const_real(IrType::Float32, (3.5 as f64) as f64)], vec![Instruction::I32TruncUF32, Instruction::End]);
    assert_eq!(expected ,ret.to_int(false) as u32 );
}

#[test]
fn trunc_f32_to_u64_works() {
    let expected = 3;
    let ret = run_instructions(IrType::Int64, &[const_real(IrType::Float32, (3.5 as f64) as f64)], vec![Instruction::I64TruncUF32, Instruction::End]);
    assert_eq!(expected ,ret.to_int(false));
}

#[test]
fn trunc_f64_to_s32_works() {
    let expected = -3_i32;
    let ret = run_instructions(IrType::Int32, &[const_real(IrType::Float64, (-3.5_f64) as f64)], vec![Instruction::I32TruncSF64, Instruction::End]);
    assert_eq!(expected ,ret.to_int(true) as i32  );
}

#[test]
fn trunc_f64_to_s64_works() {
    let expected = -3_i64;
    let ret = run_instructions(IrType::Int64, &[const_real(IrType::Float64, (-3.5_f64) as f64)], vec![Instruction::I64TruncSF64, Instruction::End]);
    assert_eq!(expected ,ret.to_int(true) as i64 );
}

#[test]
fn trunc_f64_to_u32_works() {
    let expected =3;
    let ret = run_instructions(IrType::Int32, &[const_real(IrType::Float64, (3.5 as f64) as f64)], vec![Instruction::I32TruncUF64, Instruction::End]);
    assert_eq!(expected ,ret.to_int(false) as u32 );
}

#[test]
fn trunc_f64_to_u64_works() {
    let expected = 3;
    let ret = run_instructions(IrType::Int64, &[const_real(IrType::Float64, (3.5) as f64)], vec![Instruction::I64TruncUF64, Instruction::End]);
    assert_eq!(expected ,ret.to_int(false));
}

#[test]
fn demote_float_works() {
    let expected = 5.5;
    let ret = run_instructions(IrType::Float32, &[const_real(IrType::Float64, (5.5) as f64)], vec![Instruction::F32DemoteF64, Instruction::End]);
    assert_eq!(expected ,ret.to_float() );
}

#[test]
fn promote_float_works() {
    let expected = 5.5;
    let ret = run_instructions(IrType::Float64, &[const_real(IrType::Float32, (5.5) as f64)], vec![Instruction::F64PromoteF32, Instruction::End]);
    assert_eq!(expected ,ret.to_float() );
}

#[test]
fn convert_s32_to_f32_works() {
    let expected:f32 = -5.0;
    let ret = run_instructions(IrType::Float32, &[const_int(IrType::Int32, (-5_i32 as u64) as u64, true)], vec![Instruction::F32ConvertSI32, Instruction::End]);
    assert_eq!(expected ,ret.to_float() as f32 );
}

#[test]
fn convert_s64_to_f32_works() {
    let expected:f32 = -5.0;
    let ret = run_instructions(IrType::Float32, &[const_int(IrType::Int64, (-5_i64 as u64) as u64, true)], vec![Instruction::F32ConvertSI64, Instruction::End]);
    assert_eq!(expected ,ret.to_float() as f32 );
}

#[test]
fn convert_u32_to_f32_works() {
    let expected:f32 = 5.0;
    let ret = run_instructions(IrType::Float32, &[const_int(IrType::Int32, (5 as u64) as u64, false)], vec![Instruction::F32ConvertUI32, Instruction::End]);
    assert_eq!(expected ,ret.to_float() as f32 );
}

#[test]
fn convert_u64_to_f32_works() {
    let expected:f32 = 5.0;
    let ret = run_instructions(IrType::Float32, &[const_int(IrType::Int64, (5) as u64, false)], vec![Instruction::F32ConvertUI64, Instruction::End]);
    assert_eq!(expected ,ret.to_float() as f32 );
}

#[test]
fn convert_s32_to_f64_works() {
    let expected:f64 = -5.0;
    let ret = run_instructions(IrType::Float64, &[const_int(IrType::Int32, (-5_i32 as u64) as u64, true)], vec![Instruction::F64ConvertSI32, Instruction::End]);
    assert_eq!(expected ,ret.to_float() as f64 );
}

#[test]
fn convert_s64_to_f64_works() {
    let expected:f64 = -5.0;
    let ret = run_instructions(IrType::Float64, &[const_int(IrType::Int64, (-5_i64 as u64) as u64, true)], vec![Instruction::F64ConvertSI64, Instruction::End]);
    assert_eq!(expected ,ret.to_float() as f64 );
}

#[test]
fn convert_u32_to_f64_works() {
    let expected:f64 = 5.0;
    let ret = run_instructions(IrType::Float64, &[const_int(IrType::Int32, (5 as u64) as u64, false)], vec![Instruction::F64ConvertUI32, Instruction::End]);
    assert_eq!(expected ,ret.to_float() as f64 );
}

#[test]
fn convert_u64_to_f64_works() {
    let expected:f64 = 5.0;
    let ret = run_instructions(IrType::Float64, &[const_int(IrType::Int64, (5) as u64, false)], vec![Instruction::F64ConvertUI64, Instruction::End]);
    assert_eq!(expected ,ret.to_float() as f64 );
}

#[test]
fn convert_i32_to_f32_works() {
    let expected = 65535;
    let ret = run_instructions(IrType::Float32, &[const_int(IrType::Int32, (expected) as u64, false)], vec![Instruction::F32ReinterpretI32, Instruction::End]);
    assert_eq!(expected as u32,i32_reinterpret_f32(ret.to_float() as f32));
}

#[test]
fn convert_i64_to_f64_works() {
    let expected = 65535;
    let ret = run_instructions(IrType::Float64, &[const_int(IrType::Int64, (expected) as u64, false)], vec![Instruction::F64ReinterpretI64, Instruction::End]);
    assert_eq!(expected ,i64_reinterpret_f64(ret.to_float()));
}

#[test]
fn convert_f32_to_i32_works() {
    let expected = 5.0;
    let ret = run_instructions(IrType::Int32, &[const_real(IrType::Float32, (expected) as f64)], vec![Instruction::I32ReinterpretF32, Instruction::End]);
    assert_eq!(expected as f32,f32_reinterpret_i32(ret.to_int(false) as u32));
}

#[test]
fn convert_f64_to_i64_works() {
    let expected = 5.0;
    let ret = run_instructions(IrType::Int64, &[const_real(IrType::Float64, (expected) as f64)], vec![Instruction::I64ReinterpretF64, Instruction::End]);
    assert_eq!(expected , f64_reinterpret_i64(ret.to_int(false)));
}

#[test]
fn block_return_i32() {
    let expected = 3;
    let ret = run_instructions(IrType::Int32, &[], vec![Instruction::Block(BlockType::Value(ValueType::I32)), Instruction::I32Const(3), Instruction::End, Instruction::End]);
    assert_eq!(expected ,ret.to_int(false));
}

#[test]
fn br_block_return_i32() {
    let expected = 3;
    let ret = run_instructions(IrType::Int32, &[], vec![Instruction::Block(BlockType::Value(ValueType::I32)), Instruction::Block(BlockType::NoResult), Instruction::I32Const(3), Instruction::Br(0), Instruction::End, Instruction::I32Const(5), Instruction::End, Instruction::End]);
    assert_eq!(expected ,ret.to_int(false));
}

#[test]
fn br_block_return_nothing() {
    let expected = 3;
    let ret = run_instructions(IrType::Int32, &[], vec![Instruction::Block(BlockType::NoResult), Instruction::Block(BlockType::NoResult), Instruction::I32Const(3), Instruction::I32Const(1), Instruction::I32Add, Instruction::Br(0), Instruction::End, Instruction::End, Instruction::I32Const(3), Instruction::End]);
    assert_eq!(expected ,ret.to_int(false));
}

#[test]
fn br_block_return_triple() {
    let expected = 3;
    let ret = run_instructions(IrType::Int32, &[], vec![Instruction::Block(BlockType::Value(ValueType::I32)), Instruction::Block(BlockType::Value(ValueType::F32)), Instruction::Block(BlockType::Value(ValueType::I32)), Instruction::I32Const(3), Instruction::Br(0), Instruction::End, Instruction::F32Const(i32_reinterpret_f32(3.21)), Instruction::End, Instruction::I32Const(22), Instruction::End, Instruction::End]);
    assert_eq!(expected ,ret.to_int(false));
}

#[test]
fn br_if_block_return_i32() {
    let expected = 3;
    let ret = run_instructions(IrType::Int32, &[], vec![Instruction::Block(BlockType::Value(ValueType::I32)), Instruction::Block(BlockType::NoResult), Instruction::I32Const(3), Instruction::I32Const(1), Instruction::BrIf(0), Instruction::End, Instruction::I32Const(2), Instruction::End, Instruction::End]);
    assert_eq!(expected ,ret.to_int(false));
}

#[test]
fn block_if_else_i32() {
    let expected = 3;
    let ret = run_instructions(IrType::Int32, &[], vec![Instruction::I32Const(0), Instruction::I32Eqz, Instruction::If(BlockType::Value(ValueType::I32)), Instruction::I32Const(3), Instruction::Else, Instruction::I32Const(2), Instruction::End, Instruction::End]);
    assert_eq!(expected ,ret.to_int(false));
}

#[test]
fn br_table_works() {
    let expected = 3;
    let ret = run_instructions(IrType::Int32, &[], vec![Instruction::Block(BlockType::Value(ValueType::I32)), Instruction::Block(BlockType::Value(ValueType::I32)), Instruction::I32Const(3), Instruction::I32Const(0), Instruction::BrTable(vec![0],1), Instruction::End, Instruction::I32Const(22), Instruction::End, Instruction::End]);
    assert_eq!(expected ,ret.to_int(false));
}

#[test]
fn nop_works() {
    let expected = 3;
    let ret = run_instructions(IrType::Int32, &[], vec![Instruction::I32Const(3), Instruction::Nop, Instruction::End]);
    assert_eq!(expected ,ret.to_int(false));
}

#[test]
fn unreachable_works() {
    let expected = 3;
    let _ = run_instructions_built(IrType::Int32, &[], vec![Instruction::I32Const(3), Instruction::Unreachable, Instruction::End]);
}

// Memories.

fn test_init_memory_in(minimum: u32, maximum: Option<u32>) -> Result<(), RuntimeError> {
    let mut bc = BuildContext::new("grow_memory_works");
    let compiler = LinearMemoryCompiler::<u32>::new();
    compiler.build_init_function(&mut bc, 0, &[ResizableLimits { initial: minimum, maximum }])?;
    let module = bc.move_module();
    let mut machine = Machine::new(&module);
    let result = machine.run(&compiler.get_init_function_name());
    assert_eq!(1, result.to_int(false));
    let mapped_memory_size = machine.global(&compiler.get_memory_size_name(0)).to_int(false) as u32;
    assert_eq!(minimum, mapped_memory_size);
    match machine.global(&compiler.get_memory_name(0)) {
        Val::Ptr { target: Target::Region(_), .. } => {},
        other => panic!("the memory is not mapped: {:?}", other),
    }
    Ok(())
}

#[test]
fn init_memory_works() {
    test_init_memory_in(17, Some(25)).unwrap();
}

#[test]
fn init_none_maximum_memory_works() {
    test_init_memory_in(17, None).unwrap();
}

#[test]
fn init_maximum_65536_memory_works() {
    test_init_memory_in(17, Some(65536)).unwrap();
}

#[test]
fn init_minimum_greater_maximum_memory_works() {
    assert!(matches!(test_init_memory_in(26, Some(25)), Err(RuntimeError::SizeIsTooLarge { .. })));
}

#[test]
fn init_maximum_65537_memory_not_works() {
    assert!(matches!(test_init_memory_in(17, Some(65537)), Err(RuntimeError::SizeIsTooLarge { .. })));
}

#[test]
fn init_memory_error_messages() {
    let mut bc = BuildContext::new("init_memory_error_messages");
    let compiler = LinearMemoryCompiler::<u32>::new();
    match compiler.build_init_function(&mut bc, 0, &[ResizableLimits { initial: 26, maximum: Some(25) }]) {
        Err(RuntimeError::SizeIsTooLarge { message }) => assert_eq!(message, "maximum:25,minimum:26"),
        other => panic!("{:?}", other),
    }
    match compiler.build_init_function(&mut bc, 0, &[ResizableLimits { initial: 0, maximum: Some(25) }]) {
        Err(RuntimeError::SizeIsTooSmall { message }) => assert_eq!(message, "minimum:1,minimum:0"),
        other => panic!("{:?}", other),
    }
}

#[test]
fn set_memory_works() {
    let mut bc = BuildContext::new("set_memory_works");
    let compiler = LinearMemoryCompiler::<u32>::new();
    let g = compiler.set_declare_memory(&mut bc, 0);
    assert_eq!(bc.get_named_global(&compiler.get_memory_name(0)), Some(g));
}

#[test]
fn memory_build_get_real_address_works() {
    let mut bc = BuildContext::new("build_get_real_address_works");
    let compiler = LinearMemoryCompiler::<u32>::new();
    compiler.build_init_function(&mut bc, 0, &[ResizableLimits { initial: 17, maximum: Some(25) }]).unwrap();
    declare_test_function(&mut bc, IrType::Void, "build_get_real_address_test");
    let address = bc.emit(Op::Const { value: const_int(IrType::Int32, 32, false) });
    let addr = compiler.build_get_real_address(&mut bc, 0, address);
    let value = bc.emit(Op::Const { value: const_int(IrType::Int8, 55, false) });
    bc.emit(Op::Store { value, ptr: addr });
    bc.emit(Op::RetVoid);
    let module = bc.move_module();
    let mut machine = Machine::new(&module);
    assert_eq!(1, machine.run(&compiler.get_init_function_name()).to_int(false));
    machine.run("build_get_real_address_test");
    assert_eq!(vec![55u8], machine.memory_bytes(&compiler.get_memory_name(0), 32, 1));
}

fn test_init_linear_memory_in(minimum: u32, maximum: Option<u32>) -> Result<(), RuntimeError> {
    let mut bc = BuildContext::new("grow_linear_memory_works");
    let compiler = OldLinearMemoryCompiler::<u32>::new();
    compiler.build_init_linear_memory_function(&mut bc, 0, minimum, maximum)?;
    let module = bc.move_module();
    let mut machine = Machine::new(&module);
    let result = machine.run(&compiler.get_init_linear_memory_function_name(0));
    assert_eq!(Val::Int { bits: 1, width: 1 }, result);
    let mapped_linear_memory_size = machine.global(&compiler.get_linear_memory_size_name(0)).to_int(false) as u32;
    assert_eq!(minimum, mapped_linear_memory_size);
    match machine.global(&compiler.get_linear_memory_name(0)) {
        Val::Ptr { target: Target::Region(_), .. } => {},
        other => panic!("the memory is not mapped: {:?}", other),
    }
    Ok(())
}

#[test]
fn init_linear_memory_works() {
    test_init_linear_memory_in(17, Some(25)).unwrap();
}

#[test]
fn init_none_maximum_linear_memory_works() {
    test_init_linear_memory_in(17, None).unwrap();
}

#[test]
fn init_maximum_65536_linear_memory_works() {
    test_init_linear_memory_in(17, Some(65536)).unwrap();
}

#[test]
fn init_minimum_greater_maximum_linear_memory_works() {
    assert!(matches!(test_init_linear_memory_in(26, Some(25)), Err(RuntimeError::SizeIsTooLarge { .. })));
}

#[test]
fn init_maximum_65537_linear_memory_not_works() {
    assert!(matches!(test_init_linear_memory_in(17, Some(65537)), Err(RuntimeError::SizeIsTooLarge { .. })));
}

#[test]
fn set_linear_memory_works() {
    let mut bc = BuildContext::new("set_linear_memory_works");
    let compiler = OldLinearMemoryCompiler::<u32>::new();
    let g = compiler.set_declare_linear_memory(&mut bc, 0);
    assert_eq!(bc.get_named_global(&compiler.get_linear_memory_name(0)), Some(g));
}

#[test]
fn linear_memory_build_get_real_address_works() {
    let mut bc = BuildContext::new("build_get_real_address_works");
    let compiler = OldLinearMemoryCompiler::<u32>::new();
    compiler.build_init_linear_memory_function(&mut bc, 0, 17, Some(25)).unwrap();
    declare_test_function(&mut bc, IrType::Void, "build_get_real_address_test");
    let address = bc.emit(Op::Const { value: const_int(IrType::Int32, 32, false) });
    let addr = compiler.build_get_real_address(&mut bc, 0, address);
    let value = bc.emit(Op::Const { value: const_int(IrType::Int8, 55, false) });
    bc.emit(Op::Store { value, ptr: addr });
    bc.emit(Op::RetVoid);
    let module = bc.move_module();
    let mut machine = Machine::new(&module);
    assert_eq!(1, machine.run(&compiler.get_init_linear_memory_function_name(0)).to_int(false));
    machine.run("build_get_real_address_test");
    assert_eq!(vec![55u8], machine.memory_bytes(&compiler.get_linear_memory_name(0), 32, 1));
}

// Tables.

#[test]
fn build_init_function_works() {
    let mut bc = BuildContext::new("build_init_function_works");
    let compiler = FunctionTableCompiler::<u32>::new();
    let table_types = [WasmTableType { limits: ResizableLimits { initial: 2, maximum: Some(2) } }];
    let expected: u32 = 32;
    let target_function = declare_test_function(&mut bc, IrType::Int32, "test_function_name");
    let value = bc.emit(Op::Const { value: const_int(IrType::Int32, expected as u64, false) });
    bc.emit(Op::Ret { value });
    let initializers = [TableInitializer::new(0, const_int(IrType::Int32, 1, false), vec![target_function])];
    compiler.build_init_function(&mut bc, &table_types, &initializers, 0).unwrap();
    let function_type = bc.module.functions[target_function].type_index;
    declare_test_function(&mut bc, IrType::Int32, "call_function_name");
    let index = bc.emit(Op::Const { value: const_int(IrType::Int32, 1, false) });
    let f = compiler.build_get_function_address(&mut bc, index, function_type, 0);
    let r = bc.emit(Op::Call { callee: f, args: Vec::new() });
    bc.emit(Op::Ret { value: r });
    let module = bc.move_module();
    let mut machine = Machine::new(&module);
    assert_eq!(1, machine.run(&compiler.get_init_function_name()).to_int(false));
    let element_size = (usize::BITS / 8) as i64;
    match machine.memory_pointer(&compiler.table_memory_compiler.get_memory_name(0), element_size) {
        Val::Func(f) => assert_eq!(expected as u64, machine.call(f, Vec::new()).to_int(false)),
        other => panic!("no function in the table: {:?}", other),
    }
    let r = machine.run("call_function_name");
    assert_eq!(expected, r.to_int(false) as u32);
}

// Globals and data segments.

fn test_initializer(bc: &BuildContext, index: u32, expected: Constant, constant: bool) {
    let g = bc.get_named_global(&get_global_name(index)).unwrap();
    assert_eq!(Some(expected), bc.get_initializer(g));
    assert_eq!(constant, bc.is_global_const(g));
}

#[test]
fn build_global_entries_works() {
    let mut bc = BuildContext::new("build_global_entries_works");
    WasmCompiler::<u32>::build_global_entries(&mut bc, &[GlobalEntry {
        global_type: GlobalType { content_type: ValueType::I32, is_mutable: false },
        init_expr: InitExpr { code: vec![Instruction::I32Const(33)] },
    }], 0).unwrap();
    test_initializer(&bc, 0, i32_const_internal(33), true);
}

#[test]
fn build_const_initialize_global_works_i32() {
    let mut bc = BuildContext::new("build_const_initialize_global_works_i32");
    WasmCompiler::<u32>::build_const_initialize_global(&mut bc, 0, &GlobalEntry {
        global_type: GlobalType { content_type: ValueType::I32, is_mutable: false },
        init_expr: InitExpr { code: vec![Instruction::I32Const(22)] },
    }).unwrap();
    test_initializer(&bc, 0, const_int(IrType::Int32, 22, true), true);
}

#[test]
fn build_const_initialize_global_works_i64() {
    let mut bc = BuildContext::new("build_const_initialize_global_works_i64");
    WasmCompiler::<u32>::build_const_initialize_global(&mut bc, 0, &GlobalEntry {
        global_type: GlobalType { content_type: ValueType::I64, is_mutable: true },
        init_expr: InitExpr { code: vec![Instruction::I64Const(5667)] },
    }).unwrap();
    test_initializer(&bc, 0, const_int(IrType::Int64, 5667, true), false);
}

#[test]
fn build_const_initialize_global_works_f32() {
    let mut bc = BuildContext::new("build_const_initialize_global_works_f32");
    WasmCompiler::<u32>::build_const_initialize_global(&mut bc, 0, &GlobalEntry {
        global_type: GlobalType { content_type: ValueType::F32, is_mutable: false },
        init_expr: InitExpr { code: vec![Instruction::F32Const(i32_reinterpret_f32(4.00))] },
    }).unwrap();
    test_initializer(&bc, 0, Constant::Real32 { bits: 4.00f32.to_bits() }, true);
}

#[test]
fn build_const_initialize_global_works_f64() {
    let mut bc = BuildContext::new("build_const_initialize_global_works_f64");
    WasmCompiler::<u32>::build_const_initialize_global(&mut bc, 0, &GlobalEntry {
        global_type: GlobalType { content_type: ValueType::F64, is_mutable: true },
        init_expr: InitExpr { code: vec![Instruction::F64Const(i64_reinterpret_f64(4.00))] },
    }).unwrap();
    test_initializer(&bc, 0, Constant::Real64 { bits: 4.00f64.to_bits() }, false);
}

#[test]
fn build_const_initialize_global_without_instruction_fails() {
    let mut bc = BuildContext::new("build_const_initialize_global_without_instruction_fails");
    let r = WasmCompiler::<u32>::build_const_initialize_global(&mut bc, 0, &GlobalEntry {
        global_type: GlobalType { content_type: ValueType::I32, is_mutable: false },
        init_expr: InitExpr { code: vec![] },
    });
    assert!(matches!(r, Err(RuntimeError::NotExistGlobalInitializerInstruction)));
}

#[test]
fn build_data_segment_works() {
    let mut bc = BuildContext::new("build_data_segment_works");
    let compiler = WasmCompiler::<u32>::new();
    compiler.linear_memory_compiler.build_memory_functions(&mut bc, 0, &[ResizableLimits { initial: 17, maximum: Some(25) }]).unwrap();
    let offset = 1024;
    let expected_values: Vec<u8> = vec![221, 22, 254];
    let data_segment = DataSegment { index: 0, offset: InitExpr { code: vec![Instruction::I32Const(offset)] }, value: expected_values.clone() };
    declare_test_function(&mut bc, IrType::Void, "build_data_segment_works");
    compiler.build_data_segment(&mut bc, &data_segment).unwrap();
    bc.emit(Op::RetVoid);
    let module = bc.move_module();
    let mut machine = Machine::new(&module);
    assert_eq!(1, machine.run(&compiler.linear_memory_compiler.get_init_function_name()).to_int(false));
    machine.run("build_data_segment_works");
    let bytes = machine.memory_bytes(&compiler.linear_memory_compiler.get_memory_name(0), offset as i64, 3);
    assert_eq!(expected_values, bytes);
}

// System calls.

#[test]
fn build_syscalls_without_grow_function_fails() {
    let mut bc = BuildContext::new("build_syscalls_without_grow_function_fails");
    let compiler = LinearMemoryCompiler::<u32>::new();
    match build_syscalls(&mut bc, Some(&compiler)) {
        Err(RuntimeError::NoSuchLLVMFunction { name }) => assert_eq!(name, "__wasm_linear_grow_memory0"),
        other => panic!("{:?}", other),
    }
    build_syscalls::<u32>(&mut BuildContext::new("no_memory"), None).unwrap();
}

#[test]
fn syscalls_answer_zero() {
    let mut bc = BuildContext::new("syscalls_answer_zero");
    build_syscalls::<u32>(&mut bc, None).unwrap();
    let module = bc.move_module();
    let mut machine = Machine::new(&module);
    let f1 = machine.function("__WASM_FUNCTION___syscall1");
    assert_eq!(0, machine.call(f1, vec![int_val(45, 32), int_val(7, 32)]).to_int(false));
    let f3 = machine.function("__WASM_FUNCTION___syscall3");
    assert_eq!(0, machine.call(f3, vec![int_val(146, 32), int_val(1, 32), int_val(2, 32), int_val(3, 32)]).to_int(false));
    let f6 = machine.function("__WASM_FUNCTION___syscall6");
    let args: Vec<Val> = (0..7).map(|i| int_val(if i == 0 { 192 } else { 1 }, 32)).collect();
    assert_eq!(0, machine.call(f6, args).to_int(false));
}

#[test]
fn mmap2_grows_linear_memory() {
    let mut bc = BuildContext::new("mmap2_grows_linear_memory");
    let compiler = LinearMemoryCompiler::<u32>::new();
    compiler.build_memory_functions(&mut bc, 0, &[ResizableLimits { initial: 17, maximum: None }]).unwrap();
    build_syscalls(&mut bc, Some(&compiler)).unwrap();
    let module = bc.move_module();
    let mut machine = Machine::new(&module);
    assert_eq!(1, machine.run(&compiler.get_init_function_name()).to_int(false));
    let f6 = machine.function("__WASM_FUNCTION___syscall6");
    // Two whole pages and three bytes ask for 2 + 3 pages.
    let length = 2 * 65536 + 3;
    let args = vec![int_val(192, 32), int_val(0, 32), int_val(length, 32), int_val(3, 32), int_val(34, 32), int_val(0xffff_ffff, 32), int_val(0, 32)];
    assert_eq!(17 * 65536, machine.call(f6, args).to_int(false));
    assert_eq!(22, machine.global(&compiler.get_memory_size_name(0)).to_int(false));
    let other = vec![int_val(240, 32), int_val(0, 32), int_val(1, 32), int_val(0, 32), int_val(0, 32), int_val(0, 32), int_val(0, 32)];
    assert_eq!(0, machine.call(f6, other).to_int(false));
    assert_eq!(22, machine.global(&compiler.get_memory_size_name(0)).to_int(false));
}

// Whole modules.

fn module_with_main(code: Vec<Instruction>) -> Module {
    Module {
        types: Some(vec![Type::Function(WasmFunctionType { params: vec![], return_type: Some(ValueType::I32) })]),
        imports: None,
        functions: Some(vec![Func { type_ref: 0 }]),
        tables: None,
        memories: None,
        globals: None,
        exports: Some(vec![ExportEntry { field: "wasm_main".to_string(), internal: Internal::Function(0) }]),
        elements: None,
        code: Some(vec![FuncBody { locals: vec![], code }]),
        data: None,
    }
}

#[test]
fn compile_add_2_3_main_returns_5() {
    let module = module_with_main(vec![Instruction::I32Const(2), Instruction::I32Const(3), Instruction::I32Add, Instruction::End]);
    assert!(accepts_module(&module));
    let engine = Engine::<u32>::new();
    let plan = engine.compile_first(&[module], "add_2_3").unwrap();
    assert_eq!(plan.name, "add_2_3");
    let mut machine = Machine::new(&plan);
    assert_eq!(5, machine.run("main").to_int(false));
    assert_eq!(5, machine.run("__WASM_FUNCTION_wasm_main").to_int(false));
}

#[test]
fn compile_with_memory_and_data_runs_main() {
    let mut module = module_with_main(vec![Instruction::I32Load(2, 1024), Instruction::End]);
    module.memories = Some(vec![MemoryType { limits: ResizableLimits { initial: 1, maximum: Some(2) } }]);
    module.data = Some(vec![DataSegment { index: 0, offset: InitExpr { code: vec![Instruction::I32Const(1024)] }, value: vec![7, 1, 0, 0] }]);
    let plan = WasmCompiler::<u32>::new().compile("data", &module).unwrap();
    let mut machine = Machine::new(&plan);
    assert_eq!(263, machine.run("main").to_int(false));
}

#[test]
fn compile_main_starts_up_before_running_entry() {
    let mut module = module_with_main(vec![Instruction::I32Const(1), Instruction::End]);
    module.memories = Some(vec![MemoryType { limits: ResizableLimits { initial: 1, maximum: Some(2) } }]);
    module.globals = Some(vec![GlobalEntry {
        global_type: GlobalType { content_type: ValueType::I32, is_mutable: true },
        init_expr: InitExpr { code: vec![Instruction::I32Const(9)] },
    }]);
    module.data = Some(vec![DataSegment { index: 0, offset: InitExpr { code: vec![Instruction::I32Const(0)] }, value: vec![1] }]);
    let plan = WasmCompiler::<u32>::new().compile("startup", &module).unwrap();
    assert!(plan.globals.iter().any(|g| g.name == "__WASM_GLOBAL_0"));
    assert!(plan.functions.iter().any(|f| f.name == "init_data_sections"));
    let name_of = |f: usize| plan.functions[f].name.clone();
    let main = plan.functions.iter().position(|f| f.name == "main").unwrap();
    let body = &plan.bodies[main];
    // Entry block, then a failure block and a block for the tables.
    assert!(matches!(body[0], Op::AppendBlock));
    assert!(matches!(body[1], Op::PositionAtEnd { block: 0 }));
    assert!(matches!(body[2], Op::AppendBlock));
    assert!(matches!(body[3], Op::AppendBlock));
    // The memories are mapped; success goes on to the table block, failure to the failure block.
    match (&body[4], &body[5], &body[6]) {
        (Op::FunctionRef { function }, Op::Call { callee: 4, args }, Op::CondBr { cond: 5, then_block: 3, else_block: 2 }) => {
            assert_eq!(name_of(*function), "init_memory_32");
            assert!(args.is_empty());
        },
        other => panic!("{:?}", other),
    }
    // The failure block aborts and returns -1.
    assert!(matches!(body[7], Op::PositionAtEnd { block: 2 }));
    match (&body[8], &body[9]) {
        (Op::FunctionRef { function }, Op::Call { callee: 8, .. }) => assert_eq!(name_of(*function), "abort"),
        other => panic!("{:?}", other),
    }
    assert!(matches!(body[11], Op::Ret { value: 10 }));
    // The body ends by returning what the entry returns.
    let n = body.len();
    match (&body[n - 3], &body[n - 2], &body[n - 1]) {
        (Op::FunctionRef { function }, Op::Call { .. }, Op::Ret { .. }) => assert_eq!(name_of(*function), "__WASM_FUNCTION_wasm_main"),
        other => panic!("{:?}", other),
    }
    // The data are stored before the entry runs.
    match (&body[n - 5], &body[n - 4]) {
        (Op::FunctionRef { function }, Op::Call { .. }) => assert_eq!(name_of(*function), "init_data_sections"),
        other => panic!("{:?}", other),
    }
}

#[test]
fn compile_first_without_modules_fails() {
    let engine = Engine::<u32>::new();
    assert!(matches!(engine.compile_first(&[], "main_module"), Err(RuntimeError::NotExistWasmFilePath)));
}

#[test]
fn compile_without_entry_fails() {
    let mut module = module_with_main(vec![Instruction::I32Const(1), Instruction::End]);
    module.exports = None;
    match WasmCompiler::<u32>::new().compile("no_entry", &module) {
        Err(RuntimeError::NoSuchLLVMFunction { name }) => assert_eq!(name, "__WASM_FUNCTION_wasm_main"),
        other => panic!("{:?}", other.map(|m| m.name)),
    }
}

#[test]
fn compile_with_invalid_memory_limits_fails() {
    let mut module = module_with_main(vec![Instruction::I32Const(1), Instruction::End]);
    module.memories = Some(vec![
        MemoryType { limits: ResizableLimits { initial: 1, maximum: Some(2) } },
        MemoryType { limits: ResizableLimits { initial: 3, maximum: Some(2) } },
    ]);
    match WasmCompiler::<u32>::new().compile("bad_limits", &module) {
        Err(RuntimeError::SizeIsTooLarge { message }) => assert_eq!(message, "maximum:2,minimum:3"),
        other => panic!("{:?}", other.map(|m| m.name)),
    }
}

#[test]
fn compile_with_uninitialized_global_fails() {
    let mut module = module_with_main(vec![Instruction::I32Const(1), Instruction::End]);
    module.globals = Some(vec![GlobalEntry {
        global_type: GlobalType { content_type: ValueType::I32, is_mutable: false },
        init_expr: InitExpr { code: vec![] },
    }]);
    assert!(matches!(WasmCompiler::<u32>::new().compile("bad_global", &module), Err(RuntimeError::NotExistGlobalInitializerInstruction)));
}

#[test]
fn compile_with_untyped_function_fails() {
    let mut module = module_with_main(vec![Instruction::I32Const(1), Instruction::End]);
    module.functions = Some(vec![Func { type_ref: 1 }]);
    assert!(matches!(WasmCompiler::<u32>::new().compile("bad_type", &module), Err(RuntimeError::NoSuchTypeIndex { .. })));
}

#[test]
fn compile_translates_each_function_body() {
    let mut module = module_with_main(vec![Instruction::End]);
    module.functions = Some(vec![Func { type_ref: 0 }, Func { type_ref: 0 }]);
    module.code = Some(vec![
        FuncBody { locals: vec![], code: vec![Instruction::I32Const(40), Instruction::I32Const(2), Instruction::I32Add, Instruction::End] },
        FuncBody { locals: vec![], code: vec![Instruction::I32Const(2), Instruction::End] },
    ]);
    assert!(accepts_module(&module));
    let plan = WasmCompiler::<u32>::new().compile("two_bodies", &module).unwrap();
    let mut machine = Machine::new(&plan);
    assert_eq!(2, machine.run("__WASM_FUNCTION_internal1").to_int(false));
    assert_eq!(42, machine.run("main").to_int(false));
}

#[test]
fn accepts_module_rejects_wide_alignment() {
    let module = module_with_main(vec![Instruction::I32Const(0), Instruction::I32Load(32, 0), Instruction::End]);
    assert!(!accepts_module(&module));
    let module = module_with_main(vec![Instruction::I32Const(0), Instruction::I32Load(31, 0), Instruction::End]);
    assert!(accepts_module(&module));
}

#[test]
fn linear_memory_compile_builds_each_memory() {
    let mut module = module_with_main(vec![Instruction::End]);
    assert!(matches!(OldLinearMemoryCompiler::<u32>::new().compile(&module), Err(RuntimeError::NotExistMemorySection)));
    module.memories = Some(vec![
        MemoryType { limits: ResizableLimits { initial: 1, maximum: Some(2) } },
        MemoryType { limits: ResizableLimits { initial: 3, maximum: None } },
    ]);
    let plan = OldLinearMemoryCompiler::<u32>::new().compile(&module).unwrap();
    assert_eq!(plan.name, "__wasm_linear_memory_module");
    let mut machine = Machine::new(&plan);
    assert_eq!(1, machine.run("init_linear_memory0_32").to_int(false));
    assert_eq!(1, machine.run("init_linear_memory1_32").to_int(false));
    assert_eq!(3, machine.global("__wasm_linear_memory_size1").to_int(false));
    module.memories = Some(vec![MemoryType { limits: ResizableLimits { initial: 2, maximum: Some(2) } }]);
    match OldLinearMemoryCompiler::<u32>::new().compile(&module) {
        Err(RuntimeError::SizeIsTooLarge { message }) => assert_eq!(message, "maximum:1,minimum:2"),
        other => panic!("{:?}", other.map(|m| m.name)),
    }
}

// Laws on concrete values.

#[test]
fn set_local_then_get_local_reads_the_written_value() {
    let mut bc = BuildContext::new("law");
    let f = declare_test_function(&mut bc, IrType::Int32, "test_function");
    let value = bc.emit(Op::Const { value: const_int(IrType::Int32, 9, false) });
    let local = bc.emit(Op::Const { value: const_int(IrType::Int32, 0, false) });
    let stack: Stack<u32> = Stack::new(f, Vec::new(), vec![WasmValue::new_value(value)], vec![new_test_frame(vec![LocalValue::from_value(local)])]);
    let stack = set_local(0, stack).unwrap();
    assert!(stack.values.is_empty());
    let stack = get_local(0, stack).unwrap();
    assert_eq!(stack.values, vec![WasmValue::new_value(value)]);
    let stack = tee_local(0, stack).unwrap();
    assert_eq!(stack.values, vec![WasmValue::new_value(value)]);
}

#[test]
fn locals_fail_without_frame_or_value() {
    let mut bc = BuildContext::new("locals_fail");
    let f = declare_test_function(&mut bc, IrType::Int32, "test_function");
    let stack: Stack<u32> = Stack::new(f, Vec::new(), Vec::new(), Vec::new());
    assert!(matches!(get_local(0, stack), Err(RuntimeError::NotExistFrame)));
    let stack: Stack<u32> = Stack::new(f, Vec::new(), Vec::new(), vec![new_test_frame(vec![LocalValue::from_value_type(IrType::Int32)])]);
    assert!(matches!(get_local(0, stack), Err(RuntimeError::NoSuchLocalValue { index: 0 })));
    let stack: Stack<u32> = Stack::new(f, Vec::new(), Vec::new(), vec![new_test_frame(vec![LocalValue::from_value_type(IrType::Int32)])]);
    assert!(matches!(set_local(0, stack), Err(RuntimeError::NotExistValue)));
    let stack: Stack<u32> = Stack::new(f, Vec::new(), Vec::new(), vec![new_test_frame(vec![])]);
    assert!(matches!(tee_local(3, stack), Err(RuntimeError::NoSuchLocalValue { index: 3 })));
}

#[test]
fn recorded_instruction_is_the_previous_one() {
    let mut bc = BuildContext::new("history");
    let f = declare_test_function(&mut bc, IrType::Int32, "test_function");
    let stack: Stack<u32> = Stack::new(f, Vec::new(), Vec::new(), vec![new_test_frame(vec![])]);
    assert!(matches!(stack.previous_instruction(), Ok(None)));
    // The translation records the instruction in the current frame.
    let stack = progress_instruction(&mut bc, Instruction::I32Const(4), stack).unwrap();
    assert!(matches!(stack.activations[0].previous_instruction, Some(Instruction::I32Const(4))));
    let stack = progress_instruction(&mut bc, Instruction::Nop, stack).unwrap();
    assert!(matches!(stack.activations[0].previous_instruction, Some(Instruction::Nop)));
    // The history that the stack keeps is what `with_previous_instruction` records.
    assert!(matches!(stack.previous_instruction(), Ok(None)));
    let stack = stack.with_previous_instruction(Instruction::Drop, None).unwrap();
    assert!(matches!(stack.previous_instruction(), Ok(Some(Instruction::Drop))));
}

#[test]
fn translation_records_in_frame_not_in_label() {
    let mut bc = BuildContext::new("frame_record");
    let f = declare_test_function(&mut bc, IrType::Void, "test_function");
    let stack: Stack<u32> = Stack::new(f, Vec::new(), Vec::new(), vec![new_test_frame(vec![])]);
    let stack = progress_instruction(&mut bc, Instruction::Block(BlockType::NoResult), stack).unwrap();
    let stack = progress_instruction(&mut bc, Instruction::Nop, stack).unwrap();
    assert!(matches!(stack.activations[0].previous_instruction, Some(Instruction::Nop)));
    assert!(matches!(stack.labels[0].previous_instruction(), None));
    let stack = progress_instruction(&mut bc, Instruction::Br(0), stack).unwrap();
    let before = bc.body.len();
    // The frame's record of a branch leaves out the branch to the next block.
    let stack = progress_instruction(&mut bc, Instruction::End, stack).unwrap();
    assert_eq!(bc.body.len(), before + 2);
    assert!(stack.labels.is_empty());
}

#[test]
fn end_without_frame_fails_first() {
    let mut bc = BuildContext::new("end_no_frame");
    let f = declare_test_function(&mut bc, IrType::Int32, "test_function");
    let label = Label::new_block(0, 0, Some(BlockReturnValue::new(&mut bc, ValueType::I32)));
    let stack: Stack<u32> = Stack::new(f, vec![label], Vec::new(), Vec::new());
    assert!(matches!(progress_instruction(&mut bc, Instruction::End, stack), Err(RuntimeError::NotExistFrame)));
}

#[test]
fn progress_instruction_errors() {
    let mut bc = BuildContext::new("errors");
    let f = declare_test_function(&mut bc, IrType::Int32, "test_function");
    let stack: Stack<u32> = Stack::new(f, Vec::new(), Vec::new(), vec![new_test_frame(vec![])]);
    assert!(matches!(progress_instruction(&mut bc, Instruction::I32Add, stack), Err(RuntimeError::NotExistValue)));
    let stack: Stack<u32> = Stack::new(f, Vec::new(), Vec::new(), vec![new_test_frame(vec![])]);
    match progress_instruction(&mut bc, Instruction::GetGlobal(3), stack) {
        Err(RuntimeError::NoSuchLLVMGlobalValue { name }) => assert_eq!(name, "__WASM_GLOBAL_3"),
        other => panic!("{:?}", other.map(|s| s.values)),
    }
    let stack: Stack<u32> = Stack::new(f, Vec::new(), Vec::new(), vec![new_test_frame(vec![])]);
    match progress_instruction(&mut bc, Instruction::I32Load(2, 0), stack) {
        Err(RuntimeError::NoSuchLLVMFunction { name }) => assert_eq!(name, "__wasm_linear_check_memory0"),
        other => panic!("{:?}", other.map(|s| s.values)),
    }
    let stack: Stack<u32> = Stack::new(f, Vec::new(), Vec::new(), vec![new_test_frame(vec![])]);
    assert!(matches!(progress_instruction(&mut bc, Instruction::Br(0), stack), Err(RuntimeError::NoSuchLabel { index: 0 })));
}

#[test]
fn alignment_is_a_power_of_two() {
    assert_eq!(alignment(0), 1);
    assert_eq!(alignment(2), 4);
    assert_eq!(alignment(31), 1 << 31);
}

fn called_name(bc: &BuildContext, call: usize) -> (String, Vec<usize>) {
    match &bc.body[call] {
        Op::Call { callee, args } => match &bc.body[*callee] {
            Op::FunctionRef { function } => (bc.module.functions[*function].name.clone(), args.clone()),
            other => panic!("{:?}", other),
        },
        other => panic!("{:?}", other),
    }
}

#[test]
fn futex_passes_its_arguments_to_syscall() {
    let mut bc = BuildContext::new("futex");
    declare_test_function(&mut bc, IrType::Void, "f");
    let n = bc.body.len();
    let r = build_call_and_set_futex3(&mut bc, 0, 1, 1);
    assert_eq!(r, n + 5);
    assert!(matches!(bc.body[n], Op::Const { value: Constant::Int { ty: IrType::IntPtr, value: 202, .. } }));
    assert!(matches!(bc.body[n + 1], Op::Cast { op: CastOp::PtrToInt, operand: 0, ty: IrType::IntPtr }));
    assert!(matches!(bc.body[n + 2], Op::Cast { op: CastOp::IntCast, operand: 1, ty: IrType::IntPtr }));
    assert_eq!(called_name(&bc, r), ("syscall".to_string(), vec![n, n + 1, n + 2, n + 3]));
    let m = bc.body.len();
    let r = build_call_and_set_futex6(&mut bc, 0, 1, 1, 0, 0, 1);
    assert_eq!(r, m + 8);
    assert!(matches!(bc.body[m + 5], Op::Cast { op: CastOp::PtrToInt, operand: 0, ty: IrType::IntPtr }));
    assert_eq!(called_name(&bc, r).1, (m..m + 7).collect::<Vec<usize>>());
}

#[test]
fn c_library_calls_name_their_functions() {
    let mut bc = BuildContext::new("libc");
    declare_test_function(&mut bc, IrType::Void, "f");
    let r = build_call_and_set_brk(&mut bc, 0);
    assert_eq!(called_name(&bc, r), ("brk".to_string(), vec![0]));
    let r = build_call_and_set_umask(&mut bc, 1);
    assert_eq!(called_name(&bc, r), ("umask".to_string(), vec![1]));
    let r = build_call_and_set_ioctl(&mut bc, 0, 1, &[2, 3]);
    assert_eq!(called_name(&bc, r), ("ioctl".to_string(), vec![0, 1, 2, 3]));
    let r = build_call_and_set_writev::<u32>(&mut bc, 0, 1, 2);
    assert_eq!(called_name(&bc, r), ("__WASM_FUNCTION_writev_c".to_string(), vec![0, 1, 2]));
    let r = build_call_and_set_libc_syscall(&mut bc, 3, &[]);
    assert_eq!(called_name(&bc, r), ("syscall".to_string(), vec![3]));
    let r = build_call_and_set_abort(&mut bc);
    assert_eq!(called_name(&bc, r), ("abort".to_string(), vec![]));
    let r = build_call_and_set_raise_const(&mut bc, 6);
    assert!(matches!(bc.body[r - 2], Op::Const { value: Constant::Int { ty: IrType::Int32, value: 6, .. } }));
    assert_eq!(called_name(&bc, r), ("raise".to_string(), vec![r - 2]));
    assert_eq!(new_real_pointer_type(), IrType::Ptr(PointeeType::Int8));
}

#[test]
fn init_function_sets_up_memory_globals() {
    let compiler = LinearMemoryCompiler::<u32>::new();
    let mut bc = BuildContext::new("init_globals");
    compiler.build_init_function(&mut bc, 0, &[ResizableLimits { initial: 1, maximum: Some(2) }]).unwrap();
    let module = bc.move_module();
    let base = module.globals.iter().position(|g| g.name == compiler.get_memory_name(0)).unwrap();
    let size = module.globals.iter().position(|g| g.name == compiler.get_memory_size_name(0)).unwrap();
    assert!(matches!(module.globals[base].ty, IrType::Ptr(PointeeType::Int8)));
    assert!(matches!(module.initializers[base], Some(Constant::Null { .. })));
    assert!(matches!(module.initializers[size], Some(Constant::Int { value: 0, .. })));
    let f = module.functions.iter().position(|d| d.name == compiler.get_init_function_name()).unwrap();
    let t = &module.types[module.functions[f].type_index];
    assert!(matches!(t.ret, IrType::Int1));
    assert!(t.params.is_empty());
    assert!(t.var_arg);
    // On failure the memories up to the failing one keep their set-up globals.
    let mut bc = BuildContext::new("init_globals_fail");
    let limits = [ResizableLimits { initial: 1, maximum: Some(2) }, ResizableLimits { initial: 3, maximum: Some(2) }];
    assert!(compiler.build_init_function(&mut bc, 0, &limits).is_err());
    let module = bc.move_module();
    let size1 = module.globals.iter().position(|g| g.name == compiler.get_memory_size_name(1)).unwrap();
    assert!(matches!(module.initializers[size1], Some(Constant::Int { value: 0, .. })));
}

#[test]
fn rotr_undoes_rotl_u32() {
    for k in [0u64, 1, 7, 31] {
        let ret = run_instructions(IrType::Int32, &[const_int(IrType::Int32, 0x8123_4567, false), const_int(IrType::Int32, k, false)],
            vec![Instruction::I32Rotl, Instruction::I32Const(k as i32), Instruction::I32Rotr, Instruction::End]);
        assert_eq!(ret.to_int(false), 0x8123_4567);
    }
}

#[test]
fn rotr_undoes_rotl_u64() {
    for k in [0u64, 1, 33, 63] {
        let ret = run_instructions(IrType::Int64, &[const_int(IrType::Int64, 0x8123_4567_89ab_cdef, false), const_int(IrType::Int64, k, false)],
            vec![Instruction::I64Rotl, Instruction::I64Const(k as i64), Instruction::I64Rotr, Instruction::End]);
        assert_eq!(ret.to_int(false), 0x8123_4567_89ab_cdef);
    }
}

#[test]
fn table_function_address_reads_its_table_slot() {
    let mut bc = BuildContext::new("table_address");
    let tables = FunctionTableCompiler::<u32>::new();
    let index = bc.emit(Op::Const { value: const_int(IrType::Int32, 3, false) });
    let n = bc.body.len();
    let r = tables.build_get_function_address(&mut bc, index, 0, 1);
    assert_eq!(r, n + 6);
    match (&bc.body[n + 2], &bc.body[n + 3], &bc.body[n + 4]) {
        (Op::GlobalRef { global }, Op::Load { ptr }, Op::Gep { ptr: base, indices }) => {
            assert_eq!(bc.module.globals[*global].name, "__wasm_table_memory1");
            assert_eq!(*ptr, n + 2);
            assert_eq!(*base, n + 3);
            assert_eq!(indices, &vec![n + 1]);
        },
        other => panic!("{:?}", other),
    }
}
