use vstd::prelude::*;
use crate::build_context::BuildContext;
use crate::error::RuntimeError;
use crate::instructions::{spec_value_type_to_type, value_type_to_type};
use crate::ir::{FunctionType, IrType, Op, OpView};
use crate::memory::LinearMemoryCompiler;
use crate::table::FunctionTableCompiler;
use crate::types::WasmIntType;
use crate::wasm_module::{Instruction, ValueType};

verus! {

/// The slot that receives the result of a structured block: a stack slot
/// of the result's type.
#[derive(Clone, Copy, Debug, PartialEq, Eq, Structural)]
pub struct BlockReturnValue {
    pub value_ptr: usize,
    pub value_type: IrType,
}

impl BlockReturnValue {
    /// One slot per result type, in order.
    pub fn from_block_types(bc: &mut BuildContext, value_types: &[ValueType]) -> (r: Vec<BlockReturnValue>)
        ensures
            final(bc).emitted(old(bc), value_types@.map_values(|vt: ValueType| OpView::Alloca { ty: spec_value_type_to_type(vt) })),
            r@.len() == value_types@.len(),
            forall|i: int| 0 <= i < r@.len() ==> #[trigger] r@[i] == (BlockReturnValue {
                value_ptr: (old(bc).ops().len() + i) as usize,
                value_type: spec_value_type_to_type(value_types@[i]),
            }),
    {
        let mut r: Vec<BlockReturnValue> = Vec::new();
        let mut i: usize = 0;
        while i < value_types.len()
            invariant
                i <= value_types@.len(),
                bc.emitted(old(bc), value_types@.take(i as int).map_values(|vt: ValueType| OpView::Alloca { ty: spec_value_type_to_type(vt) })),
                r@.len() == i,
                forall|j: int| 0 <= j < i ==> #[trigger] r@[j] == (BlockReturnValue {
                    value_ptr: (old(bc).ops().len() + j) as usize,
                    value_type: spec_value_type_to_type(value_types@[j]),
                }),
            decreases value_types@.len() - i,
        {
            let ghost before = *bc;
            let slot = BlockReturnValue::new(bc, value_types[i]);
            r.push(slot);
            proof {
                BuildContext::lemma_emitted_trans(old(bc), &before, bc,
                    value_types@.take(i as int).map_values(|vt: ValueType| OpView::Alloca { ty: spec_value_type_to_type(vt) }),
                    seq![OpView::Alloca { ty: spec_value_type_to_type(value_types@[i as int]) }]);
                assert(value_types@.take(i + 1).map_values(|vt: ValueType| OpView::Alloca { ty: spec_value_type_to_type(vt) })
                    =~= value_types@.take(i as int).map_values(|vt: ValueType| OpView::Alloca { ty: spec_value_type_to_type(vt) })
                        + seq![OpView::Alloca { ty: spec_value_type_to_type(value_types@[i as int]) }]);
            }
            i = i + 1;
        }
        assert(value_types@.take(value_types@.len() as int) =~= value_types@);
        r
    }

    /// A new slot for a result of type `value_type`.
    pub fn new(bc: &mut BuildContext, value_type: ValueType) -> (r: BlockReturnValue)
        ensures
            final(bc).emitted(old(bc), seq![OpView::Alloca { ty: spec_value_type_to_type(value_type) }]),
            r == (BlockReturnValue { value_ptr: old(bc).ops().len() as usize, value_type: spec_value_type_to_type(value_type) }),
    {
        let ty = value_type_to_type(value_type);
        let value_ptr = bc.emit(Op::Alloca { ty });
        BlockReturnValue { value_ptr, value_type: ty }
    }

    /// Stores `value` into the slot.
    pub fn store(&self, bc: &mut BuildContext, value: usize) -> (r: usize)
        ensures
            final(bc).emitted(old(bc), seq![OpView::Store { value, ptr: self.value_ptr }]),
            r == old(bc).ops().len(),
    {
        bc.emit(Op::Store { value, ptr: self.value_ptr })
    }

    /// Loads the value of the slot.
    pub fn to_value(&self, bc: &mut BuildContext) -> (r: usize)
        ensures
            final(bc).emitted(old(bc), seq![OpView::Load { ptr: self.value_ptr }]),
            r == old(bc).ops().len(),
    {
        bc.emit(Op::Load { ptr: self.value_ptr })
    }

    /// The type of the value in the slot.
    pub fn value_type(&self) -> (r: IrType)
        ensures
            r == self.value_type,
    {
        self.value_type
    }
}

/// A stack slot that holds a value of type `value_type`.
#[derive(Clone, Copy, Debug, PartialEq, Eq, Structural)]
pub struct LocalAllocatedValue {
    pub value_ptr: usize,
    pub value_type: IrType,
}

impl LocalAllocatedValue {
    /// One slot per value type, in order.
    pub fn from_block_types(bc: &mut BuildContext, value_types: &[ValueType]) -> (r: Vec<LocalAllocatedValue>)
        ensures
            final(bc).emitted(old(bc), value_types@.map_values(|vt: ValueType| OpView::Alloca { ty: spec_value_type_to_type(vt) })),
            r@.len() == value_types@.len(),
            forall|i: int| 0 <= i < r@.len() ==> #[trigger] r@[i] == (LocalAllocatedValue {
                value_ptr: (old(bc).ops().len() + i) as usize,
                value_type: spec_value_type_to_type(value_types@[i]),
            }),
    {
        let mut r: Vec<LocalAllocatedValue> = Vec::new();
        let mut i: usize = 0;
        while i < value_types.len()
            invariant
                i <= value_types@.len(),
                bc.emitted(old(bc), value_types@.take(i as int).map_values(|vt: ValueType| OpView::Alloca { ty: spec_value_type_to_type(vt) })),
                r@.len() == i,
                forall|j: int| 0 <= j < i ==> #[trigger] r@[j] == (LocalAllocatedValue {
                    value_ptr: (old(bc).ops().len() + j) as usize,
                    value_type: spec_value_type_to_type(value_types@[j]),
                }),
            decreases value_types@.len() - i,
        {
            let ghost before = *bc;
            let slot = LocalAllocatedValue::new_from_wasm_type(bc, value_types[i]);
            r.push(slot);
            proof {
                BuildContext::lemma_emitted_trans(old(bc), &before, bc,
                    value_types@.take(i as int).map_values(|vt: ValueType| OpView::Alloca { ty: spec_value_type_to_type(vt) }),
                    seq![OpView::Alloca { ty: spec_value_type_to_type(value_types@[i as int]) }]);
                assert(value_types@.take(i + 1).map_values(|vt: ValueType| OpView::Alloca { ty: spec_value_type_to_type(vt) })
                    =~= value_types@.take(i as int).map_values(|vt: ValueType| OpView::Alloca { ty: spec_value_type_to_type(vt) })
                        + seq![OpView::Alloca { ty: spec_value_type_to_type(value_types@[i as int]) }]);
            }
            i = i + 1;
        }
        assert(value_types@.take(value_types@.len() as int) =~= value_types@);
        r
    }

    /// A new slot for a WebAssembly value type.
    pub fn new_from_wasm_type(bc: &mut BuildContext, value_type: ValueType) -> (r: LocalAllocatedValue)
        ensures
            final(bc).emitted(old(bc), seq![OpView::Alloca { ty: spec_value_type_to_type(value_type) }]),
            r == (LocalAllocatedValue { value_ptr: old(bc).ops().len() as usize, value_type: spec_value_type_to_type(value_type) }),
    {
        Self::new(bc, value_type_to_type(value_type))
    }

    /// A new slot of type `ty`.
    pub fn new(bc: &mut BuildContext, ty: IrType) -> (r: LocalAllocatedValue)
        ensures
            final(bc).emitted(old(bc), seq![OpView::Alloca { ty }]),
            r == (LocalAllocatedValue { value_ptr: old(bc).ops().len() as usize, value_type: ty }),
    {
        let value_ptr = bc.emit(Op::Alloca { ty });
        LocalAllocatedValue { value_ptr, value_type: ty }
    }

    /// Stores `value` into the slot.
    pub fn store(&self, bc: &mut BuildContext, value: usize) -> (r: usize)
        ensures
            final(bc).emitted(old(bc), seq![OpView::Store { value, ptr: self.value_ptr }]),
            r == old(bc).ops().len(),
    {
        bc.emit(Op::Store { value, ptr: self.value_ptr })
    }

    /// Loads the value of the slot.
    pub fn to_value(&self, bc: &mut BuildContext) -> (r: usize)
        ensures
            final(bc).emitted(old(bc), seq![OpView::Load { ptr: self.value_ptr }]),
            r == old(bc).ops().len(),
    {
        bc.emit(Op::Load { ptr: self.value_ptr })
    }

    /// The type of the value in the slot.
    pub fn value_type(&self) -> (r: IrType)
        ensures
            r == self.value_type,
    {
        self.value_type
    }
}

/// A value on the operand stack: the result of an operation, or the slot
/// of a block's result, read when the value is used.
#[derive(Clone, Copy, Debug, PartialEq, Eq, Structural)]
pub enum WasmValue {
    Value { value: usize },
    BlockReturnValue { return_value: BlockReturnValue },
}

/// The operations that make a stack value usable: a load for a block's
/// result slot, nothing for a plain value.
pub open spec fn value_loads(v: WasmValue) -> Seq<OpView> {
    match v {
        WasmValue::Value { .. } => seq![],
        WasmValue::BlockReturnValue { return_value } => seq![OpView::Load { ptr: return_value.value_ptr }],
    }
}

/// The operation that yields a stack value once its loads are emitted at
/// position `at`.
pub open spec fn value_id(v: WasmValue, at: nat) -> usize {
    match v {
        WasmValue::Value { value } => value,
        WasmValue::BlockReturnValue { .. } => at as usize,
    }
}

impl WasmValue {
    pub fn new_value(value: usize) -> (r: WasmValue)
        ensures
            r == (WasmValue::Value { value }),
    {
        WasmValue::Value { value }
    }

    pub fn new_block_return_value(return_value: BlockReturnValue) -> (r: WasmValue)
        ensures
            r == (WasmValue::BlockReturnValue { return_value }),
    {
        WasmValue::BlockReturnValue { return_value }
    }

    /// The operation that yields the value, loading it first from a block's slot.
    pub fn to_value(&self, bc: &mut BuildContext) -> (r: usize)
        ensures
            final(bc).emitted(old(bc), value_loads(*self)),
            r == value_id(*self, old(bc).ops().len()),
    {
        match self {
            WasmValue::Value { value } => {
                assert(bc.ops() =~= bc.ops() + seq![]);
                *value
            },
            WasmValue::BlockReturnValue { return_value } => return_value.to_value(bc),
        }
    }

    /// The type of the value.
    pub fn value_type(&self) -> (r: IrType)
        ensures
            r == match *self {
                WasmValue::Value { value } => IrType::TypeOf(value),
                WasmValue::BlockReturnValue { return_value } => return_value.value_type,
            },
    {
        match self {
            WasmValue::Value { value } => IrType::TypeOf(*value),
            WasmValue::BlockReturnValue { return_value } => return_value.value_type(),
        }
    }
}

/// The last instruction seen in a scope, and the value it left.
#[derive(Debug)]
pub struct InstructionHistory {
    pub previous_instruction: Option<Instruction>,
    pub previous_value: Option<WasmValue>,
}

impl InstructionHistory {
    pub fn new(previous_instruction: Option<Instruction>, previous_value: Option<WasmValue>) -> (r: InstructionHistory)
        ensures
            r == (InstructionHistory { previous_instruction, previous_value }),
    {
        InstructionHistory { previous_instruction, previous_value }
    }
}

/// A local variable: its value, once it has one, and its type.
#[derive(Clone, Copy, Debug, PartialEq, Eq, Structural)]
pub struct LocalValue {
    pub value: Option<WasmValue>,
    pub value_type: IrType,
}

impl LocalValue {
    /// A local that holds `value`, such as a parameter.
    pub fn from_value(value: usize) -> (r: LocalValue)
        ensures
            r == (LocalValue { value: Some(WasmValue::Value { value }), value_type: IrType::TypeOf(value) }),
    {
        LocalValue { value: Some(WasmValue::new_value(value)), value_type: IrType::TypeOf(value) }
    }

    /// A local of type `value_type` without a value yet.
    pub fn from_value_type(value_type: IrType) -> (r: LocalValue)
        ensures
            r == (LocalValue { value: None, value_type }),
    {
        LocalValue { value: None, value_type }
    }
}

/// The blocks of a structured instruction, with the history of each arm.
#[derive(Debug)]
pub enum LabelType {
    Loop { start: usize, next: usize, history: InstructionHistory },
    If { start: usize, else_block: usize, next: usize, if_history: InstructionHistory, else_history: Option<InstructionHistory> },
    Block { start: usize, next: usize, history: InstructionHistory },
}

/// An open structured instruction and the slot of its result, if it has one.
#[derive(Debug)]
pub struct Label {
    pub label_type: LabelType,
    pub return_value: Option<BlockReturnValue>,
}

/// The history with nothing seen yet.
pub open spec fn empty_history() -> InstructionHistory {
    InstructionHistory { previous_instruction: None, previous_value: None }
}

/// The history after `instruction`.
pub open spec fn history_of(instruction: Instruction, previous_value: Option<WasmValue>) -> InstructionHistory {
    InstructionHistory { previous_instruction: Some(instruction), previous_value }
}

impl Label {
    /// The last instruction seen in the label's current arm.
    pub open spec fn spec_previous_instruction(&self) -> Option<Instruction> {
        match &self.label_type {
            LabelType::If { if_history, else_history, .. } => match else_history {
                Some(history) => history.previous_instruction,
                None => if_history.previous_instruction,
            },
            LabelType::Block { history, .. } => history.previous_instruction,
            LabelType::Loop { history, .. } => history.previous_instruction,
        }
    }

    /// The label with `instruction` recorded in its current arm.
    pub open spec fn spec_with_previous_instruction(self, instruction: Instruction, previous_value: Option<WasmValue>) -> Label {
        let label_type = match self.label_type {
            LabelType::If { start, else_block, next, if_history, else_history } => match else_history {
                Some(_) => LabelType::If { start, else_block, next, if_history, else_history: Some(history_of(instruction, previous_value)) },
                None => LabelType::If { start, else_block, next, if_history: history_of(instruction, previous_value), else_history: None },
            },
            LabelType::Block { start, next, .. } => LabelType::Block { start, next, history: history_of(instruction, previous_value) },
            LabelType::Loop { start, next, .. } => LabelType::Loop { start, next, history: history_of(instruction, previous_value) },
        };
        Label { label_type, return_value: self.return_value }
    }

    /// The label of a block from `start` on that continues at `next`.
    pub fn new_block(start: usize, next: usize, return_value: Option<BlockReturnValue>) -> (r: Label)
        ensures
            r == (Label { label_type: LabelType::Block { start, next, history: empty_history() }, return_value }),
    {
        Label { label_type: LabelType::Block { start, next, history: InstructionHistory::new(None, None) }, return_value }
    }

    /// The label of a loop from `start` on that continues at `next`.
    pub fn new_loop(start: usize, next: usize, return_value: Option<BlockReturnValue>) -> (r: Label)
        ensures
            r == (Label { label_type: LabelType::Loop { start, next, history: empty_history() }, return_value }),
    {
        Label { label_type: LabelType::Loop { start, next, history: InstructionHistory::new(None, None) }, return_value }
    }

    /// The label of an if with arms `start` and `else_block` that continues at `next`.
    pub fn new_if(start: usize, else_block: usize, next: usize, return_value: Option<BlockReturnValue>) -> (r: Label)
        ensures
            r == (Label { label_type: LabelType::If { start, else_block, next, if_history: empty_history(), else_history: None }, return_value }),
    {
        Label {
            label_type: LabelType::If { start, else_block, next, if_history: InstructionHistory::new(None, None), else_history: None },
            return_value,
        }
    }

    /// The last instruction seen in the label's current arm.
    pub fn previous_instruction(&self) -> (r: Option<&Instruction>)
        ensures
            match r {
                Some(i) => self.spec_previous_instruction() == Some(*i),
                None => self.spec_previous_instruction() is None,
            },
    {
        match &self.label_type {
            LabelType::If { if_history, else_history, .. } => match else_history {
                Some(history) => history.previous_instruction.as_ref(),
                None => if_history.previous_instruction.as_ref(),
            },
            LabelType::Block { history, .. } => history.previous_instruction.as_ref(),
            LabelType::Loop { history, .. } => history.previous_instruction.as_ref(),
        }
    }

    /// The label with `instruction` recorded in its current arm.
    pub fn with_previous_instruction(self, instruction: Instruction, previous_value: Option<WasmValue>) -> (r: Label)
        ensures
            r == self.spec_with_previous_instruction(instruction, previous_value),
    {
        let label_type = match self.label_type {
            LabelType::If { start, else_block, next, if_history, else_history } => match else_history {
                Some(_) => LabelType::If {
                    start,
                    else_block,
                    next,
                    if_history,
                    else_history: Some(InstructionHistory::new(Some(instruction), previous_value)),
                },
                None => LabelType::If {
                    start,
                    else_block,
                    next,
                    if_history: InstructionHistory::new(Some(instruction), previous_value),
                    else_history: None,
                },
            },
            LabelType::Block { start, next, .. } => LabelType::Block { start, next, history: InstructionHistory::new(Some(instruction), previous_value) },
            LabelType::Loop { start, next, .. } => LabelType::Loop { start, next, history: InstructionHistory::new(Some(instruction), previous_value) },
        };
        Label { label_type, return_value: self.return_value }
    }
}

/// What a function of the module sees: the module's function types and
/// functions, by index, and the compilers of its tables and memories.
pub struct ModuleInstance<T: WasmIntType> {
    pub types: Vec<FunctionType>,
    pub functions: Vec<usize>,
    pub table_compiler: FunctionTableCompiler<T>,
    pub linear_memory_compiler: LinearMemoryCompiler<T>,
}

impl<T: WasmIntType> ModuleInstance<T> {
    pub fn new(types: Vec<FunctionType>, functions: Vec<usize>, table_compiler: FunctionTableCompiler<T>, linear_memory_compiler: LinearMemoryCompiler<T>) -> (r: ModuleInstance<T>)
        ensures
            r.types == types,
            r.functions == functions,
    {
        ModuleInstance { types, functions, table_compiler, linear_memory_compiler }
    }
}

/// The activation of a function: its locals, its module, the history of
/// what was seen outside any label, and the last instruction translated in
/// it, which closing a label or the function reads.
pub struct Frame<T: WasmIntType> {
    pub locals: Vec<LocalValue>,
    pub module_instance: ModuleInstance<T>,
    pub history: InstructionHistory,
    pub previous_instruction: Option<Instruction>,
}

impl<T: WasmIntType> Frame<T> {
    pub fn new(locals: Vec<LocalValue>, module_instance: ModuleInstance<T>) -> (r: Frame<T>)
        ensures
            r.locals == locals,
            r.module_instance == module_instance,
            r.history == empty_history(),
            r.previous_instruction is None,
    {
        Frame { locals, module_instance, history: InstructionHistory::new(None, None), previous_instruction: None }
    }
}

/// A frame as the translation sees it: its locals, its history and the
/// last instruction translated in it.  (Its module instance is not part of
/// the view; the functions that change a stack state that they keep it.)
pub struct FrameView {
    pub locals: Seq<LocalValue>,
    pub history: InstructionHistory,
    pub previous_instruction: Option<Instruction>,
}

/// The translation state as the translation sees it.
pub struct StackView {
    pub current_function: usize,
    pub values: Seq<WasmValue>,
    pub labels: Seq<Label>,
    pub frames: Seq<FrameView>,
}

/// The state of the translation of one function body: the function, the
/// operand stack, the open labels (the innermost last) and the activations
/// (the current one first).
pub struct Stack<T: WasmIntType> {
    pub current_function: usize,
    pub values: Vec<WasmValue>,
    pub labels: Vec<Label>,
    pub activations: Vec<Frame<T>>,
}

/// `s` with `instruction` recorded as the last instruction seen: in the
/// innermost label if there is one, else in the current frame.
pub open spec fn record_instruction(s: StackView, instruction: Instruction, previous_value: Option<WasmValue>) -> StackView {
    if s.labels.len() > 0 {
        StackView {
            labels: s.labels.drop_last().push(s.labels.last().spec_with_previous_instruction(instruction, previous_value)),
            ..s
        }
    } else if s.frames.len() > 0 {
        StackView {
            frames: s.frames.update(0, FrameView { history: history_of(instruction, previous_value), ..s.frames[0] }),
            ..s
        }
    } else {
        s
    }
}

/// The last instruction seen: in the innermost label if there is one, else
/// in the current frame; `None` when there is neither.
pub open spec fn last_instruction(s: StackView) -> Option<Option<Instruction>> {
    if s.labels.len() > 0 {
        Some(s.labels.last().spec_previous_instruction())
    } else if s.frames.len() > 0 {
        Some(s.frames[0].history.previous_instruction)
    } else {
        None
    }
}

/// Law: the last instruction seen is the one last recorded, wherever the
/// stack keeps it.
pub proof fn lemma_record_then_last(s: StackView, instruction: Instruction, previous_value: Option<WasmValue>)
    requires
        s.labels.len() > 0 || s.frames.len() > 0,
    ensures
        last_instruction(record_instruction(s, instruction, previous_value)) == Some(Some(instruction)),
{
    let r = record_instruction(s, instruction, previous_value);
    if s.labels.len() > 0 {
        assert(r.labels.last() == s.labels.last().spec_with_previous_instruction(instruction, previous_value));
    }
}

/// The last instruction translated in the current frame; `None` when there
/// is no frame.
pub open spec fn frame_previous(s: StackView) -> Option<Option<Instruction>> {
    if s.frames.len() > 0 { Some(s.frames[0].previous_instruction) } else { None }
}

/// `s` with `instruction` recorded as the last instruction translated in
/// the current frame, when there is one.
pub open spec fn record_in_frame(s: StackView, instruction: Instruction) -> StackView {
    if s.frames.len() > 0 {
        StackView { frames: s.frames.update(0, FrameView { previous_instruction: Some(instruction), ..s.frames[0] }), ..s }
    } else {
        s
    }
}

/// Law: closing a label reads, from the current frame, the instruction that
/// the translation last recorded there; recording leaves the labels, the
/// values and the frame's locals and history as they were.
pub proof fn lemma_record_in_frame_then_read(s: StackView, instruction: Instruction)
    requires
        s.frames.len() > 0,
    ensures
        frame_previous(record_in_frame(s, instruction)) == Some(Some(instruction)),
        record_in_frame(s, instruction).labels == s.labels,
        record_in_frame(s, instruction).values == s.values,
        record_in_frame(s, instruction).frames[0].locals == s.frames[0].locals,
        record_in_frame(s, instruction).frames[0].history == s.frames[0].history,
{
}

impl<T: WasmIntType> Stack<T> {
    /// The module instances of the frames, the current one first.
    pub open spec fn instances(&self) -> Seq<ModuleInstance<T>> {
        self.activations@.map_values(|f: Frame<T>| f.module_instance)
    }
}

impl<T: WasmIntType> View for Stack<T> {
    type V = StackView;

    /// The stack as the translation sees it.
    open spec fn view(&self) -> StackView {
        StackView {
            current_function: self.current_function,
            values: self.values@,
            labels: self.labels@,
            frames: self.activations@.map_values(|f: Frame<T>| FrameView {
                locals: f.locals@,
                history: f.history,
                previous_instruction: f.previous_instruction,
            }),
        }
    }
}

impl<T: WasmIntType> Stack<T> {

    pub fn new(current_function: usize, labels: Vec<Label>, values: Vec<WasmValue>, activations: Vec<Frame<T>>) -> (r: Stack<T>)
        ensures
            r.current_function == current_function,
            r.labels == labels,
            r.values == values,
            r.activations == activations,
    {
        Stack { current_function, labels, values, activations }
    }

    /// The last instruction seen: in the innermost label if there is one,
    /// else in the current frame.
    pub fn previous_instruction(&self) -> (r: Result<Option<&Instruction>, RuntimeError>)
        ensures
            r is Ok <==> last_instruction(self.view()) is Some,
            r matches Err(e) ==> e is NotExistFrame,
            r matches Ok(Some(i)) ==> last_instruction(self.view()) == Some(Some(*i)),
            r matches Ok(None) ==> last_instruction(self.view()) == Some(None::<Instruction>),
    {
        if self.labels.len() > 0 {
            let last = &self.labels[self.labels.len() - 1];
            Ok(last.previous_instruction())
        } else {
            let current = self.activations.current()?;
            Ok(current.history.previous_instruction.as_ref())
        }
    }

    /// Records `instruction` as the last instruction seen: in the innermost
    /// label if there is one, else in the current frame.
    pub fn with_previous_instruction(self, instruction: Instruction, previous_value: Option<WasmValue>) -> (r: Result<Stack<T>, RuntimeError>)
        ensures
            r is Ok <==> (self.labels@.len() > 0 || self.activations@.len() > 0),
            r matches Err(e) ==> e is NotExistFrame,
            r matches Ok(s) ==> s.view() == record_instruction(self.view(), instruction, previous_value),
            r matches Ok(s) ==> s.instances() == self.instances(),
    {
        let mut stack = self;
        if let Some(last_label) = stack.labels.pop() {
            stack.labels.push(last_label.with_previous_instruction(instruction, previous_value));
            proof {
                assert(stack.view().labels =~= record_instruction(self.view(), instruction, previous_value).labels);
                assert(stack.view().frames =~= self.view().frames);
                assert(stack.instances() =~= self.instances());
            }
        } else {
            if stack.activations.len() == 0 {
                return Err(RuntimeError::NotExistFrame);
            }
            let mut frames = Vec::new();
            core::mem::swap(&mut frames, &mut stack.activations);
            let mut current = frames.remove(0);
            current.history = InstructionHistory::new(Some(instruction), previous_value);
            frames.insert(0, current);
            stack.activations = frames;
            proof {
                assert(stack.view().frames =~= record_instruction(self.view(), instruction, previous_value).frames);
                assert(stack.instances() =~= self.instances());
            }
        }
        Ok(stack)
    }
}

/// Access to the current activation.
pub trait Activations<T: WasmIntType> {
    fn current(&self) -> Result<&Frame<T>, RuntimeError>;
}

impl<T: WasmIntType> Activations<T> for Vec<Frame<T>> {
    /// The current frame: the first one.
    fn current(&self) -> (r: Result<&Frame<T>, RuntimeError>)
        ensures
            r is Ok <==> self@.len() > 0,
            r matches Ok(f) ==> *f == self@[0],
            r matches Err(e) ==> e is NotExistFrame,
    {
        if self.len() > 0 {
            Ok(&self[0])
        } else {
            Err(RuntimeError::NotExistFrame)
        }
    }
}

} // verus!
