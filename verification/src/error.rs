use vstd::prelude::*;
use crate::text::{append_decimal, decimal};
use crate::wasm_module::Instruction;

verus! {

/// The errors of the compilation.
#[derive(Debug)]
pub enum RuntimeError {
    Application { name: String },
    NoSuchLLVMFunction { name: String },
    NoSuchLLVMFunctionParameter { name: String },
    NoSuchLLVMGlobalValue { name: String },
    NoSuchTypeIndex { index: u32 },
    NoSuchFunctionIndex { index: u32 },
    NoSuchLocalValue { index: u32 },
    NoSuchLabel { index: u32 },
    NotExistMemorySection,
    NotExistDataSectionOffset,
    NotExistGlobalInitializerInstruction,
    NotExistInitExpr,
    NotExistValue,
    NotExistLabel,
    NotExistFrame,
    NotExistWasmFilePath,
    InvalidLabelType,
    InvalidInstruction { instruction: Instruction },
    SizeIsTooLarge { message: String },
    SizeIsTooSmall { message: String },
}

/// A `RuntimeError` with its strings as character sequences.
pub enum ErrorView {
    Application { name: Seq<char> },
    NoSuchLLVMFunction { name: Seq<char> },
    NoSuchLLVMFunctionParameter { name: Seq<char> },
    NoSuchLLVMGlobalValue { name: Seq<char> },
    NoSuchTypeIndex { index: u32 },
    NoSuchFunctionIndex { index: u32 },
    NoSuchLocalValue { index: u32 },
    NoSuchLabel { index: u32 },
    NotExistMemorySection,
    NotExistDataSectionOffset,
    NotExistGlobalInitializerInstruction,
    NotExistInitExpr,
    NotExistValue,
    NotExistLabel,
    NotExistFrame,
    NotExistWasmFilePath,
    InvalidLabelType,
    InvalidInstruction { instruction: Instruction },
    SizeIsTooLarge { message: Seq<char> },
    SizeIsTooSmall { message: Seq<char> },
}

impl View for RuntimeError {
    type V = ErrorView;

    open spec fn view(&self) -> ErrorView {
        match self {
            RuntimeError::Application { name } => ErrorView::Application { name: name@ },
            RuntimeError::NoSuchLLVMFunction { name } => ErrorView::NoSuchLLVMFunction { name: name@ },
            RuntimeError::NoSuchLLVMFunctionParameter { name } => ErrorView::NoSuchLLVMFunctionParameter { name: name@ },
            RuntimeError::NoSuchLLVMGlobalValue { name } => ErrorView::NoSuchLLVMGlobalValue { name: name@ },
            RuntimeError::NoSuchTypeIndex { index } => ErrorView::NoSuchTypeIndex { index: *index },
            RuntimeError::NoSuchFunctionIndex { index } => ErrorView::NoSuchFunctionIndex { index: *index },
            RuntimeError::NoSuchLocalValue { index } => ErrorView::NoSuchLocalValue { index: *index },
            RuntimeError::NoSuchLabel { index } => ErrorView::NoSuchLabel { index: *index },
            RuntimeError::NotExistMemorySection => ErrorView::NotExistMemorySection,
            RuntimeError::NotExistDataSectionOffset => ErrorView::NotExistDataSectionOffset,
            RuntimeError::NotExistGlobalInitializerInstruction => ErrorView::NotExistGlobalInitializerInstruction,
            RuntimeError::NotExistInitExpr => ErrorView::NotExistInitExpr,
            RuntimeError::NotExistValue => ErrorView::NotExistValue,
            RuntimeError::NotExistLabel => ErrorView::NotExistLabel,
            RuntimeError::NotExistFrame => ErrorView::NotExistFrame,
            RuntimeError::NotExistWasmFilePath => ErrorView::NotExistWasmFilePath,
            RuntimeError::InvalidLabelType => ErrorView::InvalidLabelType,
            RuntimeError::InvalidInstruction { instruction } => ErrorView::InvalidInstruction { instruction: *instruction },
            RuntimeError::SizeIsTooLarge { message } => ErrorView::SizeIsTooLarge { message: message@ },
            RuntimeError::SizeIsTooSmall { message } => ErrorView::SizeIsTooSmall { message: message@ },
        }
    }
}

/// The message of a bound check: `<bound name>:<bound>,<name>:<value>`.
pub open spec fn range_message(bound_name: Seq<char>, bound: nat, name: Seq<char>, target: nat) -> Seq<char> {
    bound_name + seq![':'] + decimal(bound) + seq![','] + name + seq![':'] + decimal(target)
}

/// Checks that `minimum <= target <= maximum`.
///
/// Below the range the error is `SizeIsTooSmall`, above it `SizeIsTooLarge`;
/// the message names the bound that was crossed and the checked value.
pub fn check_range(target: u32, minimum: u32, maximum: u32, name: &str) -> (r: Result<(), RuntimeError>)
    ensures
        target < minimum ==> (r matches Err(e)
            && e@ == ErrorView::SizeIsTooSmall { message: range_message("minimum"@, minimum as nat, name@, target as nat) }),
        minimum <= target && target > maximum ==> (r matches Err(e)
            && e@ == ErrorView::SizeIsTooLarge { message: range_message("maximum"@, maximum as nat, name@, target as nat) }),
        r is Ok <==> minimum <= target <= maximum,
{
    if target < minimum {
        let message = range_text("minimum", minimum, name, target);
        Err(RuntimeError::SizeIsTooSmall { message })
    } else if target > maximum {
        let message = range_text("maximum", maximum, name, target);
        Err(RuntimeError::SizeIsTooLarge { message })
    } else {
        Ok(())
    }
}

fn range_text(bound_name: &str, bound: u32, name: &str, target: u32) -> (r: String)
    ensures
        r@ == range_message(bound_name@, bound as nat, name@, target as nat),
{
    let mut s = String::from_str(bound_name);
    s.append(":");
    append_decimal(&mut s, bound);
    s.append(",");
    s.append(name);
    s.append(":");
    append_decimal(&mut s, target);
    proof {
        reveal_strlit(":");
        reveal_strlit(",");
    }
    s
}

} // verus!
