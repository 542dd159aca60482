//! A compiler from WebAssembly modules to an LLVM-style SSA instruction plan.
//!
//! The library decides everything that the compilation needs: the symbol
//! names, the memory and table layouts, the control-flow structure of every
//! function and the instruction sequence emitted for every WebAssembly
//! instruction.  The plan is a plain value (`ir::IrModule`) that a thin
//! emitter lowers one operation at a time onto LLVM.

pub mod build_context;
pub mod calls;
pub mod constants;
pub mod engine;
pub mod error;
pub mod instructions;
pub mod instruction_laws;
pub mod ir;
pub mod linear_memory;
pub mod memory;
pub mod memory_functions;
pub mod operations;
pub mod semantics;
pub mod stack;
pub mod syscall;
mod sys;
pub mod text;
pub mod table;
pub mod types;
pub mod wasm;
pub mod wasm_module;
