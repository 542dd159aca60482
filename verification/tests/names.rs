use wasm_llvm::engine::Engine;
use wasm_llvm::instructions::get_global_name;
use wasm_llvm::linear_memory::LinearMemoryCompiler as OldLinearMemoryCompiler;
use wasm_llvm::memory::LinearMemoryCompiler;
use wasm_llvm::table::FunctionTableCompiler;
use wasm_llvm::text::{decimal_string, prefixed_decimal};
use wasm_llvm::wasm::WasmCompiler;

#[test]
fn decimal_string_writes_digits() {
    assert_eq!(decimal_string(0), "0");
    assert_eq!(decimal_string(7), "7");
    assert_eq!(decimal_string(10), "10");
    assert_eq!(decimal_string(4294967295), "4294967295");
    assert_eq!(prefixed_decimal("x", 120), "x120");
}

#[test]
fn global_names_are_numbered() {
    assert_eq!(get_global_name(0), "__WASM_GLOBAL_0");
    assert_eq!(get_global_name(33), "__WASM_GLOBAL_33");
}

#[test]
fn function_names_are_prefixed() {
    assert_eq!(WasmCompiler::<u32>::wasm_function_name("wasm_main"), "__WASM_FUNCTION_wasm_main");
    assert_eq!(WasmCompiler::<u64>::wasm_function_name(""), "__WASM_FUNCTION_");
}

#[test]
fn memory_names_are_numbered() {
    let compiler = LinearMemoryCompiler::<u32>::new();
    assert_eq!(compiler.get_memory_name(0), "__wasm_linear_memory0");
    assert_eq!(compiler.get_memory_size_name(2), "__wasm_linear_memory_size2");
    assert_eq!(compiler.get_grow_function_name(1), "__wasm_linear_grow_memory1");
    assert_eq!(compiler.get_memory_real_check_name(3), "__wasm_linear_check_memory3");
    assert_eq!(compiler.get_init_function_name(), "init_memory_32");
    assert_eq!(LinearMemoryCompiler::<u64>::new().get_init_function_name(), "init_memory_64");
    assert_eq!(FunctionTableCompiler::<u32>::new().get_init_function_name(), "init_memory_32");
}

#[test]
fn linear_memory_names_are_numbered() {
    let compiler = OldLinearMemoryCompiler::<u32>::new();
    assert_eq!(compiler.get_linear_memory_name(4), "__wasm_linear_memory4");
    assert_eq!(compiler.get_linear_memory_size_name(4), "__wasm_linear_memory_size4");
    assert_eq!(compiler.get_init_linear_memory_function_name(5), "init_linear_memory5_32");
}

#[test]
fn module_id_defaults_to_main_module() {
    assert_eq!(Engine::<u32>::module_id(Some("add_2_3")), "add_2_3");
    assert_eq!(Engine::<u32>::module_id(None), "main_module");
}
