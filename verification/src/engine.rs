use vstd::prelude::*;
use crate::error::{ErrorView, RuntimeError};
use crate::ir::IrModule;
use crate::memory::LinearMemoryCompiler;
use crate::table::FunctionTableCompiler;
use crate::types::WasmIntType;
use crate::ir::Op;
use crate::build_context::BuildContext;
use crate::memory::init_function_name;
use crate::wasm::{codes_trace, code_supported, ends_returning_call, functions_named, globals_initialized, imported_function_count, instance_declared, main_failed, main_starts_up, memory_limits_error, memory_limits_valid, module_codes_kept, module_indices_fit, module_typed, wasm_function_name, WasmCompiler};
use crate::wasm_module::Module;

verus! {

/// The compiler of WebAssembly programs into native executables.
pub struct Engine<T: WasmIntType> {
    pub wasm_compiler: WasmCompiler<T>,
    pub linear_memory_compiler: LinearMemoryCompiler<T>,
    pub function_table_compiler: FunctionTableCompiler<T>,
}

/// What to build: the WebAssembly files, of which the first is compiled,
/// and the executable to write.
pub struct BuildWasmOptions {
    pub wasm_file_paths: Vec<String>,
    pub output_file_path: String,
}

impl BuildWasmOptions {
    pub fn new(wasm_file_paths: Vec<String>, output_file_path: String) -> (r: BuildWasmOptions)
        ensures
            r.wasm_file_paths == wasm_file_paths,
            r.output_file_path == output_file_path,
    {
        BuildWasmOptions { wasm_file_paths, output_file_path }
    }
}

/// The name of the module built for an output file with stem `stem`:
/// the stem, or `main_module` when there is none.
pub open spec fn module_id_for(stem: Option<Seq<char>>) -> Seq<char> {
    match stem {
        Some(s) => s,
        None => "main_module"@,
    }
}

impl<T: WasmIntType> Engine<T> {
    pub fn new() -> (r: Engine<T>) {
        Engine {
            linear_memory_compiler: LinearMemoryCompiler::new(),
            wasm_compiler: WasmCompiler::new(),
            function_table_compiler: FunctionTableCompiler::new(),
        }
    }

    /// The name of the module built for an output file with stem `stem`.
    pub fn module_id(stem: Option<&str>) -> (r: &str)
        ensures
            r@ == module_id_for(match stem { Some(s) => Some(s@), None => None }),
    {
        match stem {
            Some(s) => s,
            None => {
                proof {
                    reveal_strlit("main_module");
                }
                "main_module"
            },
        }
    }

    /// Compiles the first of the loaded modules under the name `module_id`.
    pub fn compile_first(&self, wasm_modules: &[Module], module_id: &str) -> (r: Result<IrModule, RuntimeError>)
        requires
            wasm_modules@.len() > 0 ==> module_indices_fit(wasm_modules@[0]) && code_supported(wasm_modules@[0]),
        ensures
            wasm_modules@.len() == 0 ==> (r matches Err(e) && e@ == ErrorView::NotExistWasmFilePath),
            r matches Ok(m) ==> {
                &&& m.wf()
                &&& m.name@ == module_id@
                &&& m.function_names().contains("main"@)
                &&& m.function_names().contains(wasm_function_name("wasm_main"@))
                &&& crate::build_context::distinct_names(m.function_names())
                &&& forall|f: int| 0 <= f < m.functions@.len() && #[trigger] m.function_names()[f] == "main"@
                    ==> ends_returning_call(m.bodies@[f]@.map_values(|o: Op| o@), m, wasm_function_name("wasm_main"@))
                        && main_starts_up(m, f, init_function_name(vstd::layout::size_of::<T>() * 8))
                &&& instance_declared(m.global_names(), m.function_names(), wasm_modules@[0], vstd::layout::size_of::<T>() * 8)
                &&& wasm_modules@[0].types is Some ==> (wasm_modules@[0].code matches Some(bodies) ==>
                    exists|ctxs: Seq<BuildContext>, functions: Seq<usize>|
                        #[trigger] codes_trace(ctxs, functions, imported_function_count(wasm_modules@[0]), bodies@)
                        && functions_named(m.function_names(), functions, wasm_modules@[0])
                        && module_codes_kept(m, ctxs, functions, imported_function_count(wasm_modules@[0]), bodies@.len()))
            },
            r is Ok ==> memory_limits_valid(wasm_modules@[0]) && globals_initialized(wasm_modules@[0])
                && (wasm_modules@[0].types is Some ==> module_typed(wasm_modules@[0])),
            wasm_modules@.len() > 0 && !memory_limits_valid(wasm_modules@[0])
                ==> (r matches Err(e) && memory_limits_error(wasm_modules@[0], e@)),
            wasm_modules@.len() > 0 && memory_limits_valid(wasm_modules@[0]) && !globals_initialized(wasm_modules@[0])
                ==> (r matches Err(e) && e is NotExistGlobalInitializerInstruction),
            wasm_modules@.len() > 0 ==> (r matches Err(e) ==> main_failed(wasm_modules@[0], wasm_function_name("wasm_main"@), e@)),
    {
        if wasm_modules.len() == 0 {
            return Err(RuntimeError::NotExistWasmFilePath);
        }
        self.wasm_compiler.compile(module_id, &wasm_modules[0])
    }
}

} // verus!
