# wasm_llvm

A compiler from WebAssembly modules to LLVM, written in Verus.

The library (`src/`) computes, for a decoded WebAssembly module, a plan of
the LLVM module to build: its globals, its function declarations and, for
every function, the sequence of SSA operations of its body (`ir::IrModule`).
Every step of that computation is verified against a contract:

- `instructions`, `operations`, `stack`: the translation of each WebAssembly
  instruction, with the operand stack, labels and frames it works on;
  `progress_instruction` states exactly what one instruction emits, and
  when `wasm::compile` succeeds, each function body of the module is the
  translation of its code, instruction by instruction.
- `memory`, `memory_functions`, `linear_memory`, `table`: the mapping of
  linear memories and tables with `mmap`, and the grow and check functions.
- `syscall`: the `__syscall*` functions that a module may import.
- `wasm`, `engine`: declarations, globals, data and element segments, the
  `main` function (its start-up: mapping the memories and the tables,
  aborting with -1 when that fails, filling the memories, then calling
  `wasm_main`) and the compilation of a whole module, with the inputs on
  which each stage fails.
- `semantics`: the values that the straight-line integer operations of a
  plan compute on 32-bit and 64-bit integers, and of the operations that
  refer to, load and store globals; with laws over them: the operations
  emitted for a right rotation undo those emitted for a left rotation, and
  reading a global gives back what writing it stored.
- `text`, `error`: symbol names and error messages.

`app/` is the program around the library: it reads the `.wasm` files, hands
the decoded module to the library, lowers the plan onto LLVM through
`llvm-sys`, and links the result.

`tests/` holds the tests, among them a small interpreter of the plan that
runs compiled functions.
