use vstd::prelude::*;

verus! {

/// The integer type that addresses a WebAssembly linear memory (`u32` for
/// wasm32, `u64` for wasm64).
pub trait WasmIntType: Sized {
    /// Its width in bits is 32 or 64.
    proof fn lemma_width()
        ensures
            vstd::layout::size_of::<Self>() == 4 || vstd::layout::size_of::<Self>() == 8,
    ;
}

impl WasmIntType for u32 {
    proof fn lemma_width() {
        broadcast use vstd::layout::layout_of_primitives;
    }
}

impl WasmIntType for u64 {
    proof fn lemma_width() {
        broadcast use vstd::layout::layout_of_primitives;
    }
}

/// The integer number types of WebAssembly values.
pub trait WasmNumberType {
}

impl WasmNumberType for i32 {
}

impl WasmNumberType for i64 {
}

} // verus!
