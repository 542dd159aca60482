use vstd::prelude::*;

verus! {

/// The width in bits of a value of type `T`.
pub fn bit_width<T>() -> (w: usize)
    requires
        vstd::layout::size_of::<T>() * 8 <= usize::MAX,
    ensures
        w == vstd::layout::size_of::<T>() * 8,
{
    core::mem::size_of::<T>() * 8
}

/// The width in bits of a machine word of the compiling host.
pub fn cpu_bit_width() -> (w: usize)
    ensures
        w == usize::BITS,
{
    proof {
        broadcast use vstd::layout::layout_of_primitives;
    }
    bit_width::<usize>()
}

} // verus!
