use vstd::prelude::*;

verus! {

/// `libc::PROT_READ`, the protection flag for readable mappings.  Its value
/// is the platform's; nothing is stated of it.
#[verifier::external_body]
pub(crate) fn prot_read() -> i32 {
    libc::PROT_READ
}

/// `libc::PROT_WRITE`, the protection flag for writable mappings.  Its value
/// is the platform's; nothing is stated of it.
#[verifier::external_body]
pub(crate) fn prot_write() -> i32 {
    libc::PROT_WRITE
}

/// `libc::MAP_PRIVATE`, the flag for private mappings.  Its value is the
/// platform's; nothing is stated of it.
#[verifier::external_body]
pub(crate) fn map_private() -> i32 {
    libc::MAP_PRIVATE
}

/// `libc::MAP_ANONYMOUS`, the flag for mappings without a file.  Its value
/// is the platform's; nothing is stated of it.
#[verifier::external_body]
pub(crate) fn map_anonymous() -> i32 {
    libc::MAP_ANONYMOUS
}

} // verus!
