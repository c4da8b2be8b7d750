use vstd::prelude::*;

verus! {

#[verifier::external_type_specification]
#[verifier::external_body]
pub struct ExUtf8Error(core::str::Utf8Error);

/// Errors relating to VPI.
#[derive(Debug, PartialEq, Eq)]
#[non_exhaustive]
pub enum VpiError {
    /// String conversion error from Verilog to Rust.
    Utf8Error(core::str::Utf8Error),
    /// Module was not found; holds the bytes of the name that was looked
    /// up, without its closing nul.
    NoModule(Vec<u8>),
    /// Vector length mismatch.
    BitVectorLengthMissMatch {
        /// Expected length.
        expected: usize,
        /// Obtained length.
        actual: usize,
    },
    /// Period too small.
    PeriodTooSmall,
}

} // verus!
