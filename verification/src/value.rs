use vstd::prelude::*;
use vstd::utf8::{decode_utf8, valid_utf8};

use crate::error::VpiError;

verus! {

/// Integers that travel through the simulator's 32-bit integer value
/// format (`vpiIntVal`).
pub trait VpiInteger: Sized {
    /// The value that the simulator's integer `v` gives.
    fn from_vpi_integer(v: i32) -> Self;

    /// The simulator integer that stands for the value.
    fn to_vpi_integer(&self) -> i32;
}

impl VpiInteger for i8 {
    /// Truncates to the low 8 bits.
    fn from_vpi_integer(v: i32) -> (r: i8)
        ensures
            r == v as i8,
    {
        v as i8
    }

    /// Sign-extends.
    fn to_vpi_integer(&self) -> (r: i32)
        ensures
            r == *self as i32,
    {
        *self as i32
    }
}

impl VpiInteger for i16 {
    /// Truncates to the low 16 bits.
    fn from_vpi_integer(v: i32) -> (r: i16)
        ensures
            r == v as i16,
    {
        v as i16
    }

    /// Sign-extends.
    fn to_vpi_integer(&self) -> (r: i32)
        ensures
            r == *self as i32,
    {
        *self as i32
    }
}

impl VpiInteger for i32 {
    fn from_vpi_integer(v: i32) -> (r: i32)
        ensures
            r == v,
    {
        v
    }

    fn to_vpi_integer(&self) -> (r: i32)
        ensures
            r == *self,
    {
        *self
    }
}

impl VpiInteger for i64 {
    /// Sign-extends.
    fn from_vpi_integer(v: i32) -> (r: i64)
        ensures
            r == v as i64,
    {
        v as i64
    }

    /// Truncates to the low 32 bits.
    fn to_vpi_integer(&self) -> (r: i32)
        ensures
            r == *self as i32,
    {
        *self as i32
    }
}

impl VpiInteger for u8 {
    /// Truncates to the low 8 bits.
    fn from_vpi_integer(v: i32) -> (r: u8)
        ensures
            r == v as u8,
    {
        v as u8
    }

    fn to_vpi_integer(&self) -> (r: i32)
        ensures
            r == *self as i32,
    {
        *self as i32
    }
}

impl VpiInteger for u16 {
    /// Truncates to the low 16 bits.
    fn from_vpi_integer(v: i32) -> (r: u16)
        ensures
            r == v as u16,
    {
        v as u16
    }

    fn to_vpi_integer(&self) -> (r: i32)
        ensures
            r == *self as i32,
    {
        *self as i32
    }
}

impl VpiInteger for u32 {
    /// Reads the 32 bits as unsigned.
    fn from_vpi_integer(v: i32) -> (r: u32)
        ensures
            r == v as u32,
    {
        v as u32
    }

    /// Reads the 32 bits as signed.
    fn to_vpi_integer(&self) -> (r: i32)
        ensures
            r == *self as i32,
    {
        *self as i32
    }
}

impl VpiInteger for u64 {
    /// Sign-extends the 32 bits to 64 and reads them as unsigned.
    fn from_vpi_integer(v: i32) -> (r: u64)
        ensures
            r == v as u64,
    {
        v as u64
    }

    /// Truncates to the low 32 bits, read as signed.
    fn to_vpi_integer(&self) -> (r: i32)
        ensures
            r == *self as i32,
    {
        *self as i32
    }
}

/// A value that goes to the simulator and back through its integer format
/// comes back unchanged, for every value of the types that hold at most 32
/// bits and for the 64-bit values that fit in an `i32`.
pub proof fn law_integer_round_trip()
    ensures
        forall|x: i8| #[trigger] ((x as i32) as i8) == x,
        forall|x: i16| #[trigger] ((x as i32) as i16) == x,
        forall|x: u8| #[trigger] ((x as i32) as u8) == x,
        forall|x: u16| #[trigger] ((x as i32) as u16) == x,
        forall|x: u32| #[trigger] ((x as i32) as u32) == x,
        forall|x: i64| i32::MIN <= x <= i32::MAX ==> #[trigger] ((x as i32) as i64) == x,
        forall|x: u64| x <= i32::MAX ==> #[trigger] ((x as i32) as u64) == x,
{
    assert forall|x: u32| #[trigger] ((x as i32) as u32) == x by {
        assert(((x as i32) as u32) == x) by (bit_vector);
    }
}

/// `core::str::from_utf8` (std): the bytes as a string where they are
/// valid UTF-8, the error that std reports where they are not. Claimed:
/// success exactly on valid UTF-8, and the string holds the decoded
/// characters. What the error says of the position of the fault is left
/// unsaid.
#[verifier::external_body]
fn str_from_utf8(bytes: &[u8]) -> (r: Result<&str, core::str::Utf8Error>)
    ensures
        r is Ok <==> valid_utf8(bytes@),
        r matches Ok(s) ==> s@ == decode_utf8(bytes@),
{
    core::str::from_utf8(bytes)
}

/// Views the bytes of a string value read from the simulator (the C string
/// without its closing nul) as a string.
pub fn str_from_vpi_bytes(bytes: &[u8]) -> (r: Result<&str, VpiError>)
    ensures
        r is Ok <==> valid_utf8(bytes@),
        r matches Ok(s) ==> s@ == decode_utf8(bytes@),
        r matches Err(e) ==> e is Utf8Error,
{
    match str_from_utf8(bytes) {
        Ok(s) => Ok(s),
        Err(e) => Err(VpiError::Utf8Error(e)),
    }
}

} // verus!
