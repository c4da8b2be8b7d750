use vstd::prelude::*;
use vstd::string::StringExecFns;
use vstd::utf8::encode_utf8;

use crate::error::VpiError;
use crate::sealed::Sealed;
use crate::text::{decimal, push_decimal};

verus! {

/// Possible result of a VPI task.
pub trait VpiTaskResult: Sealed {
    /// Conversion into the result that the task reports.
    fn into_vpi_result(self) -> Result<(), VpiError>;
}

impl VpiTaskResult for () {
    /// A task that returns nothing succeeds.
    fn into_vpi_result(self) -> (r: Result<(), VpiError>)
        ensures
            r is Ok,
    {
        Ok(())
    }
}

impl VpiTaskResult for Result<(), VpiError> {
    /// A task that returns a result reports that result.
    fn into_vpi_result(self) -> (r: Result<(), VpiError>)
        ensures
            r == self,
    {
        self
    }
}

/// The name under which a Rust function `fn_name` is registered as a
/// system task: `$`, the name, and a closing nul byte.
pub fn systf_name(fn_name: &str) -> (r: Vec<u8>)
    ensures
        r@ == seq![36u8] + encode_utf8(fn_name@) + seq![0u8],
{
    let bytes = fn_name.as_bytes();
    let mut r: Vec<u8> = Vec::new();
    r.push(36u8);
    let mut i: usize = 0;
    while i < bytes.len()
        invariant
            i <= bytes@.len(),
            bytes@ == encode_utf8(fn_name@),
            r@ == seq![36u8] + bytes@.subrange(0, i as int),
        decreases bytes@.len() - i,
    {
        r.push(bytes[i]);
        proof {
            assert(seq![36u8] + bytes@.subrange(0, i + 1) =~= (seq![36u8] + bytes@.subrange(
                0,
                i as int,
            )).push(bytes@[i as int]));
        }
        i = i + 1;
    }
    r.push(0u8);
    proof {
        assert(bytes@.subrange(0, bytes@.len() as int) =~= bytes@);
    }
    r
}

/// The name of the `index`-th generated binding with the given prefix,
/// such as `arg_3`: the prefix, an underscore and the index in decimal.
pub fn indexed_name(prefix: &str, index: usize) -> (r: String)
    ensures
        r@ == prefix@ + seq!['_'] + decimal(index as nat),
{
    let mut s = String::new();
    s.append(prefix);
    proof {
        reveal_strlit("_");
    }
    s.append("_");
    push_decimal(&mut s, index);
    proof {
        assert(s@ =~= prefix@ + seq!['_'] + decimal(index as nat));
    }
    s
}

} // verus!
