use vstd::prelude::*;
use vstd::utf8::encode_utf8;

use crate::error::VpiError;
use crate::time::{time_value, VpiTime};

verus! {

/// Context of simulation, handed to the function that runs once the
/// simulator has started.
pub struct Context;

impl Context {
    /// Get simulation time: the number of ticks that the simulator's time
    /// `time` stands for.
    pub fn get_time(&self, time: VpiTime) -> (r: u64)
        ensures
            r == time_value(time.high, time.low),
    {
        time.ticks()
    }
}

/// The text of the error for a net that is not found.
pub const NET_NOT_FOUND: &'static str = "TODO change error type";

fn bytes_to_vec(bytes: &[u8]) -> (r: Vec<u8>)
    ensures
        r@ == bytes@,
{
    let mut n: Vec<u8> = Vec::new();
    let mut i: usize = 0;
    while i < bytes.len()
        invariant
            i <= bytes@.len(),
            n@ == bytes@.subrange(0, i as int),
        decreases bytes@.len() - i,
    {
        n.push(bytes[i]);
        i = i + 1;
    }
    proof {
        assert(n@ =~= bytes@);
    }
    n
}

/// The outcome of looking up the module whose name has the bytes `name`:
/// the handle where the simulator found one, else the error that names the
/// missing module.
pub fn module_lookup_result<H>(name: &[u8], handle: Option<H>) -> (r: Result<H, VpiError>)
    ensures
        r is Ok <==> handle is Some,
        handle matches Some(h) ==> r == Ok::<H, VpiError>(h),
        r matches Err(e) ==> e matches VpiError::NoModule(n) && n@ == name@,
{
    match handle {
        Some(h) => Ok(h),
        None => Err(VpiError::NoModule(bytes_to_vec(name))),
    }
}

/// The outcome of looking up a net in a module: the handle where the
/// simulator found one, else a `NoModule` error that holds the bytes of
/// [NET_NOT_FOUND].
pub fn net_lookup_result<H>(handle: Option<H>) -> (r: Result<H, VpiError>)
    ensures
        r is Ok <==> handle is Some,
        handle matches Some(h) ==> r == Ok::<H, VpiError>(h),
        r matches Err(e) ==> e matches VpiError::NoModule(n) && n@ == encode_utf8(
            NET_NOT_FOUND@,
        ),
{
    match handle {
        Some(h) => Ok(h),
        None => Err(VpiError::NoModule(bytes_to_vec(NET_NOT_FOUND.as_bytes()))),
    }
}

} // verus!
