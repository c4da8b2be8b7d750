use vstd::prelude::*;

use crate::error::VpiError;

verus! {

/// Marks the types that the crate lets implement its closed traits.
pub trait Sealed {
}

impl Sealed for () {
}

impl Sealed for Result<(), VpiError> {
}

} // verus!
