//! The arguments of a request to set parameter values.

use vstd::prelude::*;

verus! {

#[derive(Debug)]
pub struct Args {
    /// The number of parameters that the request sets.
    pub number_of_parameters: u16,
    /// For each parameter its hash and a 64-bit field with the new value.
    pub parameter_set_data: Vec<u8>,
}

} // verus!
