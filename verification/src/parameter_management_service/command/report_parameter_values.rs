//! The arguments of a request to report parameter values.

use vstd::prelude::*;

verus! {

#[derive(Debug)]
pub struct Args {
    /// The number of parameters that the request says it names.
    pub number_of_parameters: u16,
    /// The hashes that the request names.
    pub parameter_hashes: Vec<u32>,
}

} // verus!
