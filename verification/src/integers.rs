//! What the layer of multi-block integers asks of the keys and parameter
//! types that it is built on.

use crate::parameters::Parameters;
use crate::server_key::ServerKey;
use vstd::prelude::*;

verus! {

/// A key for bootstraps that need no padding bit, next to the key it was
/// derived for.
#[derive(Debug)]
pub struct WopbsKey {
    /// The key that evaluates without a padding bit.
    pub wopbs_server_key: ServerKey,
    /// The key for the usual bootstrap.
    pub pbs_server_key: ServerKey,
}

/// A type that names one parameter set.
pub trait ParameterType: Sized {
    /// The parameters of one block.
    fn block_parameters(&self) -> Parameters;
}

/// Meant to be implemented on the inner server key.
pub trait EvaluationIntegerKey<ClientKey>: Sized {
    /// Derives the evaluation key of `client_key`.
    fn new(client_key: &ClientKey) -> Self;

    /// Derives, for `server_key`, the key for bootstraps without a padding
    /// bit under `wopbs_block_parameters`.
    fn new_wopbs_key(
        client_key: &ClientKey,
        server_key: &Self,
        wopbs_block_parameters: Parameters,
    ) -> WopbsKey;
}

/// Trait to mark parameters type for integers.
pub trait IntegerParameter: ParameterType {
    /// The number of blocks of one integer.
    fn num_blocks() -> usize;
}

} // verus!
