//! The evaluator: an explicit context that owns the refresh primitive with
//! its scratch state, and runs the operations on ciphertexts.

pub mod neg;
pub mod refresh;
pub mod sub;

use crate::ciphertext::PBSOrder;
use crate::lwe::LweCiphertext;
use crate::server_key::ServerKey;
use vstd::prelude::*;

verus! {

/// Why an operation of the engine did not complete.
#[derive(Clone, Copy, Debug, PartialEq, Eq, Structural)]
pub enum EngineError {
    /// The bootstrap could not be carried out.
    BootstrapFailed,
    /// The bootstrap handed back a sample of another size than it was given.
    SampleSizeMismatch,
}

/// The result of an operation of the engine.
pub type EngineResult<T> = Result<T, EngineError>;

/// The programmable bootstrap that a refresh runs.
///
/// An implementation evaluates the function that keeps the message and
/// drops the carry, homomorphically, with the material of `server_key` and
/// in the order given. Nothing is assumed of what it returns: the engine
/// checks the size of the sample and sets the degree itself.
pub trait Bootstrapper {
    /// Bootstraps `sample` and hands back the new sample, or the reason why
    /// it could not.
    fn message_extract(
        &mut self,
        server_key: &ServerKey,
        order: PBSOrder,
        sample: &LweCiphertext,
    ) -> Result<LweCiphertext, EngineError>;
}

/// The evaluator. One instance serves one sequence of operations at a time.
pub struct ShortintEngine<B: Bootstrapper> {
    /// The refresh primitive, with whatever buffers and generators it keeps.
    pub bootstrapper: B,
}

impl<B: Bootstrapper> ShortintEngine<B> {
    /// An engine that refreshes with `bootstrapper`.
    pub fn new(bootstrapper: B) -> (engine: Self)
        ensures
            engine.bootstrapper == bootstrapper,
    {
        ShortintEngine { bootstrapper }
    }
}

} // verus!
