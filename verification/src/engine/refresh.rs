//! The refresh of a ciphertext: one bootstrap, after which the degree is
//! back at its base.

use crate::ciphertext::{CiphertextBase, CiphertextView, PBSOrderMarker};
use crate::degree::Degree;
use crate::engine::{Bootstrapper, EngineError, EngineResult, ShortintEngine};
use crate::lwe::LweCiphertext;
use crate::parameters::Parameters;
use crate::server_key::ServerKey;
use vstd::prelude::*;

verus! {

/// The shape that a refresh gives: `after` is at the base degree and its
/// sample has the size of that of `before`. Which sample it is, the
/// bootstrap decides.
pub open spec fn reset_to_base(
    before: CiphertextView,
    after: CiphertextView,
    parameters: Parameters,
) -> bool {
    &&& after.degree == parameters.base_degree()
    &&& after.sample.len() == before.sample.len()
}

/// What a ciphertext becomes once a bootstrap has handed back `outcome`.
pub open spec fn after_bootstrap(
    before: CiphertextView,
    outcome: Result<LweCiphertext, EngineError>,
    parameters: Parameters,
) -> (CiphertextView, EngineResult<()>) {
    match outcome {
        Ok(fresh) => if fresh@.len() == before.sample.len() {
            (CiphertextView { sample: fresh@, degree: parameters.base_degree() }, Ok(()))
        } else {
            (before, Err(EngineError::SampleSizeMismatch))
        },
        Err(error) => (before, Err(error)),
    }
}

/// Completes a refresh with what the bootstrap handed back.
///
/// A sample of the right size replaces the old one and the degree returns
/// to the base. Anything else leaves the ciphertext as it was: a failure of
/// the bootstrap is passed on as it came.
pub fn install_refreshed<OpOrder: PBSOrderMarker>(
    ct: &mut CiphertextBase<OpOrder>,
    outcome: Result<LweCiphertext, EngineError>,
    parameters: &Parameters,
) -> (done: EngineResult<()>)
    requires
        parameters.plaintext_modulus >= 1,
    ensures
        (final(ct)@, done) == after_bootstrap(old(ct)@, outcome, *parameters),
{
    match outcome {
        Ok(fresh) => {
            if fresh.len() == ct.ct.len() {
                ct.ct = fresh;
                ct.degree = Degree::base(parameters.plaintext_modulus);
                Ok(())
            } else {
                Err(EngineError::SampleSizeMismatch)
            }
        },
        Err(error) => Err(error),
    }
}

impl<B: Bootstrapper> ShortintEngine<B> {
    /// Refreshes `ct`: bootstraps its sample and resets its degree.
    ///
    /// The bootstrapper of the engine is run once, on the sample of `ct`,
    /// with `server_key` and in the order of the ciphertext's type, and is
    /// left as that run leaves it. What it hands back decides the rest, as
    /// `after_bootstrap` says: on success
    /// the ciphertext holds the sample that the bootstrap returned, at the
    /// base degree; on failure it is unchanged and the error is passed on.
    pub fn message_extract_assign<OpOrder: PBSOrderMarker>(
        &mut self,
        server_key: &ServerKey,
        ct: &mut CiphertextBase<OpOrder>,
    ) -> (done: EngineResult<()>)
        requires
            server_key.wf(),
        ensures
            exists|outcome: Result<LweCiphertext, EngineError>, run: &mut B|
                mut_ref_current(run) == old(self).bootstrapper
                    && mut_ref_future(run) == final(self).bootstrapper
                    && #[trigger] call_ensures(
                    B::message_extract,
                    (run, server_key, OpOrder::order(), &old(ct).ct),
                    outcome,
                ) && (final(ct)@, done) == after_bootstrap(
                    old(ct)@,
                    outcome,
                    server_key.parameters,
                ),
            match done {
                Ok(_) => reset_to_base(old(ct)@, final(ct)@, server_key.parameters),
                Err(_) => final(ct)@ == old(ct)@,
            },
    {
        let outcome = self.bootstrapper.message_extract(server_key, OpOrder::pbs_order(), &ct.ct);
        install_refreshed(ct, outcome, &server_key.parameters)
    }
}

} // verus!
