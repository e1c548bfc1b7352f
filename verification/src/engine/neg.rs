//! Negation with its correcting term.

use crate::ciphertext::{CiphertextBase, CiphertextView, PBSOrderMarker};
use crate::degree::Degree;
use crate::engine::{Bootstrapper, EngineResult, ShortintEngine};
use crate::lwe::{
    lwe_ciphertext_opposite_assign, lwe_ciphertext_plaintext_add_assign, sample_opposite,
    sample_shift,
};
use crate::parameters::{scaled_plaintext, Parameters};
use crate::server_key::ServerKey;
use vstd::prelude::*;

verus! {

/// The negation of a ciphertext.
///
/// The sample is the opposite sample with the correcting term, scaled, added
/// to its body; the degree is the correcting term.
pub open spec fn negation(ct: CiphertextView, parameters: Parameters) -> CiphertextView {
    let term = parameters.correcting_term(ct.degree);
    CiphertextView {
        sample: sample_shift(
            sample_opposite(ct.sample),
            scaled_plaintext(term, parameters.delta()),
        ),
        degree: term,
    }
}

impl<B: Bootstrapper> ShortintEngine<B> {
    /// Negates `ct` and hands back the negation with the correcting term
    /// that it holds. The engine is left as it was: no bootstrap is run.
    pub fn unchecked_neg_with_correcting_term<OpOrder: PBSOrderMarker>(
        &mut self,
        server_key: &ServerKey,
        ct: &CiphertextBase<OpOrder>,
    ) -> (negated: EngineResult<(CiphertextBase<OpOrder>, u64)>)
        requires
            server_key.wf(),
            ct.wf(),
            server_key.parameters.correcting_term(ct@.degree) <= usize::MAX,
        ensures
            negated matches Ok((opposite, term)) && opposite@ == negation(
                ct@,
                server_key.parameters,
            ) && term == server_key.parameters.correcting_term(ct@.degree),
            *final(self) == *old(self),
    {
        let mut result = ct.clone();
        let term = self.unchecked_neg_assign_with_correcting_term(server_key, &mut result)?;
        Ok((result, term))
    }

    /// Negates `ct` in place and hands back the correcting term. The engine
    /// is left as it was: no bootstrap is run.
    pub fn unchecked_neg_assign_with_correcting_term<OpOrder: PBSOrderMarker>(
        &mut self,
        server_key: &ServerKey,
        ct: &mut CiphertextBase<OpOrder>,
    ) -> (corrected: EngineResult<u64>)
        requires
            server_key.wf(),
            old(ct).wf(),
            server_key.parameters.correcting_term(old(ct)@.degree) <= usize::MAX,
        ensures
            corrected matches Ok(term) && final(ct)@ == negation(old(ct)@, server_key.parameters)
                && term == server_key.parameters.correcting_term(old(ct)@.degree),
            *final(self) == *old(self),
    {
        let term: usize = match server_key.parameters.checked_correcting_term(ct.degree) {
            Some(term) => term,
            None => 0,
        };
        let delta: u64 = server_key.parameters.scaling_factor();
        let shift: u64 = (term as u64).wrapping_mul(delta);
        lwe_ciphertext_opposite_assign(&mut ct.ct);
        lwe_ciphertext_plaintext_add_assign(&mut ct.ct, shift);
        ct.degree = Degree(term);
        Ok(term as u64)
    }
}

} // verus!
