//! Subtraction.

use crate::ciphertext::{CiphertextBase, CiphertextView, PBSOrderMarker};
use crate::degree::combined_bound;
use crate::engine::neg::negation;
use crate::engine::refresh::{after_bootstrap, reset_to_base};
use crate::engine::{Bootstrapper, EngineError, EngineResult, ShortintEngine};
use crate::lwe::{
    lemma_sum_with_opposite, lwe_ciphertext_add_assign, sample_difference, sample_shift,
    sample_sum, LweCiphertext,
};
use crate::parameters::{scaled_plaintext, Parameters};
use crate::server_key::{fresh_sub_possible, op_possible, OpKind, ServerKey};
use vstd::prelude::*;

verus! {

/// The difference of two ciphertexts.
///
/// The sample is the difference of the two samples, with the correcting term
/// of the right operand, scaled, added to its body. The degree is that of
/// the left operand plus the correcting term.
pub open spec fn difference(
    left: CiphertextView,
    right: CiphertextView,
    parameters: Parameters,
) -> CiphertextView {
    let term = parameters.correcting_term(right.degree);
    CiphertextView {
        sample: sample_shift(
            sample_difference(left.sample, right.sample),
            scaled_plaintext(term, parameters.delta()),
        ),
        degree: left.degree + term,
    }
}

/// The left operand with the negation of the right one added to it: the
/// samples add up, and so do the degrees.
pub open spec fn sum_with_negation(
    left: CiphertextView,
    right: CiphertextView,
    parameters: Parameters,
) -> CiphertextView {
    let negated = negation(right, parameters);
    CiphertextView {
        sample: sample_sum(left.sample, negated.sample),
        degree: combined_bound(left.degree, negated.degree),
    }
}

/// The two samples have one size and a body, and the degree of the
/// difference is a machine integer.
pub open spec fn sub_fits(
    left: CiphertextView,
    right: CiphertextView,
    parameters: Parameters,
) -> bool {
    &&& right.sample.len() >= 1
    &&& left.sample.len() == right.sample.len()
    &&& left.degree + parameters.correcting_term(right.degree) <= usize::MAX
}

/// `right` can be subtracted from `left` within the maximum degree.
pub open spec fn sub_possible(
    left: CiphertextView,
    right: CiphertextView,
    parameters: Parameters,
) -> bool {
    op_possible(OpKind::Sub, left.degree, right.degree, parameters)
}

/// The shape of the operands of a smart subtraction that succeeded:
/// untouched where the subtraction was possible as they were, both at the
/// base degree with samples of the old size where it was not.
pub open spec fn operands_prepared(
    left_before: CiphertextView,
    right_before: CiphertextView,
    left_after: CiphertextView,
    right_after: CiphertextView,
    parameters: Parameters,
) -> bool {
    if sub_possible(left_before, right_before, parameters) {
        left_after == left_before && right_after == right_before
    } else {
        reset_to_base(left_before, left_after, parameters) && reset_to_base(
            right_before,
            right_after,
            parameters,
        )
    }
}

/// The shape of the operands of a smart subtraction that failed: a refresh
/// was needed, the left operand is untouched, and the right one is
/// untouched or at the base degree with a sample of the old size.
pub open spec fn operands_abandoned(
    left_before: CiphertextView,
    right_before: CiphertextView,
    left_after: CiphertextView,
    right_after: CiphertextView,
    parameters: Parameters,
) -> bool {
    &&& !sub_possible(left_before, right_before, parameters)
    &&& left_after == left_before
    &&& (right_after == right_before || reset_to_base(right_before, right_after, parameters))
}

/// What a smart subtraction asks of its arguments: samples of one size
/// with a body, and degrees that stay machine integers once the operands
/// are refreshed.
pub open spec fn smart_sub_fits(
    left: CiphertextView,
    right: CiphertextView,
    parameters: Parameters,
) -> bool {
    &&& right.sample.len() >= 1
    &&& left.sample.len() == right.sample.len()
    &&& parameters.base_degree() + parameters.correcting_term(parameters.base_degree())
        <= usize::MAX
}

/// Adding the negation of the right operand to the left one gives their
/// difference, bit for bit and with the same degree.
pub proof fn lemma_sub_is_sum_with_negation(
    left: CiphertextView,
    right: CiphertextView,
    parameters: Parameters,
)
    requires
        left.sample.len() == right.sample.len(),
        right.sample.len() >= 1,
    ensures
        sum_with_negation(left, right, parameters) == difference(left, right, parameters),
{
    lemma_sum_with_opposite(
        left.sample,
        right.sample,
        scaled_plaintext(parameters.correcting_term(right.degree), parameters.delta()),
    );
}

/// The degree of a difference is the degree of the left operand plus the
/// correcting term, and the correcting term is the one that negating the
/// right operand alone gives.
pub proof fn lemma_sub_degree(left: CiphertextView, right: CiphertextView, parameters: Parameters)
    ensures
        difference(left, right, parameters).degree == left.degree + negation(
            right,
            parameters,
        ).degree,
        sum_with_negation(left, right, parameters).degree == left.degree + negation(
            right,
            parameters,
        ).degree,
        negation(right, parameters).degree == parameters.correcting_term(right.degree),
{
}

/// Subtracting in place leaves in the left operand what subtracting by
/// value returns.
///
/// `assigned` is the left operand as the in-place subtraction leaves it,
/// `assigned_term` the correcting term that it hands back; `returned` and
/// `returned_term` are what the subtraction by value hands back.
pub proof fn lemma_sub_assign_agrees(
    left: CiphertextView,
    right: CiphertextView,
    parameters: Parameters,
    assigned: CiphertextView,
    assigned_term: nat,
    returned: CiphertextView,
    returned_term: nat,
)
    requires
        left.sample.len() == right.sample.len(),
        right.sample.len() >= 1,
        assigned == sum_with_negation(left, right, parameters),
        assigned_term == negation(right, parameters).degree,
        returned == difference(left, right, parameters),
        returned_term == parameters.correcting_term(right.degree),
    ensures
        assigned == returned,
        assigned_term == returned_term,
{
    lemma_sub_is_sum_with_negation(left, right, parameters);
}

impl<B: Bootstrapper> ShortintEngine<B> {
    /// Subtracts `ct_right` from `ct_left` without looking at the degrees.
    ///
    /// The result has the degree of the left operand plus the correcting
    /// term of the right one, whether or not that is within the maximum.
    /// The engine is left as it was: no bootstrap is run.
    pub fn unchecked_sub<OpOrder: PBSOrderMarker>(
        &mut self,
        server_key: &ServerKey,
        ct_left: &CiphertextBase<OpOrder>,
        ct_right: &CiphertextBase<OpOrder>,
    ) -> (subtracted: EngineResult<CiphertextBase<OpOrder>>)
        requires
            server_key.wf(),
            sub_fits(ct_left@, ct_right@, server_key.parameters),
        ensures
            subtracted matches Ok(result) && result@ == difference(
                ct_left@,
                ct_right@,
                server_key.parameters,
            ),
            *final(self) == *old(self),
    {
        let mut result = ct_left.clone();
        self.unchecked_sub_assign(server_key, &mut result, ct_right)?;

        Ok(result)
    }

    /// Subtracts `ct_right` from `ct_left` in place. The engine is left as
    /// it was: no bootstrap is run.
    pub fn unchecked_sub_assign<OpOrder: PBSOrderMarker>(
        &mut self,
        server_key: &ServerKey,
        ct_left: &mut CiphertextBase<OpOrder>,
        ct_right: &CiphertextBase<OpOrder>,
    ) -> (subtracted: EngineResult<()>)
        requires
            server_key.wf(),
            sub_fits(old(ct_left)@, ct_right@, server_key.parameters),
        ensures
            subtracted is Ok,
            final(ct_left)@ == difference(old(ct_left)@, ct_right@, server_key.parameters),
            *final(self) == *old(self),
    {
        self.unchecked_sub_assign_with_correcting_term(server_key, ct_left, ct_right)?;
        proof {
            lemma_sub_is_sum_with_negation(old(ct_left)@, ct_right@, server_key.parameters);
        }
        Ok(())
    }

    /// Subtracts `ct_right` from `ct_left` and also hands back the
    /// correcting term that the difference holds. The engine is left as it
    /// was: no bootstrap is run.
    pub fn unchecked_sub_with_correcting_term<OpOrder: PBSOrderMarker>(
        &mut self,
        server_key: &ServerKey,
        ct_left: &CiphertextBase<OpOrder>,
        ct_right: &CiphertextBase<OpOrder>,
    ) -> (subtracted: EngineResult<(CiphertextBase<OpOrder>, u64)>)
        requires
            server_key.wf(),
            sub_fits(ct_left@, ct_right@, server_key.parameters),
        ensures
            subtracted matches Ok((result, term)) && result@ == sum_with_negation(
                ct_left@,
                ct_right@,
                server_key.parameters,
            ) && term == negation(ct_right@, server_key.parameters).degree,
            *final(self) == *old(self),
    {
        let mut result = ct_left.clone();
        let z =
            self.unchecked_sub_assign_with_correcting_term(server_key, &mut result, ct_right)?;

        Ok((result, z))
    }

    /// Subtracts `ct_right` from `ct_left` in place and hands back the
    /// correcting term.
    ///
    /// The right operand is negated, which gives the correcting term; the
    /// negated sample is added to the left one; the degree of the left
    /// operand grows by the correcting term. The engine is left as it was:
    /// no bootstrap is run.
    pub fn unchecked_sub_assign_with_correcting_term<OpOrder: PBSOrderMarker>(
        &mut self,
        server_key: &ServerKey,
        ct_left: &mut CiphertextBase<OpOrder>,
        ct_right: &CiphertextBase<OpOrder>,
    ) -> (subtracted: EngineResult<u64>)
        requires
            server_key.wf(),
            sub_fits(old(ct_left)@, ct_right@, server_key.parameters),
        ensures
            subtracted matches Ok(term) && term == negation(
                ct_right@,
                server_key.parameters,
            ).degree,
            final(ct_left)@ == sum_with_negation(
                old(ct_left)@,
                ct_right@,
                server_key.parameters,
            ),
            *final(self) == *old(self),
    {
        let (neg_right, z) = self.unchecked_neg_with_correcting_term(server_key, ct_right)?;

        lwe_ciphertext_add_assign(&mut ct_left.ct, &neg_right.ct);

        ct_left.degree = ct_left.degree.combine_additive(neg_right.degree);

        Ok(z)
    }

    /// Refreshes both operands where the subtraction is not possible as they
    /// are: the right one first, then the left one.
    ///
    /// Where it is possible, no bootstrap is run. Where it is not, the
    /// bootstrap is run on the right sample; if that refresh fails, its
    /// error is returned and the left operand is not touched. Otherwise the
    /// bootstrap is run on the left sample, from the state in which the
    /// first run left the bootstrapper, and an error of that refresh is
    /// returned as it came.
    fn prepare_sub<OpOrder: PBSOrderMarker>(
        &mut self,
        server_key: &ServerKey,
        ct_left: &mut CiphertextBase<OpOrder>,
        ct_right: &mut CiphertextBase<OpOrder>,
    ) -> (prepared: EngineResult<()>)
        requires
            server_key.wf(),
        ensures
            match prepared {
                Ok(_) => operands_prepared(
                    old(ct_left)@,
                    old(ct_right)@,
                    final(ct_left)@,
                    final(ct_right)@,
                    server_key.parameters,
                ),
                Err(_) => operands_abandoned(
                    old(ct_left)@,
                    old(ct_right)@,
                    final(ct_left)@,
                    final(ct_right)@,
                    server_key.parameters,
                ),
            },
            sub_possible(old(ct_left)@, old(ct_right)@, server_key.parameters)
                ==> final(self).bootstrapper == old(self).bootstrapper,
            !sub_possible(old(ct_left)@, old(ct_right)@, server_key.parameters) ==> exists|
                right_outcome: Result<LweCiphertext, EngineError>,
                first: &mut B,
            |
                mut_ref_current(first) == old(self).bootstrapper && #[trigger] call_ensures(
                    B::message_extract,
                    (first, server_key, OpOrder::order(), &old(ct_right).ct),
                    right_outcome,
                ) && final(ct_right)@ == after_bootstrap(
                    old(ct_right)@,
                    right_outcome,
                    server_key.parameters,
                ).0 && match after_bootstrap(
                    old(ct_right)@,
                    right_outcome,
                    server_key.parameters,
                ).1 {
                    Err(error) => (prepared matches Err(passed) && passed == error)
                        && final(ct_left)@ == old(ct_left)@
                        && final(self).bootstrapper == mut_ref_future(first),
                    Ok(_) => exists|
                        left_outcome: Result<LweCiphertext, EngineError>,
                        second: &mut B,
                    |
                        mut_ref_current(second) == mut_ref_future(first)
                            && mut_ref_future(second) == final(self).bootstrapper
                            && #[trigger] call_ensures(
                            B::message_extract,
                            (second, server_key, OpOrder::order(), &old(ct_left).ct),
                            left_outcome,
                        ) && match after_bootstrap(
                            old(ct_left)@,
                            left_outcome,
                            server_key.parameters,
                        ).1 {
                            Err(error) => (prepared matches Err(passed) && passed == error)
                                && final(ct_left)@ == old(ct_left)@,
                            Ok(_) => prepared is Ok && final(ct_left)@ == after_bootstrap(
                                old(ct_left)@,
                                left_outcome,
                                server_key.parameters,
                            ).0,
                        },
                },
    {
        // If the ciphertext cannot be subtracted together without exceeding the degree max
        if !server_key.is_sub_possible(ct_left, ct_right) {
            self.message_extract_assign(server_key, ct_right)?;
            self.message_extract_assign(server_key, ct_left)?;
        }
        Ok(())
    }

    /// Subtracts `ct_right` from `ct_left`, refreshing both first where the
    /// difference would otherwise exceed the maximum degree.
    ///
    /// Where the subtraction is possible as the operands are, it succeeds,
    /// leaves them untouched and runs no bootstrap. Where it is not, the
    /// bootstrap is run once on the right sample and then, if that refresh
    /// succeeded, once on the left sample. Each operand becomes what its
    /// refresh makes of it. If both refreshes succeed, the call succeeds
    /// and the difference is that of the refreshed operands; if one fails,
    /// its error is returned as it came and no difference is computed.
    pub fn smart_sub<OpOrder: PBSOrderMarker>(
        &mut self,
        server_key: &ServerKey,
        ct_left: &mut CiphertextBase<OpOrder>,
        ct_right: &mut CiphertextBase<OpOrder>,
    ) -> (subtracted: EngineResult<CiphertextBase<OpOrder>>)
        requires
            server_key.wf(),
            smart_sub_fits(old(ct_left)@, old(ct_right)@, server_key.parameters),
        ensures
            match subtracted {
                Ok(result) => {
                    &&& operands_prepared(
                        old(ct_left)@,
                        old(ct_right)@,
                        final(ct_left)@,
                        final(ct_right)@,
                        server_key.parameters,
                    )
                    &&& result@ == difference(
                        final(ct_left)@,
                        final(ct_right)@,
                        server_key.parameters,
                    )
                    &&& fresh_sub_possible(server_key.parameters) ==> result@.degree
                        <= server_key.parameters.max_degree@
                },
                Err(_) => operands_abandoned(
                    old(ct_left)@,
                    old(ct_right)@,
                    final(ct_left)@,
                    final(ct_right)@,
                    server_key.parameters,
                ),
            },
            sub_possible(old(ct_left)@, old(ct_right)@, server_key.parameters)
                ==> final(self).bootstrapper == old(self).bootstrapper,
            !sub_possible(old(ct_left)@, old(ct_right)@, server_key.parameters) ==> exists|
                right_outcome: Result<LweCiphertext, EngineError>,
                first: &mut B,
            |
                mut_ref_current(first) == old(self).bootstrapper && #[trigger] call_ensures(
                    B::message_extract,
                    (first, server_key, OpOrder::order(), &old(ct_right).ct),
                    right_outcome,
                ) && final(ct_right)@ == after_bootstrap(
                    old(ct_right)@,
                    right_outcome,
                    server_key.parameters,
                ).0 && match after_bootstrap(
                    old(ct_right)@,
                    right_outcome,
                    server_key.parameters,
                ).1 {
                    Err(error) => (subtracted matches Err(passed) && passed == error)
                        && final(ct_left)@ == old(ct_left)@
                        && final(self).bootstrapper == mut_ref_future(first),
                    Ok(_) => exists|
                        left_outcome: Result<LweCiphertext, EngineError>,
                        second: &mut B,
                    |
                        mut_ref_current(second) == mut_ref_future(first)
                            && mut_ref_future(second) == final(self).bootstrapper
                            && #[trigger] call_ensures(
                            B::message_extract,
                            (second, server_key, OpOrder::order(), &old(ct_left).ct),
                            left_outcome,
                        ) && match after_bootstrap(
                            old(ct_left)@,
                            left_outcome,
                            server_key.parameters,
                        ).1 {
                            Err(error) => (subtracted matches Err(passed) && passed == error)
                                && final(ct_left)@ == old(ct_left)@,
                            Ok(_) => subtracted is Ok && final(ct_left)@ == after_bootstrap(
                                old(ct_left)@,
                                left_outcome,
                                server_key.parameters,
                            ).0,
                        },
                },
    {
        self.prepare_sub(server_key, ct_left, ct_right)?;
        self.unchecked_sub(server_key, ct_left, ct_right)
    }

    /// Subtracts `ct_right` from `ct_left` in place, refreshing both first
    /// where the difference would otherwise exceed the maximum degree.
    ///
    /// Bootstraps are run as in `smart_sub`: none where the subtraction is
    /// possible, else one on the right sample and then one on the left.
    /// On success `ct_left` holds the difference of the operands as they
    /// were after the refresh, if there was one: of `left_ready`, which is
    /// the old left operand or what its refresh made of it, and the right
    /// operand as the call leaves it. On failure `ct_left` is untouched and
    /// the error is that of the refresh that failed.
    pub fn smart_sub_assign<OpOrder: PBSOrderMarker>(
        &mut self,
        server_key: &ServerKey,
        ct_left: &mut CiphertextBase<OpOrder>,
        ct_right: &mut CiphertextBase<OpOrder>,
    ) -> (subtracted: EngineResult<()>)
        requires
            server_key.wf(),
            smart_sub_fits(old(ct_left)@, old(ct_right)@, server_key.parameters),
        ensures
            match subtracted {
                Ok(_) => (exists|left_ready: CiphertextView|
                    #[trigger] operands_prepared(
                        old(ct_left)@,
                        old(ct_right)@,
                        left_ready,
                        final(ct_right)@,
                        server_key.parameters,
                    ) && final(ct_left)@ == difference(
                        left_ready,
                        final(ct_right)@,
                        server_key.parameters,
                    )),
                Err(_) => operands_abandoned(
                    old(ct_left)@,
                    old(ct_right)@,
                    final(ct_left)@,
                    final(ct_right)@,
                    server_key.parameters,
                ),
            },
            subtracted is Ok && fresh_sub_possible(server_key.parameters)
                ==> final(ct_left)@.degree <= server_key.parameters.max_degree@,
            sub_possible(old(ct_left)@, old(ct_right)@, server_key.parameters)
                ==> final(self).bootstrapper == old(self).bootstrapper,
            !sub_possible(old(ct_left)@, old(ct_right)@, server_key.parameters) ==> exists|
                right_outcome: Result<LweCiphertext, EngineError>,
                first: &mut B,
            |
                mut_ref_current(first) == old(self).bootstrapper && #[trigger] call_ensures(
                    B::message_extract,
                    (first, server_key, OpOrder::order(), &old(ct_right).ct),
                    right_outcome,
                ) && final(ct_right)@ == after_bootstrap(
                    old(ct_right)@,
                    right_outcome,
                    server_key.parameters,
                ).0 && match after_bootstrap(
                    old(ct_right)@,
                    right_outcome,
                    server_key.parameters,
                ).1 {
                    Err(error) => (subtracted matches Err(passed) && passed == error)
                        && final(ct_left)@ == old(ct_left)@
                        && final(self).bootstrapper == mut_ref_future(first),
                    Ok(_) => exists|
                        left_outcome: Result<LweCiphertext, EngineError>,
                        second: &mut B,
                    |
                        mut_ref_current(second) == mut_ref_future(first)
                            && mut_ref_future(second) == final(self).bootstrapper
                            && #[trigger] call_ensures(
                            B::message_extract,
                            (second, server_key, OpOrder::order(), &old(ct_left).ct),
                            left_outcome,
                        ) && match after_bootstrap(
                            old(ct_left)@,
                            left_outcome,
                            server_key.parameters,
                        ).1 {
                            Err(error) => (subtracted matches Err(passed) && passed == error)
                                && final(ct_left)@ == old(ct_left)@,
                            Ok(_) => subtracted is Ok && final(ct_left)@ == difference(
                                after_bootstrap(
                                    old(ct_left)@,
                                    left_outcome,
                                    server_key.parameters,
                                ).0,
                                final(ct_right)@,
                                server_key.parameters,
                            ),
                        },
                },
    {
        self.prepare_sub(server_key, ct_left, ct_right)?;
        let ghost left_ready = ct_left@;
        self.unchecked_sub_assign(server_key, ct_left, ct_right)?;
        assert(operands_prepared(
            old(ct_left)@,
            old(ct_right)@,
            left_ready,
            ct_right@,
            server_key.parameters,
        ));
        Ok(())
    }

    /// Subtracts `ct_right` from `ct_left`, refreshing both first where
    /// needed, and also hands back the correcting term of the difference.
    /// Bootstraps are run, and errors passed on, as in `smart_sub`.
    pub fn smart_sub_with_correcting_term<OpOrder: PBSOrderMarker>(
        &mut self,
        server_key: &ServerKey,
        ct_left: &mut CiphertextBase<OpOrder>,
        ct_right: &mut CiphertextBase<OpOrder>,
    ) -> (subtracted: EngineResult<(CiphertextBase<OpOrder>, u64)>)
        requires
            server_key.wf(),
            smart_sub_fits(old(ct_left)@, old(ct_right)@, server_key.parameters),
        ensures
            match subtracted {
                Ok((result, term)) => {
                    &&& operands_prepared(
                        old(ct_left)@,
                        old(ct_right)@,
                        final(ct_left)@,
                        final(ct_right)@,
                        server_key.parameters,
                    )
                    &&& result@ == sum_with_negation(
                        final(ct_left)@,
                        final(ct_right)@,
                        server_key.parameters,
                    )
                    &&& term == negation(final(ct_right)@, server_key.parameters).degree
                    &&& fresh_sub_possible(server_key.parameters) ==> result@.degree
                        <= server_key.parameters.max_degree@
                },
                Err(_) => operands_abandoned(
                    old(ct_left)@,
                    old(ct_right)@,
                    final(ct_left)@,
                    final(ct_right)@,
                    server_key.parameters,
                ),
            },
            sub_possible(old(ct_left)@, old(ct_right)@, server_key.parameters)
                ==> final(self).bootstrapper == old(self).bootstrapper,
            !sub_possible(old(ct_left)@, old(ct_right)@, server_key.parameters) ==> exists|
                right_outcome: Result<LweCiphertext, EngineError>,
                first: &mut B,
            |
                mut_ref_current(first) == old(self).bootstrapper && #[trigger] call_ensures(
                    B::message_extract,
                    (first, server_key, OpOrder::order(), &old(ct_right).ct),
                    right_outcome,
                ) && final(ct_right)@ == after_bootstrap(
                    old(ct_right)@,
                    right_outcome,
                    server_key.parameters,
                ).0 && match after_bootstrap(
                    old(ct_right)@,
                    right_outcome,
                    server_key.parameters,
                ).1 {
                    Err(error) => (subtracted matches Err(passed) && passed == error)
                        && final(ct_left)@ == old(ct_left)@
                        && final(self).bootstrapper == mut_ref_future(first),
                    Ok(_) => exists|
                        left_outcome: Result<LweCiphertext, EngineError>,
                        second: &mut B,
                    |
                        mut_ref_current(second) == mut_ref_future(first)
                            && mut_ref_future(second) == final(self).bootstrapper
                            && #[trigger] call_ensures(
                            B::message_extract,
                            (second, server_key, OpOrder::order(), &old(ct_left).ct),
                            left_outcome,
                        ) && match after_bootstrap(
                            old(ct_left)@,
                            left_outcome,
                            server_key.parameters,
                        ).1 {
                            Err(error) => (subtracted matches Err(passed) && passed == error)
                                && final(ct_left)@ == old(ct_left)@,
                            Ok(_) => subtracted is Ok && final(ct_left)@ == after_bootstrap(
                                old(ct_left)@,
                                left_outcome,
                                server_key.parameters,
                            ).0,
                        },
                },
    {
        self.prepare_sub(server_key, ct_left, ct_right)?;
        self.unchecked_sub_with_correcting_term(server_key, ct_left, ct_right)
    }
}

} // verus!
