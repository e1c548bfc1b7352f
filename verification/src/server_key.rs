//! The evaluation key: key material, the parameter set, and the checks that
//! tell whether an operation keeps a ciphertext within its maximum degree.

use crate::ciphertext::{CiphertextBase, PBSOrderMarker};
use crate::degree::combined_bound;
use crate::parameters::{lemma_correcting_term_of_multiple, Parameters};
use vstd::prelude::*;

verus! {

/// The binary operations whose feasibility a key can judge.
#[derive(Clone, Copy, Debug, PartialEq, Eq, Structural)]
pub enum OpKind {
    Add,
    Sub,
}

/// The degree of the result of `op` on operands of degrees `left` and
/// `right`.
///
/// Both operations add two samples and so add two bounds. A subtraction
/// adds the negated right operand, whose bound is its correcting term.
pub open spec fn result_degree(op: OpKind, left: nat, right: nat, parameters: Parameters) -> nat {
    match op {
        OpKind::Add => combined_bound(left, right),
        OpKind::Sub => combined_bound(left, parameters.correcting_term(right)),
    }
}

/// `op` on operands of these degrees stays within the maximum degree.
pub open spec fn op_possible(op: OpKind, left: nat, right: nat, parameters: Parameters) -> bool {
    result_degree(op, left, right, parameters) <= parameters.max_degree@
}

/// Two freshly refreshed ciphertexts can be subtracted.
pub open spec fn fresh_sub_possible(parameters: Parameters) -> bool {
    op_possible(OpKind::Sub, parameters.base_degree(), parameters.base_degree(), parameters)
}

/// The material and the parameters that evaluation needs. It is never
/// changed by an operation.
#[derive(Debug)]
pub struct ServerKey {
    /// The key-switching key, as the refresh primitive lays it out.
    pub key_switching_key: Vec<u64>,
    /// The bootstrapping key, as the refresh primitive lays it out.
    pub bootstrapping_key: Vec<u64>,
    /// The parameter set.
    pub parameters: Parameters,
}

impl ServerKey {
    /// The parameters of the key are well formed.
    pub open spec fn wf(&self) -> bool {
        self.parameters.wf()
    }

    /// Bundles key material with its parameters.
    pub fn new(
        key_switching_key: Vec<u64>,
        bootstrapping_key: Vec<u64>,
        parameters: Parameters,
    ) -> (key: ServerKey)
        ensures
            key.parameters == parameters,
            key.key_switching_key@ == key_switching_key@,
            key.bootstrapping_key@ == bootstrapping_key@,
    {
        ServerKey { key_switching_key, bootstrapping_key, parameters }
    }

    /// Whether `op_kind` on the two operands, at their current degrees,
    /// gives a result within the maximum degree.
    pub fn is_op_possible<OpOrder: PBSOrderMarker>(
        &self,
        op_kind: OpKind,
        ct_left: &CiphertextBase<OpOrder>,
        ct_right: &CiphertextBase<OpOrder>,
    ) -> (possible: bool)
        requires
            self.wf(),
        ensures
            possible == op_possible(op_kind, ct_left@.degree, ct_right@.degree, self.parameters),
    {
        let added: Option<usize> = match op_kind {
            OpKind::Add => Some(ct_right.degree.0),
            OpKind::Sub => self.parameters.checked_correcting_term(ct_right.degree),
        };
        match added {
            Some(bound) => match ct_left.degree.0.checked_add(bound) {
                Some(total) => total <= self.parameters.max_degree.0,
                None => false,
            },
            None => false,
        }
    }

    /// Whether `ct_right` can be subtracted from `ct_left`.
    pub fn is_sub_possible<OpOrder: PBSOrderMarker>(
        &self,
        ct_left: &CiphertextBase<OpOrder>,
        ct_right: &CiphertextBase<OpOrder>,
    ) -> (possible: bool)
        requires
            self.wf(),
        ensures
            possible == op_possible(
                OpKind::Sub,
                ct_left@.degree,
                ct_right@.degree,
                self.parameters,
            ),
    {
        self.is_op_possible(OpKind::Sub, ct_left, ct_right)
    }
}

/// Where the right operand's degree is a multiple of the plaintext modulus,
/// a subtraction is possible exactly when the sum of the two degrees stays
/// within the maximum degree, as for an addition.
pub proof fn lemma_sub_possible_as_add(left: nat, right: nat, parameters: Parameters)
    requires
        parameters.wf(),
        right % (parameters.plaintext_modulus as nat) == 0,
    ensures
        op_possible(OpKind::Sub, left, right, parameters) == op_possible(
            OpKind::Add,
            left,
            right,
            parameters,
        ),
{
    lemma_correcting_term_of_multiple(right, parameters.plaintext_modulus as nat);
}

} // verus!
