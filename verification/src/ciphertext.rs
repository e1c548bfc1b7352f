//! Ciphertexts: a lattice sample, the degree of what it encodes, and the
//! order in which a refresh switches keys and bootstraps.

use crate::degree::Degree;
use crate::lwe::LweCiphertext;
use core::marker::PhantomData;
use vstd::prelude::*;

verus! {

/// The two orders in which a refresh can run its steps.
#[derive(Clone, Copy, Debug, PartialEq, Eq, Structural)]
pub enum PBSOrder {
    /// The key switch comes first, the bootstrap second.
    KeyswitchBootstrap,
    /// The bootstrap comes first, the key switch second.
    BootstrapKeyswitch,
}

/// A type that stands for one refresh order.
///
/// A ciphertext carries its order in its type, so the two operands of a
/// binary operation cannot differ in it.
pub trait PBSOrderMarker: Sized {
    /// The order this type stands for.
    spec fn order() -> PBSOrder;

    /// The order this type stands for.
    fn pbs_order() -> (order: PBSOrder)
        ensures
            order == Self::order(),
    ;
}

/// Marks ciphertexts that are key-switched before they are bootstrapped.
#[derive(Clone, Copy, Debug)]
pub struct KeyswitchBootstrap;

/// Marks ciphertexts that are bootstrapped before they are key-switched.
#[derive(Clone, Copy, Debug)]
pub struct BootstrapKeyswitch;

impl PBSOrderMarker for KeyswitchBootstrap {
    open spec fn order() -> PBSOrder {
        PBSOrder::KeyswitchBootstrap
    }

    fn pbs_order() -> (order: PBSOrder) {
        PBSOrder::KeyswitchBootstrap
    }
}

impl PBSOrderMarker for BootstrapKeyswitch {
    open spec fn order() -> PBSOrder {
        PBSOrder::BootstrapKeyswitch
    }

    fn pbs_order() -> (order: PBSOrder) {
        PBSOrder::BootstrapKeyswitch
    }
}

/// What a ciphertext is to the arithmetic: its sample and its degree.
pub struct CiphertextView {
    pub sample: Seq<u64>,
    pub degree: nat,
}

/// An encrypted value together with the bound on what it encodes.
#[derive(Debug)]
pub struct CiphertextBase<OpOrder: PBSOrderMarker> {
    /// The lattice sample.
    pub ct: LweCiphertext,
    /// The bound on the encoded value.
    pub degree: Degree,
    pub _order_marker: PhantomData<OpOrder>,
}

/// A ciphertext that is key-switched before it is bootstrapped.
pub type CiphertextBig = CiphertextBase<KeyswitchBootstrap>;

/// A ciphertext that is bootstrapped before it is key-switched.
pub type CiphertextSmall = CiphertextBase<BootstrapKeyswitch>;

impl<OpOrder: PBSOrderMarker> View for CiphertextBase<OpOrder> {
    type V = CiphertextView;

    open spec fn view(&self) -> CiphertextView {
        CiphertextView { sample: self.ct@, degree: self.degree@ }
    }
}

impl<OpOrder: PBSOrderMarker> Clone for CiphertextBase<OpOrder> {
    /// An independent copy: same sample, same degree.
    fn clone(&self) -> (copy: Self)
        ensures
            copy@ == self@,
    {
        CiphertextBase { ct: self.ct.clone(), degree: self.degree, _order_marker: PhantomData }
    }
}

impl<OpOrder: PBSOrderMarker> CiphertextBase<OpOrder> {
    /// A ciphertext has a body.
    pub open spec fn wf(&self) -> bool {
        self@.sample.len() >= 1
    }

    /// Puts a sample and the bound on what it encodes together.
    pub fn new(ct: LweCiphertext, degree: Degree) -> (ciphertext: Self)
        ensures
            ciphertext@ == (CiphertextView { sample: ct@, degree: degree@ }),
    {
        CiphertextBase { ct, degree, _order_marker: PhantomData }
    }

    /// The current degree.
    pub fn degree(&self) -> (degree: Degree)
        ensures
            degree@ == self@.degree,
    {
        self.degree
    }

    /// Replaces the degree. The caller answers for the new bound.
    pub fn set_degree(&mut self, degree: Degree)
        ensures
            final(self)@ == (CiphertextView { sample: old(self)@.sample, degree: degree@ }),
    {
        self.degree = degree;
    }

    /// The refresh order of this ciphertext.
    pub fn pbs_order(&self) -> (order: PBSOrder)
        ensures
            order == OpOrder::order(),
    {
        OpOrder::pbs_order()
    }
}

} // verus!
