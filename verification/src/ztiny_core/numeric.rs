//! Core numeric abstractions for the emulator framework.
use vstd::prelude::*;

use core::cmp::Ordering;
use vstd::std_specs::cmp::PartialOrdSpec;
use vstd::std_specs::ops::SubSpec;

verus! {

/// Address width types supported by the system.
///
/// This trait is implemented for basic integer widths and is used by the
/// bus, devices, and CPU interfaces. Addresses are ordered as plain
/// integers, so subtracting a smaller address from a larger one never
/// underflows.
pub trait AddressType: Copy + Clone + Eq + Ord + core::fmt::Debug {
    const BITS: u8;

    /// Comparisons of addresses follow their numeric values.
    proof fn lemma_numeric_order()
        ensures
            Self::obeys_partial_cmp_spec(),
    ;

    /// Subtraction of addresses follows their numeric values: an address can
    /// be reduced by any address not above it.
    proof fn lemma_ordered_subtraction(larger: Self, smaller: Self) where
        Self: core::ops::Sub<Output = Self>,

        ensures
            Self::obeys_sub_spec(),
            larger.partial_cmp_spec(&smaller) matches Some(Ordering::Greater | Ordering::Equal)
                ==> larger.sub_req(smaller),
    ;
}

impl AddressType for u8 {
    const BITS: u8 = 8;

    proof fn lemma_numeric_order() {
    }

    proof fn lemma_ordered_subtraction(larger: Self, smaller: Self) {
    }
}

impl AddressType for u16 {
    const BITS: u8 = 16;

    proof fn lemma_numeric_order() {
    }

    proof fn lemma_ordered_subtraction(larger: Self, smaller: Self) {
    }
}

impl AddressType for u32 {
    const BITS: u8 = 32;

    proof fn lemma_numeric_order() {
    }

    proof fn lemma_ordered_subtraction(larger: Self, smaller: Self) {
    }
}

/// Word width types supported by the system.
///
/// This trait is the element type used for memory reads and writes.
pub trait WordType: Copy + Clone + Eq + Ord + core::fmt::Debug {
    const BITS: u8;
}

impl WordType for u8 {
    const BITS: u8 = 8;
}

impl WordType for u16 {
    const BITS: u8 = 16;
}

impl WordType for u32 {
    const BITS: u8 = 32;
}

} // verus!
