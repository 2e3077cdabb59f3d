//! Address regions: inclusive address ranges and the offsets within them.
use vstd::prelude::*;

use core::cmp::Ordering;
use vstd::std_specs::cmp::PartialOrdSpec;
use vstd::std_specs::ops::SubSpec;

use crate::ztiny_core::numeric::AddressType;

verus! {

/// An inclusive range of addresses, from `base` to `end`.
pub struct Region<A> where A: AddressType {
    base: A,
    end: A,
}

impl<A> Region<A> where A: AddressType {
    /// The first address of the region.
    pub closed spec fn first(&self) -> A {
        self.base
    }

    /// The last address of the region.
    pub closed spec fn last(&self) -> A {
        self.end
    }

    /// Whether `address` lies between the first and the last address, as
    /// the address type orders its values.
    pub open spec fn covers(&self, address: A) -> bool {
        &&& address.partial_cmp_spec(&self.first()) matches Some(Ordering::Greater | Ordering::Equal)
        &&& address.partial_cmp_spec(&self.last()) matches Some(Ordering::Less | Ordering::Equal)
    }

    /// Build a region from a start address to an inclusive end address.
    pub fn new(base: A, end: A) -> (region: Self)
        ensures
            region.first() == base,
            region.last() == end,
    {
        Region { base, end }
    }

    /// Check whether a global address falls into this region.
    pub fn contains(&self, address: A) -> (inside: bool)
        ensures
            inside == self.covers(address),
    {
        proof {
            A::lemma_numeric_order();
        }
        address >= self.base && address <= self.end
    }
}

impl<A> Region<A> where A: AddressType + core::ops::Sub<Output = A> {
    /// Compute the device-local offset for a given global address: its
    /// distance from the region's first address, or `None` outside the
    /// region.
    pub fn offset(&self, address: A) -> (offset: Option<A>)
        ensures
            offset == if self.covers(address) {
                Some(address.sub_spec(self.first()))
            } else {
                None::<A>
            },
    {
        proof {
            A::lemma_ordered_subtraction(address, self.base);
        }
        if self.contains(address) {
            Some(address - self.base)
        } else {
            None
        }
    }
}

/// For `u8` addresses a region covers exactly the addresses from its first
/// to its last one, both included, and an address's offset is its plain
/// distance from the first address.
pub proof fn lemma_u8_region_offset(region: Region<u8>, address: u8)
    ensures
        region.covers(address) == (region.first() <= address <= region.last()),
        region.covers(address) ==> address.sub_spec(region.first()) == address - region.first(),
{
}

/// For `u16` addresses a region covers exactly the addresses from its first
/// to its last one, both included, and an address's offset is its plain
/// distance from the first address.
pub proof fn lemma_u16_region_offset(region: Region<u16>, address: u16)
    ensures
        region.covers(address) == (region.first() <= address <= region.last()),
        region.covers(address) ==> address.sub_spec(region.first()) == address - region.first(),
{
}

/// For `u32` addresses a region covers exactly the addresses from its first
/// to its last one, both included, and an address's offset is its plain
/// distance from the first address.
pub proof fn lemma_u32_region_offset(region: Region<u32>, address: u32)
    ensures
        region.covers(address) == (region.first() <= address <= region.last()),
        region.covers(address) ==> address.sub_spec(region.first()) == address - region.first(),
{
}

} // verus!
