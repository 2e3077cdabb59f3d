//! Devices that a bus can address, and a plain memory device.
use vstd::prelude::*;

use core::marker::PhantomData;

use crate::ztiny_core::numeric::{AddressType, WordType};

verus! {

/// A device that answers reads and writes at device-local offsets.
///
/// The address and word types are parameters of the trait, so that a bus can
/// hold devices of one kind as `dyn Device<A, W>`.
pub trait Device<A: AddressType, W: WordType> {
    /// The size of the device's addressable region.
    fn len(&self) -> A;

    /// Convenience helper to detect an empty device region.
    fn is_empty(&self) -> bool;

    /// Read a word at a device-local offset.
    ///
    /// The bus turns global addresses into device-local offsets.
    fn read(&mut self, offset: A) -> W;

    /// Write a word at a device-local offset.
    fn write(&mut self, offset: A, value: W);
}

/// A block of memory with one word per address of the address type.
///
/// It is not a [`Device`] and has no `Default`. Answering reads and writes
/// needs a conversion between addresses and indices that `AddressType` does
/// not offer, and `len` could not report the size of a full memory, whose
/// `2^BITS` words never fit in the address type. A default memory would have
/// to fail wherever `2^BITS` words do not fit in a `usize`, which a generic
/// `Default` cannot rule out.
pub struct MemoryDevices<A: AddressType, W: WordType> {
    pub data: Box<[W]>,
    pub read_only: bool,
    _address: PhantomData<A>,
}

/// The number of words a memory device holds: one per value of an address
/// type of `bits` bits.
pub open spec fn memory_capacity(bits: u8) -> nat {
    vstd::arithmetic::power2::pow2(bits as nat)
}

impl<A: AddressType, W: WordType> MemoryDevices<A, W> {
    /// The words the device holds.
    pub closed spec fn words(&self) -> Seq<W> {
        self.data@
    }

    /// Whether guest writes are ignored.
    pub closed spec fn is_read_only(&self) -> bool {
        self.read_only
    }
}

impl<A, W> MemoryDevices<A, W> where A: AddressType, W: WordType + Default {
    /// A read-only memory covering every address of `A`, each word holding
    /// `W`'s default value.
    ///
    /// The capacity `2^A::BITS` must fit in a `usize`.
    pub fn new() -> (memory: Self)
        requires
            (A::BITS as u32) < usize::BITS,
        ensures
            memory.words().len() == memory_capacity(A::BITS),
            forall|i: int|
                0 <= i < memory.words().len() ==> call_ensures(
                    W::default,
                    (),
                    #[trigger] memory.words()[i],
                ),
            memory.is_read_only(),
    {
        let bits: usize = A::BITS as usize;
        let capacity: usize = 1usize << bits;
        proof {
            vstd::bits::lemma_usize_pow2_no_overflow(bits as nat);
            vstd::bits::lemma_usize_shl_is_mul(1, bits);
        }
        let mut data: Vec<W> = Vec::with_capacity(capacity);
        while data.len() < capacity
            invariant
                data@.len() <= capacity,
                capacity == memory_capacity(A::BITS),
                forall|i: int| 0 <= i < data@.len() ==> call_ensures(W::default, (), #[trigger] data@[i]),
            decreases capacity - data@.len(),
        {
            let word = W::default();
            data.push(word);
        }
        MemoryDevices { data: boxed_slice(data), read_only: true, _address: PhantomData }
    }
}

/// `Vec::into_boxed_slice`: the same elements, in a boxed slice.
#[verifier::external_body]
fn boxed_slice<W>(data: Vec<W>) -> (boxed: Box<[W]>)
    ensures
        boxed@ == data@,
{
    data.into_boxed_slice()
}

} // verus!
