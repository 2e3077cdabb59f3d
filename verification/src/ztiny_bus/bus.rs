//! A bus that routes global addresses to attached devices through an
//! address map.
use vstd::prelude::*;

use vstd::std_specs::ops::SubSpec;

use crate::ztiny_bus::attachment::Attachment;
use crate::ztiny_bus::device::Device;
use crate::ztiny_bus::id::DeviceId;
use crate::ztiny_bus::map::AddressMap;
use crate::ztiny_bus::region::Region;
use crate::ztiny_core::numeric::{AddressType, WordType};

verus! {

/// Word-wide reads and writes at global addresses; `None` marks an address
/// that nothing answers.
pub trait BusAccess {
    type Address: AddressType;

    type Word: WordType;

    fn read(&mut self, address: Self::Address) -> Option<Self::Word>;

    fn write(&mut self, address: Self::Address, value: Self::Word) -> Option<()>;
}

/// Devices attached to regions of one address space, found through an
/// address map.
#[derive(Default)]
#[verifier::reject_recursive_types(A)]
#[verifier::reject_recursive_types(W)]
pub struct Bus<A: AddressType, W: WordType, M = dyn AddressMap<A>> where M: AddressMap<A> {
    devices: Vec<Box<dyn Device<A, W>>>,
    map: M,
}

impl<A, W, M> Bus<A, W, M> where A: AddressType, W: WordType, M: AddressMap<A> {
    /// The number of attached devices.
    pub closed spec fn device_count(&self) -> nat {
        self.devices@.len()
    }

    /// The address map that routes addresses to attachments.
    pub closed spec fn address_map(&self) -> M {
        self.map
    }

    /// The attached devices, indexed by their IDs.
    pub closed spec fn attached(&self) -> Seq<Box<dyn Device<A, W>>> {
        self.devices@
    }

    /// How an access to `address` that the address map answered with
    /// `found` leaves the bus: it is answered exactly when the attachment's
    /// region covers the address and its device is attached; then only that
    /// device may change, else no device changes.
    pub open spec fn routed(
        &self,
        after: &Self,
        address: A,
        found: Option<&Attachment<A>>,
        answered: bool,
    ) -> bool {
        &&& after.address_map() == self.address_map()
        &&& after.attached().len() == self.attached().len()
        &&& match found {
            Some(attachment) => if attachment.region.covers(address) && attachment.device.number()
                < self.attached().len() {
                &&& answered
                &&& replaced_at(
                    self.attached(),
                    attachment.device.number() as int,
                    after.attached(),
                )
            } else {
                &&& !answered
                &&& after.attached() == self.attached()
            },
            None => !answered && after.attached() == self.attached(),
        }
    }

    /// A bus with no devices, routing through `map`.
    pub fn with_map(map: M) -> (bus: Self)
        ensures
            bus.device_count() == 0,
            bus.address_map() == map,
    {
        Bus { devices: Vec::new(), map }
    }

    /// A bus with no devices and the address map's default value.
    pub fn new() -> (bus: Self) where M: Default
        ensures
            bus.device_count() == 0,
    {
        Self::with_map(M::default())
    }

    /// Attaches `device` to `region`: the device gets the next free ID, and
    /// the attachment is inserted in the address map.
    pub fn attach(&mut self, device: Box<dyn Device<A, W>>, region: Region<A>) -> (id: DeviceId)
        requires
            old(self).device_count() < usize::MAX,
        ensures
            id.number() == old(self).device_count(),
            final(self).device_count() == old(self).device_count() + 1,
            final(self).attached() == old(self).attached().push(device),
            exists|map: &mut M|
                {
                    &&& #[trigger] call_ensures(
                        M::insert,
                        (map, (Attachment { region, device: id })),
                        (),
                    )
                    &&& *map == old(self).address_map()
                    &&& *final(map) == final(self).address_map()
                },
    {
        let id = DeviceId::new(self.devices.len());
        let ghost before = self.devices@;
        self.devices.push(device);
        proof {
            lemma_push_adds_one(before, device);
        }
        self.map.insert(Attachment { region, device: id });
        id
    }
}

/// `device.read(offset)` may return `word`, leaving the device as `device`
/// finally is.
pub open spec fn device_read_gives<A: AddressType, W: WordType, D: Device<A, W> + ?Sized>(
    device: &mut D,
    offset: A,
    word: W,
) -> bool {
    call_ensures(<D as Device<A, W>>::read, (device, offset), word)
}

/// `device.write(offset, value)` may leave the device as `device` finally
/// is.
pub open spec fn device_write_done<A: AddressType, W: WordType, D: Device<A, W> + ?Sized>(
    device: &mut D,
    offset: A,
    value: W,
) -> bool {
    call_ensures(<D as Device<A, W>>::write, (device, offset, value), ())
}

/// Reads the word at `offset` from `device`.
fn read_device<A: AddressType, W: WordType, D: Device<A, W> + ?Sized>(
    device: &mut D,
    offset: A,
) -> (word: W)
    ensures
        exists|target: &mut D|
            #![trigger call_ensures(<D as Device<A, W>>::read, (target, offset), word)]
            #![trigger device_read_gives(target, offset, word)]
            {
                &&& device_read_gives(target, offset, word)
                &&& &*target == &*old(device)
                &&& &*final(target) == &*final(device)
            },
{
    device.read(offset)
}

/// Writes `value` at `offset` to `device`.
fn write_device<A: AddressType, W: WordType, D: Device<A, W> + ?Sized>(
    device: &mut D,
    offset: A,
    value: W,
)
    ensures
        exists|target: &mut D|
            #![trigger call_ensures(<D as Device<A, W>>::write, (target, offset, value), ())]
            #![trigger device_write_done(target, offset, value)]
            {
                &&& device_write_done(target, offset, value)
                &&& &*target == &*old(device)
                &&& &*final(target) == &*final(device)
            },
{
    device.write(offset, value);
}

/// Replacing one element keeps the length, and a sequence that differs
/// from another only at `index` is that sequence with its own element there.
proof fn lemma_update_in_place<T>(items: Seq<T>, index: int, after: Seq<T>)
    requires
        0 <= index < items.len(),
        exists|item: T| after == items.update(index, item),
    ensures
        replaced_at(items, index, after),
{
    let item = choose|item: T| after == items.update(index, item);
    assert(after.len() == items.len());
    assert(after =~= items.update(index, after[index]));
}

/// `after` is `before` with at most its element at `index` replaced.
pub open spec fn replaced_at<T>(before: Seq<T>, index: int, after: Seq<T>) -> bool {
    &&& after.len() == before.len()
    &&& after == before.update(index, after[index])
}

/// Pushing an element makes a sequence one longer.
proof fn lemma_push_adds_one<T>(items: Seq<T>, item: T)
    ensures
        items.push(item).len() == items.len() + 1,
{
}

impl<A, W, M> Bus<A, W, M> where
    A: AddressType + core::ops::Sub<Output = A>,
    W: WordType,
    M: AddressMap<A>,
 {
    fn read_impl(&mut self, address: A) -> (value: Option<W>)
        ensures
            final(self).device_count() == old(self).device_count(),
            final(self).address_map() == old(self).address_map(),
            exists|found: Option<&Attachment<A>>|
                {
                    &&& #[trigger] call_ensures(M::lookup, (&old(self).address_map(), address), found)
                    &&& old(self).routed(&*final(self), address, found, value is Some)
                    &&& value is Some ==> exists|target: &mut dyn Device<A, W>, word: W|
                        {
                            &&& #[trigger] device_read_gives(
                                target,
                                address.sub_spec(found->0.region.first()),
                                word,
                            )
                            &&& value == Some(word)
                            &&& &*target == &*old(self).attached()[found->0.device.number() as int]
                            &&& &*final(target) == &*final(self).attached()[found->0.device.number() as int]
                        }
                },
    {
        let found = self.map.lookup(address);
        let attachment = match found {
            Some(attachment) => attachment,
            None => return None,
        };
        proof {
            attachment.device.lemma_number();
        }
        let device_id = attachment.device.0;
        let offset = match attachment.region.offset(address) {
            Some(offset) => offset,
            None => return None,
        };
        if device_id < self.devices.len() {
            let ghost before = self.devices@;
            let word = read_device(&mut *self.devices[device_id], offset);
            proof {
                lemma_update_in_place(before, device_id as int, self.devices@);
            }
            Some(word)
        } else {
            None
        }
    }


    /// Reads the word at a global address from the device whose attachment
    /// the address map finds, at the address's offset in the attachment's
    /// region; `None` when no attachment, region or device answers.
    pub fn read(&mut self, address: A) -> (value: Option<W>)
        ensures
            final(self).device_count() == old(self).device_count(),
            final(self).address_map() == old(self).address_map(),
            exists|found: Option<&Attachment<A>>|
                {
                    &&& #[trigger] call_ensures(M::lookup, (&old(self).address_map(), address), found)
                    &&& old(self).routed(&*final(self), address, found, value is Some)
                    &&& value is Some ==> exists|target: &mut dyn Device<A, W>, word: W|
                        {
                            &&& #[trigger] device_read_gives(
                                target,
                                address.sub_spec(found->0.region.first()),
                                word,
                            )
                            &&& value == Some(word)
                            &&& &*target == &*old(self).attached()[found->0.device.number() as int]
                            &&& &*final(target) == &*final(self).attached()[found->0.device.number() as int]
                        }
                },
    {
        self.read_impl(address)
    }

    fn write_impl(&mut self, address: A, value: W) -> (written: Option<()>)
        ensures
            final(self).device_count() == old(self).device_count(),
            final(self).address_map() == old(self).address_map(),
            exists|found: Option<&Attachment<A>>|
                {
                    &&& #[trigger] call_ensures(M::lookup, (&old(self).address_map(), address), found)
                    &&& old(self).routed(&*final(self), address, found, written is Some)
                    &&& written is Some ==> exists|target: &mut dyn Device<A, W>|
                        {
                            &&& #[trigger] device_write_done(
                                target,
                                address.sub_spec(found->0.region.first()),
                                value,
                            )
                            &&& &*target == &*old(self).attached()[found->0.device.number() as int]
                            &&& &*final(target) == &*final(self).attached()[found->0.device.number() as int]
                        }
                },
    {
        let attachment = match self.map.lookup(address) {
            Some(attachment) => attachment,
            None => return None,
        };
        proof {
            attachment.device.lemma_number();
        }
        let device_id = attachment.device.0;
        let offset = match attachment.region.offset(address) {
            Some(offset) => offset,
            None => return None,
        };
        if device_id < self.devices.len() {
            let ghost before = self.devices@;
            write_device(&mut *self.devices[device_id], offset, value);
            proof {
                lemma_update_in_place(before, device_id as int, self.devices@);
            }
            Some(())
        } else {
            None
        }
    }

    /// Writes a word at a global address to the device whose attachment the
    /// address map finds, at the address's offset in the attachment's
    /// region; `None` when no attachment, region or device answers.
    pub fn write(&mut self, address: A, value: W) -> (written: Option<()>)
        ensures
            final(self).device_count() == old(self).device_count(),
            final(self).address_map() == old(self).address_map(),
            exists|found: Option<&Attachment<A>>|
                {
                    &&& #[trigger] call_ensures(M::lookup, (&old(self).address_map(), address), found)
                    &&& old(self).routed(&*final(self), address, found, written is Some)
                    &&& written is Some ==> exists|target: &mut dyn Device<A, W>|
                        {
                            &&& #[trigger] device_write_done(
                                target,
                                address.sub_spec(found->0.region.first()),
                                value,
                            )
                            &&& &*target == &*old(self).attached()[found->0.device.number() as int]
                            &&& &*final(target) == &*final(self).attached()[found->0.device.number() as int]
                        }
                },
    {
        self.write_impl(address, value)
    }
}

impl<A, W, M> BusAccess for Bus<A, W, M> where
    A: AddressType + core::ops::Sub<Output = A>,
    W: WordType,
    M: AddressMap<A>,
 {
    type Address = A;

    type Word = W;

    fn read(&mut self, address: A) -> (value: Option<W>)
        ensures
            final(self).device_count() == old(self).device_count(),
            final(self).address_map() == old(self).address_map(),
            exists|found: Option<&Attachment<A>>|
                {
                    &&& #[trigger] call_ensures(M::lookup, (&old(self).address_map(), address), found)
                    &&& old(self).routed(&*final(self), address, found, value is Some)
                    &&& value is Some ==> exists|target: &mut dyn Device<A, W>, word: W|
                        {
                            &&& #[trigger] device_read_gives(
                                target,
                                address.sub_spec(found->0.region.first()),
                                word,
                            )
                            &&& value == Some(word)
                            &&& &*target == &*old(self).attached()[found->0.device.number() as int]
                            &&& &*final(target) == &*final(self).attached()[found->0.device.number() as int]
                        }
                },
    {
        self.read_impl(address)
    }

    fn write(&mut self, address: A, value: W) -> (written: Option<()>)
        ensures
            final(self).device_count() == old(self).device_count(),
            final(self).address_map() == old(self).address_map(),
            exists|found: Option<&Attachment<A>>|
                {
                    &&& #[trigger] call_ensures(M::lookup, (&old(self).address_map(), address), found)
                    &&& old(self).routed(&*final(self), address, found, written is Some)
                    &&& written is Some ==> exists|target: &mut dyn Device<A, W>|
                        {
                            &&& #[trigger] device_write_done(
                                target,
                                address.sub_spec(found->0.region.first()),
                                value,
                            )
                            &&& &*target == &*old(self).attached()[found->0.device.number() as int]
                            &&& &*final(target) == &*final(self).attached()[found->0.device.number() as int]
                        }
                },
    {
        self.write_impl(address, value)
    }
}

} // verus!
