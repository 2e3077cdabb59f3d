//! Address maps: how a bus finds the attachment that answers an address.
use vstd::prelude::*;

use crate::ztiny_bus::attachment::Attachment;
use crate::ztiny_bus::id::DeviceId;
use crate::ztiny_core::numeric::AddressType;

verus! {

/// A lookup structure from global addresses to device attachments, supplied
/// by the user of a bus.
pub trait AddressMap<A: AddressType> {
    /// Register a new attachment in the address map.
    fn insert(&mut self, attachment: Attachment<A>);

    /// Look up an attachment record for a given address.
    ///
    /// Returns `None` when the address is unmapped.
    fn lookup(&self, address: A) -> Option<&Attachment<A>>;

    /// Find the device ID that covers a global address: the device of the
    /// attachment that `lookup` finds, or `None` when the address is
    /// unmapped.
    fn find_device(&self, address: A) -> (device: Option<DeviceId>)
        default_ensures
            exists|found: Option<&Attachment<A>>|
                {
                    &&& #[trigger] call_ensures(Self::lookup, (self, address), found)
                    &&& device == match found {
                        Some(attachment) => Some(attachment.device),
                        None => None::<DeviceId>,
                    }
                },
    {
        match self.lookup(address) {
            Some(attachment) => Some(attachment.device),
            None => None,
        }
    }
}

} // verus!
