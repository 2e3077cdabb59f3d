//! Attachment bookkeeping: which device answers which region.
use vstd::prelude::*;

use crate::ztiny_bus::id::DeviceId;
use crate::ztiny_bus::region::Region;
use crate::ztiny_core::numeric::AddressType;

verus! {

/// A device attached to the address region it answers.
pub struct Attachment<A> where A: AddressType {
    /// The address region covered by this attachment.
    pub region: Region<A>,
    /// The ID of the attached device.
    pub device: DeviceId,
}

} // verus!
