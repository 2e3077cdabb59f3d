//! Identifier types. These lightweight wrappers keep bus, device and
//! attachment numbers distinct.
use vstd::prelude::*;

verus! {

#[derive(Copy, Clone, Debug, PartialEq, Eq, Structural)]
pub struct DeviceId(pub(crate) usize);

impl DeviceId {
    /// The number that the ID wraps.
    pub closed spec fn number(self) -> usize {
        self.0
    }

    pub(crate) proof fn lemma_number(self)
        ensures
            self.number() == self.0,
    {
    }

    pub(crate) fn new(number: usize) -> (id: DeviceId)
        ensures
            id.number() == number,
    {
        DeviceId(number)
    }
}

#[derive(Copy, Clone, Debug, PartialEq, Eq, Structural)]
pub struct BusId(pub(crate) usize);

#[derive(Copy, Clone, Debug, PartialEq, Eq, Structural)]
pub struct AttachmentId(pub(crate) usize);

} // verus!
