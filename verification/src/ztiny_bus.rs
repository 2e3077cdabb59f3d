//! Bus-related abstractions for the emulator framework.
//!
//! This module defines the device, region, attachment, and bus model used by
//! the generic machine.
pub mod attachment;
pub mod bus;
pub mod device;
pub mod id;
pub mod map;
pub mod region;

pub use attachment::Attachment;
pub use bus::{Bus, BusAccess};
pub use device::Device;
pub use id::{AttachmentId, BusId, DeviceId};
pub use map::AddressMap;
pub use region::Region;
