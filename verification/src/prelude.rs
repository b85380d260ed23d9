//! Prelude for end-users.

pub use crate::device::UsbDevice;
pub use crate::device::UsbDeviceState;
pub use crate::device_builder::UsbDeviceBuilder;
pub use crate::device_builder::UsbVidPid;
pub use crate::UsbError;
