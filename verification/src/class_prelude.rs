//! Prelude for class implementors.

pub use crate::bus::InterfaceNumber;
pub use crate::bus::StringIndex;
pub use crate::bus::UsbBus;
pub use crate::bus::UsbBusAllocator;
pub use crate::class::UsbClass;
pub use crate::control;
pub use crate::descriptor::DescriptorWriter;
pub use crate::device::ControlInResult;
pub use crate::device::ControlOutResult;
pub use crate::endpoint::EndpointAddress;
pub use crate::endpoint::EndpointIn;
pub use crate::endpoint::EndpointOut;
pub use crate::endpoint::EndpointType;
pub use crate::UsbError;
