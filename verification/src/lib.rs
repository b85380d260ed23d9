//! Device-side USB stack for microcontrollers.
//!
//! The crate holds the device-independent core of a USB 2.0 device: the
//! control-transfer engine on endpoint zero, the handler of the standard
//! requests, and the dispatch of bus events to the registered classes. The
//! peripheral driver and the classes are supplied by the user through the
//! traits [`bus::UsbBus`] and [`class::UsbClass`].
//!
//! Transfer directions follow the host-centric USB terminology: an OUT
//! transfer goes from the host to the device, an IN transfer from the device
//! to the host.

use vstd::prelude::*;

/// For implementing peripheral drivers, and the gateway through which the
/// stack reaches them.
pub mod bus;

/// For implementing standard as well as vendor-specific USB classes.
///
/// To implement a new class, implement the [`UsbClass`](class::UsbClass)
/// trait. None of its methods are required: a class overrides the ones that
/// it needs. A class takes its endpoints, interface numbers and string
/// indices from the [`UsbBusAllocator`](bus::UsbBusAllocator) before the
/// device is built, and moves its packets through the
/// [`Endpoint`](endpoint::Endpoint) handles that it got, so that it cannot
/// reach an endpoint of another class.
pub mod class;

/// Prelude for class implementors.
pub mod class_prelude;

/// USB control transfers and the SETUP packet.
pub mod control;

/// Creating USB descriptors.
pub mod descriptor;

/// USB composite device.
///
/// The [`UsbDevice`](device::UsbDevice) type in this module is the core of
/// this crate. It combines the USB class implementations and the USB bus
/// driver, and dispatches bus state changes and control messages between
/// them.
pub mod device;

/// Putting a device together.
pub mod device_builder;

/// USB endpoints.
pub mod endpoint;

/// Prelude for end-users.
pub mod prelude;

/// A class for testing peripheral drivers.
pub mod test_class;

/// The record of the control transfer on endpoint zero.
pub mod transfer;

/// Helpers shared by the modules of the stack.
pub mod utils;

verus! {

/// A USB stack error.
#[derive(Debug, Clone, Copy, PartialEq, Eq, Structural)]
pub enum UsbError {
    /// There was no packet available when reading.
    NoData,
    /// A previous transfer has not been completed yet.
    Busy,
    /// An invalid setup packet was received from the host.
    InvalidSetupPacket,
    /// A buffer too short for the received data was passed (fatal).
    BufferOverflow,
    /// Classes attempted to allocate too many endpoints (fatal).
    EndpointOverflow,
    /// Classes attempted to allocate too much packet memory (fatal).
    SizeOverflow,
    /// An invalid endpoint address was used (fatal).
    InvalidEndpoint,
    /// A specific endpoint address has already been allocated (fatal).
    EndpointTaken,
    /// Operation is not supported by device or configuration.
    Unsupported,
    /// Operation is not valid in the current state of the object.
    InvalidState,
}

/// Direction of USB traffic, always given from the perspective of the host.
///
/// `bits` gives the direction bit as it stands in endpoint addresses and in
/// the request type of a SETUP packet.
#[derive(Debug, Clone, Copy, PartialEq, Eq, Structural)]
pub enum UsbDirection {
    /// Host to device (OUT).
    Out,
    /// Device to host (IN).
    In,
}

impl UsbDirection {
    /// The direction bit: `0x00` for OUT, `0x80` for IN.
    pub open spec fn spec_bits(self) -> u8 {
        match self {
            UsbDirection::Out => 0x00u8,
            UsbDirection::In => 0x80u8,
        }
    }

    /// The direction that the top bit of `value` encodes.
    pub open spec fn of_byte(value: u8) -> UsbDirection {
        if value & 0x80 != 0 {
            UsbDirection::In
        } else {
            UsbDirection::Out
        }
    }

    /// The direction bit: `0x00` for OUT, `0x80` for IN.
    #[verifier::when_used_as_spec(spec_bits)]
    pub fn bits(self) -> (b: u8)
        ensures
            b == self.spec_bits(),
    {
        match self {
            UsbDirection::Out => 0x00,
            UsbDirection::In => 0x80,
        }
    }
}

impl From<u8> for UsbDirection {
    fn from(value: u8) -> (dir: UsbDirection) {
        if value & 0x80 != 0 {
            UsbDirection::In
        } else {
            UsbDirection::Out
        }
    }
}

impl vstd::std_specs::convert::FromSpecImpl<u8> for UsbDirection {
    open spec fn obeys_from_spec() -> bool {
        true
    }

    open spec fn from_spec(value: u8) -> UsbDirection {
        UsbDirection::of_byte(value)
    }
}

} // verus!
