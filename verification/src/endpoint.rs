//! USB endpoints: addresses, transfer types and direction-typed handles.

use vstd::prelude::*;
use crate::UsbError;
use crate::bus::BusCall;
use crate::bus::MAX_ENDPOINTS;
use crate::bus::UsbBus;
use crate::bus::UsbBusAllocator;

verus! {

/// USB endpoint direction.
#[derive(Debug, Clone, Copy, PartialEq, Eq, Structural)]
pub enum EndpointDirection {
    /// Host-to-device (OUT).
    Out,
    /// Device-to-host (IN).
    In,
}

impl EndpointDirection {
    /// The direction bit of an endpoint address: `0x00` for OUT, `0x80` for IN.
    pub open spec fn spec_bits(self) -> u8 {
        match self {
            EndpointDirection::Out => 0x00u8,
            EndpointDirection::In => 0x80u8,
        }
    }

    /// The direction bit of an endpoint address: `0x00` for OUT, `0x80` for IN.
    #[verifier::when_used_as_spec(spec_bits)]
    pub fn bits(self) -> (b: u8)
        ensures
            b == self.spec_bits(),
    {
        match self {
            EndpointDirection::Out => 0x00,
            EndpointDirection::In => 0x80,
        }
    }
}

/// USB endpoint transfer type.
#[derive(Debug, Clone, Copy, PartialEq, Eq, Structural)]
pub enum EndpointType {
    /// Control endpoint. Used for device management; usually only endpoint 0.
    Control,
    /// Isochronous endpoint. Used for time-critical unreliable data.
    Isochronous,
    /// Bulk endpoint. Used for large amounts of best-effort reliable data.
    Bulk,
    /// Interrupt endpoint. Used for small amounts of time-critical reliable data.
    Interrupt,
}

impl EndpointType {
    /// The transfer type bits of the `bmAttributes` field of an endpoint
    /// descriptor.
    pub open spec fn spec_bits(self) -> u8 {
        match self {
            EndpointType::Control => 0b00u8,
            EndpointType::Isochronous => 0b01u8,
            EndpointType::Bulk => 0b10u8,
            EndpointType::Interrupt => 0b11u8,
        }
    }

    /// The transfer type bits of the `bmAttributes` field of an endpoint
    /// descriptor.
    #[verifier::when_used_as_spec(spec_bits)]
    pub fn bits(self) -> (b: u8)
        ensures
            b == self.spec_bits(),
    {
        match self {
            EndpointType::Control => 0b00,
            EndpointType::Isochronous => 0b01,
            EndpointType::Bulk => 0b10,
            EndpointType::Interrupt => 0b11,
        }
    }
}

/// Type-safe endpoint address: bit 7 is the direction, the low bits are the
/// endpoint index.
#[derive(Debug, Clone, Copy, PartialEq, Eq, Structural)]
pub struct EndpointAddress(u8);

impl View for EndpointAddress {
    type V = u8;

    /// The address byte as it goes over the wire.
    closed spec fn view(&self) -> u8 {
        self.0
    }
}

impl EndpointAddress {
    /// The address with the given address byte.
    pub closed spec fn of(byte: u8) -> EndpointAddress {
        EndpointAddress(byte)
    }

    /// The address byte made of an index and a direction.
    pub open spec fn spec_from_parts(idx: usize, dir: EndpointDirection) -> u8 {
        (idx as u8) | dir.spec_bits()
    }

    /// The direction that bit 7 of the address encodes.
    pub open spec fn spec_direction(&self) -> EndpointDirection {
        if self@ & 0x80 != 0 {
            EndpointDirection::In
        } else {
            EndpointDirection::Out
        }
    }

    /// The address without its direction bit.
    pub open spec fn spec_index(&self) -> usize {
        (self@ & 0x7f) as usize
    }

    /// Constructs a new address from an endpoint index and a direction. The
    /// index is cut to a byte before the direction bit is set.
    pub fn from_parts(idx: usize, dir: EndpointDirection) -> (addr: Self)
        ensures
            addr@ == Self::spec_from_parts(idx, dir),
            idx < 0x80 ==> addr.spec_index() == idx && addr.spec_direction() == dir,
    {
        let low: u8 = #[verifier::truncate] (idx as u8);
        let high: u8 = dir.bits();
        proof {
            assert(low < 0x80 ==> (low | 0x00u8) & 0x7f == low && (low | 0x00u8) & 0x80 == 0)
                by (bit_vector);
            assert(low < 0x80 ==> (low | 0x80u8) & 0x7f == low && (low | 0x80u8) & 0x80 != 0)
                by (bit_vector);
        }
        EndpointAddress(low | high)
    }

    /// Gets the direction part of the address.
    #[verifier::when_used_as_spec(spec_direction)]
    pub fn direction(&self) -> (dir: EndpointDirection)
        ensures
            dir == self.spec_direction(),
    {
        if (self.0 & 0x80) != 0 {
            EndpointDirection::In
        } else {
            EndpointDirection::Out
        }
    }

    /// Returns true if the direction is IN, otherwise false.
    pub fn is_in(&self) -> (b: bool)
        ensures
            b == (self.spec_direction() == EndpointDirection::In),
    {
        (self.0 & 0x80) != 0
    }

    /// Returns true if the direction is OUT, otherwise false.
    pub fn is_out(&self) -> (b: bool)
        ensures
            b == (self.spec_direction() == EndpointDirection::Out),
    {
        (self.0 & 0x80) == 0
    }

    /// Gets the index part of the endpoint address.
    #[verifier::when_used_as_spec(spec_index)]
    pub fn index(&self) -> (idx: usize)
        ensures
            idx == self.spec_index(),
            idx < 0x80,
    {
        let low: u8 = self.0 & 0x7f;
        proof {
            let b = self.0;
            assert(b & 0x7f < 0x80) by (bit_vector);
        }
        low as usize
    }
}

impl From<u8> for EndpointAddress {
    fn from(addr: u8) -> (a: EndpointAddress) {
        EndpointAddress(addr)
    }
}

impl vstd::std_specs::convert::FromSpecImpl<u8> for EndpointAddress {
    open spec fn obeys_from_spec() -> bool {
        true
    }

    open spec fn from_spec(addr: u8) -> EndpointAddress {
        EndpointAddress::of(addr)
    }
}

/// The address made from a byte has that byte as its view.
pub broadcast proof fn lemma_view_of_byte(byte: u8)
    ensures
        #[trigger] EndpointAddress::of(byte)@ == byte,
{
}

/// An address is the one made from its view.
pub broadcast proof fn lemma_address_of_view(addr: EndpointAddress)
    ensures
        EndpointAddress::of(#[trigger] addr@) == addr,
{
}

impl From<EndpointAddress> for u8 {
    fn from(addr: EndpointAddress) -> (b: u8) {
        addr.0
    }
}

impl vstd::std_specs::convert::FromSpecImpl<EndpointAddress> for u8 {
    open spec fn obeys_from_spec() -> bool {
        true
    }

    open spec fn from_spec(addr: EndpointAddress) -> u8 {
        addr@
    }
}

} // verus!

verus! {

/// Trait for endpoint type markers.
pub trait Direction {
    /// Direction value of the marker type.
    const DIRECTION: EndpointDirection;
}

/// Marker type for OUT endpoints.
pub struct Out;

impl Direction for Out {
    const DIRECTION: EndpointDirection = EndpointDirection::Out;
}

/// Marker type for IN endpoints.
pub struct In;

impl Direction for In {
    const DIRECTION: EndpointDirection = EndpointDirection::In;
}

/// The markers stand for their directions.
pub proof fn lemma_marker_directions()
    ensures
        <Out as Direction>::DIRECTION == EndpointDirection::Out,
        <In as Direction>::DIRECTION == EndpointDirection::In,
{
}

/// A host-to-device (OUT) endpoint.
pub type EndpointOut<B> = Endpoint<B, Out>;

/// A device-to-host (IN) endpoint.
pub type EndpointIn<B> = Endpoint<B, In>;

/// Handle for a USB endpoint. The endpoint direction is constrained by the
/// `D` type argument, which must be either `In` or `Out`: only an IN handle
/// can write and only an OUT handle can read.
pub struct Endpoint<B: UsbBus, D: Direction> {
    address: EndpointAddress,
    ep_type: EndpointType,
    max_packet_size: u16,
    interval: u8,
    _marker: core::marker::PhantomData<(B, D)>,
}

impl<B: UsbBus, D: Direction> Endpoint<B, D> {
    #[verifier::type_invariant]
    spec fn inv(self) -> bool {
        &&& self.address.spec_direction() == D::DIRECTION
        &&& self.address.spec_index() < MAX_ENDPOINTS
    }

    /// The endpoint address including the direction bit.
    pub closed spec fn spec_address(&self) -> EndpointAddress {
        self.address
    }

    /// The endpoint transfer type.
    pub closed spec fn spec_ep_type(&self) -> EndpointType {
        self.ep_type
    }

    /// The maximum packet size for the endpoint.
    pub closed spec fn spec_max_packet_size(&self) -> u16 {
        self.max_packet_size
    }

    /// The poll interval for interrupt endpoints.
    pub closed spec fn spec_interval(&self) -> u8 {
        self.interval
    }

    pub(crate) fn new(
        address: EndpointAddress,
        ep_type: EndpointType,
        max_packet_size: u16,
        interval: u8,
    ) -> (ep: Endpoint<B, D>)
        requires
            address.spec_direction() == D::DIRECTION,
            address.spec_index() < MAX_ENDPOINTS,
        ensures
            ep.spec_address() == address,
            ep.spec_ep_type() == ep_type,
            ep.spec_max_packet_size() == max_packet_size,
            ep.spec_interval() == interval,
    {
        Endpoint { address, ep_type, max_packet_size, interval, _marker: core::marker::PhantomData }
    }

    /// Gets the endpoint address including direction bit. Its direction is
    /// that of the handle's type, and its index is below 16.
    #[verifier::when_used_as_spec(spec_address)]
    pub fn address(&self) -> (addr: EndpointAddress)
        ensures
            addr == self.spec_address(),
            addr.spec_direction() == D::DIRECTION,
            addr.spec_index() < MAX_ENDPOINTS,
    {
        proof {
            use_type_invariant(self);
        }
        self.address
    }

    /// Gets the endpoint transfer type.
    #[verifier::when_used_as_spec(spec_ep_type)]
    pub fn ep_type(&self) -> (t: EndpointType)
        ensures
            t == self.spec_ep_type(),
    {
        self.ep_type
    }

    /// Gets the maximum packet size for the endpoint.
    #[verifier::when_used_as_spec(spec_max_packet_size)]
    pub fn max_packet_size(&self) -> (size: u16)
        ensures
            size == self.spec_max_packet_size(),
    {
        self.max_packet_size
    }

    /// Gets the poll interval for interrupt endpoints.
    #[verifier::when_used_as_spec(spec_interval)]
    pub fn interval(&self) -> (n: u8)
        ensures
            n == self.spec_interval(),
    {
        self.interval
    }

    /// Sets the STALL condition for the endpoint: the peripheral is called
    /// once, with this handle's address.
    pub fn stall(&self, bus: &mut UsbBusAllocator<B>)
        requires
            old(bus).is_frozen(),
        ensures
            final(bus)@ == old(bus)@.logged(
                BusCall::SetStalled { addr: self.spec_address(), stalled: true },
            ),
    {
        bus.set_stalled(self.address, true);
    }

    /// Clears the STALL condition of the endpoint: the peripheral is called
    /// once, with this handle's address.
    pub fn unstall(&self, bus: &mut UsbBusAllocator<B>)
        requires
            old(bus).is_frozen(),
        ensures
            final(bus)@ == old(bus)@.logged(
                BusCall::SetStalled { addr: self.spec_address(), stalled: false },
            ),
    {
        bus.set_stalled(self.address, false);
    }
}

impl<B: UsbBus> Endpoint<B, In> {
    /// Writes a single packet of data to the endpoint and returns what the
    /// peripheral answers: the number of bytes written, or its error.
    ///
    /// The peripheral is called once, with this handle's address, which is
    /// an IN address, and with `data`.
    ///
    /// Errors of the peripheral: `InvalidEndpoint` when the address was never
    /// allocated, `Busy` when a previously written packet is still pending.
    pub fn write(&self, bus: &mut UsbBusAllocator<B>, data: &[u8]) -> (r: Result<usize, UsbError>)
        requires
            old(bus).is_frozen(),
        ensures
            self.spec_address().spec_direction() == EndpointDirection::In,
            final(bus)@ == old(bus)@.logged(
                BusCall::Write { addr: self.spec_address(), data: data@, result: r },
            ),
    {
        proof {
            use_type_invariant(self);
        }
        bus.write(self.address, data)
    }
}

impl<B: UsbBus> Endpoint<B, Out> {
    /// Reads a single packet of data from the endpoint into `data` and
    /// returns what the peripheral answers: the length of the packet, or its
    /// error.
    ///
    /// The peripheral is called once, with this handle's address, which is
    /// an OUT address, and with `data`.
    ///
    /// Errors of the peripheral: `InvalidEndpoint` when the address was never
    /// allocated, `NoData` when there is no packet to be read (a zero-length
    /// packet gives `Ok(0)`), `BufferOverflow` when the packet does not fit.
    pub fn read(&self, bus: &mut UsbBusAllocator<B>, data: &mut [u8]) -> (r: Result<
        usize,
        UsbError,
    >)
        requires
            old(bus).is_frozen(),
        ensures
            self.spec_address().spec_direction() == EndpointDirection::Out,
            final(data)@.len() == old(data)@.len(),
            final(bus)@ == old(bus)@.logged(
                BusCall::Read {
                    addr: self.spec_address(),
                    capacity: old(data)@.len(),
                    result: r,
                    filled: final(data)@,
                },
            ),
    {
        proof {
            use_type_invariant(self);
        }
        bus.read(self.address, data)
    }
}

} // verus!
