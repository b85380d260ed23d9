//! The peripheral driver interface and the gateway through which the stack
//! reaches it.

use vstd::prelude::*;
use crate::UsbDirection;
use crate::UsbError;
use crate::endpoint::Direction;
use crate::endpoint::Endpoint;
use crate::endpoint::EndpointAddress;
use crate::endpoint::EndpointDirection;
use crate::endpoint::EndpointType;
use crate::utils::FreezableRefCell;

verus! {

/// A trait for device-specific USB peripherals. Implement this to add support
/// for a new hardware platform.
///
/// The stack reaches the peripheral only through a [`UsbBusAllocator`], which
/// looks at what comes back before it goes on: an implementation is held to
/// nothing here but what holds of every slice.
pub trait UsbBus {
    /// Allocates an endpoint and specified endpoint parameters. Called while
    /// the device is put together, before `enable`.
    ///
    /// * `ep_dir` - The endpoint direction.
    /// * `ep_addr` - A static endpoint address to allocate. If `None`, the
    ///   implementation picks a free one.
    /// * `ep_type` - The endpoint transfer type.
    /// * `max_packet_size` - Maximum packet size in bytes.
    /// * `interval` - Polling interval parameter for interrupt endpoints.
    ///
    /// Errors: `EndpointOverflow` when no endpoint is left, `EndpointTaken`
    /// when `ep_addr` is in use, `InvalidEndpoint` when `ep_addr` cannot be
    /// served.
    fn alloc_ep(
        &mut self,
        ep_dir: UsbDirection,
        ep_addr: Option<EndpointAddress>,
        ep_type: EndpointType,
        max_packet_size: u16,
        interval: u8,
    ) -> Result<EndpointAddress, UsbError>;

    /// Enables and initializes the USB peripheral. Called once, after all
    /// the endpoints have been allocated.
    fn enable(&mut self);

    /// Performs a USB reset: all endpoints go back to their initial state and
    /// the device address to zero.
    fn reset(&self);

    /// Sets the device USB address to `addr`.
    fn set_device_address(&self, addr: u8);

    /// Writes a single packet of data to the specified endpoint and returns
    /// the number of bytes written.
    ///
    /// Errors: `Busy` when a previously written packet is still pending,
    /// `InvalidEndpoint` when `ep_addr` was never allocated.
    fn write(&self, ep_addr: EndpointAddress, buf: &[u8]) -> Result<usize, UsbError>;

    /// Reads a single packet of data from the specified endpoint and returns
    /// the length of the packet. A zero-length packet gives `Ok(0)`.
    ///
    /// Errors: `NoData` when there is no packet to be read, `BufferOverflow`
    /// when the packet does not fit in `buf`, `InvalidEndpoint` when
    /// `ep_addr` was never allocated.
    ///
    /// The one clause states what holds of every `&mut [u8]`: the call
    /// cannot change the length of `buf`.
    fn read(&self, ep_addr: EndpointAddress, buf: &mut [u8]) -> (r: Result<usize, UsbError>)
        ensures
            final(buf)@.len() == old(buf)@.len(),
    ;

    /// Sets or clears the STALL condition for an endpoint.
    fn set_stalled(&self, ep_addr: EndpointAddress, stalled: bool);

    /// Gets whether the STALL condition is set for an endpoint.
    fn is_stalled(&self, ep_addr: EndpointAddress) -> bool;

    /// Puts the peripheral in its low-power state after the bus went idle.
    fn suspend(&self);

    /// Brings the peripheral back from its low-power state.
    fn resume(&self);

    /// Gets the events that are pending. Called on every poll of the device.
    fn poll(&self) -> PollResult;
}

/// A peripheral without endpoints: every allocation fails with
/// `EndpointOverflow`, every write and read with `InvalidEndpoint`, no
/// endpoint is stalled, and no event is ever pending.
pub struct FakeBus {}

impl UsbBus for FakeBus {
    fn alloc_ep(
        &mut self,
        ep_dir: UsbDirection,
        ep_addr: Option<EndpointAddress>,
        ep_type: EndpointType,
        max_packet_size: u16,
        interval: u8,
    ) -> (r: Result<EndpointAddress, UsbError>)
        ensures
            r == Err::<EndpointAddress, UsbError>(UsbError::EndpointOverflow),
    {
        Err(UsbError::EndpointOverflow)
    }

    fn enable(&mut self) {
    }

    fn reset(&self) {
    }

    fn set_device_address(&self, addr: u8) {
    }

    fn write(&self, ep_addr: EndpointAddress, buf: &[u8]) -> (r: Result<usize, UsbError>)
        ensures
            r == Err::<usize, UsbError>(UsbError::InvalidEndpoint),
    {
        Err(UsbError::InvalidEndpoint)
    }

    fn read(&self, ep_addr: EndpointAddress, buf: &mut [u8]) -> (r: Result<usize, UsbError>)
        ensures
            r == Err::<usize, UsbError>(UsbError::InvalidEndpoint),
            final(buf)@ == old(buf)@,
    {
        Err(UsbError::InvalidEndpoint)
    }

    fn set_stalled(&self, ep_addr: EndpointAddress, stalled: bool) {
    }

    fn is_stalled(&self, ep_addr: EndpointAddress) -> (stalled: bool)
        ensures
            !stalled,
    {
        false
    }

    fn suspend(&self) {
    }

    fn resume(&self) {
    }

    fn poll(&self) -> (events: PollResult)
        ensures
            events == PollResult::Nothing,
    {
        PollResult::Nothing
    }
}

/// Event and incoming packet information returned by [`UsbBus::poll`].
#[derive(Debug, Clone, Copy, PartialEq, Eq, Structural)]
pub enum PollResult {
    /// No events or packets to report.
    Nothing,
    /// The USB reset condition has been detected.
    Reset,
    /// USB packets have been received or sent. Each field is a bit field
    /// where bit `i` stands for the endpoint with index `i`.
    Data {
        /// An OUT packet has been received.
        ep_out: u16,
        /// An IN packet has finished transmitting.
        ep_in_complete: u16,
        /// A SETUP packet has been received.
        ep_setup: u16,
    },
    /// A USB suspend request has been detected.
    Suspend,
    /// A USB resume request has been detected.
    Resume,
}

/// One call that reached the peripheral, with what was handed to it and what
/// came back.
#[allow(inconsistent_fields)]
pub enum BusCall {
    /// An endpoint was asked for; `result` is the peripheral's answer.
    AllocEp {
        dir: UsbDirection,
        requested: Option<EndpointAddress>,
        ep_type: EndpointType,
        max_packet_size: u16,
        interval: u8,
        result: Result<EndpointAddress, UsbError>,
    },
    /// The peripheral was enabled.
    Enable,
    /// The peripheral was reset.
    Reset,
    /// The device address was handed over.
    SetDeviceAddress { addr: u8 },
    /// The packet `data` was handed over for the endpoint `addr`.
    Write { addr: EndpointAddress, data: Seq<u8>, result: Result<usize, UsbError> },
    /// A packet of the endpoint `addr` was asked for, into a buffer of
    /// `capacity` bytes, which holds `filled` after the call.
    Read { addr: EndpointAddress, capacity: nat, result: Result<usize, UsbError>, filled: Seq<u8> },
    /// The STALL condition of the endpoint `addr` was set or cleared.
    SetStalled { addr: EndpointAddress, stalled: bool },
    /// The STALL condition of the endpoint `addr` was asked for.
    IsStalled { addr: EndpointAddress, result: bool },
    /// The peripheral was told to enter its low-power state.
    Suspend,
    /// The peripheral was told to leave its low-power state.
    Resume,
    /// The peripheral was asked for its pending events.
    Poll { result: PollResult },
}

impl BusCall {
    /// What a write or a read returned.
    pub open spec fn spec_moved(self) -> Result<usize, UsbError> {
        match self {
            BusCall::Write { addr, data, result } => result,
            BusCall::Read { addr, capacity, result, filled } => result,
            _ => Err(UsbError::InvalidState),
        }
    }

    /// The buffer as a read left it.
    pub open spec fn spec_filled(self) -> Seq<u8> {
        match self {
            BusCall::Read { addr, capacity, result, filled } => filled,
            _ => Seq::<u8>::empty(),
        }
    }

    /// What the peripheral said of an endpoint's STALL condition.
    pub open spec fn spec_stall_seen(self) -> bool {
        match self {
            BusCall::IsStalled { addr, result } => result,
            _ => false,
        }
    }

    /// What the peripheral answered to an allocation.
    pub open spec fn spec_allocated(self) -> Result<EndpointAddress, UsbError> {
        match self {
            BusCall::AllocEp {
                dir,
                requested,
                ep_type,
                max_packet_size,
                interval,
                result,
            } => result,
            _ => Err(UsbError::InvalidState),
        }
    }

    /// The events that a poll of the peripheral gave.
    pub open spec fn spec_events(self) -> PollResult {
        match self {
            BusCall::Poll { result } => result,
            _ => PollResult::Nothing,
        }
    }
}

/// The call at place `k` of a trace, and a call without effect where the
/// trace has no such place.
pub open spec fn spec_call_at(trace: Seq<BusCall>, k: int) -> BusCall {
    if 0 <= k < trace.len() {
        trace[k]
    } else {
        BusCall::Enable
    }
}

/// The number of endpoint indices that the stack serves.
pub const MAX_ENDPOINTS: usize = 16;

/// The first string index that is handed out to classes; the ones below are
/// the language list, the manufacturer, the product and the serial number.
pub const FIRST_CLASS_STRING: u8 = 4;

/// A handle for a USB interface that contains its number.
#[derive(Debug, Clone, Copy, PartialEq, Eq, Structural)]
pub struct InterfaceNumber(u8);

impl View for InterfaceNumber {
    type V = u8;

    closed spec fn view(&self) -> u8 {
        self.0
    }
}

impl InterfaceNumber {
    pub(crate) fn new(index: u8) -> (n: InterfaceNumber)
        ensures
            n@ == index,
    {
        InterfaceNumber(index)
    }

    /// The interface number as it stands in descriptors and requests.
    pub fn number(self) -> (n: u8)
        ensures
            n == self@,
    {
        self.0
    }
}

/// A handle for a USB string descriptor that contains its index.
#[derive(Debug, Clone, Copy, PartialEq, Eq, Structural)]
pub struct StringIndex(u8);

impl View for StringIndex {
    type V = u8;

    closed spec fn view(&self) -> u8 {
        self.0
    }
}

impl StringIndex {
    pub(crate) fn new(index: u8) -> (s: StringIndex)
        ensures
            s@ == index,
    {
        StringIndex(index)
    }

    /// The string index as it stands in descriptors and requests.
    pub fn index(self) -> (n: u8)
        ensures
            n == self@,
    {
        self.0
    }
}

/// The direction of traffic that an endpoint direction stands for.
pub open spec fn spec_usb_direction(dir: EndpointDirection) -> UsbDirection {
    match dir {
        EndpointDirection::Out => UsbDirection::Out,
        EndpointDirection::In => UsbDirection::In,
    }
}

/// What an allocation gives, from what the peripheral answered and the
/// addresses vended so far: the peripheral's error as it is; `InvalidEndpoint`
/// for an address of the wrong direction, with an index of 16 or more, or
/// other than the one that was asked for; `EndpointTaken` for one that was
/// vended before; else the address.
pub open spec fn spec_vet_address(
    dir: EndpointDirection,
    requested: Option<EndpointAddress>,
    vended: Set<u8>,
    answer: Result<EndpointAddress, UsbError>,
) -> Result<EndpointAddress, UsbError> {
    match answer {
        Err(e) => Err(e),
        Ok(addr) => if addr.spec_direction() != dir || addr.spec_index() >= MAX_ENDPOINTS || (
        requested matches Some(wanted) && wanted != addr) {
            Err(UsbError::InvalidEndpoint)
        } else if vended.contains(addr@) {
            Err(UsbError::EndpointTaken)
        } else {
            Ok(addr)
        },
    }
}

/// What a [`UsbBusAllocator`] stands for in contracts.
pub struct BusState {
    /// Whether the allocation phase is over.
    pub frozen: bool,
    /// The calls made to the peripheral so far, oldest first.
    pub trace: Seq<BusCall>,
    /// The number that the next interface gets.
    pub next_interface: u8,
    /// The index that the next string gets.
    pub next_string: u8,
    /// The address bytes of the endpoints vended so far.
    pub vended: Set<u8>,
}

impl BusState {
    /// The state after one more call to the peripheral.
    pub open spec fn logged(self, call: BusCall) -> BusState {
        BusState { trace: self.trace.push(call), ..self }
    }

    /// The state after the allocation of an endpoint, and what the
    /// allocation gave. The peripheral is asked once, with exactly these
    /// parameters; its answer, which is read from the trace `t`, is judged
    /// by `spec_vet_address`; and an address that is accepted is marked as
    /// vended.
    pub open spec fn spec_allocate(
        self,
        dir: EndpointDirection,
        requested: Option<EndpointAddress>,
        ep_type: EndpointType,
        max_packet_size: u16,
        interval: u8,
        t: Seq<BusCall>,
    ) -> (BusState, Result<EndpointAddress, UsbError>) {
        let answer = spec_call_at(t, self.trace.len() as int).spec_allocated();
        let asked = self.logged(
            BusCall::AllocEp {
                dir: spec_usb_direction(dir),
                requested,
                ep_type,
                max_packet_size,
                interval,
                result: answer,
            },
        );
        match spec_vet_address(dir, requested, self.vended, answer) {
            Ok(addr) => (BusState { vended: self.vended.insert(addr@), ..asked }, Ok(addr)),
            Err(e) => (asked, Err(e)),
        }
    }
}

/// Whether an allocation has returned what it gave: a handle for the
/// address, with the parameters that were asked for, or the error.
pub open spec fn spec_handed_out<B: UsbBus, D: Direction>(
    r: Result<Endpoint<B, D>, UsbError>,
    gave: Result<EndpointAddress, UsbError>,
    ep_type: EndpointType,
    max_packet_size: u16,
    interval: u8,
) -> bool {
    match gave {
        Ok(addr) => r matches Ok(ep) && ep.spec_address() == addr && ep.spec_ep_type() == ep_type
            && ep.spec_max_packet_size() == max_packet_size && ep.spec_interval() == interval,
        Err(e) => r matches Err(got) && got == e,
    }
}

/// Hands out the resources of a device while it is put together: endpoints,
/// interface numbers and string indices. It owns the peripheral driver, and
/// every call that the stack makes to the driver goes through it and is
/// recorded in `trace`.
///
/// Its life has two phases. Until `freeze`, resources can be allocated and no
/// packet can be moved; afterwards it is the other way round.
pub struct UsbBusAllocator<B: UsbBus> {
    bus: FreezableRefCell<B>,
    trace: Ghost<Seq<BusCall>>,
    next_interface_number: u8,
    next_string_index: u8,
    taken_out: [bool; 16],
    taken_in: [bool; 16],
}

impl<B: UsbBus> UsbBusAllocator<B> {
    /// The calls made to the peripheral so far, oldest first.
    pub closed spec fn trace(&self) -> Seq<BusCall> {
        self.trace@
    }

    /// Whether the allocation phase is over.
    pub closed spec fn is_frozen(&self) -> bool {
        self.bus.is_frozen()
    }

    /// The number that the next interface gets.
    pub closed spec fn next_interface(&self) -> u8 {
        self.next_interface_number
    }

    /// The index that the next string gets.
    pub closed spec fn next_string(&self) -> u8 {
        self.next_string_index
    }

    /// The address bytes of the endpoints vended so far.
    pub closed spec fn vended(&self) -> Set<u8> {
        Set::new(
            |a: u8|
                {
                    let i = (a & 0x7f) as int;
                    i < 16 && if a & 0x80 != 0 {
                        self.taken_in@[i]
                    } else {
                        self.taken_out@[i]
                    }
                },
        )
    }

    /// The allocator as contracts see it.
    pub open spec fn view(&self) -> BusState {
        BusState {
            frozen: self.is_frozen(),
            trace: self.trace(),
            next_interface: self.next_interface(),
            next_string: self.next_string(),
            vended: self.vended(),
        }
    }

    /// Wraps a peripheral driver. Nothing is allocated yet: interfaces count
    /// from 0, strings from 4.
    pub fn new(bus: B) -> (made: UsbBusAllocator<B>)
        ensures
            !made.is_frozen(),
            made.trace() == Seq::<BusCall>::empty(),
            made.next_interface() == 0,
            made.next_string() == FIRST_CLASS_STRING,
            made.vended() == Set::<u8>::empty(),
    {
        let made = UsbBusAllocator {
            bus: FreezableRefCell::new(bus),
            trace: Ghost(Seq::empty()),
            next_interface_number: 0,
            next_string_index: FIRST_CLASS_STRING,
            taken_out: [false; 16],
            taken_in: [false; 16],
        };
        assert(made.vended() =~= Set::<u8>::empty());
        made
    }

    /// Judges the peripheral's answer to an allocation and, where it is
    /// accepted, marks the address as vended.
    pub fn vet_address(
        &mut self,
        dir: EndpointDirection,
        requested: Option<EndpointAddress>,
        answer: Result<EndpointAddress, UsbError>,
    ) -> (r: Result<EndpointAddress, UsbError>)
        ensures
            r == spec_vet_address(dir, requested, old(self).vended(), answer),
            r matches Ok(addr) ==> final(self).vended() == old(self).vended().insert(addr@),
            r is Err ==> final(self).vended() == old(self).vended(),
            final(self).is_frozen() == old(self).is_frozen(),
            final(self).trace() == old(self).trace(),
            final(self).next_interface() == old(self).next_interface(),
            final(self).next_string() == old(self).next_string(),
    {
        match answer {
            Err(e) => Err(e),
            Ok(addr) => {
                let index = addr.index();
                let is_in = addr.is_in();
                let wanted_in = match dir {
                    EndpointDirection::In => true,
                    EndpointDirection::Out => false,
                };
                if is_in != wanted_in || index >= MAX_ENDPOINTS {
                    return Err(UsbError::InvalidEndpoint);
                }
                match requested {
                    Some(wanted) => if wanted != addr {
                        return Err(UsbError::InvalidEndpoint);
                    },
                    None => {},
                }
                let taken = if is_in {
                    self.taken_in[index]
                } else {
                    self.taken_out[index]
                };
                if taken {
                    return Err(UsbError::EndpointTaken);
                }
                if is_in {
                    self.taken_in[index] = true;
                } else {
                    self.taken_out[index] = true;
                }
                assert(self.vended() =~= old(self).vended().insert(addr@)) by {
                    assert forall|a: u8| self.vended().contains(a) <==> old(self).vended().insert(
                        addr@,
                    ).contains(a) by {
                        lemma_address_parts(a, addr@);
                    }
                }
                Ok(addr)
            },
        }
    }

    /// Allocates an endpoint with the direction of `D`. The peripheral is
    /// asked once, with exactly these parameters, and its answer is judged
    /// by `spec_vet_address`. The allocator must not be frozen.
    pub fn allocate<D: Direction>(
        &mut self,
        ep_addr: Option<EndpointAddress>,
        ep_type: EndpointType,
        max_packet_size: u16,
        interval: u8,
    ) -> (r: Result<Endpoint<B, D>, UsbError>)
        requires
            !old(self).is_frozen(),
        ensures
            final(self)@ == old(self)@.spec_allocate(
                D::DIRECTION,
                ep_addr,
                ep_type,
                max_packet_size,
                interval,
                final(self)@.trace,
            ).0,
            spec_handed_out(
                r,
                old(self)@.spec_allocate(
                    D::DIRECTION,
                    ep_addr,
                    ep_type,
                    max_packet_size,
                    interval,
                    final(self)@.trace,
                ).1,
                ep_type,
                max_packet_size,
                interval,
            ),
    {
        let dir = match D::DIRECTION {
            EndpointDirection::Out => UsbDirection::Out,
            EndpointDirection::In => UsbDirection::In,
        };
        let mut guard = self.bus.borrow_mut();
        let answer = guard.deref_mut().alloc_ep(dir, ep_addr, ep_type, max_packet_size, interval);
        proof {
            self.trace@ = self.trace@.push(
                BusCall::AllocEp {
                    dir,
                    requested: ep_addr,
                    ep_type,
                    max_packet_size,
                    interval,
                    result: answer,
                },
            );
        }
        match self.vet_address(D::DIRECTION, ep_addr, answer) {
            Ok(addr) => Ok(Endpoint::new(addr, ep_type, max_packet_size, interval)),
            Err(e) => Err(e),
        }
    }

    /// Allocates a control endpoint.
    pub fn control<D: Direction>(&mut self, max_packet_size: u16) -> (r: Result<
        Endpoint<B, D>,
        UsbError,
    >)
        requires
            !old(self).is_frozen(),
        ensures
            final(self)@ == old(self)@.spec_allocate(
                D::DIRECTION,
                None,
                EndpointType::Control,
                max_packet_size,
                0,
                final(self)@.trace,
            ).0,
            spec_handed_out(
                r,
                old(self)@.spec_allocate(
                    D::DIRECTION,
                    None,
                    EndpointType::Control,
                    max_packet_size,
                    0,
                    final(self)@.trace,
                ).1,
                EndpointType::Control,
                max_packet_size,
                0,
            ),
    {
        self.allocate(None, EndpointType::Control, max_packet_size, 0)
    }

    /// Allocates a bulk endpoint.
    pub fn bulk<D: Direction>(&mut self, max_packet_size: u16) -> (r: Result<
        Endpoint<B, D>,
        UsbError,
    >)
        requires
            !old(self).is_frozen(),
        ensures
            final(self)@ == old(self)@.spec_allocate(
                D::DIRECTION,
                None,
                EndpointType::Bulk,
                max_packet_size,
                0,
                final(self)@.trace,
            ).0,
            spec_handed_out(
                r,
                old(self)@.spec_allocate(
                    D::DIRECTION,
                    None,
                    EndpointType::Bulk,
                    max_packet_size,
                    0,
                    final(self)@.trace,
                ).1,
                EndpointType::Bulk,
                max_packet_size,
                0,
            ),
    {
        self.allocate(None, EndpointType::Bulk, max_packet_size, 0)
    }

    /// Allocates an interrupt endpoint with the given polling interval.
    pub fn interrupt<D: Direction>(&mut self, max_packet_size: u16, interval: u8) -> (r: Result<
        Endpoint<B, D>,
        UsbError,
    >)
        requires
            !old(self).is_frozen(),
        ensures
            final(self)@ == old(self)@.spec_allocate(
                D::DIRECTION,
                None,
                EndpointType::Interrupt,
                max_packet_size,
                interval,
                final(self)@.trace,
            ).0,
            spec_handed_out(
                r,
                old(self)@.spec_allocate(
                    D::DIRECTION,
                    None,
                    EndpointType::Interrupt,
                    max_packet_size,
                    interval,
                    final(self)@.trace,
                ).1,
                EndpointType::Interrupt,
                max_packet_size,
                interval,
            ),
    {
        self.allocate(None, EndpointType::Interrupt, max_packet_size, interval)
    }

    /// Allocates a new interface number: the numbers count up from 0. The
    /// allocator must not be frozen, and the numbers must not be used up.
    pub fn interface(&mut self) -> (n: InterfaceNumber)
        requires
            !old(self).is_frozen(),
            old(self).next_interface() < u8::MAX,
        ensures
            n@ == old(self).next_interface(),
            final(self).next_interface() == old(self).next_interface() + 1,
            final(self).next_string() == old(self).next_string(),
            final(self).vended() == old(self).vended(),
            final(self).trace() == old(self).trace(),
            !final(self).is_frozen(),
    {
        let number = self.next_interface_number;
        self.next_interface_number = number + 1;
        InterfaceNumber::new(number)
    }

    /// Allocates a new string index: the indices count up from 4. The
    /// allocator must not be frozen, and the indices must not be used up.
    pub fn string(&mut self) -> (s: StringIndex)
        requires
            !old(self).is_frozen(),
            old(self).next_string() < u8::MAX,
        ensures
            s@ == old(self).next_string(),
            final(self).next_string() == old(self).next_string() + 1,
            final(self).next_interface() == old(self).next_interface(),
            final(self).vended() == old(self).vended(),
            final(self).trace() == old(self).trace(),
            !final(self).is_frozen(),
    {
        let index = self.next_string_index;
        self.next_string_index = index + 1;
        StringIndex::new(index)
    }

    /// Enables the peripheral, once all the endpoints have been allocated.
    pub(crate) fn enable(&mut self)
        requires
            !old(self).is_frozen(),
        ensures
            final(self)@ == old(self)@.logged(BusCall::Enable),
    {
        let mut guard = self.bus.borrow_mut();
        guard.deref_mut().enable();
        proof {
            self.trace@ = self.trace@.push(BusCall::Enable);
        }
    }

    /// Ends the allocation phase: from now on packets can be moved and
    /// nothing can be allocated.
    pub(crate) fn freeze(&mut self)
        requires
            !old(self).is_frozen(),
        ensures
            final(self)@ == (BusState { frozen: true, ..old(self)@ }),
    {
        self.bus.freeze();
    }

    /// Tells the peripheral to perform a USB reset.
    pub(crate) fn reset(&mut self)
        requires
            old(self).is_frozen(),
        ensures
            final(self)@ == old(self)@.logged(BusCall::Reset),
    {
        self.bus.borrow().reset();
        proof {
            self.trace@ = self.trace@.push(BusCall::Reset);
        }
    }

    /// Hands the device address to the peripheral.
    pub(crate) fn set_device_address(&mut self, addr: u8)
        requires
            old(self).is_frozen(),
        ensures
            final(self)@ == old(self)@.logged(BusCall::SetDeviceAddress { addr }),
    {
        self.bus.borrow().set_device_address(addr);
        proof {
            self.trace@ = self.trace@.push(BusCall::SetDeviceAddress { addr });
        }
    }

    /// Hands one packet to the peripheral for the endpoint `addr`.
    pub(crate) fn write(&mut self, addr: EndpointAddress, data: &[u8]) -> (r: Result<
        usize,
        UsbError,
    >)
        requires
            old(self).is_frozen(),
        ensures
            final(self)@ == old(self)@.logged(BusCall::Write { addr, data: data@, result: r }),
    {
        let r = self.bus.borrow().write(addr, data);
        proof {
            self.trace@ = self.trace@.push(BusCall::Write { addr, data: data@, result: r });
        }
        r
    }

    /// Asks the peripheral for one packet of the endpoint `addr`.
    pub(crate) fn read(&mut self, addr: EndpointAddress, buf: &mut [u8]) -> (r: Result<
        usize,
        UsbError,
    >)
        requires
            old(self).is_frozen(),
        ensures
            final(buf)@.len() == old(buf)@.len(),
            final(self)@ == old(self)@.logged(
                BusCall::Read { addr, capacity: old(buf)@.len(), result: r, filled: final(buf)@ },
            ),
    {
        let r = self.bus.borrow().read(addr, buf);
        proof {
            self.trace@ = self.trace@.push(
                BusCall::Read { addr, capacity: old(buf)@.len(), result: r, filled: buf@ },
            );
        }
        r
    }

    /// Sets or clears the STALL condition of the endpoint `addr`.
    pub(crate) fn set_stalled(&mut self, addr: EndpointAddress, stalled: bool)
        requires
            old(self).is_frozen(),
        ensures
            final(self)@ == old(self)@.logged(BusCall::SetStalled { addr, stalled }),
    {
        self.bus.borrow().set_stalled(addr, stalled);
        proof {
            self.trace@ = self.trace@.push(BusCall::SetStalled { addr, stalled });
        }
    }

    /// Asks the peripheral whether the endpoint `addr` is stalled.
    pub(crate) fn is_stalled(&mut self, addr: EndpointAddress) -> (stalled: bool)
        requires
            old(self).is_frozen(),
        ensures
            final(self)@ == old(self)@.logged(BusCall::IsStalled { addr, result: stalled }),
    {
        let stalled = self.bus.borrow().is_stalled(addr);
        proof {
            self.trace@ = self.trace@.push(BusCall::IsStalled { addr, result: stalled });
        }
        stalled
    }

    /// Tells the peripheral to enter its low-power state.
    pub(crate) fn suspend(&mut self)
        requires
            old(self).is_frozen(),
        ensures
            final(self)@ == old(self)@.logged(BusCall::Suspend),
    {
        self.bus.borrow().suspend();
        proof {
            self.trace@ = self.trace@.push(BusCall::Suspend);
        }
    }

    /// Tells the peripheral to leave its low-power state.
    pub(crate) fn resume(&mut self)
        requires
            old(self).is_frozen(),
        ensures
            final(self)@ == old(self)@.logged(BusCall::Resume),
    {
        self.bus.borrow().resume();
        proof {
            self.trace@ = self.trace@.push(BusCall::Resume);
        }
    }

    /// Asks the peripheral for its pending events.
    pub(crate) fn poll(&mut self) -> (result: PollResult)
        requires
            old(self).is_frozen(),
        ensures
            final(self)@ == old(self)@.logged(BusCall::Poll { result }),
    {
        let result = self.bus.borrow().poll();
        proof {
            self.trace@ = self.trace@.push(BusCall::Poll { result });
        }
        result
    }
}

/// Two address bytes with the same direction bit and the same index are the
/// same byte.
proof fn lemma_address_parts(a: u8, b: u8)
    ensures
        (a & 0x7f) == (b & 0x7f) && ((a & 0x80 != 0) == (b & 0x80 != 0)) ==> a == b,
        (a & 0x7f) as int == ((a & 0x7f) as usize) as int,
{
    assert((a & 0x7f) == (b & 0x7f) && ((a & 0x80 != 0) == (b & 0x80 != 0)) ==> a == b)
        by (bit_vector);
    assert(a & 0x7f < 0x80) by (bit_vector);
}

} // verus!
