//! A USB class for testing peripheral drivers: it stores what the host
//! sends it on endpoint zero, and echoes what the host sends it on a bulk
//! endpoint.

use vstd::prelude::*;
use vstd::slice::slice_subrange;
use crate::UsbError;
use crate::bus::BusCall;
use crate::bus::BusState;
use crate::bus::InterfaceNumber;
use crate::bus::spec_call_at;
use crate::bus::StringIndex;
use crate::bus::UsbBus;
use crate::bus::UsbBusAllocator;
use crate::class::ClassTable;
use crate::class::Dispatch;
use crate::class::UsbClass;
use crate::control::hi;
use crate::control::lo;
use crate::control::Recipient;
use crate::control::Request;
use crate::control::RequestType;
use crate::descriptor::DescriptorWriter;
use crate::descriptor::lang_id;
use crate::descriptor::spec_overwrite;
use crate::device::ControlInResult;
use crate::device::ControlOutResult;
use crate::device::model::spec_bring_up;
use crate::device::model::spec_brought_up;
use crate::device::model::spec_fresh;
use crate::device::UsbDevice;
use crate::device::UsbDeviceInfo;
use crate::device_builder::BuildError;
use crate::device_builder::spec_default_info;
use crate::device_builder::UsbVidPid;
use crate::endpoint::EndpointAddress;
use crate::endpoint::EndpointDirection;
use crate::endpoint::EndpointIn;
use crate::endpoint::EndpointOut;
use crate::endpoint::EndpointType;
use crate::endpoint::lemma_marker_directions;

verus! {

pub const VID: u16 = 0x16c0;

pub const PID: u16 = 0x05dc;

pub const MANUFACTURER: &'static str = "TestClass Manufacturer";

pub const PRODUCT: &'static str = "virkkunen.net usb-device TestClass";

pub const SERIAL_NUMBER: &'static str = "TestClass Serial";

pub const CUSTOM_STRING: &'static str = "TestClass Custom String";

/// Vendor request to the device: store the request itself in the buffer.
pub const REQ_STORE_REQUEST: u8 = 1;

/// Vendor request to the device: read the front of the buffer.
pub const REQ_READ_BUFFER: u8 = 2;

/// Vendor request to the device: write the data to the front of the buffer.
pub const REQ_WRITE_BUFFER: u8 = 3;

/// A vendor request that the class does not know.
pub const REQ_UNKNOWN: u8 = 42;

/// The size of the buffer of the class.
pub const BUFFER_LEN: usize = 256;

/// The packet size of the bulk endpoints of the class.
pub const BULK_PACKET_SIZE: u16 = 64;

/// What the class keeps between calls.
struct State {
    buf: [u8; 256],
    len: usize,
    i: usize,
    expect_bulk_in_complete: bool,
    expect_bulk_out: bool,
    bulk_in_completed: bool,
    fault: bool,
}

/// What a test class stands for in contracts.
pub struct TestClassView {
    /// The buffer: what the host stored, or what is being echoed.
    pub buf: Seq<u8>,
    /// The number of bytes that are being echoed.
    pub len: usize,
    /// The number of bytes received or echoed so far.
    pub i: usize,
    /// Whether a packet has been handed to the bulk IN endpoint and has not
    /// been reported as sent yet.
    pub expect_bulk_in_complete: bool,
    /// Whether a packet has been reported on the bulk OUT endpoint and has
    /// not been read yet.
    pub expect_bulk_out: bool,
    /// Whether a packet has been reported as sent and the echo has not gone
    /// on yet.
    pub bulk_in_completed: bool,
    /// Whether the device or the peripheral has done what the class does
    /// not expect.
    pub fault: bool,
    /// The index of the string of the class.
    pub custom_string: u8,
    /// The number of the interface of the class.
    pub iface: u8,
    /// The address of the bulk IN endpoint.
    pub bulk_in: EndpointAddress,
    /// The address of the bulk OUT endpoint.
    pub bulk_out: EndpointAddress,
}

/// Test USB class for testing USB driver implementations. Driver
/// implementations should include an example called "test_class" that
/// creates a device with this class.
pub struct TestClass<B: UsbBus> {
    state: State,
    custom_string: StringIndex,
    iface: InterfaceNumber,
    ep_bulk_in: EndpointIn<B>,
    ep_bulk_out: EndpointOut<B>,
}

/// The eight bytes that stand for a request in the buffer of the class.
pub open spec fn spec_stored_request(req: Request) -> Seq<u8> {
    req.spec_encode()
}

impl TestClassView {
    /// What holds of a test class at all times: the buffer has its size,
    /// and the index and the length stay within it.
    pub open spec fn wf(self) -> bool {
        &&& self.buf.len() == BUFFER_LEN
        &&& self.i <= BUFFER_LEN
        &&& self.len <= BUFFER_LEN
    }

    /// Whether a request is a vendor request to the device: the class
    /// ignores every other request.
    pub open spec fn is_for_class(req: Request) -> bool {
        req.request_type == RequestType::Vendor && req.recipient == Recipient::Device
    }

    /// The class after a reset: an empty buffer, and nothing expected.
    pub open spec fn spec_reset(self) -> Self {
        TestClassView {
            buf: Seq::new(BUFFER_LEN as nat, |k: int| 0u8),
            len: 0,
            i: 0,
            expect_bulk_in_complete: false,
            expect_bulk_out: false,
            bulk_in_completed: false,
            fault: false,
            ..self
        }
    }

    /// The class after a host-to-device request, and its answer. A vendor
    /// request to the device that stores the request writes its eight
    /// bytes to the front of the buffer; one that writes the buffer, with
    /// as much data as the request says and no more than the buffer holds,
    /// writes the data to the front of the buffer; every other vendor
    /// request to the device is rejected. Every other request is ignored.
    pub open spec fn spec_control_out(self, req: Request, data: Seq<u8>) -> (
        Self,
        ControlOutResult,
    ) {
        if !Self::is_for_class(req) {
            (self, ControlOutResult::Ignore)
        } else if req.request == REQ_STORE_REQUEST {
            (
                TestClassView {
                    buf: spec_overwrite(self.buf, 0, spec_stored_request(req)),
                    ..self
                },
                ControlOutResult::Accept,
            )
        } else if req.request == REQ_WRITE_BUFFER && data.len() <= BUFFER_LEN && data.len()
            == req.length {
            (
                TestClassView { buf: spec_overwrite(self.buf, 0, data), ..self },
                ControlOutResult::Accept,
            )
        } else {
            (self, ControlOutResult::Reject)
        }
    }

    /// The answer of the class to a device-to-host request, and the bytes
    /// that it writes to the front of the response. A vendor request to the
    /// device that reads the buffer, for no more bytes than the buffer and
    /// the response hold, gives the front of the buffer; every other vendor
    /// request to the device is rejected. Every other request is ignored.
    pub open spec fn spec_control_in(self, req: Request, room: nat) -> (ControlInResult, Seq<u8>) {
        if !Self::is_for_class(req) {
            (ControlInResult::Ignore, Seq::<u8>::empty())
        } else if req.request == REQ_READ_BUFFER && req.length <= BUFFER_LEN && req.length
            <= room {
            (ControlInResult::Accept(req.length as usize), self.buf.subrange(0, req.length as int))
        } else {
            (ControlInResult::Reject, Seq::<u8>::empty())
        }
    }

    /// The length of the next packet of the echo: what is left, but no more
    /// than a packet.
    pub open spec fn spec_to_write(self) -> int {
        if self.len <= self.i {
            0
        } else if self.len - self.i <= BULK_PACKET_SIZE {
            self.len - self.i
        } else {
            BULK_PACKET_SIZE as int
        }
    }

    /// The class after the next packet of the echo has been handed to the
    /// peripheral, `sent` being what the write returned: the echo moved on
    /// and a completion expected where the whole packet was taken; nothing
    /// changed where the peripheral was busy; a fault in every other case.
    pub open spec fn spec_bulk_written(self, sent: Result<usize, UsbError>) -> Self {
        match sent {
            Ok(count) => if count == self.spec_to_write() {
                TestClassView {
                    expect_bulk_in_complete: true,
                    i: (self.i + count) as usize,
                    ..self
                }
            } else {
                TestClassView { fault: true, ..self }
            },
            Err(UsbError::Busy) => self,
            Err(_) => TestClassView { fault: true, ..self },
        }
    }

    /// The class after a packet has been read into the buffer behind the
    /// index, `got` being what the read returned and `filled` what it left
    /// behind the index, before the echo starts: nothing changed where there
    /// was no packet; a fault where a packet came unexpected, was longer
    /// than what is left of the buffer, or could not be read; else the
    /// index moved on, and at the end of a transfer, which a packet that is
    /// not full marks, the length set to what was received and the index
    /// back to the start.
    pub open spec fn spec_bulk_read(self, got: Result<usize, UsbError>, filled: Seq<u8>) -> Self {
        let read = TestClassView { buf: self.buf.subrange(0, self.i as int) + filled, ..self };
        match got {
            Err(UsbError::NoData) => read,
            Err(_) => TestClassView { fault: true, ..read },
            Ok(count) => if !self.expect_bulk_out || count > BUFFER_LEN - self.i {
                TestClassView { fault: true, ..read }
            } else if count < BULK_PACKET_SIZE {
                TestClassView {
                    expect_bulk_out: false,
                    len: (self.i + count) as usize,
                    i: 0,
                    ..read
                }
            } else {
                TestClassView { expect_bulk_out: false, i: (self.i + count) as usize, ..read }
            },
        }
    }
}

/// The class and the gateway after the next packet of the echo has been
/// handed to the bulk IN endpoint. Without anything left to echo, the echo
/// is over and nothing is written, unless `write_empty` asks for an empty
/// packet. What the write returned is read from the trace `t`.
pub open spec fn spec_write_bulk_in(
    class: TestClassView,
    bus: BusState,
    write_empty: bool,
    t: Seq<BusCall>,
) -> (TestClassView, BusState) {
    if class.spec_to_write() == 0 && !write_empty {
        (TestClassView { len: 0, i: 0, ..class }, bus)
    } else {
        let sent = spec_call_at(t, bus.trace.len() as int).spec_moved();
        (
            class.spec_bulk_written(sent),
            bus.logged(
                BusCall::Write {
                    addr: class.bulk_in,
                    data: class.buf.subrange(class.i as int, class.i + class.spec_to_write()),
                    result: sent,
                },
            ),
        )
    }
}

/// The class and the gateway after one poll of the class, and what the
/// poll returns. What the peripheral answered is read from the trace `t`.
///
/// After a fault nothing is done. Else the echo goes on where a packet has
/// been reported as sent; then a packet is read from the bulk OUT endpoint
/// into the buffer behind the index; and where that packet ends a
/// transfer, the echo starts, with an empty packet for an empty transfer.
/// The poll fails with the error of a read that failed, and with
/// `InvalidState` for every other fault.
pub open spec fn spec_class_poll(class: TestClassView, bus: BusState, t: Seq<BusCall>) -> (
    TestClassView,
    BusState,
    Result<(), UsbError>,
) {
    if class.fault {
        (class, bus, Err(UsbError::InvalidState))
    } else {
        let (resumed, b1) = if class.bulk_in_completed {
            spec_write_bulk_in(
                TestClassView { bulk_in_completed: false, ..class },
                bus,
                false,
                t,
            )
        } else {
            (class, bus)
        };
        if resumed.fault {
            (resumed, b1, Err(UsbError::InvalidState))
        } else {
            let call = spec_call_at(t, b1.trace.len() as int);
            let got = call.spec_moved();
            let filled = call.spec_filled();
            let b2 = b1.logged(
                BusCall::Read {
                    addr: resumed.bulk_out,
                    capacity: (BUFFER_LEN - resumed.i) as nat,
                    result: got,
                    filled,
                },
            );
            let read = resumed.spec_bulk_read(got, filled);
            match got {
                Err(UsbError::NoData) => (read, b2, Ok(())),
                Err(e) => (read, b2, Err(e)),
                Ok(count) => if read.fault {
                    (read, b2, Err(UsbError::InvalidState))
                } else if count < BULK_PACKET_SIZE {
                    let (echoed, b3) = spec_write_bulk_in(read, b2, count == 0, t);
                    (
                        echoed,
                        b3,
                        if echoed.fault {
                            Err(UsbError::InvalidState)
                        } else {
                            Ok(())
                        },
                    )
                } else {
                    (read, b2, Ok(()))
                },
            }
        }
    }
}

/// The gateway after the allocations of a new test class, and what they
/// gave: a string index and an interface number are taken; then a bulk IN
/// and a bulk OUT endpoint with packets of 64 bytes are allocated, which
/// gives their addresses, or the error of the first allocation that
/// failed. What the peripheral answered is read from the trace `t`.
pub open spec fn spec_new_class(bus: BusState, t: Seq<BusCall>) -> (
    BusState,
    Result<(EndpointAddress, EndpointAddress), UsbError>,
) {
    let taken = BusState {
        next_string: (bus.next_string + 1) as u8,
        next_interface: (bus.next_interface + 1) as u8,
        ..bus
    };
    let (first, bulk_in) = taken.spec_allocate(
        EndpointDirection::In,
        None,
        EndpointType::Bulk,
        BULK_PACKET_SIZE,
        0,
        t,
    );
    match bulk_in {
        Err(e) => (first, Err(e)),
        Ok(bulk_in) => {
            let (second, bulk_out) = first.spec_allocate(
                EndpointDirection::Out,
                None,
                EndpointType::Bulk,
                BULK_PACKET_SIZE,
                0,
                t,
            );
            match bulk_out {
                Err(e) => (second, Err(e)),
                Ok(bulk_out) => (second, Ok((bulk_in, bulk_out))),
            }
        },
    }
}

/// The identity of the test device.
pub open spec fn spec_test_info() -> UsbDeviceInfo<'static> {
    UsbDeviceInfo {
        manufacturer: MANUFACTURER,
        product: PRODUCT,
        serial_number: SERIAL_NUMBER,
        ..spec_default_info(UsbVidPid(VID, PID))
    }
}

impl<B: UsbBus> View for TestClass<B> {
    type V = TestClassView;

    closed spec fn view(&self) -> TestClassView {
        TestClassView {
            buf: self.state.buf@,
            len: self.state.len,
            i: self.state.i,
            expect_bulk_in_complete: self.state.expect_bulk_in_complete,
            expect_bulk_out: self.state.expect_bulk_out,
            bulk_in_completed: self.state.bulk_in_completed,
            fault: self.state.fault,
            custom_string: self.custom_string@,
            iface: self.iface@,
            bulk_in: self.ep_bulk_in.spec_address(),
            bulk_out: self.ep_bulk_out.spec_address(),
        }
    }
}

impl<B: UsbBus> TestClass<B> {
    /// Whether the endpoints of the class are bulk endpoints with packets
    /// of 64 bytes.
    pub closed spec fn endpoints_fit(&self) -> bool {
        &&& self.ep_bulk_in.spec_max_packet_size() == BULK_PACKET_SIZE
        &&& self.ep_bulk_out.spec_max_packet_size() == BULK_PACKET_SIZE
    }

    /// What holds of a test class at all times.
    pub open spec fn wf(&self) -> bool {
        self@.wf() && self.endpoints_fit()
    }

    /// Creates a test class: it takes a string index, an interface number
    /// and two bulk endpoints with packets of 64 bytes, IN first, from the
    /// allocator. Fails with the error of the allocation that failed.
    pub fn new(bus: &mut UsbBusAllocator<B>) -> (r: Result<TestClass<B>, UsbError>)
        requires
            !old(bus).is_frozen(),
            old(bus)@.next_string < u8::MAX,
            old(bus)@.next_interface < u8::MAX,
        ensures
            final(bus)@ == spec_new_class(old(bus)@, final(bus)@.trace).0,
            match spec_new_class(old(bus)@, final(bus)@.trace).1 {
                Ok((bulk_in, bulk_out)) => r matches Ok(class) && class.wf() && class@ == (
                TestClassView {
                    custom_string: old(bus)@.next_string,
                    iface: old(bus)@.next_interface,
                    bulk_in,
                    bulk_out,
                    ..class@.spec_reset()
                }),
                Err(e) => r matches Err(got) && got == e,
            },
    {
        let custom_string = bus.string();
        let iface = bus.interface();
        proof {
            lemma_marker_directions();
        }
        let ghost taken = bus@;
        let ep_bulk_in = match bus.bulk(BULK_PACKET_SIZE) {
            Ok(ep) => ep,
            Err(e) => {
                return Err(e);
            },
        };
        let ghost first = bus@;
        let ep_bulk_out = match bus.bulk(BULK_PACKET_SIZE) {
            Ok(ep) => ep,
            Err(e) => {
                proof {
                    let at = taken.trace.len() as int;
                    assert(first.trace[at] == bus@.trace[at]);
                }
                return Err(e);
            },
        };
        proof {
            let at = taken.trace.len() as int;
            assert(first.trace[at] == bus@.trace[at]);
        }
        let state = State {
            buf: [0u8; 256],
            len: 0,
            i: 0,
            expect_bulk_in_complete: false,
            expect_bulk_out: false,
            bulk_in_completed: false,
            fault: false,
        };
        assert(state.buf@ =~= Seq::new(BUFFER_LEN as nat, |k: int| 0u8));
        Ok(TestClass { state, custom_string, iface, ep_bulk_in, ep_bulk_out })
    }

    /// Creates a device with this class as its one class, and with the
    /// identity of the test device. Fails as `UsbDeviceBuilder::build`
    /// does.
    pub fn make_device(self, usb_bus: UsbBusAllocator<B>) -> (r: Result<
        UsbDevice<'static, B, TestClass<B>>,
        BuildError<B, TestClass<B>>,
    >)
        requires
            !usb_bus.is_frozen(),
        ensures
            match r {
                Ok(dev) => {
                    &&& dev.wf()
                    &&& dev@.info == spec_test_info()
                    &&& dev@.classes == 1
                    &&& dev.class_table().spec_len() == 1
                    &&& spec_bring_up(usb_bus@, 8, dev@.bus.trace).1 is None
                    &&& dev@ == spec_fresh(
                        spec_test_info(),
                        spec_brought_up(usb_bus@, 8),
                        Seq::<Dispatch>::empty(),
                        1,
                    ).spec_reset(dev@.class_log)
                },
                Err(refused) => {
                    &&& refused.classes.entries() == seq![Box::new(self)]
                    &&& spec_bring_up(usb_bus@, 8, refused.bus@.trace) == (
                        refused.bus@,
                        Some(refused.error),
                    )
                },
            },
    {
        let mut table: ClassTable<TestClass<B>> = ClassTable::new();
        table.register(Box::new(self));
        UsbDevice::new(usb_bus, UsbVidPid(VID, PID)).manufacturer(MANUFACTURER).product(
            PRODUCT,
        ).serial_number(SERIAL_NUMBER).build(table)
    }

    /// Hands the next packet of the echo to the bulk IN endpoint. Without
    /// anything left to echo, the echo is over, unless `write_empty` asks
    /// for an empty packet.
    fn write_bulk_in(&mut self, bus: &mut UsbBusAllocator<B>, write_empty: bool)
        requires
            old(self).wf(),
            old(bus).is_frozen(),
        ensures
            final(self).wf(),
            final(bus).is_frozen(),
            (final(self)@, final(bus)@) == spec_write_bulk_in(
                old(self)@,
                old(bus)@,
                write_empty,
                final(bus)@.trace,
            ),
    {
        let rest = if self.state.len > self.state.i {
            self.state.len - self.state.i
        } else {
            0
        };
        let to_write = if rest <= BULK_PACKET_SIZE as usize {
            rest
        } else {
            BULK_PACKET_SIZE as usize
        };
        if to_write == 0 && !write_empty {
            self.state.len = 0;
            self.state.i = 0;
            return ;
        }
        let start = self.state.i;
        let sent = self.ep_bulk_in.write(
            bus,
            slice_subrange(self.state.buf.as_slice(), start, start + to_write),
        );
        match sent {
            Ok(count) => {
                if count == to_write {
                    self.state.expect_bulk_in_complete = true;
                    self.state.i = start + count;
                } else {
                    self.state.fault = true;
                }
            },
            Err(UsbError::Busy) => {},
            Err(_) => {
                self.state.fault = true;
            },
        }
    }

    /// Does the work of the class on its bulk endpoints; to be called after
    /// every poll of the device. The echo goes on where a packet has been
    /// reported as sent; then a packet is read from the bulk OUT endpoint,
    /// and the echo starts where that packet ends a transfer.
    ///
    /// Fails with `InvalidState`, and calls nothing, once the device or the
    /// peripheral has done what the class does not expect.
    pub fn poll(&mut self, bus: &mut UsbBusAllocator<B>) -> (r: Result<(), UsbError>)
        requires
            old(self).wf(),
            old(bus).is_frozen(),
        ensures
            final(self).wf(),
            final(bus).is_frozen(),
            (final(self)@, final(bus)@, r) == spec_class_poll(
                old(self)@,
                old(bus)@,
                final(bus)@.trace,
            ),
    {
        if self.state.fault {
            return Err(UsbError::InvalidState);
        }
        if self.state.bulk_in_completed {
            self.state.bulk_in_completed = false;
            self.write_bulk_in(bus, false);
            if self.state.fault {
                return Err(UsbError::InvalidState);
            }
        }
        let i = self.state.i;
        let expected = self.state.expect_bulk_out;
        let (head, tail) = self.state.buf.split_at_mut(i);
        let got = self.ep_bulk_out.read(bus, tail);
        match got {
            Ok(count) => {
                if !expected || count > BUFFER_LEN - i {
                    self.state.fault = true;
                    return Err(UsbError::InvalidState);
                }
                self.state.expect_bulk_out = false;
                self.state.i = i + count;
                if count < BULK_PACKET_SIZE as usize {
                    self.state.len = self.state.i;
                    self.state.i = 0;
                    self.write_bulk_in(bus, count == 0);
                    if self.state.fault {
                        return Err(UsbError::InvalidState);
                    }
                }
                Ok(())
            },
            Err(UsbError::NoData) => Ok(()),
            Err(e) => {
                self.state.fault = true;
                Err(e)
            },
        }
    }
}

impl<B: UsbBus> UsbClass for TestClass<B> {
    /// Forgets everything: the buffer is empty and nothing is expected.
    fn reset(&mut self) -> (r: Result<(), UsbError>)
        ensures
            r is Ok,
            final(self)@ == old(self)@.spec_reset(),
            final(self).endpoints_fit() == old(self).endpoints_fit(),
    {
        self.state = State {
            buf: [0u8; 256],
            len: 0,
            i: 0,
            expect_bulk_in_complete: false,
            expect_bulk_out: false,
            bulk_in_completed: false,
            fault: false,
        };
        assert(self.state.buf@ =~= Seq::new(BUFFER_LEN as nat, |k: int| 0u8));
        Ok(())
    }

    /// Writes the interface of the class, with its two endpoints, IN first.
    fn get_configuration_descriptors(&mut self, writer: &mut DescriptorWriter) -> (r: Result<
        (),
        UsbError,
    >)
        ensures
            *final(self) == *old(self),
            r is Ok <==> old(writer).position() + 23 <= old(writer).capacity(),
            r is Ok ==> final(writer).position() == old(writer).position() + 23
                && final(writer).interfaces() == old(writer).interfaces() + 1,
    {
        match writer.interface(self.iface, 2, 0x00, 0x00, 0x00) {
            Ok(()) => {},
            Err(e) => {
                return Err(e);
            },
        }
        match writer.endpoint(&self.ep_bulk_in) {
            Ok(()) => {},
            Err(e) => {
                return Err(e);
            },
        }
        writer.endpoint(&self.ep_bulk_out)
    }

    /// Stores the request or the data in the buffer, as the request asks.
    fn control_out(&mut self, req: &Request, data: &[u8]) -> (r: ControlOutResult)
        ensures
            old(self)@.wf() ==> (final(self)@, r) == old(self)@.spec_control_out(*req, data@),
            final(self).endpoints_fit() == old(self).endpoints_fit(),
    {
        if !(req.request_type == RequestType::Vendor && req.recipient == Recipient::Device) {
            return ControlOutResult::Ignore;
        }
        if req.request == REQ_STORE_REQUEST {
            self.state.buf[0] = req.direction.bits() + 32 * req.request_type.bits()
                + req.recipient.bits();
            self.state.buf[1] = req.request;
            self.state.buf[2] = lo(req.value);
            self.state.buf[3] = hi(req.value);
            self.state.buf[4] = lo(req.index);
            self.state.buf[5] = hi(req.index);
            self.state.buf[6] = lo(req.length);
            self.state.buf[7] = hi(req.length);
            assert(self.state.buf@ =~= spec_overwrite(
                old(self).state.buf@,
                0,
                spec_stored_request(*req),
            ));
            ControlOutResult::Accept
        } else if req.request == REQ_WRITE_BUFFER && data.len() <= BUFFER_LEN && data.len()
            == req.length as usize {
            let mut k: usize = 0;
            while k < data.len()
                invariant
                    k <= data@.len() <= BUFFER_LEN,
                    self.state.len == old(self).state.len,
                    self.state.i == old(self).state.i,
                    self.state.expect_bulk_in_complete == old(self).state.expect_bulk_in_complete,
                    self.state.expect_bulk_out == old(self).state.expect_bulk_out,
                    self.state.bulk_in_completed == old(self).state.bulk_in_completed,
                    self.state.fault == old(self).state.fault,
                    self.custom_string == old(self).custom_string,
                    self.iface == old(self).iface,
                    self.ep_bulk_in == old(self).ep_bulk_in,
                    self.ep_bulk_out == old(self).ep_bulk_out,
                    forall|j: int|
                        0 <= j < BUFFER_LEN ==> self.state.buf@[j] == if j < k {
                            data@[j]
                        } else {
                            old(self).state.buf@[j]
                        },
                decreases data@.len() - k,
            {
                self.state.buf[k] = data[k];
                k = k + 1;
            }
            assert(self.state.buf@ =~= spec_overwrite(old(self).state.buf@, 0, data@));
            ControlOutResult::Accept
        } else {
            ControlOutResult::Reject
        }
    }

    /// Gives the front of the buffer, as the request asks.
    fn control_in(&mut self, req: &Request, data: &mut [u8]) -> (r: ControlInResult)
        ensures
            *final(self) == *old(self),
            r == old(self)@.spec_control_in(*req, old(data)@.len()).0,
            old(self)@.wf() ==> final(data)@ == spec_overwrite(
                old(data)@,
                0,
                old(self)@.spec_control_in(*req, old(data)@.len()).1,
            ),
    {
        if !(req.request_type == RequestType::Vendor && req.recipient == Recipient::Device) {
            assert(data@ =~= spec_overwrite(data@, 0, Seq::<u8>::empty()));
            return ControlInResult::Ignore;
        }
        let length = req.length as usize;
        if req.request == REQ_READ_BUFFER && length <= BUFFER_LEN && length <= data.len() {
            let mut k: usize = 0;
            while k < length
                invariant
                    k <= length <= BUFFER_LEN,
                    length <= data@.len(),
                    data@.len() == old(data)@.len(),
                    *self == *old(self),
                    forall|j: int|
                        0 <= j < data@.len() ==> data@[j] == if j < k {
                            self.state.buf@[j]
                        } else {
                            old(data)@[j]
                        },
                decreases length - k,
            {
                data[k] = self.state.buf[k];
                k = k + 1;
            }
            assert(self@.wf() ==> data@ =~= spec_overwrite(
                old(data)@,
                0,
                self.state.buf@.subrange(0, length as int),
            ));
            ControlInResult::Accept(length)
        } else {
            assert(data@ =~= spec_overwrite(data@, 0, Seq::<u8>::empty()));
            ControlInResult::Reject
        }
    }

    /// Takes note that a packet has come in on the bulk OUT endpoint.
    fn endpoint_out(&mut self, addr: u8)
        ensures
            final(self).endpoints_fit() == old(self).endpoints_fit(),
            final(self)@ == (TestClassView {
                expect_bulk_out: old(self)@.expect_bulk_out || addr == old(self)@.bulk_out@,
                ..old(self)@
            }),
    {
        let own: u8 = self.ep_bulk_out.address().into();
        if addr == own {
            self.state.expect_bulk_out = true;
        }
    }

    /// Takes note that a packet has gone out on the bulk IN endpoint: the
    /// echo goes on at the next poll of the class. A completion that was
    /// not expected is a fault.
    fn endpoint_in_complete(&mut self, addr: u8)
        ensures
            final(self).endpoints_fit() == old(self).endpoints_fit(),
            addr != old(self)@.bulk_in@ ==> final(self)@ == old(self)@,
            addr == old(self)@.bulk_in@ && old(self)@.expect_bulk_in_complete ==> final(self)@ == (
            TestClassView {
                expect_bulk_in_complete: false,
                bulk_in_completed: true,
                ..old(self)@
            }),
            addr == old(self)@.bulk_in@ && !old(self)@.expect_bulk_in_complete ==> final(self)@
                == (TestClassView { fault: true, ..old(self)@ }),
    {
        let own: u8 = self.ep_bulk_in.address().into();
        if addr == own {
            if self.state.expect_bulk_in_complete {
                self.state.expect_bulk_in_complete = false;
                self.state.bulk_in_completed = true;
            } else {
                self.state.fault = true;
            }
        }
    }

    /// Gives the string of the class for its index, in US English.
    fn get_string<'a>(&'a self, index: StringIndex, lang_id: u16) -> (r: Option<&'a str>)
        ensures
            index@ == self@.custom_string && lang_id == lang_id::ENGLISH_US ==> r == Some(
                CUSTOM_STRING,
            ),
            !(index@ == self@.custom_string && lang_id == lang_id::ENGLISH_US) ==> r is None,
    {
        if index.index() == self.custom_string.index() && lang_id == lang_id::ENGLISH_US {
            Some(CUSTOM_STRING)
        } else {
            None
        }
    }
}

} // verus!
