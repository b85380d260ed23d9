//! The device as contracts see it, and what each event makes of it.
//!
//! Every function here is a statement, not code that runs. What the
//! peripheral and the classes answer is not known beforehand: a function
//! that speaks of such an answer reads it from the record of the calls, the
//! trace of the bus and the log of the classes as they stand after the
//! event, at the place where the call is recorded.

use vstd::prelude::*;
use crate::UsbDirection;
use crate::UsbError;
use crate::bus::BusCall;
use crate::bus::BusState;
use crate::bus::MAX_ENDPOINTS;
use crate::bus::PollResult;
use crate::bus::spec_call_at;
use crate::class::ClassCall;
use crate::class::Dispatch;
use crate::class::spec_asked;
use crate::class::spec_dispatch_at;
use crate::class::spec_extends;
use crate::class::spec_replay;
use crate::class::spec_replay_in;
use crate::class::spec_told;
use crate::control::Recipient;
use crate::control::Request;
use crate::control::RequestType;
use crate::control::spec_hi;
use crate::control::spec_lo;
use crate::control::standard_request;
use crate::descriptor::descriptor_type;
use crate::descriptor::lang_id;
use crate::descriptor::spec_descriptor;
use crate::descriptor::spec_le_bytes;
use crate::descriptor::spec_overwrite;
use crate::descriptor::spec_utf16;
use crate::device::ControlInResult;
use crate::device::ControlOutResult;
use crate::device::UsbDeviceInfo;
use crate::device::UsbDeviceState;
use crate::endpoint::EndpointAddress;
use crate::endpoint::EndpointDirection;
use crate::endpoint::EndpointType;
use crate::transfer::CONTROL_BUF_LEN;
use crate::transfer::ControlState;
use crate::transfer::ControlView;
use crate::transfer::SetupStep;
use crate::transfer::spec_idle_control;
use crate::transfer::Step;

verus! {

/// The feature selector of the STALL condition of an endpoint.
pub const FEATURE_ENDPOINT_HALT: u16 = 0;

/// The feature selector of remote wakeup.
pub const FEATURE_DEVICE_REMOTE_WAKEUP: u16 = 1;

/// The value of the one configuration that a device has.
pub const CONFIGURATION_VALUE: u16 = 1;

/// The one alternate setting that an interface has.
pub const DEFAULT_ALTERNATE_SETTING: u16 = 0;

/// The length of the configuration descriptor proper, in front of what the
/// classes write.
pub const CONFIGURATION_HEADER_LEN: usize = 9;

/// What a device stands for in contracts.
pub struct DeviceView<'a> {
    /// The identity of the device.
    pub info: UsbDeviceInfo<'a>,
    /// How far the host has brought the device.
    pub state: UsbDeviceState,
    /// The control transfer record.
    pub control: ControlView,
    /// The address that the host has set and that the peripheral has not
    /// been told yet; 0 where there is none.
    pub pending_address: u8,
    /// Whether the host has enabled remote wakeup.
    pub remote_wakeup_enabled: bool,
    /// The gateway to the peripheral, with the trace of its calls.
    pub bus: BusState,
    /// The calls made to the classes so far, oldest first.
    pub class_log: Seq<Dispatch>,
    /// The number of classes.
    pub classes: int,
}

/// The address of the OUT half of endpoint zero.
pub open spec fn spec_ep0_out() -> EndpointAddress {
    EndpointAddress::of(0x00)
}

/// The address of the IN half of endpoint zero.
pub open spec fn spec_ep0_in() -> EndpointAddress {
    EndpointAddress::of(0x80)
}

/// The endpoint that a request to an endpoint names: the low byte of its
/// index, cut to the direction bit and four bits of index.
pub open spec fn spec_request_endpoint(req: Request) -> EndpointAddress {
    EndpointAddress::of(spec_lo(req.index) & 0x8f)
}

/// The descriptor type and the descriptor index in the value of a
/// GET_DESCRIPTOR request: its high and its low byte.
pub open spec fn spec_descriptor_type_index(value: u16) -> (u8, u8) {
    (spec_hi(value), spec_lo(value))
}

/// The attributes byte of the configuration descriptor: bit 7 always, bit 6
/// for a self-powered device, bit 5 for one that supports remote wakeup.
pub open spec fn spec_attributes(info: UsbDeviceInfo) -> u8 {
    (0x80 + if info.self_powered {
        0x40int
    } else {
        0int
    } + if info.supports_remote_wakeup {
        0x20int
    } else {
        0int
    }) as u8
}

/// The device descriptor: USB 2.0, the identity of the device, strings 1 to
/// 3 for manufacturer, product and serial number, one configuration.
pub open spec fn spec_device_descriptor(info: UsbDeviceInfo) -> Seq<u8> {
    seq![
        18u8,
        descriptor_type::DEVICE,
        0x00u8,
        0x02u8,
        info.device_class,
        info.device_sub_class,
        info.device_protocol,
        info.max_packet_size_0,
        spec_lo(info.vendor_id),
        spec_hi(info.vendor_id),
        spec_lo(info.product_id),
        spec_hi(info.product_id),
        spec_lo(info.device_release),
        spec_hi(info.device_release),
        1u8,
        2u8,
        3u8,
        1u8,
    ]
}

/// The configuration descriptor proper, for a configuration of
/// `total_length` bytes in all with `interfaces` interfaces.
pub open spec fn spec_configuration_header(
    info: UsbDeviceInfo,
    total_length: int,
    interfaces: int,
) -> Seq<u8> {
    seq![
        9u8,
        descriptor_type::CONFIGURATION,
        spec_lo(total_length as u16),
        spec_hi(total_length as u16),
        interfaces as u8,
        1u8,
        0u8,
        spec_attributes(info),
        info.max_power,
    ]
}

/// The string descriptor of a string.
pub open spec fn spec_string_descriptor(s: Seq<char>) -> Seq<u8> {
    spec_descriptor(descriptor_type::STRING, spec_le_bytes(spec_utf16(s)))
}

/// The string descriptor that lists the one language of the device.
pub open spec fn spec_language_descriptor() -> Seq<u8> {
    seq![4u8, descriptor_type::STRING, spec_lo(lang_id::ENGLISH_US), spec_hi(lang_id::ENGLISH_US)]
}

/// The status word of the device: bit 0 for a self-powered device, bit 1
/// where remote wakeup is enabled.
pub open spec fn spec_device_status(self_powered: bool, remote_wakeup_enabled: bool) -> u8 {
    (if self_powered {
        1int
    } else {
        0int
    } + if remote_wakeup_enabled {
        2int
    } else {
        0int
    }) as u8
}

/// What the classes have written of a configuration descriptor.
pub struct Described {
    /// The number of classes that were asked.
    pub asked: int,
    /// Whether every class that was asked succeeded and had room.
    pub complete: bool,
    /// The bytes that the classes wrote, in the order of the table.
    pub bytes: Seq<u8>,
    /// The number of interface descriptors among them.
    pub interfaces: int,
}

/// What the first `k` classes have written of a configuration descriptor,
/// read from the calls recorded in `log` from place `from` on. The classes
/// are asked in the order of the table, as long as each succeeds and what it
/// wrote has room behind what came before.
///
/// A record of more interface descriptors than its bytes can hold, at two
/// bytes each, would count as a failure; no `DescriptorWriter` makes one.
pub open spec fn spec_described(log: Seq<Dispatch>, from: int, k: int) -> Described
    decreases k,
{
    if k <= 0 {
        Described { asked: 0, complete: true, bytes: Seq::<u8>::empty(), interfaces: 0 }
    } else {
        let before = spec_described(log, from, k - 1);
        let call = spec_dispatch_at(log, from + k - 1);
        if !before.complete {
            before
        } else if call.spec_described() is Err || CONFIGURATION_HEADER_LEN + before.bytes.len()
            + call.spec_described_bytes().len() > CONTROL_BUF_LEN || 2
            * call.spec_described_interfaces() > call.spec_described_bytes().len() {
            Described { asked: k, complete: false, ..before }
        } else {
            Described {
                asked: k,
                complete: true,
                bytes: before.bytes + call.spec_described_bytes(),
                interfaces: before.interfaces + call.spec_described_interfaces(),
            }
        }
    }
}

/// The device as it is put together, before its first reset: in its
/// `Default` state, with an idle control transfer, no pending address and
/// remote wakeup disabled.
pub open spec fn spec_fresh<'a>(
    info: UsbDeviceInfo<'a>,
    bus: BusState,
    class_log: Seq<Dispatch>,
    classes: int,
) -> DeviceView<'a> {
    DeviceView {
        info,
        state: UsbDeviceState::Default,
        control: spec_idle_control(),
        pending_address: 0,
        remote_wakeup_enabled: false,
        bus,
        class_log,
        classes,
    }
}

/// The gateway of a device that has been put together: the two halves of
/// endpoint zero have been allocated as control endpoints with the packet
/// size of the device, OUT first, the peripheral has been enabled, and the
/// gateway is frozen.
pub open spec fn spec_brought_up(bus: BusState, max_packet_size_0: u8) -> BusState {
    BusState {
        frozen: true,
        trace: bus.trace.push(
            BusCall::AllocEp {
                dir: UsbDirection::Out,
                requested: Some(spec_ep0_out()),
                ep_type: EndpointType::Control,
                max_packet_size: max_packet_size_0 as u16,
                interval: 0,
                result: Ok(spec_ep0_out()),
            },
        ).push(
            BusCall::AllocEp {
                dir: UsbDirection::In,
                requested: Some(spec_ep0_in()),
                ep_type: EndpointType::Control,
                max_packet_size: max_packet_size_0 as u16,
                interval: 0,
                result: Ok(spec_ep0_in()),
            },
        ).push(BusCall::Enable),
        vended: bus.vended.insert(0x00u8).insert(0x80u8),
        ..bus
    }
}

/// The gateway after an attempt to bring it up for a device, and the error
/// of the attempt, if it failed. The two halves of endpoint zero are
/// allocated as control endpoints with the packet size of the device, OUT
/// first; then the peripheral is enabled and the gateway frozen. The
/// attempt ends with the first allocation that fails. What the peripheral
/// answered is read from the trace `t`.
pub open spec fn spec_bring_up(bus: BusState, max_packet_size_0: u8, t: Seq<BusCall>) -> (
    BusState,
    Option<UsbError>,
) {
    let (first, out) = bus.spec_allocate(
        EndpointDirection::Out,
        Some(spec_ep0_out()),
        EndpointType::Control,
        max_packet_size_0 as u16,
        0,
        t,
    );
    match out {
        Err(e) => (first, Some(e)),
        Ok(_) => {
            let (second, into) = first.spec_allocate(
                EndpointDirection::In,
                Some(spec_ep0_in()),
                EndpointType::Control,
                max_packet_size_0 as u16,
                0,
                t,
            );
            match into {
                Err(e) => (second, Some(e)),
                Ok(_) => (BusState { frozen: true, ..second.logged(BusCall::Enable) }, None),
            }
        },
    }
}

/// An attempt to bring up a gateway that succeeds leaves the gateway
/// brought up: the peripheral has given the two halves of endpoint zero.
pub proof fn lemma_bring_up_succeeds(bus: BusState, max_packet_size_0: u8, t: Seq<BusCall>)
    requires
        spec_bring_up(bus, max_packet_size_0, t).1 is None,
    ensures
        spec_bring_up(bus, max_packet_size_0, t).0 == spec_brought_up(bus, max_packet_size_0),
{
    broadcast use crate::endpoint::lemma_view_of_byte;

    let brought = spec_bring_up(bus, max_packet_size_0, t).0;
    assert(brought.trace =~= spec_brought_up(bus, max_packet_size_0).trace);
    assert(brought.vended =~= spec_brought_up(bus, max_packet_size_0).vended);
}

/// Whether bit `i` of an event bit field is set: whether the endpoint with
/// index `i` has the event.
pub open spec fn spec_bit(mask: u16, i: u8) -> bool {
    mask & (1u16 << i) != 0
}

impl<'a> DeviceView<'a> {
    /// What holds of a device at all times: the gateway is frozen, the
    /// control record is well-formed, it has eight classes at most, and its
    /// endpoint zero takes packets of 8, 16, 32 or 64 bytes.
    pub open spec fn wf(self) -> bool {
        &&& self.bus.frozen
        &&& self.control.wf()
        &&& 0 <= self.classes <= crate::class::MAX_CLASSES
        &&& self.info.wf()
    }

    /// Whether the device has come from `before` by events alone: it has
    /// the identity and the classes it had, nothing was allocated, and the
    /// records of the calls have grown at their ends.
    pub open spec fn continues(self, before: Self) -> bool {
        &&& self.info == before.info
        &&& self.classes == before.classes
        &&& self.bus.frozen == before.bus.frozen
        &&& self.bus.next_interface == before.bus.next_interface
        &&& self.bus.next_string == before.bus.next_string
        &&& self.bus.vended == before.bus.vended
        &&& spec_extends(before.bus.trace, self.bus.trace)
        &&& spec_extends(before.class_log, self.class_log)
    }

    /// Whether the device differs from `before` in the bytes of the control
    /// buffer at most, as far as the control transfer and the state of the
    /// device go.
    pub open spec fn same_transfer(self, before: Self) -> bool {
        &&& self.control == (ControlView { buf: self.control.buf, ..before.control })
        &&& self.control.buf.len() == before.control.buf.len()
        &&& self.state == before.state
        &&& self.pending_address == before.pending_address
        &&& self.remote_wakeup_enabled == before.remote_wakeup_enabled
    }

    /// Whether the device has come from `before` by an answer written to
    /// the control buffer, without a call to the peripheral.
    pub open spec fn answered(self, before: Self) -> bool {
        &&& self.same_transfer(before)
        &&& self.bus == before.bus
    }

    /// The call that follows those of this state in the trace `t`.
    pub open spec fn next_call(self, t: Seq<BusCall>) -> BusCall {
        spec_call_at(t, self.bus.trace.len() as int)
    }

    /// The number of calls to classes so far.
    pub open spec fn dispatched(self) -> int {
        self.class_log.len() as int
    }

    /// The device after one more call to the peripheral.
    pub open spec fn called(self, call: BusCall) -> Self {
        DeviceView { bus: self.bus.logged(call), ..self }
    }

    /// The device with another control transfer record.
    pub open spec fn with_control(self, control: ControlView) -> Self {
        DeviceView { control, ..self }
    }

    /// The device with other bytes in its control buffer.
    pub open spec fn with_buf(self, buf: Seq<u8>) -> Self {
        DeviceView { control: ControlView { buf, ..self.control }, ..self }
    }

    /// The device after a control transfer has failed: the record is in
    /// `Error`, and both directions of endpoint zero have been stalled, OUT
    /// first.
    pub open spec fn failed(self) -> Self {
        DeviceView {
            control: self.control.at(ControlState::Error),
            bus: self.bus.logged(
                BusCall::SetStalled { addr: spec_ep0_out(), stalled: true },
            ).logged(BusCall::SetStalled { addr: spec_ep0_in(), stalled: true }),
            ..self
        }
    }

    /// The device after a step of a control transfer: failed, where the
    /// record has gone to `Error`.
    pub open spec fn settled(self) -> Self {
        if self.control.state is Error {
            self.failed()
        } else {
            self
        }
    }

    /// The device after the next packet of the data stage has been handed
    /// to the peripheral: one write to the IN half of endpoint zero, with
    /// the bytes of the packet.
    #[verifier::opaque]
    pub open spec fn spec_chunk_sent(self, t: Seq<BusCall>) -> Self {
        let result = self.next_call(t).spec_moved();
        let m = self.info.max_packet_size_0;
        self.called(
            BusCall::Write { addr: spec_ep0_in(), data: self.control.spec_chunk(m), result },
        ).with_control(self.control.spec_chunk_written(result, m)).settled()
    }

    /// The device after an IN packet of endpoint zero has gone out.
    ///
    /// In the data stage the next packet follows, or the zero-length packet
    /// that is owed. Behind the last packet the OUT half is released for
    /// the status packet. Behind the status packet of an accepted request
    /// the transfer is over, and a pending address is handed to the
    /// peripheral: the device is then `Addressed`. In every other stage the
    /// packet was not expected, and the transfer fails.
    #[verifier::opaque]
    pub open spec fn spec_in_complete(self, t: Seq<BusCall>) -> Self {
        match self.control.state {
            ControlState::DataIn => self.spec_chunk_sent(t),
            ControlState::DataInZlp => {
                let result = self.next_call(t).spec_moved();
                self.called(
                    BusCall::Write { addr: spec_ep0_in(), data: Seq::<u8>::empty(), result },
                ).with_control(self.control.spec_zlp_written(result)).settled()
            },
            ControlState::DataInLast => self.called(
                BusCall::SetStalled { addr: spec_ep0_out(), stalled: false },
            ).with_control(self.control.at(ControlState::StatusOut)),
            ControlState::StatusIn => {
                let idle = self.with_control(self.control.at(ControlState::Idle));
                if self.pending_address != 0 {
                    DeviceView {
                        state: UsbDeviceState::Addressed,
                        pending_address: 0,
                        ..idle.called(BusCall::SetDeviceAddress { addr: self.pending_address })
                    }
                } else {
                    idle
                }
            },
            _ => self.failed(),
        }
    }

    /// The device after the standard handler has looked at a host-to-device
    /// request, and the handler's answer.
    ///
    /// Accepted are: clearing and setting the remote wakeup feature of the
    /// device; clearing and setting the halt feature of an endpoint, which
    /// is handed to the peripheral; setting an address from 1 to 127, which
    /// is kept pending; setting configuration 1, which makes the device
    /// `Configured`; setting alternate setting 0 of an interface, which
    /// changes nothing. Everything else is rejected.
    #[verifier::opaque]
    pub open spec fn spec_standard_out(self, req: Request) -> (Self, ControlOutResult) {
        if req.recipient == Recipient::Device && req.request == standard_request::CLEAR_FEATURE
            && req.value == FEATURE_DEVICE_REMOTE_WAKEUP {
            (DeviceView { remote_wakeup_enabled: false, ..self }, ControlOutResult::Accept)
        } else if req.recipient == Recipient::Endpoint && req.request
            == standard_request::CLEAR_FEATURE && req.value == FEATURE_ENDPOINT_HALT {
            (
                self.called(
                    BusCall::SetStalled { addr: spec_request_endpoint(req), stalled: false },
                ),
                ControlOutResult::Accept,
            )
        } else if req.recipient == Recipient::Device && req.request
            == standard_request::SET_FEATURE && req.value == FEATURE_DEVICE_REMOTE_WAKEUP {
            (DeviceView { remote_wakeup_enabled: true, ..self }, ControlOutResult::Accept)
        } else if req.recipient == Recipient::Endpoint && req.request
            == standard_request::SET_FEATURE && req.value == FEATURE_ENDPOINT_HALT {
            (
                self.called(
                    BusCall::SetStalled { addr: spec_request_endpoint(req), stalled: true },
                ),
                ControlOutResult::Accept,
            )
        } else if req.recipient == Recipient::Device && req.request
            == standard_request::SET_ADDRESS && 1 <= req.value <= 127 {
            (DeviceView { pending_address: req.value as u8, ..self }, ControlOutResult::Accept)
        } else if req.recipient == Recipient::Device && req.request
            == standard_request::SET_CONFIGURATION && req.value == CONFIGURATION_VALUE {
            (DeviceView { state: UsbDeviceState::Configured, ..self }, ControlOutResult::Accept)
        } else if req.recipient == Recipient::Interface && req.request
            == standard_request::SET_INTERFACE && req.value == DEFAULT_ALTERNATE_SETTING {
            (self, ControlOutResult::Accept)
        } else {
            (self, ControlOutResult::Reject)
        }
    }

    /// The device after a host-to-device request has been handled, its data
    /// being complete.
    ///
    /// The classes are offered the request and its data in the order of the
    /// table, up to the first that does not ignore it. Where all ignore it
    /// and it is a standard request, the standard handler answers. An
    /// accepted request gets a zero-length IN packet for its status stage;
    /// any other answer fails the transfer.
    #[verifier::opaque]
    pub open spec fn spec_complete_out(self, t: Seq<BusCall>, l: Seq<Dispatch>) -> Self {
        let req = self.control.request->0;
        let data = self.control.spec_out_data();
        let from = self.dispatched();
        let k = spec_asked(
            l,
            from,
            self.classes,
            |call: ClassCall| call.spec_out_result() != ControlOutResult::Ignore,
        );
        let offered = DeviceView {
            class_log: self.class_log + spec_replay(
                l,
                from,
                k,
                |call: ClassCall|
                    ClassCall::ControlOut { req, data, result: call.spec_out_result() },
            ),
            ..self
        };
        let said = if k > 0 {
            spec_dispatch_at(l, from + k - 1).spec_out_result()
        } else {
            ControlOutResult::Ignore
        };
        let (handled, answer) = if said == ControlOutResult::Ignore && req.request_type
            == RequestType::Standard {
            offered.spec_standard_out(req)
        } else {
            (offered, said)
        };
        let done = handled.with_control(handled.control.spec_finish_out(answer));
        if answer == ControlOutResult::Accept {
            done.called(
                BusCall::Write {
                    addr: spec_ep0_in(),
                    data: Seq::<u8>::empty(),
                    result: done.next_call(t).spec_moved(),
                },
            )
        } else {
            done.failed()
        }
    }

    /// The device after an OUT packet of endpoint zero has come in.
    ///
    /// In the data stage the packet is read into the buffer behind what is
    /// there, and the request is handled once its data is complete. In the
    /// status stage of a device-to-host request the packet is read and the
    /// transfer is over. In every other stage the packet is read, thrown
    /// away, and the transfer fails.
    #[verifier::opaque]
    pub open spec fn spec_out_event(self, t: Seq<BusCall>, l: Seq<Dispatch>) -> Self {
        let got = self.next_call(t).spec_moved();
        let filled = self.next_call(t).spec_filled();
        match self.control.state {
            ControlState::DataOut => {
                let read = self.called(
                    BusCall::Read {
                        addr: spec_ep0_out(),
                        capacity: (CONTROL_BUF_LEN - self.control.i) as nat,
                        result: got,
                        filled,
                    },
                ).with_buf(self.control.buf.subrange(0, self.control.i as int) + filled);
                let (control, step) = read.control.spec_data_received(got);
                match step {
                    Step::Proceed => read.with_control(control),
                    Step::Stall => read.with_control(control).failed(),
                    Step::CompleteOut => read.with_control(control).spec_complete_out(t, l),
                }
            },
            ControlState::StatusOut => self.called(
                BusCall::Read { addr: spec_ep0_out(), capacity: 0, result: got, filled },
            ).with_control(self.control.spec_status_received(got)).settled(),
            _ => self.called(
                BusCall::Read {
                    addr: spec_ep0_out(),
                    capacity: CONTROL_BUF_LEN as nat,
                    result: got,
                    filled,
                },
            ).with_buf(filled).failed(),
        }
    }

    /// The device after a string has been written to the control buffer as
    /// a string descriptor, and the answer: the length of the descriptor
    /// where it has room in the buffer, a rejection, and nothing written,
    /// where not.
    #[verifier::opaque]
    pub open spec fn spec_answer_string(self, s: Seq<char>) -> (Self, ControlInResult) {
        let length = 2 + 2 * spec_utf16(s).len();
        if length <= CONTROL_BUF_LEN {
            (
                self.with_buf(spec_overwrite(self.control.buf, 0, spec_string_descriptor(s))),
                ControlInResult::Accept(length as usize),
            )
        } else {
            (self, ControlInResult::Reject)
        }
    }

    /// The device after the configuration descriptor has been written to
    /// the control buffer, and the answer: the configuration descriptor
    /// proper, then what each class writes, in the order of the table. Its
    /// total length and its number of interfaces are those of what was
    /// written. Where a class fails or the buffer is full, the classes
    /// behind it are not asked, the request is rejected, and the buffer is
    /// as it was.
    #[verifier::opaque]
    pub open spec fn spec_configuration(self, l: Seq<Dispatch>) -> (Self, ControlInResult) {
        let from = self.dispatched();
        let d = spec_described(l, from, self.classes);
        let asked = DeviceView {
            class_log: self.class_log + spec_replay(
                l,
                from,
                d.asked,
                |call: ClassCall|
                    ClassCall::GetConfigurationDescriptors {
                        before: Seq::<u8>::empty(),
                        capacity: CONTROL_BUF_LEN as nat,
                        result: call.spec_described(),
                        bytes: call.spec_described_bytes(),
                        interfaces: call.spec_described_interfaces(),
                    },
            ),
            ..self
        };
        if d.complete {
            let total = CONFIGURATION_HEADER_LEN + d.bytes.len();
            (
                asked.with_buf(
                    spec_overwrite(
                        self.control.buf,
                        0,
                        spec_configuration_header(self.info, total, d.interfaces) + d.bytes,
                    ),
                ),
                ControlInResult::Accept(total as usize),
            )
        } else {
            (asked, ControlInResult::Reject)
        }
    }

    /// The device after the classes have been asked for the string with the
    /// given index in the given language, and the answer: the classes are
    /// asked in the order of the table, up to the first that has the
    /// string, which is written to the control buffer as a string
    /// descriptor. The request is rejected where no class has the string,
    /// or where the string has no room.
    #[verifier::opaque]
    pub open spec fn spec_class_string(self, index: u8, lang_id: u16, l: Seq<Dispatch>) -> (
        Self,
        ControlInResult,
    ) {
        let from = self.dispatched();
        let k = spec_asked(l, from, self.classes, |call: ClassCall| call.spec_string() is Some);
        let asked = DeviceView {
            class_log: self.class_log + spec_replay(
                l,
                from,
                k,
                |call: ClassCall|
                    ClassCall::GetString { index, lang_id, result: call.spec_string() },
            ),
            ..self
        };
        let said = if k > 0 {
            spec_dispatch_at(l, from + k - 1).spec_string()
        } else {
            None
        };
        match said {
            Some(s) => asked.spec_answer_string(s),
            None => (asked, ControlInResult::Reject),
        }
    }

    /// The device after a GET_DESCRIPTOR request has been answered, and the
    /// answer. The high byte of the request's value is the descriptor type,
    /// the low byte the descriptor index.
    ///
    /// DEVICE: the device descriptor. CONFIGURATION: the configuration
    /// descriptor proper, then what each class writes, in the order of the
    /// table; its total length and its number of interfaces are those of
    /// what was written; the request is rejected where a class fails or the
    /// buffer is full. STRING: index 0 gives the language list, 1 to 3 the
    /// manufacturer, the product and the serial number; for any other index
    /// the classes are asked in the order of the table, with the request's
    /// index as the language, up to the first that has the string; the
    /// request is rejected where none has it, or where the string has no
    /// room. Every other type is rejected. A rejected request leaves the
    /// buffer as it was.
    #[verifier::opaque]
    pub open spec fn spec_get_descriptor(self, req: Request, l: Seq<Dispatch>) -> (
        Self,
        ControlInResult,
    ) {
        let (dtype, index) = spec_descriptor_type_index(req.value);
        if dtype == descriptor_type::DEVICE {
            (
                self.with_buf(
                    spec_overwrite(self.control.buf, 0, spec_device_descriptor(self.info)),
                ),
                ControlInResult::Accept(18),
            )
        } else if dtype == descriptor_type::CONFIGURATION {
            self.spec_configuration(l)
        } else if dtype == descriptor_type::STRING {
            if index == 0 {
                (
                    self.with_buf(spec_overwrite(self.control.buf, 0, spec_language_descriptor())),
                    ControlInResult::Accept(4),
                )
            } else if index == 1 {
                self.spec_answer_string(self.info.manufacturer@)
            } else if index == 2 {
                self.spec_answer_string(self.info.product@)
            } else if index == 3 {
                self.spec_answer_string(self.info.serial_number@)
            } else {
                self.spec_class_string(index, req.index, l)
            }
        } else {
            (self, ControlInResult::Reject)
        }
    }

    /// The device after the standard handler has looked at a device-to-host
    /// request, and the handler's answer. The response is written to the
    /// front of the control buffer.
    ///
    /// Answered are: the status of the device, two bytes, bit 0 for a
    /// self-powered device and bit 1 where remote wakeup is enabled; the
    /// status of an interface, two zero bytes; the status of an endpoint,
    /// two bytes, bit 0 where the peripheral says that the endpoint is
    /// stalled; the descriptors; the configuration, one byte, 1 where the
    /// device is configured and 0 where not; the alternate setting of an
    /// interface, one zero byte. Everything else is rejected.
    #[verifier::opaque]
    pub open spec fn spec_standard_in(self, req: Request, t: Seq<BusCall>, l: Seq<Dispatch>) -> (
        Self,
        ControlInResult,
    ) {
        let buf = self.control.buf;
        if req.recipient == Recipient::Device && req.request == standard_request::GET_STATUS {
            (
                self.with_buf(
                    spec_overwrite(
                        buf,
                        0,
                        seq![
                            spec_device_status(self.info.self_powered, self.remote_wakeup_enabled),
                            0u8,
                        ],
                    ),
                ),
                ControlInResult::Accept(2),
            )
        } else if req.recipient == Recipient::Interface && req.request
            == standard_request::GET_STATUS {
            (self.with_buf(spec_overwrite(buf, 0, seq![0u8, 0u8])), ControlInResult::Accept(2))
        } else if req.recipient == Recipient::Endpoint && req.request
            == standard_request::GET_STATUS {
            let stalled = self.next_call(t).spec_stall_seen();
            (
                self.called(
                    BusCall::IsStalled { addr: spec_request_endpoint(req), result: stalled },
                ).with_buf(
                    spec_overwrite(
                        buf,
                        0,
                        seq![
                            if stalled {
                                1u8
                            } else {
                                0u8
                            },
                            0u8,
                        ],
                    ),
                ),
                ControlInResult::Accept(2),
            )
        } else if req.recipient == Recipient::Device && req.request
            == standard_request::GET_DESCRIPTOR {
            self.spec_get_descriptor(req, l)
        } else if req.recipient == Recipient::Device && req.request
            == standard_request::GET_CONFIGURATION {
            (
                self.with_buf(
                    spec_overwrite(
                        buf,
                        0,
                        seq![
                            if self.state is Configured {
                                1u8
                            } else {
                                0u8
                            },
                        ],
                    ),
                ),
                ControlInResult::Accept(1),
            )
        } else if req.recipient == Recipient::Interface && req.request
            == standard_request::GET_INTERFACE {
            (self.with_buf(spec_overwrite(buf, 0, seq![0u8])), ControlInResult::Accept(1))
        } else {
            (self, ControlInResult::Reject)
        }
    }

    /// The device after a device-to-host request has been answered.
    ///
    /// The classes are offered the request and the control buffer in the
    /// order of the table, up to the first that does not ignore it. Where
    /// all ignore it and it is a standard request, the standard handler
    /// answers. An accepted request starts the data stage, and its first
    /// packet goes out; any other answer fails the transfer.
    #[verifier::opaque]
    pub open spec fn spec_dispatch_in(self, t: Seq<BusCall>, l: Seq<Dispatch>) -> Self {
        let req = self.control.request->0;
        let from = self.dispatched();
        let k = spec_asked(
            l,
            from,
            self.classes,
            |call: ClassCall| call.spec_in_result() != ControlInResult::Ignore,
        );
        let offered = DeviceView {
            class_log: self.class_log + spec_replay_in(l, from, k, req, self.control.buf),
            ..self
        }.with_buf(
            if k > 0 {
                spec_dispatch_at(l, from + k - 1).spec_in_buffer()
            } else {
                self.control.buf
            },
        );
        let said = if k > 0 {
            spec_dispatch_at(l, from + k - 1).spec_in_result()
        } else {
            ControlInResult::Ignore
        };
        let (handled, answer) = if said == ControlInResult::Ignore && req.request_type
            == RequestType::Standard {
            offered.spec_standard_in(req, t, l)
        } else {
            (offered, said)
        };
        let started = handled.with_control(handled.control.spec_start_data_in(answer));
        if started.control.state is DataIn {
            started.spec_chunk_sent(t)
        } else {
            started.failed()
        }
    }

    /// The device after a SETUP packet has come in on endpoint zero.
    ///
    /// The packet is read into the control buffer, whatever the stage of the
    /// transfer in flight, and opens a new transfer: a host-to-device
    /// request with data waits for its data, one without is handled at
    /// once, and a device-to-host request is answered at once. A packet
    /// that cannot be read or understood, and a host-to-device request with
    /// more data than the buffer holds, fail the transfer.
    #[verifier::opaque]
    pub open spec fn spec_setup(self, t: Seq<BusCall>, l: Seq<Dispatch>) -> Self {
        let got = self.next_call(t).spec_moved();
        let filled = self.next_call(t).spec_filled();
        let read = self.called(
            BusCall::Read {
                addr: spec_ep0_out(),
                capacity: CONTROL_BUF_LEN as nat,
                result: got,
                filled,
            },
        ).with_buf(filled);
        let (control, step) = read.control.spec_accept_setup(got);
        let latched = read.with_control(control);
        match step {
            SetupStep::Retry => latched,
            SetupStep::Stall => latched.failed(),
            SetupStep::AwaitData => latched,
            SetupStep::CompleteOut => latched.spec_complete_out(t, l),
            SetupStep::DispatchIn => latched.spec_dispatch_in(t, l),
        }
    }

    /// The device after every class has been told of an event, in the order
    /// of the table.
    pub open spec fn told(self, call: ClassCall) -> Self {
        DeviceView { class_log: self.class_log + spec_told(self.classes, call), ..self }
    }

    /// The device after a bus reset: the peripheral is reset, the device is
    /// in its `Default` state, the control transfer is idle, no address is
    /// pending, and every class has been told, in the order of the table.
    #[verifier::opaque]
    pub open spec fn spec_reset(self, l: Seq<Dispatch>) -> Self {
        DeviceView {
            state: UsbDeviceState::Default,
            control: self.control.at(ControlState::Idle),
            pending_address: 0,
            class_log: self.class_log + spec_replay(
                l,
                self.dispatched(),
                self.classes,
                |call: ClassCall| ClassCall::Reset { result: call.spec_reset_result() },
            ),
            ..self.called(BusCall::Reset)
        }
    }

    /// The device after the events of one endpoint other than endpoint zero
    /// have been passed on to the classes: a SETUP packet, or else an OUT
    /// packet, with the index of the endpoint as its address; then the
    /// completion of an IN packet, with the index and the direction bit.
    pub open spec fn spec_endpoint_event(
        self,
        index: u8,
        setup: bool,
        out: bool,
        in_complete: bool,
    ) -> Self {
        let first = if setup {
            self.told(ClassCall::EndpointSetup { addr: index })
        } else if out {
            self.told(ClassCall::EndpointOut { addr: index })
        } else {
            self
        };
        if in_complete {
            first.told(ClassCall::EndpointInComplete { addr: (index + 0x80) as u8 })
        } else {
            first
        }
    }

    /// The device after the events of the endpoints from 1 to `upto - 1`
    /// have been passed on to the classes, in the order of the endpoints.
    pub open spec fn spec_endpoint_events(
        self,
        ep_setup: u16,
        ep_out: u16,
        ep_in_complete: u16,
        upto: int,
    ) -> Self
        decreases upto,
    {
        if upto <= 1 {
            self
        } else {
            let index = (upto - 1) as u8;
            self.spec_endpoint_events(
                ep_setup,
                ep_out,
                ep_in_complete,
                upto - 1,
            ).spec_endpoint_event(
                index,
                spec_bit(ep_setup, index),
                spec_bit(ep_out, index),
                spec_bit(ep_in_complete, index),
            )
        }
    }

    /// The device after a packet that has come in on endpoint zero has
    /// been handled: a SETUP packet, or else an OUT packet.
    pub open spec fn spec_control_packet(
        self,
        ep_setup: u16,
        ep_out: u16,
        t: Seq<BusCall>,
        l: Seq<Dispatch>,
    ) -> Self {
        if spec_bit(ep_setup, 0) {
            self.spec_setup(t, l)
        } else if spec_bit(ep_out, 0) {
            self.spec_out_event(t, l)
        } else {
            self
        }
    }

    /// The device after the completion of an IN packet on endpoint zero has
    /// been handled, if there is one.
    pub open spec fn spec_control_sent(self, ep_in_complete: u16, t: Seq<BusCall>) -> Self {
        if spec_bit(ep_in_complete, 0) {
            self.spec_in_complete(t)
        } else {
            self
        }
    }

    /// The device after one poll.
    ///
    /// The peripheral is asked for its events. Without events nothing
    /// happens. A reset resets the device. A suspend or a resume of the bus
    /// is handed to the peripheral. Packets are handled endpoint zero
    /// first: a SETUP packet, or else an OUT packet, then the completion of
    /// an IN packet; then the events of the other endpoints are passed on to
    /// the classes.
    #[verifier::opaque]
    pub open spec fn spec_poll(self, t: Seq<BusCall>, l: Seq<Dispatch>) -> Self {
        let events = self.next_call(t).spec_events();
        let polled = self.called(BusCall::Poll { result: events });
        match events {
            PollResult::Nothing => polled,
            PollResult::Reset => polled.spec_reset(l),
            PollResult::Suspend => polled.called(BusCall::Suspend),
            PollResult::Resume => polled.called(BusCall::Resume),
            PollResult::Data { ep_out, ep_in_complete, ep_setup } => polled.spec_control_packet(
                ep_setup,
                ep_out,
                t,
                l,
            ).spec_control_sent(ep_in_complete, t).spec_endpoint_events(
                ep_setup,
                ep_out,
                ep_in_complete,
                MAX_ENDPOINTS as int,
            ),
        }
    }
}

/// What the first `k` classes have written is read from the `k` calls
/// from place `from` on: two logs that agree on those calls give the same.
pub proof fn lemma_described_same(a: Seq<Dispatch>, b: Seq<Dispatch>, from: int, k: int)
    requires
        forall|p: int|
            from <= p < from + k ==> #[trigger] spec_dispatch_at(a, p) == spec_dispatch_at(b, p),
    ensures
        spec_described(a, from, k) == spec_described(b, from, k),
    decreases k,
{
    if k > 0 {
        lemma_described_same(a, b, from, k - 1);
        assert(spec_dispatch_at(a, from + k - 1) == spec_dispatch_at(b, from + k - 1));
    }
}

/// Once a class has failed or found no room, no class behind it is asked.
pub proof fn lemma_described_stops(log: Seq<Dispatch>, from: int, k: int, n: int)
    requires
        0 <= k <= n,
        !spec_described(log, from, k).complete,
    ensures
        spec_described(log, from, n) == spec_described(log, from, k),
    decreases n - k,
{
    if k < n {
        lemma_described_stops(log, from, k, n - 1);
    }
}

/// What the classes have written has room behind the configuration
/// descriptor proper, as long as every class succeeded.
pub proof fn lemma_described_fits(log: Seq<Dispatch>, from: int, k: int)
    requires
        0 <= k,
    ensures
        spec_described(log, from, k).complete ==> spec_described(log, from, k).asked == k,
        0 <= spec_described(log, from, k).asked <= k,
        CONFIGURATION_HEADER_LEN + spec_described(log, from, k).bytes.len() <= CONTROL_BUF_LEN,
    decreases k,
{
    if k > 0 {
        lemma_described_fits(log, from, k - 1);
    }
}

/// What the classes have written is what the classes that were asked have
/// written.
pub proof fn lemma_described_asked(log: Seq<Dispatch>, from: int, n: int)
    requires
        0 <= n,
    ensures
        0 <= spec_described(log, from, n).asked <= n,
        spec_described(log, from, spec_described(log, from, n).asked) == spec_described(
            log,
            from,
            n,
        ),
    decreases n,
{
    if n > 0 {
        lemma_described_asked(log, from, n - 1);
        lemma_described_fits(log, from, n - 1);
    }
}

/// A trace that continues another has the calls of the other at their
/// places.
pub proof fn lemma_extends_call(a: Seq<BusCall>, b: Seq<BusCall>)
    requires
        spec_extends(a, b),
    ensures
        forall|p: int| 0 <= p < a.len() ==> #[trigger] spec_call_at(a, p) == spec_call_at(b, p),
{
    assert forall|p: int| 0 <= p < a.len() implies #[trigger] spec_call_at(a, p) == spec_call_at(
        b,
        p,
    ) by {
        assert(a[p] == b[p]);
    }
}

} // verus!
