//! USB composite device: the control-transfer engine on endpoint zero and
//! the poll entry point.

use vstd::prelude::*;
use vstd::slice::slice_subrange;
use crate::UsbError;
use crate::bus::PollResult;
use crate::bus::UsbBus;
use crate::bus::UsbBusAllocator;
use crate::class::ClassCall;
use crate::class::ClassTable;
use crate::class::lemma_broadcast_read_back;
use crate::class::lemma_in_traversal_read_back;
use crate::class::lemma_traversal_read_back;
use crate::class::MAX_CLASSES;
use crate::class::spec_added;
use crate::class::spec_dispatch_at;
use crate::class::spec_extends;
use crate::class::spec_out_answer;
use crate::class::UsbClass;
use crate::control::RequestType;
use crate::device_builder::BuildError;
use crate::device_builder::spec_default_info;
use crate::device_builder::UsbDeviceBuilder;
use crate::device_builder::UsbVidPid;
use crate::endpoint::EndpointAddress;
use crate::endpoint::EndpointDirection;
use crate::endpoint::EndpointIn;
use crate::endpoint::EndpointOut;
use crate::endpoint::EndpointType;
use crate::endpoint::In;
use crate::endpoint::lemma_address_of_view;
use crate::endpoint::lemma_marker_directions;
use crate::endpoint::Out;
use crate::transfer::Control;
use crate::transfer::ControlState;
use crate::transfer::SetupStep;
use crate::transfer::Step;
use model::DeviceView;
use model::lemma_bring_up_succeeds;
use model::spec_bit;
use model::spec_bring_up;
use model::spec_brought_up;
use model::spec_ep0_in;
use model::spec_ep0_out;
use model::spec_fresh;
use stability::lemma_continues_trans;
use stability::lemma_out_event_stable;
use stability::lemma_setup_stable;
use stability::lemma_standard_in_stable;

pub mod laws;
pub mod model;
pub mod stability;
pub mod standard_control;

verus! {

/// The identity of a device. It does not change once the device is built.
#[derive(Clone, Copy)]
pub struct UsbDeviceInfo<'a> {
    /// The device class code.
    pub device_class: u8,
    /// The device sub-class code.
    pub device_sub_class: u8,
    /// The device protocol code.
    pub device_protocol: u8,
    /// The maximum packet size of endpoint zero: 8, 16, 32 or 64.
    pub max_packet_size_0: u8,
    /// The vendor ID.
    pub vendor_id: u16,
    /// The product ID.
    pub product_id: u16,
    /// The device release in BCD.
    pub device_release: u16,
    /// The manufacturer name, string 1.
    pub manufacturer: &'a str,
    /// The product name, string 2.
    pub product: &'a str,
    /// The serial number, string 3.
    pub serial_number: &'a str,
    /// Whether the device may have a power source of its own.
    pub self_powered: bool,
    /// Whether the device can wake up the host.
    pub supports_remote_wakeup: bool,
    /// The most current that the device draws from the bus, in units of
    /// 2 mA.
    pub max_power: u8,
}

impl<'a> UsbDeviceInfo<'a> {
    /// Whether endpoint zero takes packets of 8, 16, 32 or 64 bytes.
    pub open spec fn wf(&self) -> bool {
        ||| self.max_packet_size_0 == 8
        ||| self.max_packet_size_0 == 16
        ||| self.max_packet_size_0 == 32
        ||| self.max_packet_size_0 == 64
    }
}

/// The global state of the USB device, as the host drives it through
/// enumeration.
#[derive(Debug, Clone, Copy, PartialEq, Eq, Structural)]
pub enum UsbDeviceState {
    /// The USB device has just been created or reset.
    Default,
    /// The USB device has received an address from the host.
    Addressed,
    /// The USB device has been configured and is fully functional.
    Configured,
}

/// The answer of a class, or of the device itself, to a host-to-device
/// control request.
#[derive(Debug, Clone, Copy, PartialEq, Eq, Structural)]
pub enum ControlOutResult {
    /// The request is not meant for the one that was asked.
    Ignore,
    /// The request is accepted.
    Accept,
    /// The request is meant for the one that was asked, and is in error: the
    /// host gets a STALL.
    Reject,
}

/// The answer of a class, or of the device itself, to a device-to-host
/// control request.
#[derive(Debug, Clone, Copy, PartialEq, Eq, Structural)]
pub enum ControlInResult {
    /// The request is not meant for the one that was asked.
    Ignore,
    /// The request is accepted, and the buffer holds this many bytes of
    /// response.
    Accept(usize),
    /// The request is meant for the one that was asked, and is in error: the
    /// host gets a STALL.
    Reject,
}

/// A USB device consisting of one or more device classes.
pub struct UsbDevice<'a, B: UsbBus, C: UsbClass + ?Sized> {
    bus: UsbBusAllocator<B>,
    control_out: EndpointOut<B>,
    control_in: EndpointIn<B>,
    info: UsbDeviceInfo<'a>,
    classes: ClassTable<C>,
    control: Control,
    device_state: UsbDeviceState,
    pending_address: u8,
    remote_wakeup_enabled: bool,
}

impl<'a, B: UsbBus, C: UsbClass + ?Sized> View for UsbDevice<'a, B, C> {
    type V = DeviceView<'a>;

    closed spec fn view(&self) -> DeviceView<'a> {
        DeviceView {
            info: self.info,
            state: self.device_state,
            control: self.control@,
            pending_address: self.pending_address,
            remote_wakeup_enabled: self.remote_wakeup_enabled,
            bus: self.bus@,
            class_log: self.classes.log(),
            classes: self.classes.spec_len() as int,
        }
    }
}

impl<'a, B: UsbBus, C: UsbClass + ?Sized> UsbDevice<'a, B, C> {
    /// The table of the classes that are registered with the device.
    pub closed spec fn class_table(&self) -> ClassTable<C> {
        self.classes
    }

    /// What holds of a device between any two calls: its view is
    /// well-formed, and its control endpoints are the two halves of
    /// endpoint zero.
    pub closed spec fn wf(&self) -> bool {
        &&& self@.wf()
        &&& self.control_out.spec_address() == spec_ep0_out()
        &&& self.control_in.spec_address() == spec_ep0_in()
    }

    /// Starts to put a device together: the device will reach the
    /// peripheral through `bus` and announce itself with the given vendor
    /// and product IDs.
    pub fn new(bus: UsbBusAllocator<B>, vid_pid: UsbVidPid) -> (builder: UsbDeviceBuilder<
        'a,
        B,
        C,
    >)
        ensures
            builder.gateway() == bus,
            builder.info() == spec_default_info(vid_pid),
    {
        UsbDeviceBuilder::new(bus, vid_pid)
    }

    /// Puts a device together. The two halves of endpoint zero are
    /// allocated, the peripheral is enabled, the gateway is frozen, and the
    /// device is reset.
    ///
    /// Fails with the error of the allocation that failed, and gives back
    /// the gateway and the classes.
    pub(crate) fn build(
        bus: UsbBusAllocator<B>,
        classes: ClassTable<C>,
        info: UsbDeviceInfo<'a>,
    ) -> (r: Result<UsbDevice<'a, B, C>, BuildError<B, C>>)
        requires
            !bus.is_frozen(),
            info.wf(),
            classes.spec_len() <= MAX_CLASSES,
        ensures
            match r {
                Ok(dev) => {
                    &&& dev.wf()
                    &&& dev.class_table().spec_len() == classes.spec_len()
                    &&& dev@.info == info
                    &&& dev@.classes == classes.spec_len()
                    &&& spec_bring_up(bus@, info.max_packet_size_0, dev@.bus.trace).1 is None
                    &&& dev@ == spec_fresh(
                        info,
                        spec_brought_up(bus@, info.max_packet_size_0),
                        classes.log(),
                        classes.spec_len() as int,
                    ).spec_reset(dev@.class_log)
                },
                Err(refused) => {
                    &&& refused.classes == classes
                    &&& spec_bring_up(bus@, info.max_packet_size_0, refused.bus@.trace) == (
                        refused.bus@,
                        Some(refused.error),
                    )
                },
            },
    {
        let ghost initial = bus@;
        let mut bus = bus;
        let mps = info.max_packet_size_0 as u16;
        let out_addr = EndpointAddress::from_parts(0, EndpointDirection::Out);
        let in_addr = EndpointAddress::from_parts(0, EndpointDirection::In);
        proof {
            lemma_address_of_view(out_addr);
            lemma_address_of_view(in_addr);
            lemma_marker_directions();
            assert(0usize as u8 | 0x00u8 == 0x00u8) by (bit_vector);
            assert(0usize as u8 | 0x80u8 == 0x80u8) by (bit_vector);
        }
        let control_out = match bus.allocate::<Out>(Some(out_addr), EndpointType::Control, mps, 0) {
            Ok(ep) => ep,
            Err(error) => {
                return Err(BuildError { error, bus, classes });
            },
        };
        let ghost first = bus@;
        let control_in = match bus.allocate::<In>(Some(in_addr), EndpointType::Control, mps, 0) {
            Ok(ep) => ep,
            Err(error) => {
                proof {
                    let at = initial.trace.len() as int;
                    assert(first.trace[at] == bus@.trace[at]);
                }
                return Err(BuildError { error, bus, classes });
            },
        };
        bus.enable();
        bus.freeze();
        let control = Control::new();
        let mut dev = UsbDevice {
            bus,
            control_out,
            control_in,
            info,
            classes,
            control,
            device_state: UsbDeviceState::Default,
            pending_address: 0,
            remote_wakeup_enabled: false,
        };
        let ghost brought = dev@.bus;
        proof {
            let at = initial.trace.len() as int;
            assert(first.trace[at] == brought.trace[at]);
            assert(spec_bring_up(initial, info.max_packet_size_0, brought.trace) == (
                brought,
                None::<UsbError>,
            ));
            lemma_bring_up_succeeds(initial, info.max_packet_size_0, brought.trace);
        }
        dev.reset();
        proof {
            let at = initial.trace.len() as int;
            let t = dev@.bus.trace;
            assert(brought.trace[at] == t[at]);
            assert(brought.trace[at + 1] == t[at + 1]);
        }
        Ok(dev)
    }

    /// The gateway through which the device reaches the peripheral. The
    /// classes hand it to their endpoints to move packets.
    pub fn bus(&mut self) -> (bus: &mut UsbBusAllocator<B>)
        ensures
            *bus == old(self).gateway(),
            *final(bus) == final(self).gateway(),
            final(self).class_table() == old(self).class_table(),
            final(self)@ == (DeviceView { bus: final(bus)@, ..old(self)@ }),
            old(self).wf() && final(bus).is_frozen() ==> final(self).wf(),
    {
        &mut self.bus
    }

    /// The gateway and the classes of the device, for the classes to move
    /// packets on their endpoints: a class is reached through the table,
    /// and hands the gateway to its endpoints.
    ///
    /// The device is as well-formed as it was once both are given back, as
    /// long as the gateway is still frozen and the table holds no more than
    /// `MAX_CLASSES` classes.
    pub fn parts(&mut self) -> (parts: (&mut UsbBusAllocator<B>, &mut ClassTable<C>))
        ensures
            *parts.0 == old(self).gateway(),
            *parts.1 == old(self).class_table(),
            final(self).gateway() == *final(parts.0),
            final(self).class_table() == *final(parts.1),
            final(self)@ == (DeviceView {
                bus: final(parts.0)@,
                class_log: final(parts.1).log(),
                classes: final(parts.1).spec_len() as int,
                ..old(self)@
            }),
            old(self).wf() && final(parts.0).is_frozen() && final(parts.1).spec_len()
                <= MAX_CLASSES ==> final(self).wf(),
    {
        (&mut self.bus, &mut self.classes)
    }

    /// The gateway through which the device reaches the peripheral.
    pub closed spec fn gateway(&self) -> UsbBusAllocator<B> {
        self.bus
    }

    /// Gets the current state of the device.
    pub fn state(&self) -> (state: UsbDeviceState)
        ensures
            state == self@.state,
    {
        self.device_state
    }

    /// Fails the control transfer: the record goes to `Error` and both
    /// directions of endpoint zero are stalled.
    fn set_control_error(&mut self)
        requires
            old(self).wf(),
        ensures
            final(self).wf(),
            final(self)@.continues(old(self)@),
            final(self)@ == old(self)@.failed(),
            final(self).class_table() == old(self).class_table(),
    {
        self.control.state = ControlState::Error;
        self.control_out.stall(&mut self.bus);
        self.control_in.stall(&mut self.bus);
    }

    /// Sends the next packet of the data stage of a device-to-host
    /// transfer.
    fn write_control_in_chunk(&mut self)
        requires
            old(self).wf(),
            old(self)@.control.state is DataIn,
        ensures
            final(self).wf(),
            final(self)@.continues(old(self)@),
            final(self)@ == old(self)@.spec_chunk_sent(final(self)@.bus.trace),
            final(self).class_table() == old(self).class_table(),
    {
        reveal(DeviceView::spec_chunk_sent);
        let mps = self.info.max_packet_size_0;
        let count = self.control.chunk_len(mps);
        let start = self.control.i;
        let res = self.control_in.write(
            &mut self.bus,
            slice_subrange(self.control.buf.as_slice(), start, start + count),
        );
        match self.control.chunk_written(res, mps) {
            Step::Stall => self.set_control_error(),
            _ => {},
        }
    }

    /// Handles the completion of an IN packet on endpoint zero.
    fn handle_control_in_complete(&mut self)
        requires
            old(self).wf(),
        ensures
            final(self).wf(),
            final(self)@.continues(old(self)@),
            final(self)@ == old(self)@.spec_in_complete(final(self)@.bus.trace),
            final(self).class_table() == old(self).class_table(),
    {
        reveal(DeviceView::spec_in_complete);
        match self.control.state {
            ControlState::DataIn => {
                self.write_control_in_chunk();
            },
            ControlState::DataInZlp => {
                let empty: [u8; 0] = [];
                assert(empty@ =~= Seq::<u8>::empty());
                let res = self.control_in.write(&mut self.bus, empty.as_slice());
                match self.control.zlp_written(res) {
                    Step::Stall => self.set_control_error(),
                    _ => {},
                }
            },
            ControlState::DataInLast => {
                self.control_out.unstall(&mut self.bus);
                self.control.state = ControlState::StatusOut;
            },
            ControlState::StatusIn => {
                let addr = self.pending_address;
                self.pending_address = 0;
                if addr != 0 {
                    // SET_ADDRESS takes effect once its status packet has gone out.
                    self.bus.set_device_address(addr);
                    self.device_state = UsbDeviceState::Addressed;
                }
                self.control.state = ControlState::Idle;
            },
            _ => {
                // Unexpected IN packet
                self.set_control_error();
            },
        }
    }

    /// Has a host-to-device request handled, its data being complete: by
    /// the first class that does not ignore it, or by the standard handler
    /// where all ignore a standard request.
    fn complete_control_out(&mut self)
        requires
            old(self).wf(),
            old(self)@.control.request is Some,
        ensures
            final(self).wf(),
            final(self)@.continues(old(self)@),
            final(self)@ == old(self)@.spec_complete_out(
                final(self)@.bus.trace,
                final(self)@.class_log,
            ),
            final(self).class_table().touched_below(
                &old(self).class_table(),
                final(self)@.dispatched() - old(self)@.dispatched(),
            ),
    {
        reveal(DeviceView::spec_complete_out);
        let req = match self.control.request {
            Some(req) => req,
            None => {
                return ;
            },
        };
        let len = self.control.len;
        let ghost data = self.control@.spec_out_data();
        let mut res = self.classes.control_out(
            &req,
            slice_subrange(self.control.buf.as_slice(), 0, len),
        );
        proof {
            let before = old(self).classes.log();
            let after = self.classes.log();
            lemma_traversal_read_back(
                after,
                before.len() as int,
                spec_added(before, after),
                old(self).classes.spec_len() as int,
                |call: ClassCall| spec_out_answer(call, req, data),
                ControlOutResult::Ignore,
                res,
                |call: ClassCall| call.spec_out_result() != ControlOutResult::Ignore,
                |call: ClassCall|
                    ClassCall::ControlOut { req, data, result: call.spec_out_result() },
            );
            assert(after =~= before + spec_added(before, after));
        }
        if res == ControlOutResult::Ignore && req.request_type == RequestType::Standard {
            res = self.standard_control_out(&req);
        }
        if self.control.finish_out(res) {
            // Send empty packet to indicate success
            let empty: [u8; 0] = [];
            assert(empty@ =~= Seq::<u8>::empty());
            let _ = self.control_in.write(&mut self.bus, empty.as_slice());
        } else {
            // Nothing accepted the request or there was an error
            self.set_control_error();
        }
    }

    /// Has a device-to-host request answered: by the first class that does
    /// not ignore it, or by the standard handler where all ignore a
    /// standard request. Then the first packet of the answer goes out.
    fn dispatch_control_in(&mut self)
        requires
            old(self).wf(),
            old(self)@.control.request is Some,
        ensures
            final(self).wf(),
            final(self)@.continues(old(self)@),
            final(self)@ == old(self)@.spec_dispatch_in(
                final(self)@.bus.trace,
                final(self)@.class_log,
            ),
    {
        reveal(DeviceView::spec_dispatch_in);
        let req = match self.control.request {
            Some(req) => req,
            None => {
                return ;
            },
        };
        let mut res = self.classes.control_in(&req, &mut self.control.buf);
        let ghost offered = self@;
        let ghost said = res;
        if res == ControlInResult::Ignore && req.request_type == RequestType::Standard {
            res = self.standard_control_in(&req);
        }
        let ghost handled = self@;
        if self.control.start_data_in(res) {
            self.write_control_in_chunk();
        } else {
            // Nothing accepted the request or there was an error
            self.set_control_error();
        }
        proof {
            let before = old(self)@.class_log;
            let run = spec_added(before, offered.class_log);
            let l = self@.class_log;
            let t = self@.bus.trace;
            assert(offered.class_log =~= before + run);
            assert(spec_extends(offered.class_log, l));
            assert forall|j: int| 0 <= j < run.len() implies l[before.len() + j]
                == #[trigger] run[j] by {
                assert(offered.class_log[before.len() + j] == run[j]);
            }
            lemma_in_traversal_read_back(
                l,
                before.len() as int,
                run,
                old(self)@.classes,
                req,
                old(self)@.control.buf,
                said,
            );
            if run.len() > 0 {
                assert(spec_dispatch_at(l, before.len() + run.len() - 1) == run.last().call);
                assert(offered.class_log.last() == run.last());
            }
            if said == ControlInResult::Ignore && req.request_type == RequestType::Standard {
                lemma_standard_in_stable(
                    offered,
                    req,
                    handled.bus.trace,
                    handled.class_log,
                    t,
                    l,
                );
            }
        }
    }

    /// Handles a SETUP packet on endpoint zero.
    fn handle_control_setup(&mut self)
        requires
            old(self).wf(),
        ensures
            final(self).wf(),
            final(self)@.continues(old(self)@),
            final(self)@ == old(self)@.spec_setup(final(self)@.bus.trace, final(self)@.class_log),
    {
        reveal(DeviceView::spec_setup);
        let got = self.control_out.read(&mut self.bus, &mut self.control.buf);
        let ghost read = self@;
        assert(read.continues(old(self)@));
        match self.control.accept_setup(got) {
            SetupStep::Retry => {},
            SetupStep::Stall => self.set_control_error(),
            SetupStep::AwaitData => {},
            SetupStep::CompleteOut => self.complete_control_out(),
            SetupStep::DispatchIn => self.dispatch_control_in(),
        }
        proof {
            let at = old(self)@.bus.trace.len() as int;
            assert(read.bus.trace[at] == self@.bus.trace[at]);
        }
    }

    /// Handles an OUT packet on endpoint zero.
    fn handle_control_out(&mut self)
        requires
            old(self).wf(),
        ensures
            final(self).wf(),
            final(self)@.continues(old(self)@),
            final(self)@ == old(self)@.spec_out_event(
                final(self)@.bus.trace,
                final(self)@.class_log,
            ),
            final(self).class_table().touched_below(
                &old(self).class_table(),
                final(self)@.dispatched() - old(self)@.dispatched(),
            ),
    {
        reveal(DeviceView::spec_out_event);
        match self.control.state {
            ControlState::DataOut => {
                let i = self.control.i;
                let (head, tail) = self.control.buf.split_at_mut(i);
                let got = self.control_out.read(&mut self.bus, tail);
                let ghost read = self@;
                assert(read.continues(old(self)@));
                match self.control.data_received(got) {
                    Step::Proceed => {},
                    Step::Stall => self.set_control_error(),
                    Step::CompleteOut => self.complete_control_out(),
                }
                proof {
                    let at = old(self)@.bus.trace.len() as int;
                    assert(read.bus.trace[at] == self@.bus.trace[at]);
                }
            },
            ControlState::StatusOut => {
                let mut empty: [u8; 0] = [];
                let got = self.control_out.read(&mut self.bus, &mut empty);
                match self.control.status_received(got) {
                    Step::Stall => self.set_control_error(),
                    _ => {},
                }
            },
            _ => {
                // Discard the packet
                let _ = self.control_out.read(&mut self.bus, &mut self.control.buf);
                // Unexpected OUT packet
                self.set_control_error();
            },
        }
    }

    /// Resets the device after a bus reset.
    fn reset(&mut self)
        requires
            old(self).wf(),
        ensures
            final(self).wf(),
            final(self)@.continues(old(self)@),
            final(self)@ == old(self)@.spec_reset(final(self)@.class_log),
    {
        reveal(DeviceView::spec_reset);
        self.bus.reset();
        self.device_state = UsbDeviceState::Default;
        self.control.state = ControlState::Idle;
        self.pending_address = 0;
        self.classes.reset();
        proof {
            let before = old(self)@.class_log;
            let l = self@.class_log;
            let run = spec_added(before, l);
            assert(l =~= before + run);
            lemma_broadcast_read_back(
                l,
                before.len() as int,
                run,
                old(self)@.classes,
                |call: ClassCall| call is Reset,
                |call: ClassCall| ClassCall::Reset { result: call.spec_reset_result() },
            );
        }
    }

    /// Polls the bus and handles what is pending. To be called at least
    /// once every 10 milliseconds, or from the interrupt of the peripheral.
    ///
    /// The device after the poll is the one that `spec_poll` describes, for
    /// what the peripheral and the classes answered.
    pub fn poll(&mut self)
        requires
            old(self).wf(),
        ensures
            final(self).wf(),
            final(self)@.continues(old(self)@),
            final(self)@ == old(self)@.spec_poll(final(self)@.bus.trace, final(self)@.class_log),
    {
        reveal(DeviceView::spec_poll);
        let events = self.bus.poll();
        let ghost polled = self@;
        assert(polled.continues(old(self)@));
        match events {
            PollResult::Nothing => {},
            PollResult::Reset => {
                self.reset();
            },
            PollResult::Suspend => {
                self.bus.suspend();
            },
            PollResult::Resume => {
                self.bus.resume();
            },
            PollResult::Data { ep_out, ep_in_complete, ep_setup } => {
                if bit(ep_setup, 0) {
                    self.handle_control_setup();
                } else if bit(ep_out, 0) {
                    self.handle_control_out();
                }
                let ghost first = self@;
                if bit(ep_in_complete, 0) {
                    self.handle_control_in_complete();
                }
                let ghost second = self@;
                proof {
                    lemma_continues_trans(polled, first, second);
                }
                let mut index: u8 = 1;
                while index < 16
                    invariant
                        1 <= index <= 16,
                        self.wf(),
                        self@.continues(second),
                        self@.bus == second.bus,
                        self@ == second.spec_endpoint_events(
                            ep_setup,
                            ep_out,
                            ep_in_complete,
                            index as int,
                        ),
                    decreases 16 - index,
                {
                    let ghost before = self@;
                    if bit(ep_setup, index) {
                        self.classes.endpoint_setup(index);
                    } else if bit(ep_out, index) {
                        self.classes.endpoint_out(index);
                    }
                    let ghost between = self@;
                    if bit(ep_in_complete, index) {
                        self.classes.endpoint_in_complete(index + 0x80);
                    }
                    proof {
                        assert(between.continues(before));
                        assert(self@.continues(between));
                        lemma_continues_trans(before, between, self@);
                        lemma_continues_trans(second, before, self@);
                    }
                    index = index + 1;
                }
                proof {
                    let t = self@.bus.trace;
                    let l = self@.class_log;
                    lemma_continues_trans(polled, second, self@);
                    if spec_bit(ep_setup, 0) {
                        lemma_setup_stable(polled, first.bus.trace, first.class_log, t, l);
                    } else if spec_bit(ep_out, 0) {
                        lemma_out_event_stable(polled, first.bus.trace, first.class_log, t, l);
                    }
                    let at = old(self)@.bus.trace.len() as int;
                    assert(polled.bus.trace[at] == t[at]);
                }
            },
        }
        proof {
            let at = old(self)@.bus.trace.len() as int;
            assert(polled.bus.trace[at] == self@.bus.trace[at]);
            lemma_continues_trans(old(self)@, polled, self@);
        }
    }
}

/// Tells whether bit `i` of an event bit field is set.
pub fn bit(mask: u16, i: u8) -> (set: bool)
    requires
        i < 16,
    ensures
        set == spec_bit(mask, i),
{
    mask & (1u16 << i) != 0
}

} // verus!
