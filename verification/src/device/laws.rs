//! What holds of every device, whatever the host, the peripheral and the
//! classes do.

use vstd::prelude::*;
use crate::UsbError;
use crate::bus::BusCall;
use crate::bus::MAX_ENDPOINTS;
use crate::bus::PollResult;
use crate::class::ClassCall;
use crate::class::Dispatch;
use crate::class::spec_added;
use crate::class::spec_asked;
use crate::class::spec_broadcast;
use crate::class::spec_dispatch_at;
use crate::class::spec_extends;
use crate::class::spec_first_answer;
use crate::class::spec_replay;
use crate::control::Direction;
use crate::control::lemma_le_round_trip;
use crate::control::lemma_parse_encode;
use crate::control::Recipient;
use crate::control::Request;
use crate::control::RequestType;
use crate::control::spec_lo;
use crate::control::spec_u16_from_le;
use crate::control::standard_request;
use crate::descriptor::spec_overwrite;
use crate::device::ControlInResult;
use crate::device::ControlOutResult;
use crate::device::model::CONFIGURATION_HEADER_LEN;
use crate::device::model::CONFIGURATION_VALUE;
use crate::device::model::DeviceView;
use crate::device::model::lemma_described_fits;
use crate::device::model::spec_bit;
use crate::device::model::spec_configuration_header;
use crate::device::model::spec_described;
use crate::device::model::spec_ep0_in;
use crate::device::model::spec_ep0_out;
use crate::device::model::spec_request_endpoint;
use crate::device::stability::lemma_continues_trans;
use crate::device::stability::lemma_get_descriptor_continues;
use crate::device::stability::spec_offered_in;
use crate::endpoint::lemma_view_of_byte;
use crate::transfer::CONTROL_BUF_LEN;

verus! {

/// The bytes that the first `k` classes wrote of a configuration
/// descriptor, one class after the other, as the calls recorded in `log`
/// from place `from` on tell.
pub open spec fn spec_class_bytes(log: Seq<Dispatch>, from: int, k: int) -> Seq<u8>
    decreases k,
{
    if k <= 0 {
        Seq::<u8>::empty()
    } else {
        spec_class_bytes(log, from, k - 1) + spec_dispatch_at(
            log,
            from + k - 1,
        ).spec_described_bytes()
    }
}

/// The number of interface descriptors that the first `k` classes wrote, as
/// the calls recorded in `log` from place `from` on tell.
pub open spec fn spec_class_interfaces(log: Seq<Dispatch>, from: int, k: int) -> int
    decreases k,
{
    if k <= 0 {
        0
    } else {
        spec_class_interfaces(log, from, k - 1) + spec_dispatch_at(
            log,
            from + k - 1,
        ).spec_described_interfaces()
    }
}

/// Where every class succeeded, what the classes have written is what each
/// of them wrote, one after the other, and the interface descriptors are
/// those of all of them; there are two bytes at least for each.
pub proof fn lemma_described_sums(log: Seq<Dispatch>, from: int, k: int)
    requires
        0 <= k,
        spec_described(log, from, k).complete,
    ensures
        spec_described(log, from, k).bytes == spec_class_bytes(log, from, k),
        spec_described(log, from, k).interfaces == spec_class_interfaces(log, from, k),
        0 <= 2 * spec_described(log, from, k).interfaces <= spec_described(log, from, k).bytes.len(),
    decreases k,
{
    if k > 0 {
        lemma_described_sums(log, from, k - 1);
    }
}

/// The configuration descriptor is complete. Where a GET_DESCRIPTOR request
/// for the configuration is accepted with `n` bytes, the control buffer
/// holds, from its start: the configuration descriptor proper, whose
/// total-length field is `n` and whose interface count is the number of
/// interface descriptors that the classes wrote, all classes taken
/// together; then what each class wrote, in the order of the table, which
/// makes `n` bytes in all.
pub proof fn lemma_configuration_totals(v: DeviceView, l: Seq<Dispatch>)
    requires
        v.wf(),
        v.spec_configuration(l).1 is Accept,
    ensures
        ({
            let (w, answer) = v.spec_configuration(l);
            let n = answer->Accept_0;
            let bytes = spec_class_bytes(l, v.dispatched(), v.classes);
            let interfaces = spec_class_interfaces(l, v.dispatched(), v.classes);
            &&& n == CONFIGURATION_HEADER_LEN + bytes.len()
            &&& n <= CONTROL_BUF_LEN
            &&& w.control.buf.len() == CONTROL_BUF_LEN
            &&& w.control.buf.subrange(0, n as int) == spec_configuration_header(
                v.info,
                n as int,
                interfaces,
            ) + bytes
            &&& spec_u16_from_le(w.control.buf[2], w.control.buf[3]) == n
            &&& w.control.buf[4] == interfaces
        }),
{
    reveal(DeviceView::spec_configuration);
    let from = v.dispatched();
    let d = spec_described(l, from, v.classes);
    lemma_described_fits(l, from, v.classes);
    lemma_described_sums(l, from, v.classes);
    let total = CONFIGURATION_HEADER_LEN + d.bytes.len();
    let image = spec_configuration_header(v.info, total as int, d.interfaces) + d.bytes;
    let w = v.spec_configuration(l).0;
    assert(w.control.buf == spec_overwrite(v.control.buf, 0, image));
    assert(w.control.buf.subrange(0, total as int) =~= image);
    assert(w.control.buf[2] == image[2]);
    assert(w.control.buf[3] == image[3]);
    assert(w.control.buf[4] == image[4]);
    lemma_le_round_trip(total as u16, 0, 0);
}

/// Whether a call to the peripheral names an endpoint with an index below
/// 16, if it names one.
pub open spec fn spec_in_range(call: BusCall) -> bool {
    match call {
        BusCall::Write { addr, data, result } => addr.spec_index() < MAX_ENDPOINTS,
        BusCall::Read { addr, capacity, result, filled } => addr.spec_index() < MAX_ENDPOINTS,
        BusCall::SetStalled { addr, stalled } => addr.spec_index() < MAX_ENDPOINTS,
        BusCall::IsStalled { addr, result } => addr.spec_index() < MAX_ENDPOINTS,
        _ => true,
    }
}

/// Whether the device `after` has come from `before` by events that stayed
/// within the sixteen endpoints and did not hand an address to the
/// peripheral.
pub open spec fn spec_quiet(before: DeviceView, after: DeviceView) -> bool {
    &&& after.continues(before)
    &&& forall|k: int|
        before.bus.trace.len() <= k < after.bus.trace.len() ==> spec_in_range(
            #[trigger] after.bus.trace[k],
        ) && !(after.bus.trace[k] is SetDeviceAddress)
}

/// The two halves of endpoint zero, and every endpoint that a request
/// names, have an index below 16.
pub proof fn lemma_endpoints_in_range(req: Request)
    ensures
        spec_ep0_out().spec_index() == 0,
        spec_ep0_in().spec_index() == 0,
        spec_request_endpoint(req).spec_index() < MAX_ENDPOINTS,
{
    broadcast use lemma_view_of_byte;

    let b = spec_lo(req.index);
    assert(0x00u8 & 0x7f == 0) by (bit_vector);
    assert(0x80u8 & 0x7f == 0) by (bit_vector);
    assert((b & 0x8f) & 0x7f < 16) by (bit_vector);
}

/// To come quietly is transitive.
pub proof fn lemma_quiet_trans(a: DeviceView, b: DeviceView, c: DeviceView)
    requires
        spec_quiet(a, b),
        spec_quiet(b, c),
    ensures
        spec_quiet(a, c),
{
    lemma_continues_trans(a, b, c);
    assert forall|k: int| a.bus.trace.len() <= k < c.bus.trace.len() implies spec_in_range(
        #[trigger] c.bus.trace[k],
    ) && !(c.bus.trace[k] is SetDeviceAddress) by {
        if k < b.bus.trace.len() {
            assert(b.bus.trace[k] == c.bus.trace[k]);
        }
    }
}

/// A failed transfer comes quietly.
pub proof fn lemma_failed_quiet(v: DeviceView)
    ensures
        spec_quiet(v, v.failed()),
        spec_quiet(v, v.settled()),
        spec_quiet(v, v),
{
    lemma_endpoints_in_range(arbitrary());
}

/// A packet of the data stage comes quietly.
pub proof fn lemma_chunk_sent_quiet(v: DeviceView, t: Seq<BusCall>)
    ensures
        spec_quiet(v, v.spec_chunk_sent(t)),
{
    reveal(DeviceView::spec_chunk_sent);
    lemma_endpoints_in_range(arbitrary());
    let result = v.next_call(t).spec_moved();
    let m = v.info.max_packet_size_0;
    let sent = v.called(
        BusCall::Write { addr: spec_ep0_in(), data: v.control.spec_chunk(m), result },
    ).with_control(v.control.spec_chunk_written(result, m));
    assert(spec_quiet(v, sent));
    lemma_failed_quiet(sent);
    lemma_quiet_trans(v, sent, sent.settled());
}

/// The standard handler of host-to-device requests comes quietly: an
/// address that the host sets is kept, and is not handed to the peripheral.
pub proof fn lemma_standard_out_quiet(v: DeviceView, req: Request)
    ensures
        spec_quiet(v, v.spec_standard_out(req).0),
{
    reveal(DeviceView::spec_standard_out);
    lemma_endpoints_in_range(req);
}

/// The handling of a host-to-device request comes quietly.
pub proof fn lemma_complete_out_quiet(v: DeviceView, t: Seq<BusCall>, l: Seq<Dispatch>)
    ensures
        spec_quiet(v, v.spec_complete_out(t, l)),
{
    reveal(DeviceView::spec_complete_out);
    lemma_endpoints_in_range(arbitrary());
    let req = v.control.request->0;
    let k = spec_asked(
        l,
        v.dispatched(),
        v.classes,
        |call: ClassCall| call.spec_out_result() != ControlOutResult::Ignore,
    );
    let data = v.control.spec_out_data();
    let offered = DeviceView {
        class_log: v.class_log + spec_replay(
            l,
            v.dispatched(),
            k,
            |call: ClassCall| ClassCall::ControlOut { req, data, result: call.spec_out_result() },
        ),
        ..v
    };
    assert(spec_quiet(v, offered));
    lemma_standard_out_quiet(offered, req);
    let said = if k > 0 {
        spec_dispatch_at(l, v.dispatched() + k - 1).spec_out_result()
    } else {
        ControlOutResult::Ignore
    };
    let (handled, answer) = if said == ControlOutResult::Ignore && req.request_type
        == RequestType::Standard {
        offered.spec_standard_out(req)
    } else {
        (offered, said)
    };
    lemma_failed_quiet(offered);
    assert(spec_quiet(offered, handled));
    let done = handled.with_control(handled.control.spec_finish_out(answer));
    assert(spec_quiet(handled, done)) by {
        lemma_failed_quiet(handled);
    }
    lemma_failed_quiet(done);
    let w = v.spec_complete_out(t, l);
    assert(spec_quiet(done, w));
    lemma_quiet_trans(v, offered, handled);
    lemma_quiet_trans(v, handled, done);
    lemma_quiet_trans(v, done, w);
}

/// The handling of an OUT packet comes quietly.
pub proof fn lemma_out_event_quiet(v: DeviceView, t: Seq<BusCall>, l: Seq<Dispatch>)
    ensures
        spec_quiet(v, v.spec_out_event(t, l)),
{
    reveal(DeviceView::spec_out_event);
    lemma_endpoints_in_range(arbitrary());
    let got = v.next_call(t).spec_moved();
    let filled = v.next_call(t).spec_filled();
    if v.control.state is DataOut {
        let read = v.called(
            BusCall::Read {
                addr: spec_ep0_out(),
                capacity: (CONTROL_BUF_LEN - v.control.i) as nat,
                result: got,
                filled,
            },
        ).with_buf(v.control.buf.subrange(0, v.control.i as int) + filled);
        let (control, step) = read.control.spec_data_received(got);
        let received = read.with_control(control);
        assert(spec_quiet(v, received));
        lemma_failed_quiet(received);
        lemma_complete_out_quiet(received, t, l);
        lemma_quiet_trans(v, received, received.failed());
        lemma_quiet_trans(v, received, received.spec_complete_out(t, l));
    } else if v.control.state is StatusOut {
        let read = v.called(
            BusCall::Read { addr: spec_ep0_out(), capacity: 0, result: got, filled },
        ).with_control(v.control.spec_status_received(got));
        assert(spec_quiet(v, read));
        lemma_failed_quiet(read);
        lemma_quiet_trans(v, read, read.settled());
    } else {
        let read = v.called(
            BusCall::Read {
                addr: spec_ep0_out(),
                capacity: CONTROL_BUF_LEN as nat,
                result: got,
                filled,
            },
        ).with_buf(filled);
        assert(spec_quiet(v, read));
        lemma_failed_quiet(read);
        lemma_quiet_trans(v, read, read.failed());
    }
}

/// The standard handler of device-to-host requests comes quietly.
pub proof fn lemma_standard_in_quiet(
    v: DeviceView,
    req: Request,
    t: Seq<BusCall>,
    l: Seq<Dispatch>,
)
    ensures
        spec_quiet(v, v.spec_standard_in(req, t, l).0),
{
    reveal(DeviceView::spec_standard_in);
    lemma_endpoints_in_range(req);
    lemma_get_descriptor_continues(v, req, l);
}

/// The answering of a device-to-host request comes quietly.
pub proof fn lemma_dispatch_in_quiet(v: DeviceView, t: Seq<BusCall>, l: Seq<Dispatch>)
    ensures
        spec_quiet(v, v.spec_dispatch_in(t, l)),
{
    reveal(DeviceView::spec_dispatch_in);
    let req = v.control.request->0;
    let from = v.dispatched();
    let k = spec_asked(
        l,
        from,
        v.classes,
        |call: ClassCall| call.spec_in_result() != ControlInResult::Ignore,
    );
    let offered = spec_offered_in(v, l);
    let said = if k > 0 {
        spec_dispatch_at(l, from + k - 1).spec_in_result()
    } else {
        ControlInResult::Ignore
    };
    let (handled, answer) = if said == ControlInResult::Ignore && req.request_type
        == RequestType::Standard {
        offered.spec_standard_in(req, t, l)
    } else {
        (offered, said)
    };
    assert(spec_quiet(v, offered));
    lemma_failed_quiet(offered);
    lemma_standard_in_quiet(offered, req, t, l);
    let started = handled.with_control(handled.control.spec_start_data_in(answer));
    assert(spec_quiet(handled, started)) by {
        lemma_failed_quiet(handled);
    }
    lemma_chunk_sent_quiet(started, t);
    lemma_failed_quiet(started);
    let w = v.spec_dispatch_in(t, l);
    lemma_quiet_trans(v, offered, handled);
    lemma_quiet_trans(v, handled, started);
    lemma_quiet_trans(v, started, w);
}

/// The handling of a SETUP packet comes quietly.
pub proof fn lemma_setup_quiet(v: DeviceView, t: Seq<BusCall>, l: Seq<Dispatch>)
    ensures
        spec_quiet(v, v.spec_setup(t, l)),
{
    reveal(DeviceView::spec_setup);
    lemma_endpoints_in_range(arbitrary());
    let got = v.next_call(t).spec_moved();
    let filled = v.next_call(t).spec_filled();
    let read = v.called(
        BusCall::Read {
            addr: spec_ep0_out(),
            capacity: CONTROL_BUF_LEN as nat,
            result: got,
            filled,
        },
    ).with_buf(filled);
    let (control, step) = read.control.spec_accept_setup(got);
    let latched = read.with_control(control);
    assert(spec_quiet(v, latched));
    lemma_failed_quiet(latched);
    lemma_complete_out_quiet(latched, t, l);
    lemma_dispatch_in_quiet(latched, t, l);
    lemma_quiet_trans(v, latched, latched.failed());
    lemma_quiet_trans(v, latched, latched.spec_complete_out(t, l));
    lemma_quiet_trans(v, latched, latched.spec_dispatch_in(t, l));
}

/// The events of the endpoints other than endpoint zero reach the classes
/// only: the peripheral is not called.
pub proof fn lemma_endpoint_events_quiet(
    v: DeviceView,
    ep_setup: u16,
    ep_out: u16,
    ep_in_complete: u16,
    upto: int,
)
    ensures
        spec_quiet(v, v.spec_endpoint_events(ep_setup, ep_out, ep_in_complete, upto)),
        v.spec_endpoint_events(ep_setup, ep_out, ep_in_complete, upto) == (DeviceView {
            class_log: v.spec_endpoint_events(ep_setup, ep_out, ep_in_complete, upto).class_log,
            ..v
        }),
    decreases upto,
{
    if upto > 1 {
        lemma_endpoint_events_quiet(v, ep_setup, ep_out, ep_in_complete, upto - 1);
        let before = v.spec_endpoint_events(ep_setup, ep_out, ep_in_complete, upto - 1);
        let after = v.spec_endpoint_events(ep_setup, ep_out, ep_in_complete, upto);
        assert(spec_quiet(before, after));
        lemma_quiet_trans(v, before, after);
    }
}

/// The address latency. An address that the host has set is handed to the
/// peripheral when the status packet of the request has gone out, and at no
/// other time.
///
/// The completion of an IN packet on endpoint zero hands an address to the
/// peripheral exactly when the control transfer is in its `StatusIn` stage
/// and an address is pending. Then it makes that one call and no other, the
/// device is `Addressed`, and no address is pending any more. In every
/// other case it comes quietly.
pub proof fn lemma_in_complete_applies_address(v: DeviceView, t: Seq<BusCall>)
    ensures
        v.control.state is StatusIn && v.pending_address != 0 ==> {
            let w = v.spec_in_complete(t);
            &&& w.bus.trace == v.bus.trace.push(
                BusCall::SetDeviceAddress { addr: v.pending_address },
            )
            &&& w.state is Addressed
            &&& w.pending_address == 0
            &&& w.control.state is Idle
        },
        !(v.control.state is StatusIn && v.pending_address != 0) ==> spec_quiet(
            v,
            v.spec_in_complete(t),
        ),
{
    reveal(DeviceView::spec_in_complete);
    lemma_endpoints_in_range(arbitrary());
    lemma_chunk_sent_quiet(v, t);
    lemma_failed_quiet(v);
    if v.control.state is DataInZlp {
        let result = v.next_call(t).spec_moved();
        let sent = v.called(
            BusCall::Write { addr: spec_ep0_in(), data: Seq::<u8>::empty(), result },
        ).with_control(v.control.spec_zlp_written(result));
        assert(spec_quiet(v, sent));
        lemma_failed_quiet(sent);
        lemma_quiet_trans(v, sent, sent.settled());
    }
}

/// A host-to-device request that sets an address from 1 to 127 is accepted
/// by the standard handler, which keeps the address pending and calls
/// nothing.
pub proof fn lemma_set_address_latches(v: DeviceView, req: Request)
    requires
        req.recipient == Recipient::Device,
        req.request == standard_request::SET_ADDRESS,
        1 <= req.value <= 127,
    ensures
        v.spec_standard_out(req) == (
            DeviceView { pending_address: req.value as u8, ..v },
            ControlOutResult::Accept,
        ),
{
    reveal(DeviceView::spec_standard_out);
}

/// The address latency, poll by poll. A poll hands an address to the
/// peripheral exactly when it handles the completion of an IN packet on
/// endpoint zero while the control transfer is in its `StatusIn` stage and
/// an address is pending. Then the address is handed over once, behind
/// every other call of the poll, the device is `Addressed`, and no address
/// is pending any more. Every other call of a poll stays within the
/// sixteen endpoints.
pub proof fn lemma_poll_applies_address(v: DeviceView, t: Seq<BusCall>, l: Seq<Dispatch>)
    ensures
        ({
            let w = v.spec_poll(t, l);
            let events = v.next_call(t).spec_events();
            let polled = v.called(BusCall::Poll { result: events });
            match events {
                PollResult::Data { ep_out, ep_in_complete, ep_setup } => {
                    let first = polled.spec_control_packet(ep_setup, ep_out, t, l);
                    &&& spec_quiet(v, first)
                    &&& if spec_bit(ep_in_complete, 0) && first.control.state is StatusIn
                        && first.pending_address != 0 {
                        &&& w.bus.trace == first.bus.trace.push(
                            BusCall::SetDeviceAddress { addr: first.pending_address },
                        )
                        &&& w.state is Addressed
                        &&& w.pending_address == 0
                    } else {
                        spec_quiet(v, w)
                    }
                },
                _ => spec_quiet(v, w),
            }
        }),
{
    reveal(DeviceView::spec_poll);
    reveal(DeviceView::spec_reset);
    let events = v.next_call(t).spec_events();
    let polled = v.called(BusCall::Poll { result: events });
    assert(spec_quiet(v, polled));
    match events {
        PollResult::Data { ep_out, ep_in_complete, ep_setup } => {
            let first = polled.spec_control_packet(ep_setup, ep_out, t, l);
            lemma_setup_quiet(polled, t, l);
            lemma_out_event_quiet(polled, t, l);
            lemma_failed_quiet(polled);
            lemma_quiet_trans(v, polled, first);
            let second = first.spec_control_sent(ep_in_complete, t);
            lemma_in_complete_applies_address(first, t);
            lemma_failed_quiet(first);
            lemma_endpoint_events_quiet(
                second,
                ep_setup,
                ep_out,
                ep_in_complete,
                MAX_ENDPOINTS as int,
            );
            let w = v.spec_poll(t, l);
            if spec_bit(ep_in_complete, 0) && first.control.state is StatusIn
                && first.pending_address != 0 {
            } else {
                lemma_quiet_trans(v, first, second);
                lemma_quiet_trans(v, second, w);
            }
        },
        PollResult::Reset => {
            let w = polled.spec_reset(l);
            assert(spec_quiet(polled, w));
            lemma_quiet_trans(v, polled, w);
        },
        _ => {},
    }
}

/// Reset from any stage. A poll that finds a bus reset, whatever the stage
/// of the control transfer, resets the peripheral and leaves the device in
/// its `Default` state, the control transfer idle, and no address pending;
/// and it tells every class of the reset, once, in the order of the table.
pub proof fn lemma_reset_from_any_stage(v: DeviceView, t: Seq<BusCall>, l: Seq<Dispatch>)
    requires
        0 <= v.classes,
        v.next_call(t).spec_events() == PollResult::Reset,
    ensures
        ({
            let w = v.spec_poll(t, l);
            &&& w.control.state is Idle
            &&& w.pending_address == 0
            &&& w.state is Default
            &&& w.bus.trace == v.bus.trace.push(
                BusCall::Poll { result: PollResult::Reset },
            ).push(BusCall::Reset)
            &&& spec_extends(v.class_log, w.class_log)
            &&& spec_broadcast(
                spec_added(v.class_log, w.class_log),
                v.classes,
                |call: ClassCall| call is Reset,
            )
        }),
{
    reveal(DeviceView::spec_poll);
    reveal(DeviceView::spec_reset);
    let w = v.spec_poll(t, l);
    let run = spec_replay(
        l,
        v.dispatched(),
        v.classes,
        |call: ClassCall| ClassCall::Reset { result: call.spec_reset_result() },
    );
    assert(w.class_log == v.class_log + run);
    assert(spec_added(v.class_log, w.class_log) =~= run);
}

/// Where no class of a traversal speaks, every class is asked.
pub proof fn lemma_asked_all(
    log: Seq<Dispatch>,
    from: int,
    n: int,
    spoke: spec_fn(ClassCall) -> bool,
)
    requires
        0 <= n,
        forall|p: int| from <= p < from + n ==> !spoke(#[trigger] spec_dispatch_at(log, p)),
    ensures
        spec_asked(log, from, n, spoke) == n,
    decreases n,
{
    if n > 0 {
        assert(!spoke(spec_dispatch_at(log, from)));
        lemma_asked_all(log, from + 1, n - 1, spoke);
    }
}

/// The device reaches `Configured`. A standard request to the device that
/// sets configuration 1, which every class ignores, is accepted: the
/// device is `Configured`, whatever it was before, and the status packet
/// goes out.
pub proof fn lemma_set_configuration_configures(
    v: DeviceView,
    t: Seq<BusCall>,
    l: Seq<Dispatch>,
)
    requires
        0 <= v.classes,
        v.control.request matches Some(req) && req.request_type == RequestType::Standard
            && req.recipient == Recipient::Device && req.request
            == standard_request::SET_CONFIGURATION && req.value == CONFIGURATION_VALUE,
        forall|p: int|
            v.dispatched() <= p < v.dispatched() + v.classes ==> (#[trigger] spec_dispatch_at(
                l,
                p,
            )).spec_out_result() == ControlOutResult::Ignore,
    ensures
        v.spec_complete_out(t, l).state is Configured,
        v.spec_complete_out(t, l).control.state is StatusIn,
        v.spec_complete_out(t, l).bus.trace.len() == v.bus.trace.len() + 1,
        v.spec_complete_out(t, l).bus.trace.last() matches BusCall::Write { addr, data, result }
            && addr == spec_ep0_in() && data.len() == 0,
{
    reveal(DeviceView::spec_complete_out);
    reveal(DeviceView::spec_standard_out);
    lemma_asked_all(
        l,
        v.dispatched(),
        v.classes,
        |call: ClassCall| call.spec_out_result() != ControlOutResult::Ignore,
    );
}

/// An address is latched, not applied. A SETUP packet with a standard
/// request to the device that sets an address from 1 to 127, which every
/// class ignores, leaves that address pending and the status packet on its
/// way; the state of the device is as it was, and no address has been
/// handed to the peripheral.
pub proof fn lemma_setup_set_address(
    v: DeviceView,
    t: Seq<BusCall>,
    l: Seq<Dispatch>,
    req: Request,
)
    requires
        0 <= v.classes,
        req.direction == Direction::HostToDevice,
        req.request_type == RequestType::Standard,
        req.recipient == Recipient::Device,
        req.request == standard_request::SET_ADDRESS,
        1 <= req.value <= 127,
        req.length == 0,
        v.next_call(t).spec_moved() == Ok::<usize, UsbError>(8),
        v.next_call(t).spec_filled().len() == CONTROL_BUF_LEN,
        v.next_call(t).spec_filled().subrange(0, 8) == req.spec_encode(),
        forall|p: int|
            v.dispatched() <= p < v.dispatched() + v.classes ==> (#[trigger] spec_dispatch_at(
                l,
                p,
            )).spec_out_result() == ControlOutResult::Ignore,
    ensures
        v.spec_setup(t, l).pending_address == req.value,
        v.spec_setup(t, l).control.state is StatusIn,
        v.spec_setup(t, l).state == v.state,
        spec_quiet(v, v.spec_setup(t, l)),
{
    reveal(DeviceView::spec_setup);
    reveal(DeviceView::spec_complete_out);
    lemma_parse_encode(req);
    lemma_setup_quiet(v, t, l);
    let got = v.next_call(t).spec_moved();
    let filled = v.next_call(t).spec_filled();
    let read = v.called(
        BusCall::Read {
            addr: spec_ep0_out(),
            capacity: CONTROL_BUF_LEN as nat,
            result: got,
            filled,
        },
    ).with_buf(filled);
    let (control, step) = read.control.spec_accept_setup(got);
    let latched = read.with_control(control);
    assert(control.request == Some(req));
    lemma_asked_all(
        l,
        latched.dispatched(),
        latched.classes,
        |call: ClassCall| call.spec_out_result() != ControlOutResult::Ignore,
    );
    let offered = DeviceView {
        class_log: latched.class_log + spec_replay(
            l,
            latched.dispatched(),
            latched.classes,
            |call: ClassCall|
                ClassCall::ControlOut {
                    req,
                    data: latched.control.spec_out_data(),
                    result: call.spec_out_result(),
                },
        ),
        ..latched
    };
    lemma_set_address_latches(offered, req);
}

/// Enumeration ends in `Configured`. A SETUP packet with a standard request
/// to the device that sets configuration 1, which every class ignores,
/// leaves the device `Configured`, whatever it was before and whatever the
/// stage of the control transfer, with the status packet on its way.
pub proof fn lemma_setup_set_configuration(
    v: DeviceView,
    t: Seq<BusCall>,
    l: Seq<Dispatch>,
    req: Request,
)
    requires
        0 <= v.classes,
        req.direction == Direction::HostToDevice,
        req.request_type == RequestType::Standard,
        req.recipient == Recipient::Device,
        req.request == standard_request::SET_CONFIGURATION,
        req.value == CONFIGURATION_VALUE,
        req.length == 0,
        v.next_call(t).spec_moved() == Ok::<usize, UsbError>(8),
        v.next_call(t).spec_filled().len() == CONTROL_BUF_LEN,
        v.next_call(t).spec_filled().subrange(0, 8) == req.spec_encode(),
        forall|p: int|
            v.dispatched() <= p < v.dispatched() + v.classes ==> (#[trigger] spec_dispatch_at(
                l,
                p,
            )).spec_out_result() == ControlOutResult::Ignore,
    ensures
        v.spec_setup(t, l).state is Configured,
        v.spec_setup(t, l).control.state is StatusIn,
{
    reveal(DeviceView::spec_setup);
    lemma_parse_encode(req);
    let got = v.next_call(t).spec_moved();
    let filled = v.next_call(t).spec_filled();
    let read = v.called(
        BusCall::Read {
            addr: spec_ep0_out(),
            capacity: CONTROL_BUF_LEN as nat,
            result: got,
            filled,
        },
    ).with_buf(filled);
    let (control, step) = read.control.spec_accept_setup(got);
    let latched = read.with_control(control);
    assert(control.request == Some(req));
    lemma_set_configuration_configures(latched, t, l);
}

/// Short-circuit. In a traversal that stops at the first answer, a class
/// that speaks is the last class that is asked, and its answer is the
/// outcome: no class behind it is called.
pub proof fn lemma_short_circuit<A>(
    run: Seq<Dispatch>,
    n: int,
    answer_of: spec_fn(ClassCall) -> Option<A>,
    silent: A,
    outcome: A,
    j: int,
)
    requires
        spec_first_answer(run, n, answer_of, silent, outcome),
        0 <= j < run.len(),
        answer_of(run[j].call) != Some(silent),
    ensures
        j == run.len() - 1,
        answer_of(run[j].call) == Some(outcome),
        forall|i: int| 0 <= i < run.len() ==> (#[trigger] run[i]).class <= j,
{
}

} // verus!
