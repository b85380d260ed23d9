//! What each event makes of a device depends on the records of the calls
//! only as far as the event reaches.
//!
//! An event adds calls at the end of the trace of the bus and of the log of
//! the classes, and it reads what the calls returned at the places where it
//! records them. So records that continue those of the outcome tell the
//! same story: every event gives the same device for them.

use vstd::prelude::*;
use crate::bus::BusCall;
use crate::bus::spec_call_at;
use crate::class::ClassCall;
use crate::class::Dispatch;
use crate::class::lemma_asked_bounds;
use crate::class::lemma_asked_same;
use crate::class::lemma_extends_dispatch;
use crate::class::lemma_replay_in_same;
use crate::class::lemma_replay_same;
use crate::class::spec_asked;
use crate::class::spec_dispatch_at;
use crate::class::spec_extends;
use crate::class::spec_replay;
use crate::class::spec_replay_in;
use crate::control::Recipient;
use crate::control::Request;
use crate::control::RequestType;
use crate::control::standard_request;
use crate::descriptor::descriptor_type;
use crate::device::ControlInResult;
use crate::device::ControlOutResult;
use crate::device::model::DeviceView;
use crate::device::model::lemma_described_asked;
use crate::device::model::lemma_described_fits;
use crate::device::model::lemma_described_same;
use crate::device::model::lemma_described_stops;
use crate::device::model::lemma_extends_call;
use crate::device::model::spec_described;
use crate::device::model::spec_descriptor_type_index;
use crate::transfer::CONTROL_BUF_LEN;
use crate::transfer::SetupStep;
use crate::transfer::Step;

verus! {

/// Whether the records `t` and `l` continue those of the device `w`, and
/// `t2` and `l2` continue `t` and `l`.
pub open spec fn spec_told_alike(
    w: DeviceView,
    t: Seq<BusCall>,
    l: Seq<Dispatch>,
    t2: Seq<BusCall>,
    l2: Seq<Dispatch>,
) -> bool {
    &&& spec_extends(w.bus.trace, t)
    &&& spec_extends(w.class_log, l)
    &&& spec_extends(t, t2)
    &&& spec_extends(l, l2)
}

/// To continue is transitive.
pub proof fn lemma_continues_trans(a: DeviceView, b: DeviceView, c: DeviceView)
    requires
        b.continues(a),
        c.continues(b),
    ensures
        c.continues(a),
{
    assert forall|k: int| 0 <= k < a.bus.trace.len() implies #[trigger] a.bus.trace[k]
        == c.bus.trace[k] by {
        assert(b.bus.trace[k] == c.bus.trace[k]);
    }
    assert forall|k: int| 0 <= k < a.class_log.len() implies #[trigger] a.class_log[k]
        == c.class_log[k] by {
        assert(b.class_log[k] == c.class_log[k]);
    }
}

/// A failed transfer continues the device.
pub proof fn lemma_failed_continues(v: DeviceView)
    ensures
        v.failed().continues(v),
        v.settled().continues(v),
{
}

/// Sending a packet of the data stage continues the device.
pub proof fn lemma_chunk_sent_continues(v: DeviceView, t: Seq<BusCall>)
    ensures
        v.spec_chunk_sent(t).continues(v),
        v.spec_chunk_sent(t).bus.trace.len() > v.bus.trace.len(),
        v.spec_chunk_sent(t).class_log == v.class_log,
{
    reveal(DeviceView::spec_chunk_sent);
}

/// Sending a packet of the data stage reads the trace only at the place of
/// its write.
pub proof fn lemma_chunk_sent_stable(v: DeviceView, t: Seq<BusCall>, t2: Seq<BusCall>)
    requires
        spec_extends(v.spec_chunk_sent(t).bus.trace, t),
        spec_extends(t, t2),
    ensures
        v.spec_chunk_sent(t2) == v.spec_chunk_sent(t),
{
    reveal(DeviceView::spec_chunk_sent);
    lemma_chunk_sent_continues(v, t);
    lemma_extends_call(t, t2);
    let at = v.bus.trace.len() as int;
    assert(spec_call_at(t, at) == spec_call_at(t2, at));
}

/// The standard handler of host-to-device requests continues the device.
pub proof fn lemma_standard_out_continues(v: DeviceView, req: Request)
    ensures
        v.spec_standard_out(req).0.continues(v),
        v.spec_standard_out(req).0.class_log == v.class_log,
        v.spec_standard_out(req).0.control == v.control,
{
    reveal(DeviceView::spec_standard_out);
}

/// The handling of a host-to-device request continues the device.
pub proof fn lemma_complete_out_continues(v: DeviceView, t: Seq<BusCall>, l: Seq<Dispatch>)
    ensures
        v.spec_complete_out(t, l).continues(v),
{
    reveal(DeviceView::spec_complete_out);
    let req = v.control.request->0;
    let k = spec_asked(
        l,
        v.dispatched(),
        v.classes,
        |call: ClassCall| call.spec_out_result() != ControlOutResult::Ignore,
    );
    let data = v.control.spec_out_data();
    let offered = DeviceView {
        class_log: v.class_log + spec_replay(
            l,
            v.dispatched(),
            k,
            |call: ClassCall| ClassCall::ControlOut { req, data, result: call.spec_out_result() },
        ),
        ..v
    };
    lemma_standard_out_continues(offered, req);
}

/// The handling of a host-to-device request reads the records only as far
/// as it reaches.
pub proof fn lemma_complete_out_stable(
    v: DeviceView,
    t: Seq<BusCall>,
    l: Seq<Dispatch>,
    t2: Seq<BusCall>,
    l2: Seq<Dispatch>,
)
    requires
        spec_told_alike(v.spec_complete_out(t, l), t, l, t2, l2),
    ensures
        v.spec_complete_out(t2, l2) == v.spec_complete_out(t, l),
{
    reveal(DeviceView::spec_complete_out);
    let req = v.control.request->0;
    let from = v.dispatched();
    let spoke = |call: ClassCall| call.spec_out_result() != ControlOutResult::Ignore;
    let k = spec_asked(l, from, v.classes, spoke);
    let data = v.control.spec_out_data();
    let rebuild = |call: ClassCall|
        ClassCall::ControlOut { req, data, result: call.spec_out_result() };
    let offered = DeviceView { class_log: v.class_log + spec_replay(l, from, k, rebuild), ..v };
    lemma_asked_bounds(l, from, v.classes, spoke);
    lemma_standard_out_continues(offered, req);
    lemma_extends_dispatch(l, l2);
    lemma_extends_call(t, t2);
    assert(from + k <= l.len());
    lemma_asked_same(l, l2, from, v.classes, spoke);
    lemma_replay_same(l, l2, from, k, rebuild);
    let said = if k > 0 {
        spec_dispatch_at(l, from + k - 1).spec_out_result()
    } else {
        ControlOutResult::Ignore
    };
    let (handled, answer) = if said == ControlOutResult::Ignore && req.request_type
        == RequestType::Standard {
        offered.spec_standard_out(req)
    } else {
        (offered, said)
    };
    if answer == ControlOutResult::Accept {
        let at = handled.bus.trace.len() as int;
        assert(spec_call_at(t, at) == spec_call_at(t2, at));
    }
}

/// The handling of an OUT packet continues the device.
pub proof fn lemma_out_event_continues(v: DeviceView, t: Seq<BusCall>, l: Seq<Dispatch>)
    ensures
        v.spec_out_event(t, l).continues(v),
        v.spec_out_event(t, l).bus.trace.len() > v.bus.trace.len(),
{
    reveal(DeviceView::spec_out_event);
    let got = v.next_call(t).spec_moved();
    let filled = v.next_call(t).spec_filled();
    if v.control.state is DataOut {
        let read = v.called(
            BusCall::Read {
                addr: crate::device::model::spec_ep0_out(),
                capacity: (CONTROL_BUF_LEN - v.control.i) as nat,
                result: got,
                filled,
            },
        ).with_buf(v.control.buf.subrange(0, v.control.i as int) + filled);
        let (control, step) = read.control.spec_data_received(got);
        let received = read.with_control(control);
        assert(received.continues(v));
        lemma_failed_continues(received);
        lemma_complete_out_continues(received, t, l);
        lemma_continues_trans(v, received, received.failed());
        lemma_continues_trans(v, received, received.spec_complete_out(t, l));
    }
}

/// The handling of an OUT packet reads the records only as far as it
/// reaches.
pub proof fn lemma_out_event_stable(
    v: DeviceView,
    t: Seq<BusCall>,
    l: Seq<Dispatch>,
    t2: Seq<BusCall>,
    l2: Seq<Dispatch>,
)
    requires
        spec_told_alike(v.spec_out_event(t, l), t, l, t2, l2),
    ensures
        v.spec_out_event(t2, l2) == v.spec_out_event(t, l),
{
    reveal(DeviceView::spec_out_event);
    lemma_out_event_continues(v, t, l);
    lemma_extends_call(t, t2);
    let at = v.bus.trace.len() as int;
    assert(spec_call_at(t, at) == spec_call_at(t2, at));
    let got = v.next_call(t).spec_moved();
    let filled = v.next_call(t).spec_filled();
    if v.control.state is DataOut {
        let read = v.called(
            BusCall::Read {
                addr: crate::device::model::spec_ep0_out(),
                capacity: (CONTROL_BUF_LEN - v.control.i) as nat,
                result: got,
                filled,
            },
        ).with_buf(v.control.buf.subrange(0, v.control.i as int) + filled);
        let (control, step) = read.control.spec_data_received(got);
        if step == Step::CompleteOut {
            lemma_complete_out_stable(read.with_control(control), t, l, t2, l2);
        }
    }
}

/// Writing a string descriptor continues the device.
pub proof fn lemma_answer_string_continues(v: DeviceView, s: Seq<char>)
    ensures
        v.spec_answer_string(s).0.continues(v),
        v.spec_answer_string(s).0.bus == v.bus,
        v.spec_answer_string(s).0.class_log == v.class_log,
{
    reveal(DeviceView::spec_answer_string);
}

/// Asking the classes for a string continues the device.
pub proof fn lemma_class_string_continues(
    v: DeviceView,
    index: u8,
    lang_id: u16,
    l: Seq<Dispatch>,
)
    ensures
        v.spec_class_string(index, lang_id, l).0.continues(v),
        v.spec_class_string(index, lang_id, l).0.bus == v.bus,
{
    reveal(DeviceView::spec_class_string);
    let from = v.dispatched();
    let k = spec_asked(l, from, v.classes, |call: ClassCall| call.spec_string() is Some);
    let asked = DeviceView {
        class_log: v.class_log + spec_replay(
            l,
            from,
            k,
            |call: ClassCall| ClassCall::GetString { index, lang_id, result: call.spec_string() },
        ),
        ..v
    };
    let said = if k > 0 {
        spec_dispatch_at(l, from + k - 1).spec_string()
    } else {
        None
    };
    if said is Some {
        lemma_answer_string_continues(asked, said->0);
    }
}

/// The answer to a request for a string of a class is read from the log
/// only as far as the classes were asked.
pub proof fn lemma_class_string_stable(
    v: DeviceView,
    index: u8,
    lang_id: u16,
    l: Seq<Dispatch>,
    l2: Seq<Dispatch>,
)
    requires
        spec_extends(v.spec_class_string(index, lang_id, l).0.class_log, l),
        spec_extends(l, l2),
    ensures
        v.spec_class_string(index, lang_id, l2) == v.spec_class_string(index, lang_id, l),
{
    reveal(DeviceView::spec_class_string);
    let from = v.dispatched();
    let spoke = |call: ClassCall| call.spec_string() is Some;
    let k = spec_asked(l, from, v.classes, spoke);
    let rebuild = |call: ClassCall|
        ClassCall::GetString { index, lang_id, result: call.spec_string() };
    let asked = DeviceView { class_log: v.class_log + spec_replay(l, from, k, rebuild), ..v };
    let said = if k > 0 {
        spec_dispatch_at(l, from + k - 1).spec_string()
    } else {
        None
    };
    if said is Some {
        lemma_answer_string_continues(asked, said->0);
    }
    lemma_asked_bounds(l, from, v.classes, spoke);
    lemma_extends_dispatch(l, l2);
    assert(from + k <= l.len());
    lemma_asked_same(l, l2, from, v.classes, spoke);
    lemma_replay_same(l, l2, from, k, rebuild);
}

/// Writing the configuration descriptor continues the device.
pub proof fn lemma_configuration_continues(v: DeviceView, l: Seq<Dispatch>)
    ensures
        v.spec_configuration(l).0.continues(v),
        v.spec_configuration(l).0.bus == v.bus,
{
    reveal(DeviceView::spec_configuration);
}

/// The configuration descriptor is read from the log only as far as the
/// classes were asked.
pub proof fn lemma_configuration_stable(v: DeviceView, l: Seq<Dispatch>, l2: Seq<Dispatch>)
    requires
        0 <= v.classes,
        spec_extends(v.spec_configuration(l).0.class_log, l),
        spec_extends(l, l2),
    ensures
        v.spec_configuration(l2) == v.spec_configuration(l),
{
    reveal(DeviceView::spec_configuration);
    let from = v.dispatched();
    let d = spec_described(l, from, v.classes);
    let rebuild = |call: ClassCall|
        ClassCall::GetConfigurationDescriptors {
            before: Seq::<u8>::empty(),
            capacity: CONTROL_BUF_LEN as nat,
            result: call.spec_described(),
            bytes: call.spec_described_bytes(),
            interfaces: call.spec_described_interfaces(),
        };
    lemma_extends_dispatch(l, l2);
    lemma_described_asked(l, from, v.classes);
    lemma_described_fits(l, from, v.classes);
    assert(from + spec_replay(l, from, d.asked, rebuild).len() <= l.len());
    lemma_described_same(l, l2, from, d.asked);
    if !d.complete {
        lemma_described_stops(l2, from, d.asked, v.classes);
    }
    lemma_replay_same(l, l2, from, d.asked, rebuild);
}

/// The answer to a GET_DESCRIPTOR request continues the device.
pub proof fn lemma_get_descriptor_continues(v: DeviceView, req: Request, l: Seq<Dispatch>)
    ensures
        v.spec_get_descriptor(req, l).0.continues(v),
        v.spec_get_descriptor(req, l).0.bus == v.bus,
{
    reveal(DeviceView::spec_get_descriptor);
    lemma_configuration_continues(v, l);
    lemma_class_string_continues(v, spec_descriptor_type_index(req.value).1, req.index, l);
    lemma_answer_string_continues(v, v.info.manufacturer@);
    lemma_answer_string_continues(v, v.info.product@);
    lemma_answer_string_continues(v, v.info.serial_number@);
}

/// The answer to a GET_DESCRIPTOR request is read from the log only as far
/// as the classes were asked.
pub proof fn lemma_get_descriptor_stable(
    v: DeviceView,
    req: Request,
    l: Seq<Dispatch>,
    l2: Seq<Dispatch>,
)
    requires
        0 <= v.classes,
        spec_extends(v.spec_get_descriptor(req, l).0.class_log, l),
        spec_extends(l, l2),
    ensures
        v.spec_get_descriptor(req, l2) == v.spec_get_descriptor(req, l),
{
    reveal(DeviceView::spec_get_descriptor);
    let (dtype, index) = spec_descriptor_type_index(req.value);
    if dtype == descriptor_type::CONFIGURATION {
        lemma_configuration_stable(v, l, l2);
    } else if dtype == descriptor_type::STRING && index > 3 {
        lemma_class_string_stable(v, index, req.index, l, l2);
    }
}

/// The standard handler of device-to-host requests continues the device.
pub proof fn lemma_standard_in_continues(
    v: DeviceView,
    req: Request,
    t: Seq<BusCall>,
    l: Seq<Dispatch>,
)
    ensures
        v.spec_standard_in(req, t, l).0.continues(v),
{
    reveal(DeviceView::spec_standard_in);
    lemma_get_descriptor_continues(v, req, l);
}

/// The answer of the standard handler to a device-to-host request is read
/// from the records only as far as the handler called.
pub proof fn lemma_standard_in_stable(
    v: DeviceView,
    req: Request,
    t: Seq<BusCall>,
    l: Seq<Dispatch>,
    t2: Seq<BusCall>,
    l2: Seq<Dispatch>,
)
    requires
        0 <= v.classes,
        spec_told_alike(v.spec_standard_in(req, t, l).0, t, l, t2, l2),
    ensures
        v.spec_standard_in(req, t2, l2) == v.spec_standard_in(req, t, l),
{
    reveal(DeviceView::spec_standard_in);
    if req.recipient == Recipient::Endpoint && req.request == standard_request::GET_STATUS {
        lemma_extends_call(t, t2);
        let at = v.bus.trace.len() as int;
        assert(spec_call_at(t, at) == spec_call_at(t2, at));
    } else if req.recipient == Recipient::Device && req.request
        == standard_request::GET_DESCRIPTOR {
        lemma_get_descriptor_stable(v, req, l, l2);
    }
}

/// The device to which the classes have been offered a device-to-host
/// request, as `spec_dispatch_in` reads it from the log.
pub open spec fn spec_offered_in<'a>(v: DeviceView<'a>, l: Seq<Dispatch>) -> DeviceView<'a> {
    let req = v.control.request->0;
    let from = v.dispatched();
    let k = spec_asked(
        l,
        from,
        v.classes,
        |call: ClassCall| call.spec_in_result() != ControlInResult::Ignore,
    );
    DeviceView {
        class_log: v.class_log + spec_replay_in(l, from, k, req, v.control.buf),
        ..v
    }.with_buf(
        if k > 0 {
            spec_dispatch_at(l, from + k - 1).spec_in_buffer()
        } else {
            v.control.buf
        },
    )
}

/// The answering of a device-to-host request continues the device.
pub proof fn lemma_dispatch_in_continues(v: DeviceView, t: Seq<BusCall>, l: Seq<Dispatch>)
    ensures
        v.spec_dispatch_in(t, l).continues(v),
        v.spec_dispatch_in(t, l).continues(spec_offered_in(v, l)),
{
    reveal(DeviceView::spec_dispatch_in);
    let req = v.control.request->0;
    let from = v.dispatched();
    let k = spec_asked(
        l,
        from,
        v.classes,
        |call: ClassCall| call.spec_in_result() != ControlInResult::Ignore,
    );
    let offered = spec_offered_in(v, l);
    let said = if k > 0 {
        spec_dispatch_at(l, from + k - 1).spec_in_result()
    } else {
        ControlInResult::Ignore
    };
    let (handled, answer) = if said == ControlInResult::Ignore && req.request_type
        == RequestType::Standard {
        offered.spec_standard_in(req, t, l)
    } else {
        (offered, said)
    };
    lemma_standard_in_continues(offered, req, t, l);
    let started = handled.with_control(handled.control.spec_start_data_in(answer));
    lemma_chunk_sent_continues(started, t);
    lemma_failed_continues(started);
    assert(offered.continues(v));
    assert(started.continues(handled));
    lemma_continues_trans(offered, handled, started);
    lemma_continues_trans(offered, started, v.spec_dispatch_in(t, l));
    lemma_continues_trans(v, offered, v.spec_dispatch_in(t, l));
}

/// The answering of a device-to-host request reads the records only as far
/// as it reaches.
pub proof fn lemma_dispatch_in_stable(
    v: DeviceView,
    t: Seq<BusCall>,
    l: Seq<Dispatch>,
    t2: Seq<BusCall>,
    l2: Seq<Dispatch>,
)
    requires
        0 <= v.classes,
        spec_told_alike(v.spec_dispatch_in(t, l), t, l, t2, l2),
    ensures
        v.spec_dispatch_in(t2, l2) == v.spec_dispatch_in(t, l),
{
    reveal(DeviceView::spec_dispatch_in);
    lemma_dispatch_in_continues(v, t, l);
    let req = v.control.request->0;
    let from = v.dispatched();
    let spoke = |call: ClassCall| call.spec_in_result() != ControlInResult::Ignore;
    let k = spec_asked(l, from, v.classes, spoke);
    let offered = spec_offered_in(v, l);
    let w = v.spec_dispatch_in(t, l);
    lemma_asked_bounds(l, from, v.classes, spoke);
    lemma_extends_dispatch(l, l2);
    lemma_extends_call(t, t2);
    assert(from + k <= offered.class_log.len() <= w.class_log.len() <= l.len());
    lemma_asked_same(l, l2, from, v.classes, spoke);
    lemma_replay_in_same(l, l2, from, k, req, v.control.buf);
    assert(spec_offered_in(v, l2) == offered);
    let said = if k > 0 {
        spec_dispatch_at(l, from + k - 1).spec_in_result()
    } else {
        ControlInResult::Ignore
    };
    let (handled, answer) = if said == ControlInResult::Ignore && req.request_type
        == RequestType::Standard {
        offered.spec_standard_in(req, t, l)
    } else {
        (offered, said)
    };
    let started = handled.with_control(handled.control.spec_start_data_in(answer));
    lemma_chunk_sent_continues(started, t);
    lemma_failed_continues(started);
    if said == ControlInResult::Ignore && req.request_type == RequestType::Standard {
        crate::class::lemma_extends_trans(handled.bus.trace, w.bus.trace, t);
        crate::class::lemma_extends_trans(handled.class_log, w.class_log, l);
        lemma_standard_in_stable(offered, req, t, l, t2, l2);
    }
    if started.control.state is DataIn {
        lemma_chunk_sent_stable(started, t, t2);
    }
}

/// The handling of a SETUP packet continues the device.
pub proof fn lemma_setup_continues(v: DeviceView, t: Seq<BusCall>, l: Seq<Dispatch>)
    ensures
        v.spec_setup(t, l).continues(v),
        v.spec_setup(t, l).bus.trace.len() > v.bus.trace.len(),
{
    reveal(DeviceView::spec_setup);
    let got = v.next_call(t).spec_moved();
    let filled = v.next_call(t).spec_filled();
    let read = v.called(
        BusCall::Read {
            addr: crate::device::model::spec_ep0_out(),
            capacity: CONTROL_BUF_LEN as nat,
            result: got,
            filled,
        },
    ).with_buf(filled);
    let (control, step) = read.control.spec_accept_setup(got);
    let latched = read.with_control(control);
    assert(latched.continues(v));
    lemma_failed_continues(latched);
    lemma_complete_out_continues(latched, t, l);
    lemma_dispatch_in_continues(latched, t, l);
    lemma_continues_trans(v, latched, latched.failed());
    lemma_continues_trans(v, latched, latched.spec_complete_out(t, l));
    lemma_continues_trans(v, latched, latched.spec_dispatch_in(t, l));
}

/// The handling of a SETUP packet reads the records only as far as it
/// reaches.
pub proof fn lemma_setup_stable(
    v: DeviceView,
    t: Seq<BusCall>,
    l: Seq<Dispatch>,
    t2: Seq<BusCall>,
    l2: Seq<Dispatch>,
)
    requires
        0 <= v.classes,
        spec_told_alike(v.spec_setup(t, l), t, l, t2, l2),
    ensures
        v.spec_setup(t2, l2) == v.spec_setup(t, l),
{
    reveal(DeviceView::spec_setup);
    lemma_setup_continues(v, t, l);
    lemma_extends_call(t, t2);
    let at = v.bus.trace.len() as int;
    assert(spec_call_at(t, at) == spec_call_at(t2, at));
    let got = v.next_call(t).spec_moved();
    let filled = v.next_call(t).spec_filled();
    let read = v.called(
        BusCall::Read {
            addr: crate::device::model::spec_ep0_out(),
            capacity: CONTROL_BUF_LEN as nat,
            result: got,
            filled,
        },
    ).with_buf(filled);
    let (control, step) = read.control.spec_accept_setup(got);
    let latched = read.with_control(control);
    if step == SetupStep::CompleteOut {
        lemma_complete_out_stable(latched, t, l, t2, l2);
    } else if step == SetupStep::DispatchIn {
        lemma_dispatch_in_stable(latched, t, l, t2, l2);
    }
}

} // verus!
