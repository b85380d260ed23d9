//! The record of the control transfer in flight on endpoint zero, and the
//! decisions that move it from stage to stage. Nothing here touches the
//! peripheral: what the peripheral or a class answered comes in as an
//! argument, and what is to be done next goes out as a value.

use vstd::prelude::*;
use crate::UsbError;
use crate::control::Direction;
use crate::control::Request;
use crate::descriptor::spec_overwrite;
use crate::device::ControlInResult;
use crate::device::ControlOutResult;

verus! {

/// The size of the buffer that stages the data of a control transfer.
pub const CONTROL_BUF_LEN: usize = 128;

/// The stage of the control transfer on endpoint zero.
#[derive(Debug, Clone, Copy, PartialEq, Eq, Structural)]
pub enum ControlState {
    /// No transfer is in flight.
    Idle,
    /// Response data is being sent, packet by packet.
    DataIn,
    /// All the data has gone out in full packets and was less than the host
    /// asked for: a zero-length packet is owed to end the data stage.
    DataInZlp,
    /// The last packet of the data stage is on its way.
    DataInLast,
    /// The data stage is over and the host's status packet is awaited.
    StatusOut,
    /// Request data is being received, packet by packet.
    DataOut,
    /// The request was accepted and the status packet is on its way.
    StatusIn,
    /// The transfer failed: both directions stay stalled until the next SETUP.
    Error,
}

/// The control transfer record.
#[derive(Clone, Copy)]
pub struct Control {
    /// The stage that the transfer is in.
    pub state: ControlState,
    /// The request of the transfer, latched from its SETUP packet.
    pub request: Option<Request>,
    /// The staging buffer for the data stage.
    pub buf: [u8; 128],
    /// How many bytes of the data stage have been moved.
    pub i: usize,
    /// How many bytes the data stage has in all.
    pub len: usize,
}

/// What a control transfer record stands for in contracts: the record with
/// its buffer as a sequence of bytes.
pub struct ControlView {
    /// The stage that the transfer is in.
    pub state: ControlState,
    /// The request of the transfer, latched from its SETUP packet.
    pub request: Option<Request>,
    /// The staging buffer for the data stage.
    pub buf: Seq<u8>,
    /// How many bytes of the data stage have been moved.
    pub i: usize,
    /// How many bytes the data stage has in all.
    pub len: usize,
}

/// What is to be done after a SETUP packet has been looked at.
#[derive(Debug, Clone, Copy, PartialEq, Eq, Structural)]
pub enum SetupStep {
    /// No packet could be read yet: nothing changes.
    Retry,
    /// The transfer failed: stall both directions.
    Stall,
    /// The host sends data next: wait for it.
    AwaitData,
    /// A host-to-device request without data: have it handled now.
    CompleteOut,
    /// A device-to-host request: have it answered now.
    DispatchIn,
}

/// What is to be done after the peripheral has answered.
#[derive(Debug, Clone, Copy, PartialEq, Eq, Structural)]
pub enum Step {
    /// Go on: the record says where the transfer stands.
    Proceed,
    /// The data stage of a host-to-device request is complete: have the
    /// request handled now.
    CompleteOut,
    /// The transfer failed: stall both directions.
    Stall,
}

/// The smaller of two numbers.
pub open spec fn spec_min(a: int, b: int) -> int {
    if a <= b {
        a
    } else {
        b
    }
}

/// The record of a device that has seen no transfer yet: idle, without a
/// request, with a buffer of zeros.
pub open spec fn spec_idle_control() -> ControlView {
    ControlView {
        state: ControlState::Idle,
        request: None,
        buf: Seq::new(CONTROL_BUF_LEN as nat, |k: int| 0u8),
        i: 0,
        len: 0,
    }
}

impl ControlView {
    /// What holds of the record at all times: the index and the length stay
    /// within the buffer; while data moves there is a request, the index
    /// has not passed the length, and incoming data is not yet complete.
    pub open spec fn wf(&self) -> bool {
        &&& self.buf.len() == CONTROL_BUF_LEN
        &&& self.i <= CONTROL_BUF_LEN
        &&& self.len <= CONTROL_BUF_LEN
        &&& (self.state is DataIn || self.state is DataInZlp || self.state is DataOut)
            ==> self.request is Some
        &&& self.state is DataIn ==> self.i <= self.len
        &&& self.state is DataOut ==> self.i < self.len
    }

    /// The record with another stage.
    pub open spec fn at(self, state: ControlState) -> ControlView {
        ControlView { state, ..self }
    }

    /// The record after a SETUP packet has been read into the buffer, `got`
    /// being what the read returned, and what is to be done next.
    ///
    /// No packet yet: nothing changes. A failed read, a packet that is not
    /// eight bytes long: error. Else the request is latched; a
    /// host-to-device request with data that fits is awaited, with data
    /// that does not fit it is an error, without data it is to be handled; a
    /// device-to-host request is to be answered.
    pub open spec fn spec_accept_setup(self, got: Result<usize, UsbError>) -> (ControlView, SetupStep) {
        match got {
            Err(UsbError::NoData) => (self, SetupStep::Retry),
            Err(_) => (self.at(ControlState::Error), SetupStep::Stall),
            Ok(count) => if count != 8 {
                (self.at(ControlState::Error), SetupStep::Stall)
            } else {
                let req = Request::spec_parse(self.buf.subrange(0, 8));
                let latched = ControlView { request: Some(req), ..self };
                if req.direction == Direction::HostToDevice {
                    if req.length as int > CONTROL_BUF_LEN as int {
                        (latched.at(ControlState::Error), SetupStep::Stall)
                    } else if req.length > 0 {
                        (
                            ControlView {
                                state: ControlState::DataOut,
                                i: 0,
                                len: req.length as usize,
                                ..latched
                            },
                            SetupStep::AwaitData,
                        )
                    } else {
                        (
                            ControlView { state: ControlState::Idle, len: 0, ..latched },
                            SetupStep::CompleteOut,
                        )
                    }
                } else {
                    (latched.at(ControlState::Idle), SetupStep::DispatchIn)
                }
            },
        }
    }

    /// The record after a device-to-host request has been answered with
    /// `res`. An answer of `n` bytes that the buffer can hold starts the
    /// data stage with the smaller of `n` and the length that the host asked
    /// for; every other answer is an error.
    pub open spec fn spec_start_data_in(self, res: ControlInResult) -> ControlView {
        match res {
            ControlInResult::Accept(count) => if count <= CONTROL_BUF_LEN && self.request is Some {
                ControlView {
                    state: ControlState::DataIn,
                    i: 0,
                    len: spec_min(count as int, self.request->0.length as int) as usize,
                    ..self
                }
            } else {
                self.at(ControlState::Error)
            },
            _ => self.at(ControlState::Error),
        }
    }

    /// The length of the next packet of the data stage: what is left, but
    /// no more than a full packet.
    pub open spec fn spec_chunk_len(self, max_packet_size: u8) -> int {
        spec_min(self.len - self.i, max_packet_size as int)
    }

    /// The bytes of the next packet of the data stage.
    pub open spec fn spec_chunk(self, max_packet_size: u8) -> Seq<u8> {
        self.buf.subrange(self.i as int, self.i + self.spec_chunk_len(max_packet_size))
    }

    /// Whether the data stage owes the host a zero-length packet once all
    /// the data has gone out: when the last packet was a full one and the
    /// data is less than the host asked for.
    pub open spec fn spec_owes_zlp(self, written: usize, max_packet_size: u8) -> bool {
        &&& written == max_packet_size
        &&& self.request matches Some(req) && self.len < req.length
    }

    /// The record after the next packet of the data stage has been handed
    /// to the peripheral, `res` being what the write returned.
    ///
    /// Busy: nothing changes. Another error, or more bytes written than
    /// handed over: error. Else the index moves on, and once it reaches the
    /// length, the stage is `DataInZlp` where a zero-length packet is owed
    /// and `DataInLast` where not.
    pub open spec fn spec_chunk_written(
        self,
        res: Result<usize, UsbError>,
        max_packet_size: u8,
    ) -> ControlView {
        match res {
            Err(UsbError::Busy) => self,
            Err(_) => self.at(ControlState::Error),
            Ok(written) => if written > self.spec_chunk_len(max_packet_size) {
                self.at(ControlState::Error)
            } else if self.i + written >= self.len {
                ControlView {
                    state: if self.spec_owes_zlp(written, max_packet_size) {
                        ControlState::DataInZlp
                    } else {
                        ControlState::DataInLast
                    },
                    i: (self.i + written) as usize,
                    ..self
                }
            } else {
                ControlView { i: (self.i + written) as usize, ..self }
            },
        }
    }

    /// The record after the zero-length packet that ends the data stage has
    /// been handed to the peripheral. Busy: nothing changes. Another error:
    /// error. Else the stage is `DataInLast`.
    pub open spec fn spec_zlp_written(self, res: Result<usize, UsbError>) -> ControlView {
        match res {
            Err(UsbError::Busy) => self,
            Err(_) => self.at(ControlState::Error),
            Ok(_) => self.at(ControlState::DataInLast),
        }
    }

    /// The record after a packet of the data stage has been read into the
    /// buffer behind the index, `got` being what the read returned, and
    /// what is to be done next.
    ///
    /// No packet yet: nothing changes. Another error, or a packet longer
    /// than the room behind the index: error. Else the index moves on, and
    /// once it reaches the length the request is to be handled.
    pub open spec fn spec_data_received(self, got: Result<usize, UsbError>) -> (ControlView, Step) {
        match got {
            Err(UsbError::NoData) => (self, Step::Proceed),
            Err(_) => (self.at(ControlState::Error), Step::Stall),
            Ok(count) => if count > CONTROL_BUF_LEN - self.i {
                (self.at(ControlState::Error), Step::Stall)
            } else if self.i + count >= self.len {
                (
                    ControlView { state: ControlState::Idle, i: (self.i + count) as usize, ..self },
                    Step::CompleteOut,
                )
            } else {
                (ControlView { i: (self.i + count) as usize, ..self }, Step::Proceed)
            },
        }
    }

    /// The data of a host-to-device request: the first `len` bytes of the
    /// buffer.
    pub open spec fn spec_out_data(self) -> Seq<u8> {
        self.buf.subrange(0, self.len as int)
    }

    /// The record after a host-to-device request has been answered with
    /// `res`: the request is gone, and the stage is `StatusIn` where it was
    /// accepted and `Error` where not.
    pub open spec fn spec_finish_out(self, res: ControlOutResult) -> ControlView {
        ControlView {
            state: if res == ControlOutResult::Accept {
                ControlState::StatusIn
            } else {
                ControlState::Error
            },
            request: None,
            ..self
        }
    }

    /// The record after the host's status packet has been read, `got` being
    /// what the read returned. No packet yet: nothing changes. Another
    /// error: error. Else the transfer is over.
    pub open spec fn spec_status_received(self, got: Result<usize, UsbError>) -> ControlView {
        match got {
            Err(UsbError::NoData) => self,
            Err(_) => self.at(ControlState::Error),
            Ok(_) => self.at(ControlState::Idle),
        }
    }
}

impl View for Control {
    type V = ControlView;

    open spec fn view(&self) -> ControlView {
        ControlView {
            state: self.state,
            request: self.request,
            buf: self.buf@,
            i: self.i,
            len: self.len,
        }
    }
}

impl Control {
    /// An idle record with a buffer of zeros.
    pub fn new() -> (control: Control)
        ensures
            control@.wf(),
            control@ == spec_idle_control(),
    {
        let control = Control {
            state: ControlState::Idle,
            request: None,
            buf: [0u8; 128],
            i: 0,
            len: 0,
        };
        assert(control.buf@ =~= Seq::new(CONTROL_BUF_LEN as nat, |k: int| 0u8));
        control
    }

    /// Copies `bytes` to the front of the buffer. Nothing else changes.
    pub fn load(&mut self, bytes: &[u8])
        requires
            bytes@.len() <= CONTROL_BUF_LEN,
        ensures
            final(self)@ == (ControlView {
                buf: spec_overwrite(old(self)@.buf, 0, bytes@),
                ..old(self)@
            }),
    {
        let mut k: usize = 0;
        while k < bytes.len()
            invariant
                k <= bytes@.len() <= CONTROL_BUF_LEN,
                self.state == old(self).state,
                self.request == old(self).request,
                self.i == old(self).i,
                self.len == old(self).len,
                forall|j: int|
                    0 <= j < CONTROL_BUF_LEN ==> self.buf@[j] == if j < k {
                        bytes@[j]
                    } else {
                        old(self).buf@[j]
                    },
            decreases bytes@.len() - k,
        {
            self.buf[k] = bytes[k];
            k = k + 1;
        }
        assert(self.buf@ =~= spec_overwrite(old(self)@.buf, 0, bytes@));
    }

    /// Looks at the SETUP packet that has been read into the buffer, `got`
    /// being what the read returned, and says what is to be done next.
    pub fn accept_setup(&mut self, got: Result<usize, UsbError>) -> (step: SetupStep)
        requires
            old(self)@.wf(),
        ensures
            final(self)@.wf(),
            (final(self)@, step) == old(self)@.spec_accept_setup(got),
    {
        match got {
            Err(UsbError::NoData) => SetupStep::Retry,
            Err(_) => {
                self.state = ControlState::Error;
                SetupStep::Stall
            },
            Ok(count) => {
                if count != 8 {
                    self.state = ControlState::Error;
                    return SetupStep::Stall;
                }
                let parsed = Request::parse(vstd::slice::slice_subrange(self.buf.as_slice(), 0, 8));
                let req = match parsed {
                    Ok(req) => req,
                    Err(_) => {
                        self.state = ControlState::Error;
                        return SetupStep::Stall;
                    },
                };
                self.request = Some(req);
                if req.direction == Direction::HostToDevice {
                    if req.length as usize > CONTROL_BUF_LEN {
                        self.state = ControlState::Error;
                        SetupStep::Stall
                    } else if req.length > 0 {
                        self.i = 0;
                        self.len = req.length as usize;
                        self.state = ControlState::DataOut;
                        SetupStep::AwaitData
                    } else {
                        self.len = 0;
                        self.state = ControlState::Idle;
                        SetupStep::CompleteOut
                    }
                } else {
                    self.state = ControlState::Idle;
                    SetupStep::DispatchIn
                }
            },
        }
    }

    /// Starts the data stage of a device-to-host request that has been
    /// answered with `res`, or fails the transfer. Returns whether the data
    /// stage has started.
    pub fn start_data_in(&mut self, res: ControlInResult) -> (started: bool)
        requires
            old(self)@.wf(),
        ensures
            final(self)@.wf(),
            final(self)@ == old(self)@.spec_start_data_in(res),
            started == (final(self).state is DataIn),
            !started ==> final(self).state is Error,
    {
        match (res, self.request) {
            (ControlInResult::Accept(count), Some(req)) => {
                if count <= CONTROL_BUF_LEN {
                    self.i = 0;
                    self.len = if count <= req.length as usize {
                        count
                    } else {
                        req.length as usize
                    };
                    self.state = ControlState::DataIn;
                    true
                } else {
                    self.state = ControlState::Error;
                    false
                }
            },
            _ => {
                self.state = ControlState::Error;
                false
            },
        }
    }

    /// The length of the next packet of the data stage.
    pub fn chunk_len(&self, max_packet_size: u8) -> (count: usize)
        requires
            self.i <= self.len,
        ensures
            count == self@.spec_chunk_len(max_packet_size),
            self.i + count <= self.len,
    {
        let rest = self.len - self.i;
        if rest <= max_packet_size as usize {
            rest
        } else {
            max_packet_size as usize
        }
    }

    /// Takes note of what the peripheral answered when the next packet of
    /// the data stage was handed to it. Returns whether the transfer goes
    /// on; where not, both directions are to be stalled.
    pub fn chunk_written(&mut self, res: Result<usize, UsbError>, max_packet_size: u8) -> (step:
        Step)
        requires
            old(self)@.wf(),
            old(self).state is DataIn,
        ensures
            final(self)@.wf(),
            final(self)@ == old(self)@.spec_chunk_written(res, max_packet_size),
            step == if final(self).state is Error {
                Step::Stall
            } else {
                Step::Proceed
            },
    {
        match res {
            Err(UsbError::Busy) => Step::Proceed,
            Err(_) => {
                self.state = ControlState::Error;
                Step::Stall
            },
            Ok(written) => {
                let count = self.chunk_len(max_packet_size);
                if written > count {
                    self.state = ControlState::Error;
                    return Step::Stall;
                }
                self.i = self.i + written;
                if self.i >= self.len {
                    let owes = written == max_packet_size as usize && match self.request {
                        Some(req) => self.len < req.length as usize,
                        None => false,
                    };
                    self.state = if owes {
                        ControlState::DataInZlp
                    } else {
                        ControlState::DataInLast
                    };
                }
                Step::Proceed
            },
        }
    }

    /// Takes note of what the peripheral answered when the zero-length
    /// packet that ends the data stage was handed to it.
    pub fn zlp_written(&mut self, res: Result<usize, UsbError>) -> (step: Step)
        requires
            old(self)@.wf(),
            old(self).state is DataInZlp,
        ensures
            final(self)@.wf(),
            final(self)@ == old(self)@.spec_zlp_written(res),
            step == if final(self).state is Error {
                Step::Stall
            } else {
                Step::Proceed
            },
    {
        match res {
            Err(UsbError::Busy) => Step::Proceed,
            Err(_) => {
                self.state = ControlState::Error;
                Step::Stall
            },
            Ok(_) => {
                self.state = ControlState::DataInLast;
                Step::Proceed
            },
        }
    }

    /// Takes note of what the peripheral answered when a packet of the data
    /// stage was read into the buffer behind the index.
    pub fn data_received(&mut self, got: Result<usize, UsbError>) -> (step: Step)
        requires
            old(self)@.wf(),
            old(self).state is DataOut,
        ensures
            final(self)@.wf(),
            (final(self)@, step) == old(self)@.spec_data_received(got),
    {
        match got {
            Err(UsbError::NoData) => Step::Proceed,
            Err(_) => {
                self.state = ControlState::Error;
                Step::Stall
            },
            Ok(count) => {
                if count > CONTROL_BUF_LEN - self.i {
                    self.state = ControlState::Error;
                    return Step::Stall;
                }
                self.i = self.i + count;
                if self.i >= self.len {
                    self.state = ControlState::Idle;
                    Step::CompleteOut
                } else {
                    Step::Proceed
                }
            },
        }
    }

    /// Ends the handling of a host-to-device request that has been answered
    /// with `res`. Returns whether it was accepted: then a zero-length
    /// status packet is to be sent, else both directions are to be stalled.
    pub fn finish_out(&mut self, res: ControlOutResult) -> (accepted: bool)
        requires
            old(self)@.wf(),
        ensures
            final(self)@.wf(),
            final(self)@ == old(self)@.spec_finish_out(res),
            accepted == (res == ControlOutResult::Accept),
    {
        self.request = None;
        if res == ControlOutResult::Accept {
            self.state = ControlState::StatusIn;
            true
        } else {
            self.state = ControlState::Error;
            false
        }
    }

    /// Takes note of what the peripheral answered when the host's status
    /// packet was read.
    pub fn status_received(&mut self, got: Result<usize, UsbError>) -> (step: Step)
        requires
            old(self)@.wf(),
            old(self).state is StatusOut,
        ensures
            final(self)@.wf(),
            final(self)@ == old(self)@.spec_status_received(got),
            step == if final(self).state is Error {
                Step::Stall
            } else {
                Step::Proceed
            },
    {
        match got {
            Err(UsbError::NoData) => Step::Proceed,
            Err(_) => {
                self.state = ControlState::Error;
                Step::Stall
            },
            Ok(_) => {
                self.state = ControlState::Idle;
                Step::Proceed
            },
        }
    }
}

/// The lengths of the packets that the data stage of a device-to-host
/// transfer sends from the record `c` on, where the peripheral takes every
/// packet in full.
pub open spec fn spec_in_packets(c: ControlView, max_packet_size: u8) -> Seq<int>
    decreases
        (if c.state is DataIn {
            c.len - c.i + 2
        } else if c.state is DataInZlp {
            1int
        } else {
            0int
        }),
    when c.i <= c.len && max_packet_size > 0
{
    if c.state is DataIn {
        let n = c.spec_chunk_len(max_packet_size);
        seq![n] + spec_in_packets(
            c.spec_chunk_written(Ok(n as usize), max_packet_size),
            max_packet_size,
        )
    } else if c.state is DataInZlp {
        seq![0int] + spec_in_packets(c.spec_zlp_written(Ok(0usize)), max_packet_size)
    } else {
        Seq::<int>::empty()
    }
}

/// The number of packets that `len` bytes fill, the last one perhaps not
/// to the end.
pub open spec fn spec_packets_for(len: int, max_packet_size: int) -> int {
    (len + max_packet_size - 1) / max_packet_size
}

proof fn lemma_div_step(rest: int, m: int)
    requires
        0 < m,
        0 <= rest,
    ensures
        rest < m ==> rest / m == 0 && rest % m == rest,
        rest >= m ==> (rest - m) / m == rest / m - 1 && (rest - m) % m == rest % m,
        0 < rest <= m ==> (rest + m - 1) / m == 1,
        rest == 0 ==> (rest + m - 1) / m == 0,
        rest >= m ==> (rest - m + m - 1) / m == (rest + m - 1) / m - 1,
        0 <= rest % m < m,
        rest == m ==> rest % m == 0,
{
    assert(rest == m ==> rest % m == 0) by (nonlinear_arith)
        requires
            0 < m,
            0 <= rest,
    ;
    assert(rest < m ==> rest / m == 0 && rest % m == rest) by (nonlinear_arith)
        requires
            0 < m,
            0 <= rest,
    ;
    assert(rest >= m ==> (rest - m) / m == rest / m - 1 && (rest - m) % m == rest % m)
        by (nonlinear_arith)
        requires
            0 < m,
            0 <= rest,
    ;
    assert(0 < rest <= m ==> (rest + m - 1) / m == 1) by (nonlinear_arith)
        requires
            0 < m,
            0 <= rest,
    ;
    assert(rest == 0 ==> (rest + m - 1) / m == 0) by (nonlinear_arith)
        requires
            0 < m,
            0 <= rest,
    ;
    assert(rest >= m ==> (rest - m + m - 1) / m == (rest + m - 1) / m - 1) by (nonlinear_arith)
        requires
            0 < m,
            0 <= rest,
    ;
    assert(0 <= rest % m < m) by (nonlinear_arith)
        requires
            0 < m,
            0 <= rest,
    ;
}

/// The packets of a data stage that has `rest` bytes left: full packets as
/// long as more than a packet is left, then the remainder; and behind a last
/// packet that was full, one of length zero where the data is less than the
/// host asked for.
proof fn lemma_in_packets_from(c: ControlView, max_packet_size: u8)
    requires
        c.wf(),
        c.state is DataIn,
        c.i < c.len,
        max_packet_size > 0,
    ensures
        ({
            let m = max_packet_size as int;
            let rest = c.len - c.i;
            let count = spec_packets_for(rest, m);
            let zlp = rest % m == 0 && c.len < c.request->0.length;
            let packets = spec_in_packets(c, max_packet_size);
            &&& packets.len() == count + if zlp {
                1int
            } else {
                0int
            }
            &&& forall|k: int| 0 <= k < count - 1 ==> #[trigger] packets[k] == m
            &&& packets[count - 1] == if rest % m == 0 {
                m
            } else {
                rest % m
            }
            &&& zlp ==> packets[count] == 0
        }),
    decreases c.len - c.i,
{
    let m = max_packet_size as int;
    let rest = c.len - c.i;
    let n = c.spec_chunk_len(max_packet_size);
    let next = c.spec_chunk_written(Ok(n as usize), max_packet_size);
    let packets = spec_in_packets(c, max_packet_size);
    let tail = spec_in_packets(next, max_packet_size);
    let count = spec_packets_for(rest, m);
    let zlp = rest % m == 0 && c.len < c.request->0.length;
    lemma_div_step(rest, m);
    assert(packets == seq![n] + tail);
    assert(packets.len() == tail.len() + 1);
    assert(packets[0] == n);
    assert(forall|k: int| 1 <= k < packets.len() ==> packets[k] == tail[k - 1]);
    if rest > m {
        assert(n == m);
        assert(next.state is DataIn && next.i == c.i + m && next.len == c.len);
        assert(next.request == c.request);
        lemma_in_packets_from(next, max_packet_size);
        assert(spec_packets_for(rest - m, m) == count - 1);
        assert((rest - m) % m == rest % m);
        assert(count >= 2) by (nonlinear_arith)
            requires
                count == (rest + m - 1) / m,
                rest > m,
                m > 0,
        ;
        assert(tail.len() == count - 1 + if zlp {
            1int
        } else {
            0int
        });
        assert forall|k: int| 0 <= k < count - 1 implies #[trigger] packets[k] == m by {
            if k > 0 {
                assert(packets[k] == tail[k - 1]);
            }
        }
        assert(packets[count - 1] == tail[count - 2]);
        if zlp {
            assert(packets[count] == tail[count - 1]);
        }
    } else {
        assert(n == rest);
        assert(count == 1);
        assert(rest % m == 0 <==> rest == m);
        assert(next.i == c.len);
        if next.state is DataInZlp {
            let last = next.spec_zlp_written(Ok(0usize));
            assert(last.state is DataInLast);
            assert(tail == seq![0int] + spec_in_packets(last, max_packet_size));
            assert(spec_in_packets(last, max_packet_size) == Seq::<int>::empty());
            assert(tail =~= seq![0int]);
            assert(zlp);
        } else {
            assert(next.state is DataInLast);
            assert(tail == Seq::<int>::empty());
            assert(!zlp);
        }
    }
}

/// The rule of the zero-length packet. A data stage of `len` bytes, sent in
/// packets of at most `max_packet_size` bytes to a host that asked for
/// `request.length` bytes, takes as many non-empty packets as `len` bytes
/// fill, and behind them one zero-length packet exactly when `len` is a
/// multiple of the packet size and less than the host asked for.
///
/// A transfer in which the host asked for nothing is left out: there the
/// one packet of the data stage is empty.
pub proof fn lemma_zlp_rule(c: ControlView, max_packet_size: u8)
    requires
        c.wf(),
        c.state is DataIn,
        c.i == 0,
        max_packet_size > 0,
        c.len <= c.request->0.length,
        c.request->0.length > 0,
    ensures
        ({
            let m = max_packet_size as int;
            let count = spec_packets_for(c.len as int, m);
            let zlp = c.len as int % m == 0 && c.len < c.request->0.length;
            let packets = spec_in_packets(c, max_packet_size);
            &&& packets.len() == count + if zlp {
                1int
            } else {
                0int
            }
            &&& forall|k: int| 0 <= k < count ==> #[trigger] packets[k] > 0
            &&& forall|k: int| 0 <= k < count ==> #[trigger] packets[k] <= m
            &&& zlp ==> packets[count] == 0
        }),
{
    let m = max_packet_size as int;
    lemma_div_step(c.len as int, m);
    if c.len == 0 {
        let next = c.spec_chunk_written(Ok(0usize), max_packet_size);
        assert(next.state is DataInLast);
        assert(spec_in_packets(next, max_packet_size) == Seq::<int>::empty());
        assert(spec_in_packets(c, max_packet_size) =~= seq![0int]);
    } else {
        lemma_in_packets_from(c, max_packet_size);
    }
}

} // verus!
