//! For implementing standard as well as vendor-specific USB classes, and the
//! table through which the device reaches the classes that are registered.

use vstd::prelude::*;
use crate::UsbError;
use crate::bus::StringIndex;
use crate::control::Request;
use crate::descriptor::DescriptorWriter;
use crate::device::ControlInResult;
use crate::device::ControlOutResult;

verus! {

/// A trait implemented by USB class implementations. Every method has a
/// default that does nothing, so a class overrides only what it needs.
pub trait UsbClass {
    /// Called after a USB reset, once the bus reset sequence is complete.
    fn reset(&mut self) -> (r: Result<(), UsbError>)
        default_ensures
            r is Ok,
    {
        Ok(())
    }

    /// Called when a GET_DESCRIPTOR request is received for a configuration
    /// descriptor. The implementation writes its interface, endpoint and any
    /// extra class descriptors into `writer`. The configuration descriptor
    /// itself is written by the device.
    ///
    /// Errors are generally those of `DescriptorWriter`, to be passed on.
    fn get_configuration_descriptors(&mut self, writer: &mut DescriptorWriter) -> (r: Result<
        (),
        UsbError,
    >)
        default_ensures
            r is Ok,
            *final(writer) == *old(writer),
    {
        Ok(())
    }

    /// Called when a control request is received with direction
    /// HostToDevice.
    ///
    /// All requests are passed to classes in turn, which can choose to
    /// accept, ignore or report an error. A class ignores (the default) any
    /// request that is not meant for it, so that the other classes of a
    /// composite device can process it.
    ///
    /// * `req` - The request from the SETUP packet.
    /// * `data` - Data received in the DATA stage of the control transfer.
    ///   Empty if there was no DATA stage.
    fn control_out(&mut self, req: &Request, data: &[u8]) -> (r: ControlOutResult)
        default_ensures
            r == ControlOutResult::Ignore,
    {
        ControlOutResult::Ignore
    }

    /// Called when a control request is received with direction
    /// DeviceToHost.
    ///
    /// All requests are passed to classes in turn, which can choose to
    /// accept, ignore or report an error. To accept, a class writes its
    /// response to `data` and returns the number of bytes written, which
    /// should not exceed `req.length`.
    ///
    /// * `req` - The request from the SETUP packet.
    /// * `data` - Data to send in the DATA stage of the control transfer.
    ///
    /// The one clause states what holds of every `&mut [u8]`: the call
    /// cannot change the length of `data`.
    fn control_in(&mut self, req: &Request, data: &mut [u8]) -> (r: ControlInResult)
        ensures
            final(data)@.len() == old(data)@.len(),
        default_ensures
            r == ControlInResult::Ignore,
            final(data)@ == old(data)@,
    {
        ControlInResult::Ignore
    }

    /// Called when the endpoint with address `addr` has received a SETUP
    /// packet. May be called for an address that the class did not allocate,
    /// which it then ignores.
    fn endpoint_setup(&mut self, addr: u8) {
    }

    /// Called when the endpoint with address `addr` has received data (OUT
    /// packet). May be called for an address that the class did not
    /// allocate, which it then ignores.
    fn endpoint_out(&mut self, addr: u8) {
    }

    /// Called when the endpoint with address `addr` has completed
    /// transmitting data (IN packet). May be called for an address that the
    /// class did not allocate, which it then ignores.
    fn endpoint_in_complete(&mut self, addr: u8) {
    }

    /// Gets a class-specific string descriptor. Every string request is
    /// passed to the classes in turn, so an implementation returns `None`
    /// for an index that it does not know.
    ///
    /// * `index` - A string index allocated earlier with a `UsbBusAllocator`.
    /// * `lang_id` - The language ID for the string to retrieve.
    fn get_string<'a>(&'a self, index: StringIndex, lang_id: u16) -> (r: Option<&'a str>)
        default_ensures
            r is None,
    {
        None
    }
}

/// The number of classes that a device can hold.
pub const MAX_CLASSES: usize = 8;

/// One call that reached a class, with what was handed to it and what came
/// back.
#[allow(inconsistent_fields)]
pub enum ClassCall {
    /// The class was told of a bus reset.
    Reset { result: Result<(), UsbError> },
    /// The class was asked for its descriptors, with a writer that had
    /// written `before` into a buffer of `capacity` bytes; `bytes` and
    /// `interfaces` are what the writer had written when the class
    /// returned.
    GetConfigurationDescriptors {
        before: Seq<u8>,
        capacity: nat,
        result: Result<(), UsbError>,
        bytes: Seq<u8>,
        interfaces: nat,
    },
    /// The class was offered a host-to-device request with its data.
    ControlOut { req: Request, data: Seq<u8>, result: ControlOutResult },
    /// The class was offered a device-to-host request, with a buffer that
    /// held `given`; `filled` is the buffer as the class left it.
    ControlIn { req: Request, given: Seq<u8>, result: ControlInResult, filled: Seq<u8> },
    /// The class was told of a SETUP packet on the endpoint `addr`.
    EndpointSetup { addr: u8 },
    /// The class was told of an OUT packet on the endpoint `addr`.
    EndpointOut { addr: u8 },
    /// The class was told that an IN packet of the endpoint `addr` has gone
    /// out.
    EndpointInComplete { addr: u8 },
    /// The class was asked for a string.
    GetString { index: u8, lang_id: u16, result: Option<Seq<char>> },
}

/// A call to the class at place `class` of the table.
pub struct Dispatch {
    /// The place of the class in the table.
    pub class: int,
    /// The call.
    pub call: ClassCall,
}

impl ClassCall {
    /// What a class made of a reset.
    pub open spec fn spec_reset_result(self) -> Result<(), UsbError> {
        match self {
            ClassCall::Reset { result } => result,
            _ => Ok(()),
        }
    }

    /// What a class answered to a host-to-device request.
    pub open spec fn spec_out_result(self) -> ControlOutResult {
        match self {
            ClassCall::ControlOut { req, data, result } => result,
            _ => ControlOutResult::Ignore,
        }
    }

    /// What a class answered to a device-to-host request.
    pub open spec fn spec_in_result(self) -> ControlInResult {
        match self {
            ClassCall::ControlIn { req, given, result, filled } => result,
            _ => ControlInResult::Ignore,
        }
    }

    /// The buffer as a class found it when it was offered a device-to-host
    /// request.
    pub open spec fn spec_in_given(self) -> Seq<u8> {
        match self {
            ClassCall::ControlIn { req, given, result, filled } => given,
            _ => Seq::<u8>::empty(),
        }
    }

    /// The buffer as a class left it when it was offered a device-to-host
    /// request.
    pub open spec fn spec_in_buffer(self) -> Seq<u8> {
        match self {
            ClassCall::ControlIn { req, given, result, filled } => filled,
            _ => Seq::<u8>::empty(),
        }
    }

    /// The string that a class gave.
    pub open spec fn spec_string(self) -> Option<Seq<char>> {
        match self {
            ClassCall::GetString { index, lang_id, result } => result,
            _ => None,
        }
    }

    /// What a class made of writing its descriptors.
    pub open spec fn spec_described(self) -> Result<(), UsbError> {
        match self {
            ClassCall::GetConfigurationDescriptors {
                before,
                capacity,
                result,
                bytes,
                interfaces,
            } => result,
            _ => Ok(()),
        }
    }

    /// The descriptor bytes that a class wrote.
    pub open spec fn spec_described_bytes(self) -> Seq<u8> {
        match self {
            ClassCall::GetConfigurationDescriptors {
                before,
                capacity,
                result,
                bytes,
                interfaces,
            } => bytes,
            _ => Seq::<u8>::empty(),
        }
    }

    /// The number of interface descriptors that a class wrote.
    pub open spec fn spec_described_interfaces(self) -> nat {
        match self {
            ClassCall::GetConfigurationDescriptors {
                before,
                capacity,
                result,
                bytes,
                interfaces,
            } => interfaces,
            _ => 0,
        }
    }
}

/// The call at place `k` of a log, and a call without effect where the log
/// has no such place.
pub open spec fn spec_dispatch_at(log: Seq<Dispatch>, k: int) -> ClassCall {
    if 0 <= k < log.len() {
        log[k].call
    } else {
        ClassCall::EndpointOut { addr: 0 }
    }
}

/// The number of classes that a traversal asks which starts at place `from`
/// of `log`, runs over `n` classes at most, and stops behind the first call
/// of which `spoke` holds.
pub open spec fn spec_asked(
    log: Seq<Dispatch>,
    from: int,
    n: int,
    spoke: spec_fn(ClassCall) -> bool,
) -> int
    decreases n,
{
    if n <= 0 {
        0
    } else if spoke(spec_dispatch_at(log, from)) {
        1
    } else {
        1 + spec_asked(log, from + 1, n - 1, spoke)
    }
}

/// The calls that a traversal of `k` classes records, each call rebuilt by
/// `rebuild` from the one recorded in `log` from place `from` on.
pub open spec fn spec_replay(
    log: Seq<Dispatch>,
    from: int,
    k: int,
    rebuild: spec_fn(ClassCall) -> ClassCall,
) -> Seq<Dispatch> {
    Seq::new(
        if k >= 0 {
            k as nat
        } else {
            0nat
        },
        |j: int| Dispatch { class: j, call: rebuild(spec_dispatch_at(log, from + j)) },
    )
}

/// The calls that a broadcast of `call` to `n` classes records: the same
/// call for each class, in the order of the table.
pub open spec fn spec_told(n: int, call: ClassCall) -> Seq<Dispatch> {
    Seq::new(
        if n >= 0 {
            n as nat
        } else {
            0nat
        },
        |j: int| Dispatch { class: j, call },
    )
}

/// Whether the calls of `run` hand a buffer on from class to class: the
/// first class finds it as `initial`, and every other class as the class
/// before left it.
pub open spec fn spec_handed_on(run: Seq<Dispatch>, initial: Seq<u8>) -> bool {
    &&& run.len() > 0 ==> run[0].call.spec_in_given() == initial
    &&& forall|i: int, j: int|
        0 <= i && j == i + 1 && j < run.len() ==> (#[trigger] run[j]).call.spec_in_given() == (
        #[trigger] run[i]).call.spec_in_buffer()
}

/// The calls that a traversal of `k` classes with a device-to-host request
/// records, read from the calls recorded in `log` from place `from` on: the
/// first class finds the buffer as `initial`, and every other class as the
/// class before left it.
pub open spec fn spec_replay_in(
    log: Seq<Dispatch>,
    from: int,
    k: int,
    req: Request,
    initial: Seq<u8>,
) -> Seq<Dispatch> {
    Seq::new(
        if k >= 0 {
            k as nat
        } else {
            0nat
        },
        |j: int|
            Dispatch {
                class: j,
                call: ClassCall::ControlIn {
                    req,
                    given: if j == 0 {
                        initial
                    } else {
                        spec_dispatch_at(log, from + j - 1).spec_in_buffer()
                    },
                    result: spec_dispatch_at(log, from + j).spec_in_result(),
                    filled: spec_dispatch_at(log, from + j).spec_in_buffer(),
                },
            },
    )
}

/// Whether `after` is `before` with calls added at its end.
pub open spec fn spec_extends<T>(before: Seq<T>, after: Seq<T>) -> bool {
    &&& before.len() <= after.len()
    &&& forall|k: int| 0 <= k < before.len() ==> #[trigger] before[k] == after[k]
}

/// The calls that `after` holds beyond `before`.
pub open spec fn spec_added<T>(before: Seq<T>, after: Seq<T>) -> Seq<T> {
    after.subrange(before.len() as int, after.len() as int)
}

/// Whether `run` holds one call for each of the first `run.len()` classes,
/// in the order of the table.
pub open spec fn spec_in_order(run: Seq<Dispatch>) -> bool {
    forall|j: int| 0 <= j < run.len() ==> (#[trigger] run[j]).class == j
}

/// Whether `run` is what a broadcast to `n` classes adds: one call for each
/// class, in the order of the table, each of them accepted by `is_such`.
pub open spec fn spec_broadcast(
    run: Seq<Dispatch>,
    n: int,
    is_such: spec_fn(ClassCall) -> bool,
) -> bool {
    &&& run.len() == n
    &&& spec_in_order(run)
    &&& forall|j: int| 0 <= j < run.len() ==> is_such((#[trigger] run[j]).call)
}

/// The answer that a call to `control_out` with this request and this data
/// recorded, if `call` is one.
pub open spec fn spec_out_answer(call: ClassCall, req: Request, data: Seq<u8>) -> Option<
    ControlOutResult,
> {
    match call {
        ClassCall::ControlOut { req: r, data: d, result } => if r == req && d == data {
            Some(result)
        } else {
            None
        },
        _ => None,
    }
}

/// The answer that a call to `control_in` with this request recorded, if
/// `call` is one.
pub open spec fn spec_in_answer(call: ClassCall, req: Request) -> Option<ControlInResult> {
    match call {
        ClassCall::ControlIn { req: r, given, result, filled } => if r == req {
            Some(result)
        } else {
            None
        },
        _ => None,
    }
}

/// The buffer as a call to `control_in` left it, if `call` is one.
pub open spec fn spec_in_filled(call: ClassCall) -> Seq<u8> {
    match call {
        ClassCall::ControlIn { req, given, result, filled } => filled,
        _ => Seq::<u8>::empty(),
    }
}

/// The answer that a call to `get_string` with this index and this
/// language recorded, if `call` is one.
pub open spec fn spec_string_answer(call: ClassCall, index: u8, lang_id: u16) -> Option<
    Option<Seq<char>>,
> {
    match call {
        ClassCall::GetString { index: i, lang_id: l, result } => if i == index && l == lang_id {
            Some(result)
        } else {
            None
        },
        _ => None,
    }
}

/// The characters of a string that a class returned, if it returned one.
pub open spec fn spec_string_view(s: Option<&str>) -> Option<Seq<char>> {
    match s {
        Some(s) => Some(s@),
        None => None,
    }
}

/// Whether `run` is what a traversal of `n` classes adds that stops at the
/// first answer that is not `silent`: the classes are asked in the order of
/// the table; `answer_of` reads the answer of each call; every answer but
/// the last is `silent`; and `outcome` is the last answer where a class
/// spoke, and `silent` where all `n` were asked and none did.
pub open spec fn spec_first_answer<A>(
    run: Seq<Dispatch>,
    n: int,
    answer_of: spec_fn(ClassCall) -> Option<A>,
    silent: A,
    outcome: A,
) -> bool {
    &&& run.len() <= n
    &&& spec_in_order(run)
    &&& forall|j: int| 0 <= j < run.len() ==> answer_of((#[trigger] run[j]).call) is Some
    &&& forall|j: int|
        0 <= j < run.len() - 1 ==> answer_of((#[trigger] run[j]).call) == Some(silent)
    &&& if outcome == silent {
        &&& run.len() == n
        &&& n > 0 ==> answer_of(run.last().call) == Some(silent)
    } else {
        &&& run.len() > 0
        &&& answer_of(run.last().call) == Some(outcome)
    }
}

/// The classes that are registered with a device, in the order of their
/// registration, which is the order in which they are called. Every call
/// that the device makes to a class goes through the table and is recorded
/// in `log`.
///
/// A table holds classes of one type `C`. A composite device of classes of
/// several types has a table of `dyn UsbClass`.
pub struct ClassTable<C: UsbClass + ?Sized> {
    classes: Vec<Box<C>>,
    log: Ghost<Seq<Dispatch>>,
}

impl<C: UsbClass + ?Sized> ClassTable<C> {
    /// The classes, in the order of their registration.
    pub closed spec fn entries(&self) -> Seq<Box<C>> {
        self.classes@
    }

    /// The calls made to the classes so far, oldest first.
    pub closed spec fn log(&self) -> Seq<Dispatch> {
        self.log@
    }

    /// The number of classes.
    pub open spec fn spec_len(&self) -> nat {
        self.entries().len()
    }

    /// Whether the table has been changed only by calls to its first `k`
    /// classes: it has the classes it had, and those from place `k` on are
    /// as they were.
    pub open spec fn touched_below(&self, before: &Self, k: int) -> bool {
        &&& self.entries().len() == before.entries().len()
        &&& forall|j: int|
            k <= j < self.entries().len() ==> #[trigger] self.entries()[j] == before.entries()[j]
    }

    /// A table without classes.
    pub fn new() -> (table: ClassTable<C>)
        ensures
            table.entries().len() == 0,
            table.log() == Seq::<Dispatch>::empty(),
    {
        ClassTable { classes: Vec::new(), log: Ghost(Seq::empty()) }
    }

    /// Registers a class behind those that are registered. The table must
    /// hold fewer than `MAX_CLASSES` classes.
    pub fn register(&mut self, class: Box<C>)
        requires
            old(self).spec_len() < MAX_CLASSES,
        ensures
            final(self).entries() == old(self).entries().push(class),
            final(self).log() == old(self).log(),
    {
        self.classes.push(class);
    }

    /// The number of classes.
    pub fn len(&self) -> (n: usize)
        ensures
            n == self.spec_len(),
    {
        self.classes.len()
    }

    /// Reaches the class at place `index`, for what the class offers beyond
    /// `UsbClass`. The table keeps its classes and its log.
    pub fn class(&mut self, index: usize) -> (class: &mut C) where C: Sized
        requires
            index < old(self).spec_len(),
        ensures
            *class == *old(self).entries()[index as int],
            final(self).log() == old(self).log(),
            final(self).entries() == old(self).entries().update(
                index as int,
                Box::new(*final(class)),
            ),
    {
        &mut *self.classes[index]
    }

    /// Tells every class, in the order of the table, that the bus has been
    /// reset. What a class returns is recorded and changes nothing.
    pub fn reset(&mut self)
        ensures
            final(self).spec_len() == old(self).spec_len(),
            spec_extends(old(self).log(), final(self).log()),
            spec_broadcast(
                spec_added(old(self).log(), final(self).log()),
                old(self).spec_len() as int,
                |call: ClassCall| call is Reset,
            ),
    {
        let n = self.classes.len();
        let mut i: usize = 0;
        proof {
            lemma_extends_self(self.log@);
        }
        while i < n
            invariant
                i <= n,
                n == self.classes@.len(),
                self.classes@.len() == old(self).classes@.len(),
                spec_extends(old(self).log@, self.log@),
                spec_broadcast(
                    spec_added(old(self).log@, self.log@),
                    i as int,
                    |call: ClassCall| call is Reset,
                ),
            decreases n - i,
        {
            let result = self.classes[i].reset();
            proof {
                let call = Dispatch { class: i as int, call: ClassCall::Reset { result } };
                lemma_added_push(old(self).log@, self.log@, call);
                self.log@ = self.log@.push(call);
            }
            i = i + 1;
        }
    }

    /// Offers a host-to-device control request to the classes, in the order
    /// of the table, until one of them does not ignore it. Returns the
    /// answer of that class, and `Ignore` where every class ignored the
    /// request. The classes behind the one that answered are not called.
    pub fn control_out(&mut self, req: &Request, data: &[u8]) -> (r: ControlOutResult)
        ensures
            spec_extends(old(self).log(), final(self).log()),
            spec_first_answer(
                spec_added(old(self).log(), final(self).log()),
                old(self).spec_len() as int,
                |call: ClassCall| spec_out_answer(call, *req, data@),
                ControlOutResult::Ignore,
                r,
            ),
            final(self).touched_below(
                old(self),
                spec_added(old(self).log(), final(self).log()).len() as int,
            ),
    {
        let n = self.classes.len();
        let mut i: usize = 0;
        let mut res = ControlOutResult::Ignore;
        proof {
            lemma_extends_self(self.log@);
        }
        while i < n && res == ControlOutResult::Ignore
            invariant
                i <= n,
                n == self.classes@.len(),
                self.classes@.len() == old(self).classes@.len(),
                forall|j: int|
                    i <= j < n ==> #[trigger] self.classes@[j] == old(self).classes@[j],
                spec_extends(old(self).log@, self.log@),
                spec_added(old(self).log@, self.log@).len() == i,
                spec_in_order(spec_added(old(self).log@, self.log@)),
                forall|j: int|
                    0 <= j < i ==> spec_out_answer(
                        (#[trigger] spec_added(old(self).log@, self.log@)[j]).call,
                        *req,
                        data@,
                    ) is Some,
                forall|j: int|
                    0 <= j < i - 1 ==> spec_out_answer(
                        (#[trigger] spec_added(old(self).log@, self.log@)[j]).call,
                        *req,
                        data@,
                    ) == Some(ControlOutResult::Ignore),
                i == 0 ==> res == ControlOutResult::Ignore,
                i > 0 ==> spec_out_answer(
                    spec_added(old(self).log@, self.log@)[i - 1].call,
                    *req,
                    data@,
                ) == Some(res),
            decreases n - i,
        {
            res = self.classes[i].control_out(req, data);
            proof {
                let call = Dispatch {
                    class: i as int,
                    call: ClassCall::ControlOut { req: *req, data: data@, result: res },
                };
                lemma_added_push(old(self).log@, self.log@, call);
                self.log@ = self.log@.push(call);
            }
            i = i + 1;
        }
        res
    }

    /// Offers a device-to-host control request to the classes, in the order
    /// of the table, until one of them does not ignore it. Returns the
    /// answer of that class, and `Ignore` where every class ignored the
    /// request. The classes behind the one that answered are not called,
    /// and `data` is as the last class that was called left it.
    pub fn control_in(&mut self, req: &Request, data: &mut [u8]) -> (r: ControlInResult)
        ensures
            final(data)@.len() == old(data)@.len(),
            spec_extends(old(self).log(), final(self).log()),
            spec_first_answer(
                spec_added(old(self).log(), final(self).log()),
                old(self).spec_len() as int,
                |call: ClassCall| spec_in_answer(call, *req),
                ControlInResult::Ignore,
                r,
            ),
            final(self).touched_below(
                old(self),
                spec_added(old(self).log(), final(self).log()).len() as int,
            ),
            spec_handed_on(spec_added(old(self).log(), final(self).log()), old(data)@),
            final(self).log().len() == old(self).log().len() ==> final(data)@ == old(data)@,
            final(self).log().len() > old(self).log().len() ==> spec_in_filled(
                final(self).log().last().call,
            ) == final(data)@,
    {
        let n = self.classes.len();
        let mut i: usize = 0;
        let mut res = ControlInResult::Ignore;
        proof {
            lemma_extends_self(self.log@);
        }
        while i < n && res == ControlInResult::Ignore
            invariant
                i <= n,
                n == self.classes@.len(),
                self.classes@.len() == old(self).classes@.len(),
                data@.len() == old(data)@.len(),
                forall|j: int|
                    i <= j < n ==> #[trigger] self.classes@[j] == old(self).classes@[j],
                spec_extends(old(self).log@, self.log@),
                spec_added(old(self).log@, self.log@).len() == i,
                spec_in_order(spec_added(old(self).log@, self.log@)),
                forall|j: int|
                    0 <= j < i ==> spec_in_answer(
                        (#[trigger] spec_added(old(self).log@, self.log@)[j]).call,
                        *req,
                    ) is Some,
                forall|j: int|
                    0 <= j < i - 1 ==> spec_in_answer(
                        (#[trigger] spec_added(old(self).log@, self.log@)[j]).call,
                        *req,
                    ) == Some(ControlInResult::Ignore),
                i == 0 ==> res == ControlInResult::Ignore && data@ == old(data)@,
                i > 0 ==> spec_in_answer(
                    spec_added(old(self).log@, self.log@)[i - 1].call,
                    *req,
                ) == Some(res),
                i > 0 ==> spec_in_filled(self.log@.last().call) == data@,
                i > 0 ==> spec_added(old(self).log@, self.log@)[i - 1] == self.log@.last(),
                spec_handed_on(spec_added(old(self).log@, self.log@), old(data)@),
            decreases n - i,
        {
            let ghost given = data@;
            res = self.classes[i].control_in(req, data);
            proof {
                let call = Dispatch {
                    class: i as int,
                    call: ClassCall::ControlIn { req: *req, given, result: res, filled: data@ },
                };
                lemma_added_push(old(self).log@, self.log@, call);
                self.log@ = self.log@.push(call);
            }
            i = i + 1;
        }
        res
    }

    /// Asks the class at place `index` for its part of the configuration
    /// descriptor, which it writes to `writer`. No other class is called.
    pub fn get_configuration_descriptors(
        &mut self,
        index: usize,
        writer: &mut DescriptorWriter,
    ) -> (r: Result<(), UsbError>)
        requires
            index < old(self).spec_len(),
        ensures
            final(self).spec_len() == old(self).spec_len(),
            forall|j: int|
                0 <= j < old(self).spec_len() && j != index ==> #[trigger] final(self).entries()[j]
                    == old(self).entries()[j],
            final(self).log() == old(self).log().push(
                Dispatch {
                    class: index as int,
                    call: ClassCall::GetConfigurationDescriptors {
                        before: old(writer).bytes(),
                        capacity: old(writer).capacity(),
                        result: r,
                        bytes: final(writer).bytes(),
                        interfaces: final(writer).interfaces(),
                    },
                },
            ),
            2 * final(writer).interfaces() <= final(writer).bytes().len(),
    {
        let r = self.classes[index].get_configuration_descriptors(writer);
        let interfaces = writer.num_interfaces();
        let count = writer.count();
        proof {
            self.log@ = self.log@.push(
                Dispatch {
                    class: index as int,
                    call: ClassCall::GetConfigurationDescriptors {
                        before: old(writer).bytes(),
                        capacity: old(writer).capacity(),
                        result: r,
                        bytes: writer.bytes(),
                        interfaces: writer.interfaces(),
                    },
                },
            );
        }
        r
    }

    /// Tells every class, in the order of the table, that the endpoint with
    /// address `addr` has received a SETUP packet.
    pub fn endpoint_setup(&mut self, addr: u8)
        ensures
            final(self).spec_len() == old(self).spec_len(),
            spec_extends(old(self).log(), final(self).log()),
            final(self).log() == old(self).log() + spec_told(
                old(self).spec_len() as int,
                ClassCall::EndpointSetup { addr },
            ),
    {
        let n = self.classes.len();
        let mut i: usize = 0;
        proof {
            lemma_extends_self(self.log@);
            assert(self.log@ =~= old(self).log@ + spec_told(0, ClassCall::EndpointSetup { addr }));
        }
        while i < n
            invariant
                i <= n,
                n == self.classes@.len(),
                self.classes@.len() == old(self).classes@.len(),
                spec_extends(old(self).log@, self.log@),
                self.log@ == old(self).log@ + spec_told(i as int, ClassCall::EndpointSetup { addr }),
            decreases n - i,
        {
            self.classes[i].endpoint_setup(addr);
            proof {
                let call = Dispatch { class: i as int, call: ClassCall::EndpointSetup { addr } };
                lemma_added_push(old(self).log@, self.log@, call);
                self.log@ = self.log@.push(call);
                assert(self.log@ =~= old(self).log@ + spec_told(
                    i + 1,
                    ClassCall::EndpointSetup { addr },
                ));
            }
            i = i + 1;
        }
    }

    /// Tells every class, in the order of the table, that the endpoint with
    /// address `addr` has received an OUT packet.
    pub fn endpoint_out(&mut self, addr: u8)
        ensures
            final(self).spec_len() == old(self).spec_len(),
            spec_extends(old(self).log(), final(self).log()),
            final(self).log() == old(self).log() + spec_told(
                old(self).spec_len() as int,
                ClassCall::EndpointOut { addr },
            ),
    {
        let n = self.classes.len();
        let mut i: usize = 0;
        proof {
            lemma_extends_self(self.log@);
            assert(self.log@ =~= old(self).log@ + spec_told(0, ClassCall::EndpointOut { addr }));
        }
        while i < n
            invariant
                i <= n,
                n == self.classes@.len(),
                self.classes@.len() == old(self).classes@.len(),
                spec_extends(old(self).log@, self.log@),
                self.log@ == old(self).log@ + spec_told(i as int, ClassCall::EndpointOut { addr }),
            decreases n - i,
        {
            self.classes[i].endpoint_out(addr);
            proof {
                let call = Dispatch { class: i as int, call: ClassCall::EndpointOut { addr } };
                lemma_added_push(old(self).log@, self.log@, call);
                self.log@ = self.log@.push(call);
                assert(self.log@ =~= old(self).log@ + spec_told(
                    i + 1,
                    ClassCall::EndpointOut { addr },
                ));
            }
            i = i + 1;
        }
    }

    /// Tells every class, in the order of the table, that the endpoint with
    /// address `addr` has finished sending an IN packet.
    pub fn endpoint_in_complete(&mut self, addr: u8)
        ensures
            final(self).spec_len() == old(self).spec_len(),
            spec_extends(old(self).log(), final(self).log()),
            final(self).log() == old(self).log() + spec_told(
                old(self).spec_len() as int,
                ClassCall::EndpointInComplete { addr },
            ),
    {
        let n = self.classes.len();
        let mut i: usize = 0;
        proof {
            lemma_extends_self(self.log@);
            assert(self.log@ =~= old(self).log@ + spec_told(0, ClassCall::EndpointInComplete { addr }));
        }
        while i < n
            invariant
                i <= n,
                n == self.classes@.len(),
                self.classes@.len() == old(self).classes@.len(),
                spec_extends(old(self).log@, self.log@),
                self.log@ == old(self).log@ + spec_told(i as int, ClassCall::EndpointInComplete { addr }),
            decreases n - i,
        {
            self.classes[i].endpoint_in_complete(addr);
            proof {
                let call = Dispatch {
                    class: i as int,
                    call: ClassCall::EndpointInComplete { addr },
                };
                lemma_added_push(old(self).log@, self.log@, call);
                self.log@ = self.log@.push(call);
                assert(self.log@ =~= old(self).log@ + spec_told(
                    i + 1,
                    ClassCall::EndpointInComplete { addr },
                ));
            }
            i = i + 1;
        }
    }

    /// Asks the classes, in the order of the table, for the string with the
    /// given index in the given language, until one of them has it. Returns
    /// the string of that class, and `None` where no class has one. The
    /// classes behind the one that answered are not called.
    pub fn get_string(&mut self, index: StringIndex, lang_id: u16) -> (r: Option<&str>)
        ensures
            final(self).entries() == old(self).entries(),
            spec_extends(old(self).log(), final(self).log()),
            spec_first_answer(
                spec_added(old(self).log(), final(self).log()),
                old(self).spec_len() as int,
                |call: ClassCall| spec_string_answer(call, index@, lang_id),
                None,
                spec_string_view(r),
            ),
    {
        let n = self.classes.len();
        let mut i: usize = 0;
        let mut res: Option<&str> = None;
        proof {
            lemma_extends_self(self.log@);
        }
        while i < n && res.is_none()
            invariant
                i <= n,
                n == self.classes@.len(),
                self.classes@ == old(self).classes@,
                spec_extends(old(self).log@, self.log@),
                spec_added(old(self).log@, self.log@).len() == i,
                spec_in_order(spec_added(old(self).log@, self.log@)),
                forall|j: int|
                    0 <= j < i ==> spec_string_answer(
                        (#[trigger] spec_added(old(self).log@, self.log@)[j]).call,
                        index@,
                        lang_id,
                    ) is Some,
                forall|j: int|
                    0 <= j < i - 1 ==> spec_string_answer(
                        (#[trigger] spec_added(old(self).log@, self.log@)[j]).call,
                        index@,
                        lang_id,
                    ) == Some(None::<Seq<char>>),
                i == 0 ==> res is None,
                i > 0 ==> spec_string_answer(
                    spec_added(old(self).log@, self.log@)[i - 1].call,
                    index@,
                    lang_id,
                ) == Some(spec_string_view(res)),
            decreases n - i,
        {
            res = self.classes[i].get_string(index, lang_id);
            proof {
                let call = Dispatch {
                    class: i as int,
                    call: ClassCall::GetString {
                        index: index@,
                        lang_id,
                        result: spec_string_view(res),
                    },
                };
                lemma_added_push(old(self).log@, self.log@, call);
                self.log@ = self.log@.push(call);
            }
            i = i + 1;
        }
        res
    }
}

/// Every log extends itself, by nothing.
pub proof fn lemma_extends_self<T>(log: Seq<T>)
    ensures
        spec_extends(log, log),
        spec_added(log, log) == Seq::<T>::empty(),
{
    assert(spec_added(log, log) =~= Seq::<T>::empty());
}

/// A log that grows by one call keeps what it extends, and the calls added
/// grow by that call.
pub proof fn lemma_added_push<T>(origin: Seq<T>, before: Seq<T>, call: T)
    requires
        spec_extends(origin, before),
    ensures
        spec_extends(origin, before.push(call)),
        spec_added(origin, before.push(call)) == spec_added(origin, before).push(call),
{
    assert(spec_added(origin, before.push(call)) =~= spec_added(origin, before).push(call));
}

/// Extending is transitive, and the calls added add up.
pub proof fn lemma_extends_trans<T>(a: Seq<T>, b: Seq<T>, c: Seq<T>)
    requires
        spec_extends(a, b),
        spec_extends(b, c),
    ensures
        spec_extends(a, c),
        spec_added(a, c) == spec_added(a, b) + spec_added(b, c),
{
    assert(spec_added(a, c) =~= spec_added(a, b) + spec_added(b, c));
}

/// What a traversal that stops at the first answer has recorded can be read
/// back from any log that continues it: the number of classes asked, the
/// calls themselves, and the answer.
///
/// `run` holds the calls of the traversal, which stand in `log` from place
/// `from` on. `spoke` tells of a call whether its answer ended the
/// traversal, and `rebuild` makes a call of the traversal from its answer.
pub proof fn lemma_traversal_read_back<A>(
    log: Seq<Dispatch>,
    from: int,
    run: Seq<Dispatch>,
    n: int,
    answer_of: spec_fn(ClassCall) -> Option<A>,
    silent: A,
    outcome: A,
    spoke: spec_fn(ClassCall) -> bool,
    rebuild: spec_fn(ClassCall) -> ClassCall,
)
    requires
        0 <= n,
        0 <= from,
        from + run.len() <= log.len(),
        forall|j: int| 0 <= j < run.len() ==> log[from + j] == #[trigger] run[j],
        spec_first_answer(run, n, answer_of, silent, outcome),
        forall|c: ClassCall|
            #[trigger] answer_of(c) is Some ==> (spoke(c) <==> answer_of(c) != Some(silent))
                && rebuild(c) == c,
    ensures
        spec_asked(log, from, n, spoke) == run.len(),
        spec_replay(log, from, run.len() as int, rebuild) == run,
        run.len() > 0 ==> answer_of(spec_dispatch_at(log, from + run.len() - 1)) == Some(outcome),
        run.len() == 0 ==> outcome == silent,
{
    let k = run.len() as int;
    if k > 0 {
        lemma_asked_from(log, from, run, n, answer_of, silent, outcome, spoke, 0);
        assert(spec_dispatch_at(log, from + k - 1) == run[k - 1].call);
    }
    assert(spec_replay(log, from, k, rebuild) =~= run) by {
        assert forall|j: int| 0 <= j < k implies spec_replay(log, from, k, rebuild)[j]
            == run[j] by {
            assert(log[from + j] == run[j]);
            assert(answer_of(run[j].call) is Some);
        }
    }
}

proof fn lemma_asked_from<A>(
    log: Seq<Dispatch>,
    from: int,
    run: Seq<Dispatch>,
    n: int,
    answer_of: spec_fn(ClassCall) -> Option<A>,
    silent: A,
    outcome: A,
    spoke: spec_fn(ClassCall) -> bool,
    j: int,
)
    requires
        0 <= from,
        0 <= j < run.len(),
        from + run.len() <= log.len(),
        forall|i: int| 0 <= i < run.len() ==> log[from + i] == #[trigger] run[i],
        spec_first_answer(run, n, answer_of, silent, outcome),
        forall|c: ClassCall|
            #[trigger] answer_of(c) is Some ==> (spoke(c) <==> answer_of(c) != Some(silent)),
    ensures
        spec_asked(log, from + j, n - j, spoke) == run.len() - j,
    decreases run.len() - j,
{
    let k = run.len() as int;
    assert(log[from + j] == run[j]);
    assert(spec_dispatch_at(log, from + j) == run[j].call);
    assert(answer_of(run[j].call) is Some);
    if j < k - 1 {
        assert(answer_of(run[j].call) == Some(silent));
        lemma_asked_from(log, from, run, n, answer_of, silent, outcome, spoke, j + 1);
    } else {
        if outcome == silent {
            assert(k == n);
            assert(answer_of(run.last().call) == Some(silent));
            assert(spec_asked(log, from + j + 1, n - j - 1, spoke) == 0);
        } else {
            assert(answer_of(run.last().call) == Some(outcome));
        }
    }
}

/// A traversal asks no more classes than there are.
pub proof fn lemma_asked_bounds(
    log: Seq<Dispatch>,
    from: int,
    n: int,
    spoke: spec_fn(ClassCall) -> bool,
)
    ensures
        0 <= spec_asked(log, from, n, spoke),
        n >= 0 ==> spec_asked(log, from, n, spoke) <= n,
        n > 0 ==> spec_asked(log, from, n, spoke) >= 1,
    decreases n,
{
    if n > 0 {
        lemma_asked_bounds(log, from + 1, n - 1, spoke);
    }
}

/// A traversal is read from the calls of the classes that it asks: two logs
/// that agree on those calls give the same number of classes asked.
pub proof fn lemma_asked_same(
    a: Seq<Dispatch>,
    b: Seq<Dispatch>,
    from: int,
    n: int,
    spoke: spec_fn(ClassCall) -> bool,
)
    requires
        forall|p: int|
            from <= p < from + spec_asked(a, from, n, spoke) ==> #[trigger] spec_dispatch_at(a, p)
                == spec_dispatch_at(b, p),
    ensures
        spec_asked(b, from, n, spoke) == spec_asked(a, from, n, spoke),
        0 <= spec_asked(a, from, n, spoke),
        n >= 0 ==> spec_asked(a, from, n, spoke) <= n,
    decreases n,
{
    lemma_asked_bounds(a, from, n, spoke);
    if n > 0 {
        assert(spec_dispatch_at(a, from) == spec_dispatch_at(b, from));
        if !spoke(spec_dispatch_at(a, from)) {
            lemma_asked_bounds(a, from + 1, n - 1, spoke);
            lemma_asked_same(a, b, from + 1, n - 1, spoke);
        }
    }
}

/// The calls of a traversal are rebuilt from the calls of the classes that
/// it asks: two logs that agree on those calls give the same.
pub proof fn lemma_replay_same(
    a: Seq<Dispatch>,
    b: Seq<Dispatch>,
    from: int,
    k: int,
    rebuild: spec_fn(ClassCall) -> ClassCall,
)
    requires
        forall|p: int|
            from <= p < from + k ==> #[trigger] spec_dispatch_at(a, p) == spec_dispatch_at(b, p),
    ensures
        spec_replay(b, from, k, rebuild) == spec_replay(a, from, k, rebuild),
{
    assert(spec_replay(b, from, k, rebuild) =~= spec_replay(a, from, k, rebuild)) by {
        assert forall|j: int| 0 <= j < k implies spec_replay(b, from, k, rebuild)[j]
            == spec_replay(a, from, k, rebuild)[j] by {
            assert(spec_dispatch_at(a, from + j) == spec_dispatch_at(b, from + j));
        }
    }
}

/// A log that continues another has the calls of the other at their places.
pub proof fn lemma_extends_dispatch(a: Seq<Dispatch>, b: Seq<Dispatch>)
    requires
        spec_extends(a, b),
    ensures
        forall|p: int| 0 <= p < a.len() ==> #[trigger] spec_dispatch_at(a, p) == spec_dispatch_at(b, p),
{
    assert forall|p: int| 0 <= p < a.len() implies #[trigger] spec_dispatch_at(a, p)
        == spec_dispatch_at(b, p) by {
        assert(a[p] == b[p]);
    }
}

/// What a broadcast has recorded can be read back from any log that holds
/// it: `run` holds the calls of the broadcast, which stand in `log` from
/// place `from` on, and `rebuild` makes a call of the broadcast from what
/// it returned.
pub proof fn lemma_broadcast_read_back(
    log: Seq<Dispatch>,
    from: int,
    run: Seq<Dispatch>,
    n: int,
    is_such: spec_fn(ClassCall) -> bool,
    rebuild: spec_fn(ClassCall) -> ClassCall,
)
    requires
        0 <= n,
        0 <= from,
        from + run.len() <= log.len(),
        forall|j: int| 0 <= j < run.len() ==> log[from + j] == #[trigger] run[j],
        spec_broadcast(run, n, is_such),
        forall|c: ClassCall| #[trigger] is_such(c) ==> rebuild(c) == c,
    ensures
        spec_replay(log, from, n, rebuild) == run,
{
    assert(spec_replay(log, from, n, rebuild) =~= run) by {
        assert forall|j: int| 0 <= j < n implies spec_replay(log, from, n, rebuild)[j]
            == run[j] by {
            assert(log[from + j] == run[j]);
            assert(is_such(run[j].call));
        }
    }
}

/// What a traversal with a device-to-host request has recorded can be read
/// back from any log that holds it: the calls themselves, with the buffer
/// as it was handed on from class to class.
pub proof fn lemma_in_traversal_read_back(
    log: Seq<Dispatch>,
    from: int,
    run: Seq<Dispatch>,
    n: int,
    req: Request,
    initial: Seq<u8>,
    outcome: ControlInResult,
)
    requires
        0 <= n,
        0 <= from,
        from + run.len() <= log.len(),
        forall|j: int| 0 <= j < run.len() ==> log[from + j] == #[trigger] run[j],
        spec_first_answer(
            run,
            n,
            |call: ClassCall| spec_in_answer(call, req),
            ControlInResult::Ignore,
            outcome,
        ),
        spec_handed_on(run, initial),
    ensures
        spec_asked(
            log,
            from,
            n,
            |call: ClassCall| call.spec_in_result() != ControlInResult::Ignore,
        ) == run.len(),
        spec_replay_in(log, from, run.len() as int, req, initial) == run,
        run.len() > 0 ==> spec_dispatch_at(log, from + run.len() - 1).spec_in_result() == outcome,
        run.len() == 0 ==> outcome == ControlInResult::Ignore,
{
    let k = run.len() as int;
    lemma_traversal_read_back(
        log,
        from,
        run,
        n,
        |call: ClassCall| spec_in_answer(call, req),
        ControlInResult::Ignore,
        outcome,
        |call: ClassCall| call.spec_in_result() != ControlInResult::Ignore,
        |call: ClassCall| call,
    );
    assert(spec_replay_in(log, from, k, req, initial) =~= run) by {
        assert forall|j: int| 0 <= j < k implies spec_replay_in(log, from, k, req, initial)[j]
            == run[j] by {
            assert(log[from + j] == run[j]);
            assert(spec_in_answer(run[j].call, req) is Some);
            if j > 0 {
                assert(log[from + (j - 1)] == run[j - 1]);
            }
        }
    }
}

/// The calls of a traversal with a device-to-host request are rebuilt from
/// the calls of the classes that it asks: two logs that agree on those
/// calls give the same.
pub proof fn lemma_replay_in_same(
    a: Seq<Dispatch>,
    b: Seq<Dispatch>,
    from: int,
    k: int,
    req: Request,
    initial: Seq<u8>,
)
    requires
        forall|p: int|
            from <= p < from + k ==> #[trigger] spec_dispatch_at(a, p) == spec_dispatch_at(b, p),
    ensures
        spec_replay_in(b, from, k, req, initial) == spec_replay_in(a, from, k, req, initial),
{
    assert(spec_replay_in(b, from, k, req, initial) =~= spec_replay_in(a, from, k, req, initial))
        by {
        assert forall|j: int| 0 <= j < k implies spec_replay_in(b, from, k, req, initial)[j]
            == spec_replay_in(a, from, k, req, initial)[j] by {
            assert(spec_dispatch_at(a, from + j) == spec_dispatch_at(b, from + j));
            if j > 0 {
                assert(spec_dispatch_at(a, from + j - 1) == spec_dispatch_at(b, from + j - 1));
            }
        }
    }
}

} // verus!
