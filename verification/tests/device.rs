use std::cell::RefCell;
use std::collections::VecDeque;
use std::rc::Rc;

use usb_device::bus::PollResult;
use usb_device::bus::StringIndex;
use usb_device::bus::UsbBus;
use usb_device::bus::UsbBusAllocator;
use usb_device::class::ClassTable;
use usb_device::class::UsbClass;
use usb_device::control::Request;
use usb_device::descriptor::DescriptorWriter;
use usb_device::device::ControlInResult;
use usb_device::device::ControlOutResult;
use usb_device::device::UsbDevice;
use usb_device::device::UsbDeviceState;
use usb_device::device_builder::UsbVidPid;
use usb_device::endpoint::EndpointAddress;
use usb_device::endpoint::EndpointIn;
use usb_device::endpoint::EndpointOut;
use usb_device::endpoint::EndpointType;
use usb_device::UsbDirection;
use usb_device::UsbError;

#[derive(Debug, Clone, PartialEq, Eq)]
enum Call {
    AllocEp(u8),
    Enable,
    Reset,
    SetAddress(u8),
    Write(u8, Vec<u8>),
    Read(u8, usize),
    Stall(u8, bool),
    IsStalled(u8),
    Suspend,
    Resume,
    Poll,
}

#[derive(Default)]
struct Wire {
    calls: Vec<Call>,
    events: VecDeque<PollResult>,
    incoming: VecDeque<Result<Vec<u8>, UsbError>>,
    write_answers: VecDeque<Result<usize, UsbError>>,
    stalled: bool,
}

#[derive(Clone)]
struct Host(Rc<RefCell<Wire>>);

impl Host {
    fn new() -> Host {
        Host(Rc::new(RefCell::new(Wire::default())))
    }

    fn bus(&self) -> ScriptedBus {
        ScriptedBus(self.0.clone())
    }

    fn event(&self, event: PollResult) {
        self.0.borrow_mut().events.push_back(event);
    }

    fn setup(&self, packet: &[u8]) {
        self.0.borrow_mut().incoming.push_back(Ok(packet.to_vec()));
        self.event(PollResult::Data { ep_out: 0, ep_in_complete: 0, ep_setup: 1 });
    }

    fn out(&self, packet: &[u8]) {
        self.0.borrow_mut().incoming.push_back(Ok(packet.to_vec()));
        self.event(PollResult::Data { ep_out: 1, ep_in_complete: 0, ep_setup: 0 });
    }

    fn in_complete(&self) {
        self.event(PollResult::Data { ep_out: 0, ep_in_complete: 1, ep_setup: 0 });
    }

    fn take_calls(&self) -> Vec<Call> {
        std::mem::take(&mut self.0.borrow_mut().calls)
    }

    fn writes(calls: &[Call]) -> Vec<Vec<u8>> {
        let mut packets = Vec::new();
        for call in calls {
            if let Call::Write(0x80, data) = call {
                packets.push(data.clone());
            }
        }
        packets
    }
}

struct ScriptedBus(Rc<RefCell<Wire>>);

impl UsbBus for ScriptedBus {
    fn alloc_ep(
        &mut self,
        _ep_dir: UsbDirection,
        ep_addr: Option<EndpointAddress>,
        _ep_type: EndpointType,
        _max_packet_size: u16,
        _interval: u8,
    ) -> Result<EndpointAddress, UsbError> {
        match ep_addr {
            Some(addr) => {
                self.0.borrow_mut().calls.push(Call::AllocEp(addr.into()));
                Ok(addr)
            }
            None => Err(UsbError::EndpointOverflow),
        }
    }

    fn enable(&mut self) {
        self.0.borrow_mut().calls.push(Call::Enable);
    }

    fn reset(&self) {
        self.0.borrow_mut().calls.push(Call::Reset);
    }

    fn set_device_address(&self, addr: u8) {
        self.0.borrow_mut().calls.push(Call::SetAddress(addr));
    }

    fn write(&self, ep_addr: EndpointAddress, buf: &[u8]) -> Result<usize, UsbError> {
        let mut wire = self.0.borrow_mut();
        wire.calls.push(Call::Write(ep_addr.into(), buf.to_vec()));
        wire.write_answers.pop_front().unwrap_or(Ok(buf.len()))
    }

    fn read(&self, ep_addr: EndpointAddress, buf: &mut [u8]) -> Result<usize, UsbError> {
        let mut wire = self.0.borrow_mut();
        wire.calls.push(Call::Read(ep_addr.into(), buf.len()));
        match wire.incoming.pop_front() {
            None => Err(UsbError::NoData),
            Some(Err(e)) => Err(e),
            Some(Ok(packet)) => {
                if packet.len() > buf.len() {
                    return Err(UsbError::BufferOverflow);
                }
                buf[..packet.len()].copy_from_slice(&packet);
                Ok(packet.len())
            }
        }
    }

    fn set_stalled(&self, ep_addr: EndpointAddress, stalled: bool) {
        self.0.borrow_mut().calls.push(Call::Stall(ep_addr.into(), stalled));
    }

    fn is_stalled(&self, ep_addr: EndpointAddress) -> bool {
        let mut wire = self.0.borrow_mut();
        wire.calls.push(Call::IsStalled(ep_addr.into()));
        wire.stalled
    }

    fn suspend(&self) {
        self.0.borrow_mut().calls.push(Call::Suspend);
    }

    fn resume(&self) {
        self.0.borrow_mut().calls.push(Call::Resume);
    }

    fn poll(&self) -> PollResult {
        let mut wire = self.0.borrow_mut();
        wire.calls.push(Call::Poll);
        wire.events.pop_front().unwrap_or(PollResult::Nothing)
    }
}

#[derive(Default)]
struct Seen {
    resets: usize,
    control_in: usize,
    control_out: Vec<Vec<u8>>,
    endpoint: Vec<(char, u8)>,
    strings: usize,
}

struct Probe {
    seen: Rc<RefCell<Seen>>,
    in_answer: ControlInResult,
    in_payload: Vec<u8>,
    out_answer: ControlOutResult,
    interfaces: u8,
    extra: usize,
    string: Option<(u8, &'static str)>,
}

impl Probe {
    fn ignoring() -> (Probe, Rc<RefCell<Seen>>) {
        let seen = Rc::new(RefCell::new(Seen::default()));
        let probe = Probe {
            seen: seen.clone(),
            in_answer: ControlInResult::Ignore,
            in_payload: Vec::new(),
            out_answer: ControlOutResult::Ignore,
            interfaces: 0,
            extra: 0,
            string: None,
        };
        (probe, seen)
    }
}

fn interface_number(n: u8) -> usb_device::bus::InterfaceNumber {
    let mut numbers = UsbBusAllocator::new(Host::new().bus());
    let mut number = numbers.interface();
    for _ in 0..n {
        number = numbers.interface();
    }
    number
}

impl UsbClass for Probe {
    fn reset(&mut self) -> Result<(), UsbError> {
        self.seen.borrow_mut().resets += 1;
        Ok(())
    }

    fn get_configuration_descriptors(
        &mut self,
        writer: &mut DescriptorWriter,
    ) -> Result<(), UsbError> {
        for n in 0..self.interfaces {
            writer.interface(interface_number(n), 0, 0xff, 0, 0)?;
        }
        if self.extra > 0 {
            writer.write(0x24, &vec![0xaa; self.extra - 2])?;
        }
        Ok(())
    }

    fn control_out(&mut self, _req: &Request, data: &[u8]) -> ControlOutResult {
        self.seen.borrow_mut().control_out.push(data.to_vec());
        self.out_answer
    }

    fn control_in(&mut self, _req: &Request, data: &mut [u8]) -> ControlInResult {
        self.seen.borrow_mut().control_in += 1;
        data[..self.in_payload.len()].copy_from_slice(&self.in_payload);
        self.in_answer
    }

    fn endpoint_setup(&mut self, addr: u8) {
        self.seen.borrow_mut().endpoint.push(('s', addr));
    }

    fn endpoint_out(&mut self, addr: u8) {
        self.seen.borrow_mut().endpoint.push(('o', addr));
    }

    fn endpoint_in_complete(&mut self, addr: u8) {
        self.seen.borrow_mut().endpoint.push(('i', addr));
    }

    fn get_string(&self, index: StringIndex, _lang_id: u16) -> Option<&str> {
        self.seen.borrow_mut().strings += 1;
        match self.string {
            Some((at, s)) if at == index.index() => Some(s),
            _ => None,
        }
    }
}

fn device<'a>(host: &Host, classes: Vec<Probe>) -> UsbDevice<'a, ScriptedBus, dyn UsbClass> {
    let mut table: ClassTable<dyn UsbClass> = ClassTable::new();
    for class in classes {
        table.register(Box::new(class));
    }
    let dev = UsbDevice::new(UsbBusAllocator::new(host.bus()), UsbVidPid(0x16c0, 0x05dc))
        .manufacturer("Maker")
        .product("Thing")
        .serial_number("0001")
        .device_class(0xef)
        .device_sub_class(0x02)
        .device_protocol(0x01)
        .device_release(0x0123)
        .build(table);
    match dev {
        Ok(dev) => dev,
        Err(refused) => panic!("the device did not come up: {:?}", refused.error),
    }
}

#[test]
fn build_allocates_endpoint_zero_enables_and_resets() {
    let host = Host::new();
    let (probe, seen) = Probe::ignoring();
    let dev = device(&host, vec![probe]);
    assert_eq!(
        host.take_calls(),
        vec![Call::AllocEp(0x00), Call::AllocEp(0x80), Call::Enable, Call::Reset]
    );
    assert_eq!(seen.borrow().resets, 1);
    assert_eq!(dev.state(), UsbDeviceState::Default);
}

#[test]
fn build_fails_with_the_error_of_the_peripheral() {
    struct Full;
    impl UsbBus for Full {
        fn alloc_ep(
            &mut self,
            _ep_dir: UsbDirection,
            _ep_addr: Option<EndpointAddress>,
            _ep_type: EndpointType,
            _max_packet_size: u16,
            _interval: u8,
        ) -> Result<EndpointAddress, UsbError> {
            Err(UsbError::EndpointOverflow)
        }
        fn enable(&mut self) {}
        fn reset(&self) {}
        fn set_device_address(&self, _addr: u8) {}
        fn write(&self, _ep_addr: EndpointAddress, _buf: &[u8]) -> Result<usize, UsbError> {
            Err(UsbError::InvalidEndpoint)
        }
        fn read(&self, _ep_addr: EndpointAddress, _buf: &mut [u8]) -> Result<usize, UsbError> {
            Err(UsbError::InvalidEndpoint)
        }
        fn set_stalled(&self, _ep_addr: EndpointAddress, _stalled: bool) {}
        fn is_stalled(&self, _ep_addr: EndpointAddress) -> bool {
            false
        }
        fn suspend(&self) {}
        fn resume(&self) {}
        fn poll(&self) -> PollResult {
            PollResult::Nothing
        }
    }
    let built = UsbDevice::new(UsbBusAllocator::new(Full), UsbVidPid(1, 2))
        .build(ClassTable::<dyn UsbClass>::new());
    match built {
        Ok(_) => panic!("a device came up without endpoints"),
        Err(refused) => {
            assert_eq!(refused.error, UsbError::EndpointOverflow);
            assert_eq!(refused.classes.len(), 0);
        }
    }
}

#[test]
fn get_descriptor_device() {
    let host = Host::new();
    let mut dev = device(&host, Vec::new());
    host.take_calls();
    host.setup(&[0x80, 0x06, 0x00, 0x01, 0x00, 0x00, 0x40, 0x00]);
    dev.poll();
    host.in_complete();
    dev.poll();
    host.in_complete();
    dev.poll();
    host.in_complete();
    dev.poll();
    let calls = host.take_calls();
    let response: Vec<u8> = Host::writes(&calls).concat();
    assert_eq!(
        response,
        vec![
            0x12, 0x01, 0x00, 0x02, 0xef, 0x02, 0x01, 0x08, 0xc0, 0x16, 0xdc, 0x05, 0x23, 0x01,
            0x01, 0x02, 0x03, 0x01
        ]
    );
    let sizes: Vec<usize> = Host::writes(&calls).iter().map(|p| p.len()).collect();
    assert_eq!(sizes, vec![8, 8, 2]);
    assert_eq!(calls.last(), Some(&Call::Stall(0x00, false)));
    host.out(&[]);
    dev.poll();
    assert_eq!(host.take_calls(), vec![Call::Poll, Call::Read(0x00, 0)]);
}

#[test]
fn set_address() {
    let host = Host::new();
    let mut dev = device(&host, Vec::new());
    host.take_calls();
    host.setup(&[0x00, 0x05, 0x2a, 0x00, 0x00, 0x00, 0x00, 0x00]);
    dev.poll();
    assert_eq!(
        host.take_calls(),
        vec![Call::Poll, Call::Read(0x00, 128), Call::Write(0x80, Vec::new())]
    );
    assert_eq!(dev.state(), UsbDeviceState::Default);
    host.in_complete();
    dev.poll();
    assert_eq!(host.take_calls(), vec![Call::Poll, Call::SetAddress(42)]);
    assert_eq!(dev.state(), UsbDeviceState::Addressed);
    host.in_complete();
    dev.poll();
    let calls = host.take_calls();
    assert!(!calls.contains(&Call::SetAddress(42)));
}

#[test]
fn set_configuration_with_invalid_value() {
    let host = Host::new();
    let mut dev = device(&host, Vec::new());
    host.take_calls();
    host.setup(&[0x00, 0x09, 0x02, 0x00, 0x00, 0x00, 0x00, 0x00]);
    dev.poll();
    assert_eq!(
        host.take_calls(),
        vec![Call::Poll, Call::Read(0x00, 128), Call::Stall(0x00, true), Call::Stall(0x80, true)]
    );
    assert_eq!(dev.state(), UsbDeviceState::Default);
}

#[test]
fn set_configuration_reaches_configured() {
    let host = Host::new();
    let (probe, _) = Probe::ignoring();
    let mut dev = device(&host, vec![probe]);
    host.setup(&[0x00, 0x05, 0x07, 0x00, 0x00, 0x00, 0x00, 0x00]);
    dev.poll();
    host.in_complete();
    dev.poll();
    assert_eq!(dev.state(), UsbDeviceState::Addressed);
    host.setup(&[0x00, 0x09, 0x01, 0x00, 0x00, 0x00, 0x00, 0x00]);
    dev.poll();
    host.in_complete();
    dev.poll();
    assert_eq!(dev.state(), UsbDeviceState::Configured);
    host.take_calls();
    host.setup(&[0x80, 0x08, 0x00, 0x00, 0x00, 0x00, 0x01, 0x00]);
    dev.poll();
    assert_eq!(Host::writes(&host.take_calls()), vec![vec![1u8]]);
}

#[test]
fn vendor_request_to_class_b() {
    let host = Host::new();
    let (a, seen_a) = Probe::ignoring();
    let (mut b, seen_b) = Probe::ignoring();
    let (c, seen_c) = Probe::ignoring();
    b.in_answer = ControlInResult::Accept(4);
    b.in_payload = vec![0xde, 0xad, 0xbe, 0xef];
    let mut dev = device(&host, vec![a, b, c]);
    host.take_calls();
    host.setup(&[0xc0, 0x01, 0x00, 0x00, 0x00, 0x00, 0x04, 0x00]);
    dev.poll();
    assert_eq!(Host::writes(&host.take_calls()), vec![vec![0xde, 0xad, 0xbe, 0xef]]);
    assert_eq!(seen_a.borrow().control_in, 1);
    assert_eq!(seen_b.borrow().control_in, 1);
    assert_eq!(seen_c.borrow().control_in, 0);
    host.in_complete();
    dev.poll();
    assert_eq!(host.take_calls(), vec![Call::Poll, Call::Stall(0x00, false)]);
}

#[test]
fn answer_of_the_length_asked_for_ends_without_zlp() {
    let host = Host::new();
    let (mut probe, _) = Probe::ignoring();
    probe.in_answer = ControlInResult::Accept(64);
    probe.in_payload = (0..64).collect();
    let mut dev = device(&host, vec![probe]);
    host.take_calls();
    host.setup(&[0xc0, 0x01, 0x00, 0x00, 0x00, 0x00, 0x40, 0x00]);
    dev.poll();
    for _ in 0..8 {
        host.in_complete();
        dev.poll();
    }
    let calls = host.take_calls();
    let sizes: Vec<usize> = Host::writes(&calls).iter().map(|p| p.len()).collect();
    assert_eq!(sizes, vec![8, 8, 8, 8, 8, 8, 8, 8]);
    assert_eq!(calls.last(), Some(&Call::Stall(0x00, false)));
}

#[test]
fn zlp_required() {
    let host = Host::new();
    let (mut probe, _) = Probe::ignoring();
    probe.in_answer = ControlInResult::Accept(64);
    probe.in_payload = (0..64).collect();
    let mut dev = device(&host, vec![probe]);
    host.take_calls();
    host.setup(&[0xc0, 0x01, 0x00, 0x00, 0x00, 0x00, 0x80, 0x00]);
    dev.poll();
    for _ in 0..9 {
        host.in_complete();
        dev.poll();
    }
    let calls = host.take_calls();
    let packets = Host::writes(&calls);
    let sizes: Vec<usize> = packets.iter().map(|p| p.len()).collect();
    assert_eq!(sizes, vec![8, 8, 8, 8, 8, 8, 8, 8, 0]);
    assert_eq!(packets.concat(), (0..64).collect::<Vec<u8>>());
    assert_eq!(calls.last(), Some(&Call::Stall(0x00, false)));
    host.out(&[]);
    dev.poll();
    assert_eq!(host.take_calls(), vec![Call::Poll, Call::Read(0x00, 0)]);
}

#[test]
fn zlp_sent_when_less_than_the_host_asked_for() {
    let host = Host::new();
    let (mut probe, _) = Probe::ignoring();
    probe.in_answer = ControlInResult::Accept(16);
    probe.in_payload = (0..16).collect();
    let mut dev = device(&host, vec![probe]);
    host.take_calls();
    host.setup(&[0xc0, 0x01, 0x00, 0x00, 0x00, 0x00, 0x40, 0x00]);
    dev.poll();
    for _ in 0..3 {
        host.in_complete();
        dev.poll();
    }
    let calls = host.take_calls();
    let sizes: Vec<usize> = Host::writes(&calls).iter().map(|p| p.len()).collect();
    assert_eq!(sizes, vec![8, 8, 0]);
    assert_eq!(calls.last(), Some(&Call::Stall(0x00, false)));
}

#[test]
fn composite_descriptor_assembly() {
    let host = Host::new();
    let (mut x, _) = Probe::ignoring();
    let (mut y, _) = Probe::ignoring();
    x.interfaces = 1;
    x.extra = 16;
    y.interfaces = 2;
    y.extra = 28;
    let mut dev = device(&host, vec![x, y]);
    host.take_calls();
    host.setup(&[0x80, 0x06, 0x00, 0x02, 0x00, 0x00, 0x80, 0x00]);
    dev.poll();
    for _ in 0..10 {
        host.in_complete();
        dev.poll();
    }
    let response: Vec<u8> = Host::writes(&host.take_calls()).concat();
    assert_eq!(response.len(), 80);
    assert_eq!(&response[..9], &[9, 2, 80, 0, 3, 1, 0, 0x80, 50]);
    assert_eq!(&response[9..18], &[9, 4, 0, 0, 0, 0xff, 0, 0, 0]);
    assert_eq!(response[34], 9);
    assert_eq!(response[36], 0);
    assert_eq!(response[45], 1);
}

#[test]
fn reset_during_transfer_returns_to_idle() {
    let host = Host::new();
    let (probe, seen) = Probe::ignoring();
    let mut dev = device(&host, vec![probe]);
    host.setup(&[0x00, 0x05, 0x2a, 0x00, 0x00, 0x00, 0x00, 0x00]);
    dev.poll();
    host.event(PollResult::Reset);
    host.take_calls();
    dev.poll();
    assert_eq!(host.take_calls(), vec![Call::Poll, Call::Reset]);
    assert_eq!(seen.borrow().resets, 2);
    assert_eq!(dev.state(), UsbDeviceState::Default);
    host.in_complete();
    dev.poll();
    assert_eq!(
        host.take_calls(),
        vec![Call::Poll, Call::Stall(0x00, true), Call::Stall(0x80, true)]
    );
}

#[test]
fn control_out_with_data_reaches_the_class() {
    let host = Host::new();
    let (mut probe, seen) = Probe::ignoring();
    probe.out_answer = ControlOutResult::Accept;
    let mut dev = device(&host, vec![probe]);
    host.take_calls();
    host.setup(&[0x40, 0x03, 0x00, 0x00, 0x00, 0x00, 0x0a, 0x00]);
    dev.poll();
    assert!(seen.borrow().control_out.is_empty());
    host.out(&[1, 2, 3, 4, 5, 6, 7, 8]);
    dev.poll();
    assert!(seen.borrow().control_out.is_empty());
    host.out(&[9, 10]);
    dev.poll();
    assert_eq!(seen.borrow().control_out, vec![vec![1, 2, 3, 4, 5, 6, 7, 8, 9, 10]]);
    let calls = host.take_calls();
    assert_eq!(calls.last(), Some(&Call::Write(0x80, Vec::new())));
}

#[test]
fn control_out_too_large_stalls() {
    let host = Host::new();
    let mut dev = device(&host, Vec::new());
    host.take_calls();
    host.setup(&[0x40, 0x03, 0x00, 0x00, 0x00, 0x00, 0x81, 0x00]);
    dev.poll();
    assert_eq!(
        host.take_calls(),
        vec![Call::Poll, Call::Read(0x00, 128), Call::Stall(0x00, true), Call::Stall(0x80, true)]
    );
}

#[test]
fn busy_write_leaves_the_transfer_where_it_is() {
    let host = Host::new();
    let mut dev = device(&host, Vec::new());
    host.take_calls();
    host.0.borrow_mut().write_answers.push_back(Err(UsbError::Busy));
    host.setup(&[0x80, 0x06, 0x00, 0x01, 0x00, 0x00, 0x40, 0x00]);
    dev.poll();
    host.in_complete();
    dev.poll();
    let packets = Host::writes(&host.take_calls());
    assert_eq!(packets.len(), 2);
    assert_eq!(packets[0], packets[1]);
    assert_eq!(packets[0].len(), 8);
}

#[test]
fn endpoint_status_reports_stall() {
    let host = Host::new();
    let mut dev = device(&host, Vec::new());
    host.take_calls();
    host.0.borrow_mut().stalled = true;
    host.setup(&[0x82, 0x00, 0x00, 0x00, 0x81, 0xff, 0x02, 0x00]);
    dev.poll();
    assert_eq!(
        host.take_calls(),
        vec![
            Call::Poll,
            Call::Read(0x00, 128),
            Call::IsStalled(0x81),
            Call::Write(0x80, vec![1, 0])
        ]
    );
}

#[test]
fn endpoint_halt_is_handed_to_the_peripheral() {
    let host = Host::new();
    let mut dev = device(&host, Vec::new());
    host.take_calls();
    host.setup(&[0x02, 0x03, 0x00, 0x00, 0x92, 0x00, 0x00, 0x00]);
    dev.poll();
    assert_eq!(
        host.take_calls(),
        vec![
            Call::Poll,
            Call::Read(0x00, 128),
            Call::Stall(0x82, true),
            Call::Write(0x80, Vec::new())
        ]
    );
    host.setup(&[0x02, 0x01, 0x00, 0x00, 0x02, 0x00, 0x00, 0x00]);
    dev.poll();
    assert_eq!(
        host.take_calls(),
        vec![
            Call::Poll,
            Call::Read(0x00, 128),
            Call::Stall(0x02, false),
            Call::Write(0x80, Vec::new())
        ]
    );
}

#[test]
fn device_status_reports_power_and_wakeup() {
    let host = Host::new();
    let mut table: ClassTable<dyn UsbClass> = ClassTable::new();
    let (probe, _) = Probe::ignoring();
    table.register(Box::new(probe));
    let built = UsbDevice::new(UsbBusAllocator::new(host.bus()), UsbVidPid(1, 2))
        .self_powered(true)
        .supports_remote_wakeup(true)
        .max_packet_size_0(64)
        .max_power(500)
        .build(table);
    let mut dev = match built {
        Ok(dev) => dev,
        Err(refused) => panic!("the device did not come up: {:?}", refused.error),
    };
    host.take_calls();
    host.setup(&[0x80, 0x00, 0x00, 0x00, 0x00, 0x00, 0x02, 0x00]);
    dev.poll();
    assert_eq!(Host::writes(&host.take_calls()), vec![vec![1u8, 0]]);
    host.setup(&[0x00, 0x03, 0x01, 0x00, 0x00, 0x00, 0x00, 0x00]);
    dev.poll();
    host.in_complete();
    dev.poll();
    host.take_calls();
    host.setup(&[0x80, 0x00, 0x00, 0x00, 0x00, 0x00, 0x02, 0x00]);
    dev.poll();
    assert_eq!(Host::writes(&host.take_calls()), vec![vec![3u8, 0]]);
    host.setup(&[0x80, 0x06, 0x00, 0x02, 0x00, 0x00, 0x09, 0x00]);
    dev.poll();
    assert_eq!(Host::writes(&host.take_calls()), vec![vec![9u8, 2, 9, 0, 0, 1, 0, 0xe0, 250]]);
}

#[test]
fn strings_come_from_the_identity_and_from_the_classes() {
    let host = Host::new();
    let (a, seen_a) = Probe::ignoring();
    let (mut b, seen_b) = Probe::ignoring();
    let (c, seen_c) = Probe::ignoring();
    b.string = Some((4, "hi"));
    let built = UsbDevice::new(UsbBusAllocator::new(host.bus()), UsbVidPid(1, 2))
        .max_packet_size_0(64)
        .product("Thing")
        .build({
            let mut table: ClassTable<dyn UsbClass> = ClassTable::new();
            table.register(Box::new(a));
            table.register(Box::new(b));
            table.register(Box::new(c));
            table
        });
    let mut dev = match built {
        Ok(dev) => dev,
        Err(refused) => panic!("the device did not come up: {:?}", refused.error),
    };
    host.take_calls();
    host.setup(&[0x80, 0x06, 0x00, 0x03, 0x00, 0x00, 0xff, 0x00]);
    dev.poll();
    assert_eq!(Host::writes(&host.take_calls()), vec![vec![4u8, 3, 0x09, 0x04]]);
    host.setup(&[0x80, 0x06, 0x02, 0x03, 0x09, 0x04, 0xff, 0x00]);
    dev.poll();
    assert_eq!(
        Host::writes(&host.take_calls()),
        vec![vec![12u8, 3, b'T', 0, b'h', 0, b'i', 0, b'n', 0, b'g', 0]]
    );
    assert_eq!(seen_a.borrow().strings, 0);
    host.setup(&[0x80, 0x06, 0x04, 0x03, 0x09, 0x04, 0xff, 0x00]);
    dev.poll();
    assert_eq!(Host::writes(&host.take_calls()), vec![vec![6u8, 3, b'h', 0, b'i', 0]]);
    assert_eq!(seen_a.borrow().strings, 1);
    assert_eq!(seen_b.borrow().strings, 1);
    assert_eq!(seen_c.borrow().strings, 0);
    host.setup(&[0x80, 0x06, 0x05, 0x03, 0x09, 0x04, 0xff, 0x00]);
    dev.poll();
    assert_eq!(
        host.take_calls(),
        vec![Call::Poll, Call::Read(0x00, 128), Call::Stall(0x00, true), Call::Stall(0x80, true)]
    );
}

#[test]
fn endpoint_events_are_broadcast_in_order() {
    let host = Host::new();
    let (a, seen_a) = Probe::ignoring();
    let (b, seen_b) = Probe::ignoring();
    let mut dev = device(&host, vec![a, b]);
    host.event(PollResult::Data { ep_out: 0b0110, ep_in_complete: 0b0100, ep_setup: 0b1010 });
    dev.poll();
    let expected = vec![('s', 1), ('o', 2), ('i', 0x82), ('s', 3)];
    assert_eq!(seen_a.borrow().endpoint, expected);
    assert_eq!(seen_b.borrow().endpoint, expected);
}

#[test]
fn suspend_and_resume_are_handed_to_the_peripheral() {
    let host = Host::new();
    let mut dev = device(&host, Vec::new());
    host.take_calls();
    host.event(PollResult::Suspend);
    dev.poll();
    host.event(PollResult::Resume);
    dev.poll();
    dev.poll();
    assert_eq!(
        host.take_calls(),
        vec![Call::Poll, Call::Suspend, Call::Poll, Call::Resume, Call::Poll]
    );
}

#[test]
fn setup_restarts_a_transfer_in_flight() {
    let host = Host::new();
    let mut dev = device(&host, Vec::new());
    host.setup(&[0x80, 0x06, 0x00, 0x01, 0x00, 0x00, 0x40, 0x00]);
    dev.poll();
    host.take_calls();
    host.setup(&[0x80, 0x08, 0x00, 0x00, 0x00, 0x00, 0x01, 0x00]);
    dev.poll();
    assert_eq!(Host::writes(&host.take_calls()), vec![vec![0u8]]);
}

#[test]
fn class_error_during_descriptors_stalls() {
    let host = Host::new();
    let (mut x, _) = Probe::ignoring();
    x.interfaces = 14;
    let mut dev = device(&host, vec![x]);
    host.take_calls();
    host.setup(&[0x80, 0x06, 0x00, 0x02, 0x00, 0x00, 0xff, 0x00]);
    dev.poll();
    assert_eq!(
        host.take_calls(),
        vec![Call::Poll, Call::Read(0x00, 128), Call::Stall(0x00, true), Call::Stall(0x80, true)]
    );
}

#[test]
fn handles_reach_the_peripheral_with_their_own_address() {
    let host = Host::new();
    let mut bus = UsbBusAllocator::new(host.bus());
    let ep_in: EndpointIn<ScriptedBus> =
        match bus.allocate(Some(EndpointAddress::from(0x81)), EndpointType::Bulk, 64, 0) {
            Ok(ep) => ep,
            Err(e) => panic!("no endpoint: {:?}", e),
        };
    let ep_out: EndpointOut<ScriptedBus> =
        match bus.allocate(Some(EndpointAddress::from(0x02)), EndpointType::Bulk, 64, 0) {
            Ok(ep) => ep,
            Err(e) => panic!("no endpoint: {:?}", e),
        };
    let built = UsbDevice::new(bus, UsbVidPid(1, 2)).build(ClassTable::<dyn UsbClass>::new());
    let mut dev = match built {
        Ok(dev) => dev,
        Err(refused) => panic!("the device did not come up: {:?}", refused.error),
    };
    host.take_calls();
    host.0.borrow_mut().incoming.push_back(Ok(vec![5, 6, 7]));
    let mut packet = [0u8; 8];
    assert_eq!(ep_in.write(dev.bus(), &[1, 2]), Ok(2));
    assert_eq!(ep_out.read(dev.bus(), &mut packet), Ok(3));
    assert_eq!(ep_out.read(dev.bus(), &mut packet), Err(UsbError::NoData));
    assert_eq!(&packet[..3], &[5, 6, 7]);
    ep_in.stall(dev.bus());
    ep_out.unstall(dev.bus());
    assert_eq!(
        host.take_calls(),
        vec![
            Call::Write(0x81, vec![1, 2]),
            Call::Read(0x02, 8),
            Call::Read(0x02, 8),
            Call::Stall(0x81, true),
            Call::Stall(0x02, false)
        ]
    );
}

#[test]
fn setup_on_other_endpoints_shadows_out() {
    let host = Host::new();
    let (a, seen) = Probe::ignoring();
    let mut dev = device(&host, vec![a]);
    host.take_calls();
    host.event(PollResult::Data { ep_out: 0b10, ep_in_complete: 0b10, ep_setup: 0b10 });
    dev.poll();
    assert_eq!(seen.borrow().endpoint, vec![('s', 1), ('i', 0x81)]);
    assert_eq!(host.take_calls(), vec![Call::Poll]);
    host.event(PollResult::Data { ep_out: 0x8000, ep_in_complete: 0x8000, ep_setup: 0 });
    dev.poll();
    assert_eq!(seen.borrow().endpoint[2..], [('o', 15), ('i', 0x8f)]);
}

#[test]
fn setup_on_endpoint_zero_shadows_out() {
    let host = Host::new();
    let mut dev = device(&host, Vec::new());
    host.take_calls();
    host.0.borrow_mut().incoming.push_back(Ok(vec![0x00, 0x09, 0x01, 0, 0, 0, 0, 0]));
    host.event(PollResult::Data { ep_out: 1, ep_in_complete: 1, ep_setup: 1 });
    dev.poll();
    assert_eq!(
        host.take_calls(),
        vec![Call::Poll, Call::Read(0x00, 128), Call::Write(0x80, Vec::new())]
    );
    assert_eq!(dev.state(), UsbDeviceState::Configured);
}

#[test]
fn unexpected_packets_fail_the_transfer() {
    let host = Host::new();
    let mut dev = device(&host, Vec::new());
    host.take_calls();
    host.out(&[1, 2, 3]);
    dev.poll();
    assert_eq!(
        host.take_calls(),
        vec![Call::Poll, Call::Read(0x00, 128), Call::Stall(0x00, true), Call::Stall(0x80, true)]
    );
    host.in_complete();
    dev.poll();
    assert_eq!(
        host.take_calls(),
        vec![Call::Poll, Call::Stall(0x00, true), Call::Stall(0x80, true)]
    );
    host.setup(&[0x80, 0x08, 0x00, 0x00, 0x00, 0x00, 0x01, 0x00]);
    dev.poll();
    assert_eq!(Host::writes(&host.take_calls()), vec![vec![0u8]]);
}

#[test]
fn malformed_setup_packet_stalls() {
    let host = Host::new();
    let mut dev = device(&host, Vec::new());
    host.take_calls();
    host.setup(&[0x80, 0x06, 0x00]);
    dev.poll();
    assert_eq!(
        host.take_calls(),
        vec![Call::Poll, Call::Read(0x00, 128), Call::Stall(0x00, true), Call::Stall(0x80, true)]
    );
    host.event(PollResult::Data { ep_out: 0, ep_in_complete: 0, ep_setup: 1 });
    dev.poll();
    assert_eq!(host.take_calls(), vec![Call::Poll, Call::Read(0x00, 128)]);
}

#[test]
fn standard_requests_that_are_not_served_stall() {
    let host = Host::new();
    let mut dev = device(&host, Vec::new());
    for packet in [
        [0x00u8, 0x05, 0x00, 0x00, 0, 0, 0, 0], // SET_ADDRESS 0
        [0x00, 0x05, 0x80, 0x00, 0, 0, 0, 0],   // SET_ADDRESS 128
        [0x00, 0x09, 0x00, 0x00, 0, 0, 0, 0],   // SET_CONFIGURATION 0
        [0x01, 0x0b, 0x01, 0x00, 0, 0, 0, 0],   // SET_INTERFACE 1
        [0x00, 0x07, 0x00, 0x01, 0, 0, 0, 0],   // SET_DESCRIPTOR
        [0x80, 0x06, 0x00, 0x06, 0, 0, 8, 0],   // GET_DESCRIPTOR of an unknown type
        [0x81, 0x08, 0x00, 0x00, 0, 0, 1, 0],   // GET_CONFIGURATION of an interface
        [0x20, 0x01, 0x00, 0x00, 0, 0, 0, 0],   // a class request that no class takes
    ] {
        host.take_calls();
        host.setup(&packet);
        dev.poll();
        assert_eq!(
            host.take_calls(),
            vec![
                Call::Poll,
                Call::Read(0x00, 128),
                Call::Stall(0x00, true),
                Call::Stall(0x80, true)
            ]
        );
    }
}

#[test]
fn interface_requests_are_answered() {
    let host = Host::new();
    let mut dev = device(&host, Vec::new());
    host.take_calls();
    host.setup(&[0x81, 0x00, 0x00, 0x00, 0x00, 0x00, 0x02, 0x00]);
    dev.poll();
    assert_eq!(Host::writes(&host.take_calls()), vec![vec![0u8, 0]]);
    host.setup(&[0x81, 0x0a, 0x00, 0x00, 0x00, 0x00, 0x01, 0x00]);
    dev.poll();
    assert_eq!(Host::writes(&host.take_calls()), vec![vec![0u8]]);
    host.setup(&[0x01, 0x0b, 0x00, 0x00, 0x00, 0x00, 0x00, 0x00]);
    dev.poll();
    assert_eq!(Host::writes(&host.take_calls()), vec![Vec::<u8>::new()]);
    host.setup(&[0x00, 0x01, 0x01, 0x00, 0x00, 0x00, 0x00, 0x00]);
    dev.poll();
    assert_eq!(Host::writes(&host.take_calls()), vec![Vec::<u8>::new()]);
}
