use std::cell::RefCell;
use std::collections::VecDeque;
use std::rc::Rc;

use usb_device::bus::PollResult;
use usb_device::bus::UsbBus;
use usb_device::bus::UsbBusAllocator;
use usb_device::class::UsbClass;
use usb_device::control::Request;
use usb_device::descriptor::DescriptorWriter;
use usb_device::device::ControlInResult;
use usb_device::device::ControlOutResult;
use usb_device::device::UsbDevice;
use usb_device::endpoint::EndpointAddress;
use usb_device::endpoint::EndpointDirection;
use usb_device::endpoint::EndpointType;
use usb_device::test_class::TestClass;
use usb_device::test_class::CUSTOM_STRING;
use usb_device::test_class::REQ_READ_BUFFER;
use usb_device::test_class::REQ_STORE_REQUEST;
use usb_device::test_class::REQ_UNKNOWN;
use usb_device::test_class::REQ_WRITE_BUFFER;
use usb_device::UsbDirection;
use usb_device::UsbError;

#[derive(Default)]
struct Wire {
    next_index: usize,
    events: VecDeque<PollResult>,
    control: VecDeque<Vec<u8>>,
    bulk: VecDeque<Vec<u8>>,
    written: Vec<(u8, Vec<u8>)>,
    busy: bool,
}

#[derive(Clone)]
struct Host(Rc<RefCell<Wire>>);

struct LoopBus(Rc<RefCell<Wire>>);

impl UsbBus for LoopBus {
    fn alloc_ep(
        &mut self,
        ep_dir: UsbDirection,
        ep_addr: Option<EndpointAddress>,
        _ep_type: EndpointType,
        _max_packet_size: u16,
        _interval: u8,
    ) -> Result<EndpointAddress, UsbError> {
        match ep_addr {
            Some(addr) => Ok(addr),
            None => {
                let mut wire = self.0.borrow_mut();
                wire.next_index += 1;
                let dir = match ep_dir {
                    UsbDirection::In => EndpointDirection::In,
                    UsbDirection::Out => EndpointDirection::Out,
                };
                Ok(EndpointAddress::from_parts(wire.next_index, dir))
            }
        }
    }

    fn enable(&mut self) {}

    fn reset(&self) {}

    fn set_device_address(&self, _addr: u8) {}

    fn write(&self, ep_addr: EndpointAddress, buf: &[u8]) -> Result<usize, UsbError> {
        let mut wire = self.0.borrow_mut();
        if wire.busy {
            return Err(UsbError::Busy);
        }
        wire.written.push((ep_addr.into(), buf.to_vec()));
        Ok(buf.len())
    }

    fn read(&self, ep_addr: EndpointAddress, buf: &mut [u8]) -> Result<usize, UsbError> {
        let mut wire = self.0.borrow_mut();
        let queue = if ep_addr.index() == 0 { &mut wire.control } else { &mut wire.bulk };
        match queue.pop_front() {
            None => Err(UsbError::NoData),
            Some(packet) => {
                if packet.len() > buf.len() {
                    return Err(UsbError::BufferOverflow);
                }
                buf[..packet.len()].copy_from_slice(&packet);
                Ok(packet.len())
            }
        }
    }

    fn set_stalled(&self, _ep_addr: EndpointAddress, _stalled: bool) {}

    fn is_stalled(&self, _ep_addr: EndpointAddress) -> bool {
        false
    }

    fn suspend(&self) {}

    fn resume(&self) {}

    fn poll(&self) -> PollResult {
        self.0.borrow_mut().events.pop_front().unwrap_or(PollResult::Nothing)
    }
}

fn bring_up() -> (Host, UsbDevice<'static, LoopBus, TestClass<LoopBus>>) {
    let host = Host(Rc::new(RefCell::new(Wire::default())));
    let mut bus = UsbBusAllocator::new(LoopBus(host.0.clone()));
    let class = match TestClass::new(&mut bus) {
        Ok(class) => class,
        Err(e) => panic!("no endpoints for the class: {:?}", e),
    };
    let dev = match class.make_device(bus) {
        Ok(dev) => dev,
        Err(refused) => panic!("the device did not come up: {:?}", refused.error),
    };
    (host, dev)
}

fn poll_all(dev: &mut UsbDevice<'static, LoopBus, TestClass<LoopBus>>) -> Result<(), UsbError> {
    dev.poll();
    let (bus, classes) = dev.parts();
    classes.class(0).poll(bus)
}

fn vendor(direction_in: bool, request: u8, length: u16) -> Request {
    let first = if direction_in { 0xc0 } else { 0x40 };
    let packet = [first, request, 0x34, 0x12, 0x78, 0x56, length as u8, (length >> 8) as u8];
    match Request::parse(&packet) {
        Ok(req) => req,
        Err(e) => panic!("not a request: {:?}", e),
    }
}

fn lone_class() -> TestClass<LoopBus> {
    let host = Host(Rc::new(RefCell::new(Wire::default())));
    let mut bus = UsbBusAllocator::new(LoopBus(host.0.clone()));
    match TestClass::new(&mut bus) {
        Ok(class) => class,
        Err(e) => panic!("no endpoints for the class: {:?}", e),
    }
}

#[test]
fn test_class_stores_the_request() {
    let mut class = lone_class();
    let req = vendor(false, REQ_STORE_REQUEST, 0);
    assert_eq!(class.control_out(&req, &[]), ControlOutResult::Accept);
    let mut response = [0u8; 16];
    let read = vendor(true, REQ_READ_BUFFER, 8);
    assert_eq!(class.control_in(&read, &mut response), ControlInResult::Accept(8));
    assert_eq!(&response[..8], &[0x40, REQ_STORE_REQUEST, 0x34, 0x12, 0x78, 0x56, 0, 0]);
    assert_eq!(&response[8..], &[0u8; 8]);
}

#[test]
fn test_class_writes_and_reads_its_buffer() {
    let mut class = lone_class();
    let write = vendor(false, REQ_WRITE_BUFFER, 4);
    assert_eq!(class.control_out(&write, &[9, 8, 7, 6]), ControlOutResult::Accept);
    assert_eq!(class.control_out(&write, &[9, 8, 7]), ControlOutResult::Reject);
    let mut response = [0xffu8; 8];
    let read = vendor(true, REQ_READ_BUFFER, 6);
    assert_eq!(class.control_in(&read, &mut response), ControlInResult::Accept(6));
    assert_eq!(response, [9, 8, 7, 6, 0, 0, 0xff, 0xff]);
    let too_long = vendor(true, REQ_READ_BUFFER, 257);
    let mut large = [0u8; 300];
    assert_eq!(class.control_in(&too_long, &mut large), ControlInResult::Reject);
    let no_room = vendor(true, REQ_READ_BUFFER, 9);
    assert_eq!(class.control_in(&no_room, &mut response), ControlInResult::Reject);
}

#[test]
fn test_class_rejects_what_it_does_not_know_and_ignores_the_rest() {
    let mut class = lone_class();
    let mut response = [0u8; 8];
    let unknown = vendor(true, REQ_UNKNOWN, 0);
    assert_eq!(class.control_in(&unknown, &mut response), ControlInResult::Reject);
    let unknown_out = vendor(false, REQ_UNKNOWN, 0);
    assert_eq!(class.control_out(&unknown_out, &[]), ControlOutResult::Reject);
    let standard = match Request::parse(&[0x80, 0x06, 0x00, 0x01, 0x00, 0x00, 0x40, 0x00]) {
        Ok(req) => req,
        Err(e) => panic!("not a request: {:?}", e),
    };
    assert_eq!(class.control_in(&standard, &mut response), ControlInResult::Ignore);
    let to_interface = match Request::parse(&[0x41, 0x01, 0, 0, 0, 0, 0, 0]) {
        Ok(req) => req,
        Err(e) => panic!("not a request: {:?}", e),
    };
    assert_eq!(class.control_out(&to_interface, &[]), ControlOutResult::Ignore);
}

#[test]
fn test_class_describes_one_interface_with_two_endpoints() {
    let mut class = lone_class();
    let mut buf = [0u8; 64];
    let mut writer = DescriptorWriter::new(&mut buf);
    assert!(class.get_configuration_descriptors(&mut writer).is_ok());
    assert_eq!(writer.num_interfaces(), 1);
    assert_eq!(
        writer.written(),
        &[
            9, 4, 0, 0, 2, 0, 0, 0, 0, // interface 0 with two endpoints
            7, 5, 0x81, 2, 64, 0, 0, // bulk IN
            7, 5, 0x02, 2, 64, 0, 0, // bulk OUT
        ]
    );
    let mut small = [0u8; 22];
    let mut writer = DescriptorWriter::new(&mut small);
    assert!(matches!(
        class.get_configuration_descriptors(&mut writer),
        Err(UsbError::BufferOverflow)
    ));
}

#[test]
fn test_class_has_its_string_in_english() {
    let host = Host(Rc::new(RefCell::new(Wire::default())));
    let mut bus = UsbBusAllocator::new(LoopBus(host.0.clone()));
    let first = bus.string();
    let class = match TestClass::new(&mut bus) {
        Ok(class) => class,
        Err(e) => panic!("no endpoints for the class: {:?}", e),
    };
    let own = bus.string();
    assert_eq!(first.index(), 4);
    assert_eq!(own.index(), 6);
    assert_eq!(class.get_string(first, 0x0409), None);
    assert_eq!(class.get_string(own, 0x0409), None);
    let mut again = UsbBusAllocator::new(LoopBus(host.0.clone()));
    again.string();
    let fifth = again.string();
    assert_eq!(class.get_string(fifth, 0x0409), Some(CUSTOM_STRING));
    assert_eq!(class.get_string(fifth, 0x0407), None);
}

#[test]
fn test_class_echoes_bulk_data() {
    let (host, mut dev) = bring_up();
    assert!(poll_all(&mut dev).is_ok());
    let first: Vec<u8> = (0..64).collect();
    let second: Vec<u8> = (64..100).collect();
    host.0.borrow_mut().bulk.push_back(first.clone());
    host.0.borrow_mut().events.push_back(PollResult::Data {
        ep_out: 0b100,
        ep_in_complete: 0,
        ep_setup: 0,
    });
    assert!(poll_all(&mut dev).is_ok());
    assert!(host.0.borrow().written.is_empty());
    host.0.borrow_mut().bulk.push_back(second.clone());
    host.0.borrow_mut().events.push_back(PollResult::Data {
        ep_out: 0b100,
        ep_in_complete: 0,
        ep_setup: 0,
    });
    assert!(poll_all(&mut dev).is_ok());
    assert_eq!(host.0.borrow().written, vec![(0x81, first.clone())]);
    host.0.borrow_mut().events.push_back(PollResult::Data {
        ep_out: 0,
        ep_in_complete: 0b10,
        ep_setup: 0,
    });
    assert!(poll_all(&mut dev).is_ok());
    assert_eq!(host.0.borrow().written, vec![(0x81, first.clone()), (0x81, second.clone())]);
    host.0.borrow_mut().events.push_back(PollResult::Data {
        ep_out: 0,
        ep_in_complete: 0b10,
        ep_setup: 0,
    });
    assert!(poll_all(&mut dev).is_ok());
    assert_eq!(host.0.borrow().written.len(), 2);
}

#[test]
fn test_class_reports_what_it_did_not_expect() {
    let (host, mut dev) = bring_up();
    host.0.borrow_mut().bulk.push_back(vec![1, 2, 3]);
    assert!(matches!(poll_all(&mut dev), Err(UsbError::InvalidState)));
    assert!(matches!(poll_all(&mut dev), Err(UsbError::InvalidState)));
    host.0.borrow_mut().events.push_back(PollResult::Reset);
    assert!(poll_all(&mut dev).is_ok());
    host.0.borrow_mut().events.push_back(PollResult::Data {
        ep_out: 0,
        ep_in_complete: 0b10,
        ep_setup: 0,
    });
    assert!(matches!(poll_all(&mut dev), Err(UsbError::InvalidState)));
}

#[test]
fn test_device_answers_with_the_identity_of_the_test_class() {
    let (host, mut dev) = bring_up();
    host.0.borrow_mut().control.push_back(vec![0x80, 0x06, 0x00, 0x01, 0x00, 0x00, 0x08, 0x00]);
    host.0.borrow_mut().events.push_back(PollResult::Data {
        ep_out: 0,
        ep_in_complete: 0,
        ep_setup: 1,
    });
    dev.poll();
    assert_eq!(
        host.0.borrow().written,
        vec![(0x80, vec![0x12, 0x01, 0x00, 0x02, 0x00, 0x00, 0x00, 0x08])]
    );
}
