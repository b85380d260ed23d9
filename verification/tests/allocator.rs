use std::cell::RefCell;
use std::rc::Rc;

use usb_device::bus::PollResult;
use usb_device::bus::UsbBus;
use usb_device::bus::UsbBusAllocator;
use usb_device::class::UsbClass;
use usb_device::endpoint::EndpointAddress;
use usb_device::endpoint::EndpointDirection;
use usb_device::endpoint::EndpointIn;
use usb_device::endpoint::EndpointOut;
use usb_device::endpoint::EndpointType;
use usb_device::UsbDirection;
use usb_device::UsbError;

struct CountingBus {
    next: RefCell<usize>,
    log: Rc<RefCell<Vec<String>>>,
}

impl UsbBus for CountingBus {
    fn alloc_ep(
        &mut self,
        ep_dir: UsbDirection,
        ep_addr: Option<EndpointAddress>,
        _ep_type: EndpointType,
        _max_packet_size: u16,
        _interval: u8,
    ) -> Result<EndpointAddress, UsbError> {
        let dir = match ep_dir {
            UsbDirection::In => EndpointDirection::In,
            UsbDirection::Out => EndpointDirection::Out,
        };
        match ep_addr {
            Some(addr) => Ok(addr),
            None => {
                let mut next = self.next.borrow_mut();
                *next += 1;
                Ok(EndpointAddress::from_parts(*next, dir))
            }
        }
    }

    fn enable(&mut self) {}

    fn reset(&self) {}

    fn set_device_address(&self, _addr: u8) {}

    fn write(&self, ep_addr: EndpointAddress, buf: &[u8]) -> Result<usize, UsbError> {
        self.log.borrow_mut().push(format!("write {} {}", u8::from(ep_addr), buf.len()));
        Ok(buf.len())
    }

    fn read(&self, _ep_addr: EndpointAddress, _buf: &mut [u8]) -> Result<usize, UsbError> {
        Err(UsbError::NoData)
    }

    fn set_stalled(&self, _ep_addr: EndpointAddress, _stalled: bool) {}

    fn is_stalled(&self, _ep_addr: EndpointAddress) -> bool {
        false
    }

    fn suspend(&self) {}

    fn resume(&self) {}

    fn poll(&self) -> PollResult {
        PollResult::Nothing
    }
}

struct Quiet;

impl UsbClass for Quiet {}

#[test]
fn interface_numbers_count_from_zero() {
    let log = Rc::new(RefCell::new(Vec::new()));
    let mut bus = UsbBusAllocator::new(CountingBus { next: RefCell::new(0), log });
    assert_eq!(bus.interface().number(), 0);
    assert_eq!(bus.interface().number(), 1);
    assert_eq!(bus.string().index(), 4);
    assert_eq!(bus.string().index(), 5);
}

#[test]
fn endpoint_addresses_are_vended_once() {
    let log = Rc::new(RefCell::new(Vec::new()));
    let mut bus = UsbBusAllocator::new(CountingBus { next: RefCell::new(0), log });
    let a: EndpointIn<CountingBus> = bus.bulk(64).unwrap();
    assert_eq!(u8::from(a.address()), 0x81);
    let b: EndpointOut<CountingBus> = bus.bulk(64).unwrap();
    assert_eq!(u8::from(b.address()), 0x02);
    let taken: Result<EndpointOut<CountingBus>, UsbError> =
        bus.allocate(Some(EndpointAddress::from(0x02)), EndpointType::Bulk, 64, 0);
    assert!(matches!(taken, Err(UsbError::EndpointTaken)));
    let wrong: Result<EndpointOut<CountingBus>, UsbError> =
        bus.allocate(Some(EndpointAddress::from(0x83)), EndpointType::Bulk, 64, 0);
    assert!(matches!(wrong, Err(UsbError::InvalidEndpoint)));
    let mut quiet = Quiet;
    assert!(quiet.reset().is_ok());
}
