use usb_device::bus::FakeBus;
use usb_device::bus::UsbBus;
use usb_device::bus::PollResult;
use usb_device::bus::UsbBusAllocator;
use usb_device::descriptor::descriptor_type;
use usb_device::descriptor::lang_id;
use usb_device::descriptor::DescriptorWriter;
use usb_device::endpoint::EndpointAddress;
use usb_device::endpoint::EndpointIn;
use usb_device::endpoint::EndpointOut;
use usb_device::endpoint::EndpointType;
use usb_device::UsbDirection;
use usb_device::UsbError;

struct Willing;

impl UsbBus for Willing {
    fn alloc_ep(
        &mut self,
        _ep_dir: UsbDirection,
        ep_addr: Option<EndpointAddress>,
        _ep_type: EndpointType,
        _max_packet_size: u16,
        _interval: u8,
    ) -> Result<EndpointAddress, UsbError> {
        ep_addr.ok_or(UsbError::EndpointOverflow)
    }
    fn enable(&mut self) {}
    fn reset(&self) {}
    fn set_device_address(&self, _addr: u8) {}
    fn write(&self, _ep_addr: EndpointAddress, buf: &[u8]) -> Result<usize, UsbError> {
        Ok(buf.len())
    }
    fn read(&self, _ep_addr: EndpointAddress, _buf: &mut [u8]) -> Result<usize, UsbError> {
        Err(UsbError::NoData)
    }
    fn set_stalled(&self, _ep_addr: EndpointAddress, _stalled: bool) {}
    fn is_stalled(&self, _ep_addr: EndpointAddress) -> bool {
        false
    }
    fn suspend(&self) {}
    fn resume(&self) {}
    fn poll(&self) -> PollResult {
        PollResult::Nothing
    }
}

#[test]
fn descriptor_constants() {
    assert_eq!(descriptor_type::DEVICE, 1);
    assert_eq!(descriptor_type::CONFIGURATION, 2);
    assert_eq!(descriptor_type::STRING, 3);
    assert_eq!(descriptor_type::INTERFACE, 4);
    assert_eq!(descriptor_type::ENDPOINT, 5);
    assert_eq!(lang_id::ENGLISH_US, 0x0409);
}

#[test]
fn write_appends_length_type_and_payload() {
    let mut buf = [0xeeu8; 16];
    {
        let mut writer = DescriptorWriter::new(&mut buf);
        assert_eq!(writer.count(), 0);
        assert!(writer.write(0x21, &[1, 2, 3]).is_ok());
        assert_eq!(writer.count(), 5);
        assert!(writer.write(0x22, &[]).is_ok());
        assert_eq!(writer.written(), &[5, 0x21, 1, 2, 3, 2, 0x22]);
        assert_eq!(writer.num_interfaces(), 0);
        assert_eq!(writer.finish(), 7);
    }
    assert_eq!(&buf[..8], &[5, 0x21, 1, 2, 3, 2, 0x22, 0xee]);
}

#[test]
fn write_fails_without_room_and_writes_nothing() {
    let mut buf = [0xeeu8; 6];
    {
        let mut writer = DescriptorWriter::new(&mut buf);
        assert_eq!(writer.write(0x21, &[1, 2, 3, 4, 5]), Err(UsbError::BufferOverflow));
        assert_eq!(writer.count(), 0);
        assert!(writer.write(0x21, &[1, 2, 3, 4]).is_ok());
        assert_eq!(writer.write(0x21, &[]), Err(UsbError::BufferOverflow));
        assert_eq!(writer.count(), 6);
    }
    assert_eq!(buf, [6, 0x21, 1, 2, 3, 4]);
    let mut large = [0u8; 300];
    let mut writer = DescriptorWriter::new(&mut large);
    assert_eq!(writer.write(0x21, &[0u8; 254]), Err(UsbError::BufferOverflow));
    assert!(writer.write(0x21, &[0u8; 253]).is_ok());
    assert_eq!(writer.count(), 255);
}

#[test]
fn insert_overwrites_what_has_been_written() {
    let mut buf = [0u8; 16];
    let mut writer = DescriptorWriter::new(&mut buf);
    assert!(writer.write(2, &[0, 0, 0, 1]).is_ok());
    assert!(writer.insert(2, &[0xaa, 0xbb]).is_ok());
    assert!(writer.insert(4, &[3]).is_ok());
    assert_eq!(writer.written(), &[6, 2, 0xaa, 0xbb, 3, 1]);
    assert_eq!(writer.insert(5, &[1, 2]), Err(UsbError::BufferOverflow));
    assert_eq!(writer.insert(7, &[]), Err(UsbError::BufferOverflow));
    assert!(writer.insert(6, &[]).is_ok());
    assert_eq!(writer.written(), &[6, 2, 0xaa, 0xbb, 3, 1]);
    assert_eq!(writer.count(), 6);
}

#[test]
fn interface_and_endpoint_descriptors() {
    let mut bus = UsbBusAllocator::new(Willing);
    let first = bus.interface();
    let second = bus.interface();
    let ep_in: EndpointIn<Willing> =
        match bus.allocate(Some(EndpointAddress::from(0x83)), EndpointType::Interrupt, 0x0140, 10)
        {
            Ok(ep) => ep,
            Err(e) => panic!("no endpoint: {:?}", e),
        };
    let ep_out: EndpointOut<Willing> =
        match bus.allocate(Some(EndpointAddress::from(0x04)), EndpointType::Bulk, 64, 0) {
            Ok(ep) => ep,
            Err(e) => panic!("no endpoint: {:?}", e),
        };
    assert_eq!(u8::from(ep_in.address()), 0x83);
    assert_eq!(ep_in.ep_type(), EndpointType::Interrupt);
    assert_eq!(ep_in.max_packet_size(), 0x0140);
    assert_eq!(ep_in.interval(), 10);
    let mut buf = [0u8; 64];
    let mut writer = DescriptorWriter::new(&mut buf);
    assert!(writer.interface(first, 2, 0xff, 0x01, 0x02).is_ok());
    assert!(writer.endpoint(&ep_in).is_ok());
    assert!(writer.endpoint(&ep_out).is_ok());
    assert!(writer.interface(second, 0, 3, 0, 0).is_ok());
    assert_eq!(writer.num_interfaces(), 2);
    assert_eq!(
        writer.written(),
        &[
            9, 4, 0, 0, 2, 0xff, 0x01, 0x02, 0, // first interface
            7, 5, 0x83, 3, 0x40, 0x01, 10, // interrupt IN
            7, 5, 0x04, 2, 64, 0, 0, // bulk OUT
            9, 4, 1, 0, 0, 3, 0, 0, 0, // second interface
        ]
    );
}

#[test]
fn interface_descriptors_written_as_such_are_counted() {
    let mut buf = [0u8; 32];
    let mut writer = DescriptorWriter::new(&mut buf);
    assert!(writer.write(descriptor_type::INTERFACE, &[0, 1, 0, 0, 0, 0, 0]).is_ok());
    assert!(writer.write(descriptor_type::ENDPOINT, &[0x81, 2, 64, 0, 0]).is_ok());
    assert_eq!(writer.num_interfaces(), 1);
}

#[test]
fn string_descriptor_is_utf16() {
    let mut buf = [0u8; 32];
    let mut writer = DescriptorWriter::new(&mut buf);
    assert!(writer.write_string("A\u{e9}\u{20ac}").is_ok());
    assert_eq!(writer.written(), &[8, 3, 0x41, 0x00, 0xe9, 0x00, 0xac, 0x20]);
    assert!(writer.write_string("\u{1f600}").is_ok());
    assert_eq!(&writer.written()[8..], &[6, 3, 0x3d, 0xd8, 0x00, 0xde]);
    assert!(writer.write_string("").is_ok());
    assert_eq!(&writer.written()[14..], &[2, 3]);
}

#[test]
fn string_descriptor_needs_room() {
    let mut buf = [0xeeu8; 7];
    {
        let mut writer = DescriptorWriter::new(&mut buf);
        assert_eq!(writer.write_string("abc"), Err(UsbError::BufferOverflow));
        assert_eq!(writer.count(), 0);
        assert_eq!(writer.write_string("\u{1f600}\u{1f600}"), Err(UsbError::BufferOverflow));
        assert_eq!(writer.count(), 0);
    }
    assert_eq!(buf, [0xee; 7]);
    let mut large = [0u8; 300];
    let mut writer = DescriptorWriter::new(&mut large);
    let long: String = std::iter::repeat('x').take(127).collect();
    assert_eq!(writer.write_string(&long), Err(UsbError::BufferOverflow));
    let fits: String = std::iter::repeat('x').take(126).collect();
    assert!(writer.write_string(&fits).is_ok());
    assert_eq!(writer.count(), 254);
}

#[test]
fn append_adds_bytes_and_interfaces() {
    let mut part = [0u8; 16];
    let mut whole = [0u8; 24];
    let mut class = DescriptorWriter::new(&mut part);
    assert!(class.write(descriptor_type::INTERFACE, &[7; 7]).is_ok());
    let mut writer = DescriptorWriter::new(&mut whole);
    assert!(writer.write(2, &[0; 7]).is_ok());
    assert!(writer.append(&class).is_ok());
    assert_eq!(writer.count(), 18);
    assert_eq!(writer.num_interfaces(), 1);
    assert_eq!(&writer.written()[9..], &[9, 4, 7, 7, 7, 7, 7, 7, 7]);
    assert_eq!(writer.append(&class), Err(UsbError::BufferOverflow));
    assert_eq!(writer.count(), 18);
    assert_eq!(writer.num_interfaces(), 1);
}

#[test]
fn fake_bus_has_no_endpoints() {
    let mut bus = UsbBusAllocator::new(FakeBus {});
    let ep: Result<EndpointIn<FakeBus>, UsbError> = bus.bulk(64);
    assert!(matches!(ep, Err(UsbError::EndpointOverflow)));
    let ep: Result<EndpointOut<FakeBus>, UsbError> = bus.interrupt(8, 1);
    assert!(matches!(ep, Err(UsbError::EndpointOverflow)));
    let ep: Result<EndpointOut<FakeBus>, UsbError> = bus.control(8);
    assert!(matches!(ep, Err(UsbError::EndpointOverflow)));
}
