use usb_device::control::hi;
use usb_device::control::lo;
use usb_device::control::standard_request;
use usb_device::control::u16_from_le;
use usb_device::control::Direction;
use usb_device::control::Recipient;
use usb_device::control::Request;
use usb_device::control::RequestType;
use usb_device::UsbDirection;
use usb_device::UsbError;

#[test]
fn parse_get_descriptor() {
    let req = Request::parse(&[0x80, 0x06, 0x00, 0x01, 0x00, 0x00, 0x40, 0x00]);
    assert_eq!(
        req,
        Ok(Request {
            direction: Direction::DeviceToHost,
            request_type: RequestType::Standard,
            recipient: Recipient::Device,
            request: standard_request::GET_DESCRIPTOR,
            value: 0x0100,
            index: 0,
            length: 64,
        })
    );
}

#[test]
fn parse_reads_every_field() {
    let req = Request::parse(&[0x41, 0x2a, 0x34, 0x12, 0x78, 0x56, 0xbc, 0x9a]);
    assert_eq!(
        req,
        Ok(Request {
            direction: Direction::HostToDevice,
            request_type: RequestType::Vendor,
            recipient: Recipient::Interface,
            request: 0x2a,
            value: 0x1234,
            index: 0x5678,
            length: 0x9abc,
        })
    );
}

#[test]
fn parse_request_types_and_recipients() {
    let parsed = |first: u8| match Request::parse(&[first, 0, 0, 0, 0, 0, 0, 0]) {
        Ok(req) => (req.direction, req.request_type, req.recipient),
        Err(e) => panic!("not a request: {:?}", e),
    };
    assert_eq!(
        parsed(0x00),
        (Direction::HostToDevice, RequestType::Standard, Recipient::Device)
    );
    assert_eq!(parsed(0x22), (Direction::HostToDevice, RequestType::Class, Recipient::Endpoint));
    assert_eq!(parsed(0xc3), (Direction::DeviceToHost, RequestType::Vendor, Recipient::Other));
    assert_eq!(
        parsed(0xe4),
        (Direction::DeviceToHost, RequestType::Reserved, Recipient::Reserved)
    );
    assert_eq!(
        parsed(0x1f),
        (Direction::HostToDevice, RequestType::Standard, Recipient::Reserved)
    );
}

#[test]
fn parse_rejects_packets_of_the_wrong_length() {
    assert_eq!(Request::parse(&[]), Err(UsbError::InvalidSetupPacket));
    assert_eq!(
        Request::parse(&[0x80, 0x06, 0x00, 0x01, 0x00, 0x00, 0x40]),
        Err(UsbError::InvalidSetupPacket)
    );
    assert_eq!(
        Request::parse(&[0x80, 0x06, 0x00, 0x01, 0x00, 0x00, 0x40, 0x00, 0x00]),
        Err(UsbError::InvalidSetupPacket)
    );
}

#[test]
fn little_endian_halves() {
    assert_eq!(u16_from_le(0x34, 0x12), 0x1234);
    assert_eq!(lo(0x1234), 0x34);
    assert_eq!(hi(0x1234), 0x12);
    assert_eq!(u16_from_le(lo(0xfffe), hi(0xfffe)), 0xfffe);
}

#[test]
fn codes_of_the_request_type_byte() {
    assert_eq!(Direction::HostToDevice.bits(), 0x00);
    assert_eq!(Direction::DeviceToHost.bits(), 0x80);
    assert_eq!(RequestType::Standard.bits(), 0);
    assert_eq!(RequestType::Class.bits(), 1);
    assert_eq!(RequestType::Vendor.bits(), 2);
    assert_eq!(RequestType::Reserved.bits(), 3);
    assert_eq!(Recipient::Device.bits(), 0);
    assert_eq!(Recipient::Interface.bits(), 1);
    assert_eq!(Recipient::Endpoint.bits(), 2);
    assert_eq!(Recipient::Other.bits(), 3);
    assert_eq!(Recipient::Reserved.bits(), 4);
}

#[test]
fn standard_request_codes() {
    assert_eq!(standard_request::GET_STATUS, 0);
    assert_eq!(standard_request::CLEAR_FEATURE, 1);
    assert_eq!(standard_request::SET_FEATURE, 3);
    assert_eq!(standard_request::SET_ADDRESS, 5);
    assert_eq!(standard_request::GET_DESCRIPTOR, 6);
    assert_eq!(standard_request::SET_DESCRIPTOR, 7);
    assert_eq!(standard_request::GET_CONFIGURATION, 8);
    assert_eq!(standard_request::SET_CONFIGURATION, 9);
    assert_eq!(standard_request::GET_INTERFACE, 10);
    assert_eq!(standard_request::SET_INTERFACE, 11);
    assert_eq!(standard_request::SYNCH_FRAME, 12);
}

#[test]
fn usb_direction_of_a_byte() {
    assert_eq!(UsbDirection::from(0x00), UsbDirection::Out);
    assert_eq!(UsbDirection::from(0x7f), UsbDirection::Out);
    assert_eq!(UsbDirection::from(0x80), UsbDirection::In);
    assert_eq!(UsbDirection::from(0x81), UsbDirection::In);
    assert_eq!(UsbDirection::Out.bits(), 0x00);
    assert_eq!(UsbDirection::In.bits(), 0x80);
}
