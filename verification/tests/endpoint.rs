use usb_device::bus::FakeBus;
use usb_device::endpoint::Direction;
use usb_device::endpoint::EndpointAddress;
use usb_device::endpoint::EndpointDirection;
use usb_device::endpoint::EndpointIn;
use usb_device::endpoint::EndpointOut;
use usb_device::endpoint::EndpointType;
use usb_device::endpoint::In;
use usb_device::endpoint::Out;

#[test]
fn address_from_parts() {
    let addr = EndpointAddress::from_parts(3, EndpointDirection::In);
    assert_eq!(u8::from(addr), 0x83);
    assert_eq!(addr.index(), 3);
    assert_eq!(addr.direction(), EndpointDirection::In);
    assert!(addr.is_in());
    assert!(!addr.is_out());
    let addr = EndpointAddress::from_parts(15, EndpointDirection::Out);
    assert_eq!(u8::from(addr), 0x0f);
    assert_eq!(addr.index(), 15);
    assert_eq!(addr.direction(), EndpointDirection::Out);
    assert!(addr.is_out());
    assert!(!addr.is_in());
}

#[test]
fn address_from_parts_cuts_the_index_to_a_byte() {
    assert_eq!(u8::from(EndpointAddress::from_parts(0x102, EndpointDirection::Out)), 0x02);
    assert_eq!(u8::from(EndpointAddress::from_parts(0x85, EndpointDirection::Out)), 0x85);
    assert_eq!(EndpointAddress::from_parts(0x85, EndpointDirection::Out).index(), 5);
    assert!(EndpointAddress::from_parts(0x85, EndpointDirection::Out).is_in());
}

#[test]
fn address_from_byte_and_back() {
    for byte in [0x00u8, 0x01, 0x7f, 0x80, 0x8f, 0xff] {
        let addr = EndpointAddress::from(byte);
        assert_eq!(u8::from(addr), byte);
        assert_eq!(addr.index(), (byte & 0x7f) as usize);
        assert_eq!(addr.is_in(), byte >= 0x80);
        assert_eq!(addr.is_out(), byte < 0x80);
    }
}

#[test]
fn direction_and_type_bits() {
    assert_eq!(EndpointDirection::Out.bits(), 0x00);
    assert_eq!(EndpointDirection::In.bits(), 0x80);
    assert_eq!(EndpointType::Control.bits(), 0b00);
    assert_eq!(EndpointType::Isochronous.bits(), 0b01);
    assert_eq!(EndpointType::Bulk.bits(), 0b10);
    assert_eq!(EndpointType::Interrupt.bits(), 0b11);
}

#[test]
fn markers_carry_their_direction() {
    assert_eq!(<In as Direction>::DIRECTION, EndpointDirection::In);
    assert_eq!(<Out as Direction>::DIRECTION, EndpointDirection::Out);
}

fn ensure_sync<T: Sync + Send>() {}

#[test]
fn bus_and_endpoints_are_sync_and_send() {
    ensure_sync::<FakeBus>();
    ensure_sync::<EndpointIn<FakeBus>>();
    ensure_sync::<EndpointOut<FakeBus>>();
}
