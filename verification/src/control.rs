//! USB control transfers and the SETUP packet.

use vstd::prelude::*;
use crate::UsbError;

pub mod standard_request;

verus! {

/// Control request direction, bit 7 of the request type byte.
#[derive(Debug, Clone, Copy, PartialEq, Eq, Structural)]
pub enum Direction {
    /// Host to device (OUT): the data stage, if any, comes from the host.
    HostToDevice,
    /// Device to host (IN): the data stage goes to the host.
    DeviceToHost,
}

/// Control request type, bits 5 and 6 of the request type byte.
#[derive(Debug, Clone, Copy, PartialEq, Eq, Structural)]
pub enum RequestType {
    /// Request is a USB standard request. Usually handled by the device itself.
    Standard,
    /// Request is intended for a USB class.
    Class,
    /// Request is vendor-specific.
    Vendor,
    /// Reserved.
    Reserved,
}

/// Control request recipient, bits 0 to 4 of the request type byte.
#[derive(Debug, Clone, Copy, PartialEq, Eq, Structural)]
pub enum Recipient {
    /// Request is intended for the entire device.
    Device,
    /// Request is intended for an interface; the low byte of `index` names it.
    Interface,
    /// Request is intended for an endpoint; the low byte of `index` names it.
    Endpoint,
    /// None of the above.
    Other,
    /// Reserved: every recipient code above 3.
    Reserved,
}

/// A control request read from a SETUP packet.
#[derive(Debug, Clone, Copy, PartialEq, Eq, Structural)]
pub struct Request {
    /// Direction of the request.
    pub direction: Direction,
    /// Type of the request.
    pub request_type: RequestType,
    /// Recipient of the request.
    pub recipient: Recipient,
    /// Request code. Its meaning depends on the other fields.
    pub request: u8,
    /// Request value. Its meaning depends on the other fields.
    pub value: u16,
    /// Request index. Its meaning depends on the other fields.
    pub index: u16,
    /// Length of the data stage. For host-to-device requests this is the
    /// exact length of the data the host sends; for device-to-host requests
    /// it is the most the device may send.
    pub length: u16,
}

impl Direction {
    /// The direction that the top bit of the request type byte encodes.
    pub open spec fn of_byte(b: u8) -> Direction {
        if b >= 0x80 {
            Direction::DeviceToHost
        } else {
            Direction::HostToDevice
        }
    }

    /// The direction bit in its place in the request type byte.
    pub open spec fn spec_bits(self) -> u8 {
        match self {
            Direction::HostToDevice => 0x00u8,
            Direction::DeviceToHost => 0x80u8,
        }
    }

    /// The direction bit in its place in the request type byte.
    #[verifier::when_used_as_spec(spec_bits)]
    pub fn bits(self) -> (b: u8)
        ensures
            b == self.spec_bits(),
    {
        match self {
            Direction::HostToDevice => 0x00,
            Direction::DeviceToHost => 0x80,
        }
    }
}

impl RequestType {
    /// The request type with the given code, taken modulo 4.
    pub open spec fn of_code(code: int) -> RequestType {
        let c = code % 4;
        if c == 0 {
            RequestType::Standard
        } else if c == 1 {
            RequestType::Class
        } else if c == 2 {
            RequestType::Vendor
        } else {
            RequestType::Reserved
        }
    }

    /// The two-bit code of the request type.
    pub open spec fn spec_bits(self) -> u8 {
        match self {
            RequestType::Standard => 0u8,
            RequestType::Class => 1u8,
            RequestType::Vendor => 2u8,
            RequestType::Reserved => 3u8,
        }
    }

    /// The two-bit code of the request type.
    #[verifier::when_used_as_spec(spec_bits)]
    pub fn bits(self) -> (b: u8)
        ensures
            b == self.spec_bits(),
    {
        match self {
            RequestType::Standard => 0,
            RequestType::Class => 1,
            RequestType::Vendor => 2,
            RequestType::Reserved => 3,
        }
    }
}

impl Recipient {
    /// The recipient with the given five-bit code.
    pub open spec fn of_code(code: int) -> Recipient {
        if code == 0 {
            Recipient::Device
        } else if code == 1 {
            Recipient::Interface
        } else if code == 2 {
            Recipient::Endpoint
        } else if code == 3 {
            Recipient::Other
        } else {
            Recipient::Reserved
        }
    }

    /// The code of the recipient; 4 stands for every reserved code.
    pub open spec fn spec_bits(self) -> u8 {
        match self {
            Recipient::Device => 0u8,
            Recipient::Interface => 1u8,
            Recipient::Endpoint => 2u8,
            Recipient::Other => 3u8,
            Recipient::Reserved => 4u8,
        }
    }

    /// The code of the recipient; 4 stands for every reserved code.
    #[verifier::when_used_as_spec(spec_bits)]
    pub fn bits(self) -> (b: u8)
        ensures
            b == self.spec_bits(),
    {
        match self {
            Recipient::Device => 0,
            Recipient::Interface => 1,
            Recipient::Endpoint => 2,
            Recipient::Other => 3,
            Recipient::Reserved => 4,
        }
    }
}

/// The 16-bit value whose little-endian bytes are `lo` and `hi`.
pub open spec fn spec_u16_from_le(lo: u8, hi: u8) -> u16 {
    (lo as int + 256 * (hi as int)) as u16
}

/// The low byte of `x`.
pub open spec fn spec_lo(x: u16) -> u8 {
    (x as int % 256) as u8
}

/// The high byte of `x`.
pub open spec fn spec_hi(x: u16) -> u8 {
    (x as int / 256) as u8
}

/// Joins two little-endian bytes into a 16-bit value.
#[verifier::when_used_as_spec(spec_u16_from_le)]
pub fn u16_from_le(lo: u8, hi: u8) -> (x: u16)
    ensures
        x == spec_u16_from_le(lo, hi),
        x == lo as int + 256 * (hi as int),
{
    proof {
        assert((lo as u16) | ((hi as u16) << 8) == (lo as u16) + 256 * (hi as u16)) by (bit_vector);
    }
    (lo as u16) | ((hi as u16) << 8)
}

/// The low byte of a 16-bit value.
#[verifier::when_used_as_spec(spec_lo)]
pub fn lo(x: u16) -> (b: u8)
    ensures
        b == spec_lo(x),
{
    proof {
        assert((x & 0xff) == x % 256) by (bit_vector);
    }
    (x & 0xff) as u8
}

/// The high byte of a 16-bit value.
#[verifier::when_used_as_spec(spec_hi)]
pub fn hi(x: u16) -> (b: u8)
    ensures
        b == spec_hi(x),
{
    proof {
        assert((x >> 8) == x / 256) by (bit_vector);
    }
    (x >> 8) as u8
}

/// Splitting a 16-bit value into its bytes and joining them gives the value
/// back, and the bytes of a joined pair are the pair.
pub proof fn lemma_le_round_trip(x: u16, lo: u8, hi: u8)
    ensures
        spec_u16_from_le(spec_lo(x), spec_hi(x)) == x,
        spec_lo(spec_u16_from_le(lo, hi)) == lo,
        spec_hi(spec_u16_from_le(lo, hi)) == hi,
{
}

impl Request {
    /// The request that the eight bytes of a SETUP packet encode: the request
    /// type byte, the request code, then value, index and length as
    /// little-endian 16-bit numbers.
    pub open spec fn spec_parse(buf: Seq<u8>) -> Request
        recommends
            buf.len() == 8,
    {
        Request {
            direction: Direction::of_byte(buf[0]),
            request_type: RequestType::of_code((buf[0] as int / 32) % 4),
            recipient: Recipient::of_code(buf[0] as int % 32),
            request: buf[1],
            value: spec_u16_from_le(buf[2], buf[3]),
            index: spec_u16_from_le(buf[4], buf[5]),
            length: spec_u16_from_le(buf[6], buf[7]),
        }
    }

    /// The eight bytes of the SETUP packet that encodes the request. A
    /// reserved recipient is written as code 4.
    pub open spec fn spec_encode(self) -> Seq<u8> {
        seq![
            (self.direction.spec_bits() + 32 * self.request_type.spec_bits()
                + self.recipient.spec_bits()) as u8,
            self.request,
            spec_lo(self.value),
            spec_hi(self.value),
            spec_lo(self.index),
            spec_hi(self.index),
            spec_lo(self.length),
            spec_hi(self.length),
        ]
    }

    /// Reads a request from a SETUP packet. The packet is rejected with
    /// `InvalidSetupPacket` exactly when it is not eight bytes long.
    pub fn parse(buf: &[u8]) -> (r: Result<Request, UsbError>)
        ensures
            buf@.len() == 8 ==> r == Ok::<Request, UsbError>(Self::spec_parse(buf@)),
            buf@.len() != 8 ==> r == Err::<Request, UsbError>(UsbError::InvalidSetupPacket),
    {
        if buf.len() != 8 {
            return Err(UsbError::InvalidSetupPacket);
        }
        let rt: u8 = buf[0];
        let type_code: u8 = (rt >> 5) & 0b11;
        let recipient_code: u8 = rt & 0b11111;
        proof {
            assert((rt >> 5) & 0b11 == (rt / 32) % 4) by (bit_vector);
            assert(rt & 0b11111 == rt % 32) by (bit_vector);
            assert((rt & 0x80 != 0) == (rt >= 0x80)) by (bit_vector);
        }
        let direction = if (rt & 0x80) != 0 {
            Direction::DeviceToHost
        } else {
            Direction::HostToDevice
        };
        let request_type = if type_code == 0 {
            RequestType::Standard
        } else if type_code == 1 {
            RequestType::Class
        } else if type_code == 2 {
            RequestType::Vendor
        } else {
            RequestType::Reserved
        };
        let recipient = if recipient_code == 0 {
            Recipient::Device
        } else if recipient_code == 1 {
            Recipient::Interface
        } else if recipient_code == 2 {
            Recipient::Endpoint
        } else if recipient_code == 3 {
            Recipient::Other
        } else {
            Recipient::Reserved
        };
        Ok(
            Request {
                direction,
                request_type,
                recipient,
                request: buf[1],
                value: u16_from_le(buf[2], buf[3]),
                index: u16_from_le(buf[4], buf[5]),
                length: u16_from_le(buf[6], buf[7]),
            },
        )
    }
}

/// Parsing the packet that encodes a request gives the request back.
pub proof fn lemma_parse_encode(req: Request)
    ensures
        req.spec_encode().len() == 8,
        Request::spec_parse(req.spec_encode()) == req,
{
    lemma_le_round_trip(req.value, 0, 0);
    lemma_le_round_trip(req.index, 0, 0);
    lemma_le_round_trip(req.length, 0, 0);
}

} // verus!
