//! Creating USB descriptors.

use vstd::prelude::*;
use vstd::slice::slice_subrange;
use crate::UsbError;
use crate::bus::InterfaceNumber;
use crate::bus::UsbBus;
use crate::control::hi;
use crate::control::lo;
use crate::control::spec_hi;
use crate::control::spec_lo;
use crate::endpoint::Direction;
use crate::endpoint::Endpoint;

pub mod descriptor_type;
pub mod lang_id;

verus! {

/// The bytes of one descriptor: its length, its type, then its payload.
pub open spec fn spec_descriptor(descriptor_type: u8, payload: Seq<u8>) -> Seq<u8> {
    seq![(payload.len() + 2) as u8, descriptor_type] + payload
}

/// The payload of an interface descriptor with alternate setting 0 and no
/// string.
pub open spec fn spec_interface_payload(
    number: u8,
    num_endpoints: u8,
    interface_class: u8,
    interface_sub_class: u8,
    interface_protocol: u8,
) -> Seq<u8> {
    seq![number, 0u8, num_endpoints, interface_class, interface_sub_class, interface_protocol, 0u8]
}

/// The payload of an endpoint descriptor: address, transfer type, maximum
/// packet size as a little-endian number, polling interval.
pub open spec fn spec_endpoint_payload(
    address: u8,
    type_bits: u8,
    max_packet_size: u16,
    interval: u8,
) -> Seq<u8> {
    seq![address, type_bits, spec_lo(max_packet_size), spec_hi(max_packet_size), interval]
}

/// The UTF-16 code units of one character: itself below `0x10000`, a
/// surrogate pair above.
pub open spec fn spec_utf16_char(c: char) -> Seq<u16> {
    let v = c as u32 as int;
    if v < 0x10000 {
        seq![v as u16]
    } else {
        seq![(0xD800 + (v - 0x10000) / 0x400) as u16, (0xDC00 + (v - 0x10000) % 0x400) as u16]
    }
}

/// The UTF-16 code units of a string.
pub open spec fn spec_utf16(s: Seq<char>) -> Seq<u16>
    decreases s.len(),
{
    if s.len() == 0 {
        Seq::<u16>::empty()
    } else {
        spec_utf16(s.drop_last()) + spec_utf16_char(s.last())
    }
}

/// The bytes of a sequence of 16-bit units, each unit low byte first.
pub open spec fn spec_le_bytes(units: Seq<u16>) -> Seq<u8>
    decreases units.len(),
{
    if units.len() == 0 {
        Seq::<u8>::empty()
    } else {
        spec_le_bytes(units.drop_last()) + seq![spec_lo(units.last()), spec_hi(units.last())]
    }
}

/// A sequence with the part from `at` on replaced by `data`, as far as
/// `data` reaches.
pub open spec fn spec_overwrite(s: Seq<u8>, at: int, data: Seq<u8>) -> Seq<u8> {
    Seq::new(
        s.len(),
        |i: int|
            if at <= i < at + data.len() {
                data[i - at]
            } else {
                s[i]
            },
    )
}

/// A writer for USB descriptors: it appends descriptors to a buffer that the
/// caller supplies, and counts the interface descriptors among them.
pub struct DescriptorWriter<'a> {
    buf: &'a mut [u8],
    position: usize,
    num_interfaces: usize,
}

impl<'a> DescriptorWriter<'a> {
    #[verifier::type_invariant]
    spec fn inv(self) -> bool {
        &&& self.position <= self.buf@.len()
        &&& 2 * self.num_interfaces <= self.position
    }

    /// The buffer that the writer fills.
    pub closed spec fn target(self) -> &'a mut [u8] {
        self.buf
    }

    /// The number of bytes written so far.
    pub closed spec fn position(self) -> nat {
        self.position as nat
    }

    /// The number of interface descriptors written so far.
    pub closed spec fn interfaces(self) -> nat {
        self.num_interfaces as nat
    }

    /// The bytes written so far.
    pub open spec fn bytes(self) -> Seq<u8> {
        self.target()@.subrange(0, self.position() as int)
    }

    /// The number of bytes that the buffer can take.
    pub open spec fn capacity(self) -> nat {
        self.target()@.len()
    }

    /// Whether a descriptor with the given payload has room: its length must
    /// fit in a byte, and its bytes in what is left of the buffer.
    pub open spec fn has_room(self, payload_len: nat) -> bool {
        &&& payload_len + 2 <= 255
        &&& self.position() + 2 + payload_len <= self.capacity()
    }

    /// The writer after a descriptor has been appended.
    pub open spec fn appended(self, after: Self, descriptor_type: u8, payload: Seq<u8>) -> bool {
        &&& after.position() == self.position() + 2 + payload.len()
        &&& after.target()@ == spec_overwrite(
            self.target()@,
            self.position() as int,
            spec_descriptor(descriptor_type, payload),
        )
        &&& after.bytes() == self.bytes() + spec_descriptor(descriptor_type, payload)
        &&& after.interfaces() == self.interfaces() + if descriptor_type
            == descriptor_type::INTERFACE {
            1nat
        } else {
            0nat
        }
    }

    /// The writer after a call that wrote nothing.
    pub open spec fn untouched(self, after: Self) -> bool {
        &&& after.position() == self.position()
        &&& after.target()@ == self.target()@
        &&& after.interfaces() == self.interfaces()
    }

    /// Starts writing at the beginning of `buf`.
    pub fn new(buf: &'a mut [u8]) -> (w: Self)
        ensures
            w.position() == 0,
            w.interfaces() == 0,
            w.target()@ == old(buf)@,
            final(w.target())@ == final(buf)@,
    {
        DescriptorWriter { buf, position: 0, num_interfaces: 0 }
    }

    /// Gets the number of bytes written so far.
    pub fn count(&self) -> (n: usize)
        ensures
            n == self.position(),
            n <= self.capacity(),
    {
        proof {
            use_type_invariant(self);
        }
        self.position
    }

    /// Gives the buffer back: it now holds what the writer has made of it.
    /// Returns the number of bytes written.
    pub fn finish(self) -> (n: usize)
        ensures
            n == self.position(),
            n <= self.capacity(),
            final(self.target())@ == self.target()@,
    {
        proof {
            use_type_invariant(&self);
        }
        self.position
    }

    /// Gets the number of interface descriptors written so far.
    pub fn num_interfaces(&self) -> (n: usize)
        ensures
            n == self.interfaces(),
            2 * n <= self.position(),
    {
        proof {
            use_type_invariant(self);
        }
        self.num_interfaces
    }

    /// Gets the bytes written so far.
    pub fn written(&self) -> (bytes: &[u8])
        ensures
            bytes@ == self.bytes(),
    {
        proof {
            use_type_invariant(self);
        }
        slice_subrange(&*self.buf, 0, self.position)
    }

    /// Copies `data` over the bytes of the buffer from `at` on.
    fn put(&mut self, at: usize, data: &[u8])
        requires
            at + data@.len() <= old(self).capacity(),
        ensures
            final(final(self).target())@ == final(old(self).target())@,
            final(self).target()@ == spec_overwrite(old(self).target()@, at as int, data@),
            final(self).position() == old(self).position(),
            final(self).interfaces() == old(self).interfaces(),
    {
        proof {
            use_type_invariant(&*self);
        }
        let cap = self.buf.len();
        let mut i: usize = 0;
        while i < data.len()
            invariant
                i <= data@.len(),
                at + data@.len() <= cap,
                self.buf@.len() == cap,
                self.buf@.len() == old(self).buf@.len(),
                self.position == old(self).position,
                self.num_interfaces == old(self).num_interfaces,
                self.position <= self.buf@.len(),
                2 * self.num_interfaces <= self.position,
                final(self.buf)@ == final(old(self).buf)@,
                forall|j: int|
                    0 <= j < self.buf@.len() ==> self.buf@[j] == if at <= j < at + i {
                        data@[j - at]
                    } else {
                        old(self).buf@[j]
                    },
            decreases data@.len() - i,
        {
            self.buf[at + i] = data[i];
            i = i + 1;
        }
        assert(self.buf@ =~= spec_overwrite(old(self).buf@, at as int, data@));
    }

    /// Writes an arbitrary (usually class-specific) descriptor: a byte for
    /// its length, `descriptor_type`, then `descriptor`. One of type
    /// `INTERFACE` is counted.
    ///
    /// Fails with `BufferOverflow`, and writes nothing, exactly when the
    /// descriptor has no room.
    pub fn write(&mut self, descriptor_type: u8, descriptor: &[u8]) -> (r: Result<(), UsbError>)
        ensures
            final(final(self).target())@ == final(old(self).target())@,
            old(self).has_room(descriptor@.len()) ==> r is Ok && old(self).appended(
                *final(self),
                descriptor_type,
                descriptor@,
            ),
            !old(self).has_room(descriptor@.len()) ==> r == Err::<(), UsbError>(
                UsbError::BufferOverflow,
            ) && old(self).untouched(*final(self)),
    {
        proof {
            use_type_invariant(&*self);
        }
        let length = descriptor.len();
        if length > 253 || self.buf.len() - self.position < 2 + length {
            return Err(UsbError::BufferOverflow);
        }
        let start = self.position;
        self.buf[start] = (length + 2) as u8;
        self.buf[start + 1] = descriptor_type;
        self.put(start + 2, descriptor);
        self.position = start + 2 + length;
        if descriptor_type == descriptor_type::INTERFACE {
            self.num_interfaces = self.num_interfaces + 1;
        }
        proof {
            assert(self.buf@ =~= spec_overwrite(
                old(self).buf@,
                start as int,
                spec_descriptor(descriptor_type, descriptor@),
            ));
            assert(self.bytes() =~= old(self).bytes() + spec_descriptor(
                descriptor_type,
                descriptor@,
            ));
        }
        Ok(())
    }

    /// Overwrites bytes that have been written before: those from `index`
    /// on, as far as `data` reaches. Nothing else changes.
    ///
    /// Fails with `BufferOverflow`, and changes nothing, exactly when `data`
    /// would reach beyond what has been written.
    pub fn insert(&mut self, index: usize, data: &[u8]) -> (r: Result<(), UsbError>)
        ensures
            final(final(self).target())@ == final(old(self).target())@,
            final(self).position() == old(self).position(),
            final(self).interfaces() == old(self).interfaces(),
            index + data@.len() <= old(self).position() ==> r is Ok && final(self).target()@
                == spec_overwrite(old(self).target()@, index as int, data@) && final(self).bytes()
                == spec_overwrite(old(self).bytes(), index as int, data@),
            index + data@.len() > old(self).position() ==> r == Err::<(), UsbError>(
                UsbError::BufferOverflow,
            ) && old(self).untouched(*final(self)),
    {
        proof {
            use_type_invariant(&*self);
        }
        if index > self.position || self.position - index < data.len() {
            return Err(UsbError::BufferOverflow);
        }
        self.put(index, data);
        proof {
            assert(self.bytes() =~= spec_overwrite(old(self).bytes(), index as int, data@));
        }
        Ok(())
    }

    /// Appends what another writer has written, and counts the interface
    /// descriptors that it has counted.
    ///
    /// Fails with `BufferOverflow`, and writes nothing, exactly when the
    /// bytes of the other writer have no room in what is left of the buffer.
    pub fn append(&mut self, other: &DescriptorWriter) -> (r: Result<(), UsbError>)
        ensures
            final(final(self).target())@ == final(old(self).target())@,
            old(self).position() + other.position() <= old(self).capacity() ==> r is Ok
                && final(self).position() == old(self).position() + other.position()
                && final(self).target()@ == spec_overwrite(
                old(self).target()@,
                old(self).position() as int,
                other.bytes(),
            ) && final(self).bytes() == old(self).bytes() + other.bytes()
                && final(self).interfaces() == old(self).interfaces() + other.interfaces(),
            old(self).position() + other.position() > old(self).capacity() ==> r == Err::<
                (),
                UsbError,
            >(UsbError::BufferOverflow) && old(self).untouched(*final(self)),
    {
        proof {
            use_type_invariant(&*self);
            use_type_invariant(other);
        }
        let bytes = other.written();
        if self.buf.len() - self.position < bytes.len() {
            return Err(UsbError::BufferOverflow);
        }
        let start = self.position;
        self.put(start, bytes);
        self.position = start + bytes.len();
        self.num_interfaces = self.num_interfaces + other.num_interfaces;
        proof {
            assert(self.bytes() =~= old(self).bytes() + other.bytes());
        }
        Ok(())
    }

    /// Writes an interface descriptor with alternate setting 0.
    ///
    /// * `number` - Interface number previously allocated with
    ///   [`UsbBusAllocator::interface`](crate::bus::UsbBusAllocator::interface).
    /// * `num_endpoints` - Number of endpoints of the interface.
    /// * `interface_class`, `interface_sub_class`, `interface_protocol` -
    ///   The class code triple assigned by USB.org, or `0xff` for
    ///   vendor-specific devices.
    ///
    /// Fails with `BufferOverflow`, and writes nothing, exactly when the
    /// nine bytes have no room.
    pub fn interface(
        &mut self,
        number: InterfaceNumber,
        num_endpoints: u8,
        interface_class: u8,
        interface_sub_class: u8,
        interface_protocol: u8,
    ) -> (r: Result<(), UsbError>)
        ensures
            final(final(self).target())@ == final(old(self).target())@,
            old(self).has_room(7) ==> r is Ok && old(self).appended(
                *final(self),
                descriptor_type::INTERFACE,
                spec_interface_payload(
                    number@,
                    num_endpoints,
                    interface_class,
                    interface_sub_class,
                    interface_protocol,
                ),
            ),
            !old(self).has_room(7) ==> r == Err::<(), UsbError>(UsbError::BufferOverflow) && old(
                self,
            ).untouched(*final(self)),
    {
        let payload: [u8; 7] = [
            number.number(),
            0,
            num_endpoints,
            interface_class,
            interface_sub_class,
            interface_protocol,
            0,
        ];
        assert(payload@ =~= spec_interface_payload(
            number@,
            num_endpoints,
            interface_class,
            interface_sub_class,
            interface_protocol,
        ));
        self.write(descriptor_type::INTERFACE, payload.as_slice())
    }

    /// Writes an endpoint descriptor for an endpoint previously allocated
    /// with a [`UsbBusAllocator`](crate::bus::UsbBusAllocator).
    ///
    /// Fails with `BufferOverflow`, and writes nothing, exactly when the
    /// seven bytes have no room.
    pub fn endpoint<B: UsbBus, D: Direction>(&mut self, endpoint: &Endpoint<B, D>) -> (r: Result<
        (),
        UsbError,
    >)
        ensures
            final(final(self).target())@ == final(old(self).target())@,
            old(self).has_room(5) ==> r is Ok && old(self).appended(
                *final(self),
                descriptor_type::ENDPOINT,
                spec_endpoint_payload(
                    endpoint.spec_address()@,
                    endpoint.spec_ep_type().spec_bits(),
                    endpoint.spec_max_packet_size(),
                    endpoint.spec_interval(),
                ),
            ),
            !old(self).has_room(5) ==> r == Err::<(), UsbError>(UsbError::BufferOverflow) && old(
                self,
            ).untouched(*final(self)),
    {
        let mps = endpoint.max_packet_size();
        let address: u8 = endpoint.address().into();
        let payload: [u8; 5] = [
            address,
            endpoint.ep_type().bits(),
            lo(mps),
            hi(mps),
            endpoint.interval(),
        ];
        assert(payload@ =~= spec_endpoint_payload(
            endpoint.spec_address()@,
            endpoint.spec_ep_type().spec_bits(),
            endpoint.spec_max_packet_size(),
            endpoint.spec_interval(),
        ));
        self.write(descriptor_type::ENDPOINT, payload.as_slice())
    }

    /// Writes a string descriptor: the string as UTF-16 code units, each
    /// unit low byte first.
    ///
    /// Fails with `BufferOverflow`, and writes nothing, exactly when the
    /// descriptor has no room.
    pub fn write_string(&mut self, string: &str) -> (r: Result<(), UsbError>)
        ensures
            final(final(self).target())@ == final(old(self).target())@,
            old(self).has_room(2 * spec_utf16(string@).len()) ==> r is Ok && old(self).appended(
                *final(self),
                descriptor_type::STRING,
                spec_le_bytes(spec_utf16(string@)),
            ) && final(self).position() == old(self).position() + 2 + 2 * spec_utf16(
                string@,
            ).len(),
            !old(self).has_room(2 * spec_utf16(string@).len()) ==> r == Err::<(), UsbError>(
                UsbError::BufferOverflow,
            ) && old(self).untouched(*final(self)),
    {
        let mut payload = [0u8; 254];
        let mut n: usize = 0;
        let chars = string.unicode_len();
        let mut i: usize = 0;
        while i < chars
            invariant
                i <= chars,
                chars == string@.len(),
                n <= 253,
                n == 2 * spec_utf16(string@.subrange(0, i as int)).len(),
                payload@.subrange(0, n as int) == spec_le_bytes(
                    spec_utf16(string@.subrange(0, i as int)),
                ),
                *self == *old(self),
            decreases chars - i,
        {
            let c = string.get_char(i);
            let v: u32 = c as u32;
            let ghost before = payload@;
            proof {
                lemma_utf16_step(string@, i as int);
                lemma_utf16_prefix(string@, i as int + 1);
                lemma_le_bytes_len(spec_utf16(string@));
            }
            if v < 0x10000 {
                if n + 2 > 253 {
                    return Err(UsbError::BufferOverflow);
                }
                let unit = v as u16;
                payload[n] = lo(unit);
                payload[n + 1] = hi(unit);
                proof {
                    assert(payload@.subrange(0, n as int + 2).subrange(0, n as int)
                        =~= before.subrange(0, n as int));
                    lemma_le_bytes_push(
                        spec_utf16(string@.subrange(0, i as int)),
                        seq![unit],
                        payload@.subrange(0, n as int + 2),
                    );
                }
                n = n + 2;
            } else {
                if n + 4 > 253 {
                    return Err(UsbError::BufferOverflow);
                }
                let high = (0xD800 + (v - 0x10000) / 0x400) as u16;
                let low = (0xDC00 + (v - 0x10000) % 0x400) as u16;
                payload[n] = lo(high);
                payload[n + 1] = hi(high);
                payload[n + 2] = lo(low);
                payload[n + 3] = hi(low);
                proof {
                    assert(payload@.subrange(0, n as int + 4).subrange(0, n as int)
                        =~= before.subrange(0, n as int));
                    lemma_le_bytes_push(
                        spec_utf16(string@.subrange(0, i as int)),
                        seq![high, low],
                        payload@.subrange(0, n as int + 4),
                    );
                }
                n = n + 4;
            }
            i = i + 1;
        }
        assert(string@.subrange(0, i as int) =~= string@);
        proof {
            lemma_le_bytes_len(spec_utf16(string@));
        }
        self.write(descriptor_type::STRING, slice_subrange(payload.as_slice(), 0, n))
    }
}

/// The units of a prefix that is one character longer are the units of the
/// prefix followed by those of the character.
pub proof fn lemma_utf16_step(s: Seq<char>, i: int)
    requires
        0 <= i < s.len(),
    ensures
        spec_utf16(s.subrange(0, i + 1)) == spec_utf16(s.subrange(0, i)) + spec_utf16_char(s[i]),
        1 <= spec_utf16_char(s[i]).len() <= 2,
{
    assert(s.subrange(0, i + 1).drop_last() =~= s.subrange(0, i));
}

/// A prefix of a string has no more units than the string.
pub proof fn lemma_utf16_prefix(s: Seq<char>, i: int)
    requires
        0 <= i <= s.len(),
    ensures
        spec_utf16(s.subrange(0, i)).len() <= spec_utf16(s).len(),
    decreases s.len() - i,
{
    if i < s.len() {
        lemma_utf16_step(s, i);
        lemma_utf16_prefix(s, i + 1);
    } else {
        assert(s.subrange(0, i) =~= s);
    }
}

/// Every unit gives two bytes.
pub proof fn lemma_le_bytes_len(units: Seq<u16>)
    ensures
        spec_le_bytes(units).len() == 2 * units.len(),
    decreases units.len(),
{
    if units.len() > 0 {
        lemma_le_bytes_len(units.drop_last());
    }
}

/// The bytes of two runs of units, one after the other, are the bytes of the
/// first followed by the bytes of the second.
pub proof fn lemma_le_bytes_concat(a: Seq<u16>, b: Seq<u16>)
    ensures
        spec_le_bytes(a + b) == spec_le_bytes(a) + spec_le_bytes(b),
    decreases b.len(),
{
    if b.len() == 0 {
        assert(a + b =~= a);
        assert(spec_le_bytes(a) + spec_le_bytes(b) =~= spec_le_bytes(a));
    } else {
        assert((a + b).drop_last() =~= a + b.drop_last());
        lemma_le_bytes_concat(a, b.drop_last());
        assert((a + b).last() == b.last());
        assert(spec_le_bytes(a + b) =~= spec_le_bytes(a) + spec_le_bytes(b));
    }
}

/// A buffer that holds the bytes of `a` and then those of one or two more
/// units holds the bytes of all of them.
proof fn lemma_le_bytes_push(a: Seq<u16>, b: Seq<u16>, bytes: Seq<u8>)
    requires
        1 <= b.len() <= 2,
        bytes.len() == 2 * a.len() + 2 * b.len(),
        bytes.subrange(0, 2 * a.len() as int) == spec_le_bytes(a),
        forall|k: int|
            0 <= k < b.len() ==> bytes[2 * a.len() + 2 * k] == spec_lo(#[trigger] b[k]) && bytes[2
                * a.len() + 2 * k + 1] == spec_hi(b[k]),
    ensures
        bytes == spec_le_bytes(a + b),
{
    lemma_le_bytes_concat(a, b);
    lemma_le_bytes_len(a);
    lemma_le_bytes_len(b);
    assert(b.drop_last().len() <= 1);
    if b.len() == 2 {
        assert(b.drop_last().drop_last().len() == 0);
        assert(spec_le_bytes(b.drop_last()) =~= seq![spec_lo(b[0]), spec_hi(b[0])]);
        assert(spec_le_bytes(b) =~= seq![spec_lo(b[0]), spec_hi(b[0]), spec_lo(b[1]), spec_hi(b[1])]);
    } else {
        assert(spec_le_bytes(b) =~= seq![spec_lo(b[0]), spec_hi(b[0])]);
    }
    assert(bytes =~= bytes.subrange(0, 2 * a.len() as int) + spec_le_bytes(b));
}

} // verus!
