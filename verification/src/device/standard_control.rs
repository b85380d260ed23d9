//! The handler of the standard requests of chapter 9.

use vstd::prelude::*;
use crate::bus::StringIndex;
use crate::bus::UsbBus;
use crate::class::ClassCall;
use crate::class::lemma_traversal_read_back;
use crate::class::spec_added;
use crate::class::spec_dispatch_at;
use crate::class::spec_replay;
use crate::class::spec_string_answer;
use crate::class::spec_string_view;
use crate::class::UsbClass;
use crate::control::hi;
use crate::control::lo;
use crate::control::Recipient;
use crate::control::Request;
use crate::control::standard_request;
use crate::descriptor::descriptor_type;
use crate::descriptor::DescriptorWriter;
use crate::descriptor::lang_id;
use crate::descriptor::spec_descriptor;
use crate::descriptor::spec_overwrite;
use crate::device::ControlInResult;
use crate::device::ControlOutResult;
use crate::device::model::CONFIGURATION_VALUE;
use crate::device::model::DEFAULT_ALTERNATE_SETTING;
use crate::device::model::DeviceView;
use crate::device::model::FEATURE_DEVICE_REMOTE_WAKEUP;
use crate::device::model::FEATURE_ENDPOINT_HALT;
use crate::device::model::lemma_described_fits;
use crate::device::model::lemma_described_same;
use crate::device::model::lemma_described_stops;
use crate::device::model::spec_configuration_header;
use crate::device::model::spec_described;
use crate::device::model::spec_descriptor_type_index;
use crate::device::model::spec_device_descriptor;
use crate::device::model::spec_language_descriptor;
use crate::device::UsbDevice;
use crate::device::UsbDeviceState;
use crate::endpoint::EndpointAddress;
use crate::transfer::CONTROL_BUF_LEN;

verus! {

/// Gets the descriptor type and the descriptor index from the value field
/// of a GET_DESCRIPTOR request: its high and its low byte.
pub fn get_descriptor_type_index(value: u16) -> (r: (u8, u8))
    ensures
        r == spec_descriptor_type_index(value),
{
    (hi(value), lo(value))
}

impl<'a, B: UsbBus, C: UsbClass + ?Sized> UsbDevice<'a, B, C> {
    /// Handles a standard host-to-device request.
    pub(crate) fn standard_control_out(&mut self, req: &Request) -> (r: ControlOutResult)
        requires
            old(self).wf(),
        ensures
            final(self).wf(),
            final(self)@.continues(old(self)@),
            (final(self)@, r) == old(self)@.spec_standard_out(*req),
            final(self).class_table() == old(self).class_table(),
    {
        reveal(DeviceView::spec_standard_out);
        if req.recipient == Recipient::Device && req.request == standard_request::CLEAR_FEATURE
            && req.value == FEATURE_DEVICE_REMOTE_WAKEUP {
            self.remote_wakeup_enabled = false;
            ControlOutResult::Accept
        } else if req.recipient == Recipient::Endpoint && req.request
            == standard_request::CLEAR_FEATURE && req.value == FEATURE_ENDPOINT_HALT {
            self.bus.set_stalled(EndpointAddress::from(lo(req.index) & 0x8f), false);
            ControlOutResult::Accept
        } else if req.recipient == Recipient::Device && req.request
            == standard_request::SET_FEATURE && req.value == FEATURE_DEVICE_REMOTE_WAKEUP {
            self.remote_wakeup_enabled = true;
            ControlOutResult::Accept
        } else if req.recipient == Recipient::Endpoint && req.request
            == standard_request::SET_FEATURE && req.value == FEATURE_ENDPOINT_HALT {
            self.bus.set_stalled(EndpointAddress::from(lo(req.index) & 0x8f), true);
            ControlOutResult::Accept
        } else if req.recipient == Recipient::Device && req.request
            == standard_request::SET_ADDRESS && 1 <= req.value && req.value <= 127 {
            self.pending_address = req.value as u8;
            ControlOutResult::Accept
        } else if req.recipient == Recipient::Device && req.request
            == standard_request::SET_CONFIGURATION && req.value == CONFIGURATION_VALUE {
            self.device_state = UsbDeviceState::Configured;
            ControlOutResult::Accept
        } else if req.recipient == Recipient::Interface && req.request
            == standard_request::SET_INTERFACE && req.value == DEFAULT_ALTERNATE_SETTING {
            ControlOutResult::Accept
        } else {
            ControlOutResult::Reject
        }
    }

    /// Handles a standard device-to-host request.
    pub(crate) fn standard_control_in(&mut self, req: &Request) -> (r: ControlInResult)
        requires
            old(self).wf(),
        ensures
            final(self).wf(),
            final(self)@.continues(old(self)@),
            (final(self)@, r) == old(self)@.spec_standard_in(
                *req,
                final(self)@.bus.trace,
                final(self)@.class_log,
            ),
            final(self)@.same_transfer(old(self)@),
    {
        reveal(DeviceView::spec_standard_in);
        if req.recipient == Recipient::Device && req.request == standard_request::GET_STATUS {
            let status: u8 = if self.info.self_powered {
                0x01
            } else {
                0x00
            } + if self.remote_wakeup_enabled {
                0x02
            } else {
                0x00
            };
            self.control.buf[0] = status;
            self.control.buf[1] = 0;
            assert(self.control.buf@ =~= spec_overwrite(
                old(self).control.buf@,
                0,
                seq![status, 0u8],
            ));
            ControlInResult::Accept(2)
        } else if req.recipient == Recipient::Interface && req.request
            == standard_request::GET_STATUS {
            self.control.buf[0] = 0;
            self.control.buf[1] = 0;
            assert(self.control.buf@ =~= spec_overwrite(
                old(self).control.buf@,
                0,
                seq![0u8, 0u8],
            ));
            ControlInResult::Accept(2)
        } else if req.recipient == Recipient::Endpoint && req.request
            == standard_request::GET_STATUS {
            let stalled = self.bus.is_stalled(EndpointAddress::from(lo(req.index) & 0x8f));
            let status: u8 = if stalled {
                0x01
            } else {
                0x00
            };
            self.control.buf[0] = status;
            self.control.buf[1] = 0;
            assert(self.control.buf@ =~= spec_overwrite(
                old(self).control.buf@,
                0,
                seq![status, 0u8],
            ));
            ControlInResult::Accept(2)
        } else if req.recipient == Recipient::Device && req.request
            == standard_request::GET_DESCRIPTOR {
            self.handle_get_descriptor(req)
        } else if req.recipient == Recipient::Device && req.request
            == standard_request::GET_CONFIGURATION {
            let value: u8 = match self.device_state {
                UsbDeviceState::Configured => 1,
                _ => 0,
            };
            self.control.buf[0] = value;
            assert(self.control.buf@ =~= spec_overwrite(old(self).control.buf@, 0, seq![value]));
            ControlInResult::Accept(1)
        } else if req.recipient == Recipient::Interface && req.request
            == standard_request::GET_INTERFACE {
            self.control.buf[0] = 0;
            assert(self.control.buf@ =~= spec_overwrite(old(self).control.buf@, 0, seq![0u8]));
            ControlInResult::Accept(1)
        } else {
            ControlInResult::Reject
        }
    }

    /// Writes a string to the control buffer as a string descriptor.
    fn answer_string(&mut self, string: &str) -> (r: ControlInResult)
        requires
            old(self).wf(),
        ensures
            final(self).wf(),
            final(self)@.continues(old(self)@),
            (final(self)@, r) == old(self)@.spec_answer_string(string@),
            final(self)@.answered(old(self)@),
            final(self).class_table() == old(self).class_table(),
    {
        reveal(DeviceView::spec_answer_string);
        let mut writer = DescriptorWriter::new(&mut self.control.buf);
        let written = writer.write_string(string);
        let count = writer.finish();
        let r = match written {
            Ok(()) => ControlInResult::Accept(count),
            Err(_) => ControlInResult::Reject,
        };
        r
    }

    /// Asks the classes for a string and writes it to the control buffer as
    /// a string descriptor.
    fn class_string(&mut self, index: u8, lang_id: u16) -> (r: ControlInResult)
        requires
            old(self).wf(),
        ensures
            final(self).wf(),
            final(self)@.continues(old(self)@),
            (final(self)@, r) == old(self)@.spec_class_string(index, lang_id, final(self)@.class_log),
            final(self)@.answered(old(self)@),
            final(self).class_table().entries() == old(self).class_table().entries(),
    {
        reveal(DeviceView::spec_class_string);
        reveal(DeviceView::spec_answer_string);
        let found = self.classes.get_string(StringIndex::new(index), lang_id);
        let ghost said = spec_string_view(found);
        let r = match found {
            Some(string) => {
                let mut writer = DescriptorWriter::new(&mut self.control.buf);
                let written = writer.write_string(string);
                let count = writer.finish();
                match written {
                    Ok(()) => ControlInResult::Accept(count),
                    Err(_) => ControlInResult::Reject,
                }
            },
            None => ControlInResult::Reject,
        };
        proof {
            let before = old(self).classes.log();
            let after = self.classes.log();
            lemma_traversal_read_back(
                after,
                before.len() as int,
                spec_added(before, after),
                old(self).classes.spec_len() as int,
                |call: ClassCall| spec_string_answer(call, index, lang_id),
                None,
                said,
                |call: ClassCall| call.spec_string() is Some,
                |call: ClassCall|
                    ClassCall::GetString { index, lang_id, result: call.spec_string() },
            );
            assert(after =~= before + spec_added(before, after));
        }
        r
    }

    /// Handles a GET_DESCRIPTOR request.
    fn handle_get_descriptor(&mut self, req: &Request) -> (r: ControlInResult)
        requires
            old(self).wf(),
        ensures
            final(self).wf(),
            final(self)@.continues(old(self)@),
            (final(self)@, r) == old(self)@.spec_get_descriptor(*req, final(self)@.class_log),
            final(self)@.answered(old(self)@),
    {
        reveal(DeviceView::spec_get_descriptor);
        let (dtype, index) = get_descriptor_type_index(req.value);
        if dtype == descriptor_type::DEVICE {
            let payload: [u8; 16] = [
                0x00,
                0x02,  // bcdUSB
                self.info.device_class,  // bDeviceClass
                self.info.device_sub_class,  // bDeviceSubClass
                self.info.device_protocol,  // bDeviceProtocol
                self.info.max_packet_size_0,  // bMaxPacketSize0
                lo(self.info.vendor_id),
                hi(self.info.vendor_id),  // idVendor
                lo(self.info.product_id),
                hi(self.info.product_id),  // idProduct
                lo(self.info.device_release),
                hi(self.info.device_release),  // bcdDevice
                1,  // iManufacturer
                2,  // iProduct
                3,  // iSerialNumber
                1,  // bNumConfigurations
            ];
            assert(spec_descriptor(descriptor_type::DEVICE, payload@) =~= spec_device_descriptor(
                self.info,
            ));
            let mut writer = DescriptorWriter::new(&mut self.control.buf);
            let _ = writer.write(descriptor_type::DEVICE, payload.as_slice());
            ControlInResult::Accept(writer.finish())
        } else if dtype == descriptor_type::CONFIGURATION {
            self.configuration_descriptor()
        } else if dtype == descriptor_type::STRING {
            if index == 0 {
                let payload: [u8; 2] = [lo(lang_id::ENGLISH_US), hi(lang_id::ENGLISH_US)];
                assert(spec_descriptor(descriptor_type::STRING, payload@)
                    =~= spec_language_descriptor());
                let mut writer = DescriptorWriter::new(&mut self.control.buf);
                let _ = writer.write(descriptor_type::STRING, payload.as_slice());
                ControlInResult::Accept(writer.finish())
            } else if index == 1 {
                self.answer_string(self.info.manufacturer)
            } else if index == 2 {
                self.answer_string(self.info.product)
            } else if index == 3 {
                self.answer_string(self.info.serial_number)
            } else {
                self.class_string(index, req.index)
            }
        } else {
            ControlInResult::Reject
        }
    }

    /// Writes the configuration descriptor to the control buffer: the
    /// configuration descriptor proper, then what each class writes.
    fn configuration_descriptor(&mut self) -> (r: ControlInResult)
        requires
            old(self).wf(),
        ensures
            final(self).wf(),
            final(self)@.continues(old(self)@),
            (final(self)@, r) == old(self)@.spec_configuration(final(self)@.class_log),
            final(self)@.answered(old(self)@),
    {
        reveal(DeviceView::spec_configuration);
        let attributes: u8 = 0x80 + if self.info.self_powered {
            0x40
        } else {
            0x00
        } + if self.info.supports_remote_wakeup {
            0x20
        } else {
            0x00
        };
        let placeholder: [u8; 7] = [
            0,
            0,  // wTotalLength (placeholder)
            0,  // bNumInterfaces (placeholder)
            1,  // bConfigurationValue
            0,  // iConfiguration
            attributes,  // bmAttributes
            self.info.max_power,  // bMaxPower
        ];
        let mut scratch = [0u8; 128];
        let mut writer = DescriptorWriter::new(&mut scratch);
        let _ = writer.write(descriptor_type::CONFIGURATION, placeholder.as_slice());
        let ghost from = old(self).classes.log().len() as int;
        let ghost head = spec_descriptor(descriptor_type::CONFIGURATION, placeholder@);
        let n = self.classes.len();
        let mut i: usize = 0;
        assert(self.classes.log() =~= old(self).classes.log() + spec_replay(
            self.classes.log(),
            from,
            0,
            |call: ClassCall|
                ClassCall::GetConfigurationDescriptors {
                    before: Seq::<u8>::empty(),
                    capacity: CONTROL_BUF_LEN as nat,
                    result: call.spec_described(),
                    bytes: call.spec_described_bytes(),
                    interfaces: call.spec_described_interfaces(),
                },
        ));
        assert(writer.bytes() =~= head + Seq::<u8>::empty());
        while i < n
            invariant
                i <= n,
                n == self.classes.spec_len(),
                self.classes.spec_len() == old(self).classes.spec_len(),
                old(self).wf(),
                from == old(self).classes.log().len(),
                head.len() == 9,
                self.bus == old(self).bus,
                self.control == old(self).control,
                self.control_out == old(self).control_out,
                self.control_in == old(self).control_in,
                self.info == old(self).info,
                self.device_state == old(self).device_state,
                self.pending_address == old(self).pending_address,
                self.remote_wakeup_enabled == old(self).remote_wakeup_enabled,
                writer.capacity() == 128,
                self.classes.log().len() == from + i,
                self.classes.log() == old(self).classes.log() + spec_replay(
                    self.classes.log(),
                    from,
                    i as int,
                    |call: ClassCall|
                        ClassCall::GetConfigurationDescriptors {
                            before: Seq::<u8>::empty(),
                            capacity: CONTROL_BUF_LEN as nat,
                            result: call.spec_described(),
                            bytes: call.spec_described_bytes(),
                            interfaces: call.spec_described_interfaces(),
                        },
                ),
                spec_described(self.classes.log(), from, i as int).complete,
                spec_described(self.classes.log(), from, i as int).asked == i,
                spec_described(self.classes.log(), from, i as int).interfaces
                    == writer.interfaces(),
                writer.bytes() == head + spec_described(self.classes.log(), from, i as int).bytes,
            decreases n - i,
        {
            let mut part = [0u8; 128];
            let mut class_writer = DescriptorWriter::new(&mut part);
            assert(class_writer.bytes() =~= Seq::<u8>::empty());
            let ghost log_before = self.classes.log();
            let result = self.classes.get_configuration_descriptors(i, &mut class_writer);
            let ghost log = self.classes.log();
            let used = writer.count();
            let more = class_writer.count();
            proof {
                assert(class_writer.bytes().len() == more);
                assert(writer.bytes().len() == used);
                lemma_described_same(log_before, log, from, i as int);
                lemma_described_fits(log, from, i as int);
                assert(spec_dispatch_at(log, from + i) == log.last().call);
                assert(log =~= old(self).classes.log() + spec_replay(
                    log,
                    from,
                    i + 1,
                    |call: ClassCall|
                        ClassCall::GetConfigurationDescriptors {
                            before: Seq::<u8>::empty(),
                            capacity: CONTROL_BUF_LEN as nat,
                            result: call.spec_described(),
                            bytes: call.spec_described_bytes(),
                            interfaces: call.spec_described_interfaces(),
                        },
                ));
            }
            let appended = match result {
                Ok(()) => writer.append(&class_writer),
                Err(e) => Err(e),
            };
            if appended.is_err() {
                proof {
                    reveal(DeviceView::spec_configuration);
                    assert(!spec_described(log, from, i + 1).complete);
                    lemma_described_stops(log, from, i + 1, n as int);
                }
                return ControlInResult::Reject;
            }
            i = i + 1;
        }
        let total = writer.count();
        let interfaces = writer.num_interfaces();
        let length: [u8; 2] = [lo(total as u16), hi(total as u16)];
        let number: [u8; 1] = [interfaces as u8];
        let _ = writer.insert(2, length.as_slice());
        let _ = writer.insert(4, number.as_slice());
        proof {
            let d = spec_described(self.classes.log(), from, n as int);
            assert(writer.bytes() =~= spec_configuration_header(
                self.info,
                total as int,
                d.interfaces,
            ) + d.bytes);
        }
        self.control.load(writer.written());
        ControlInResult::Accept(total)
    }
}

} // verus!
