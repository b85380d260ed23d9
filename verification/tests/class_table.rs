use std::cell::RefCell;
use std::rc::Rc;

use usb_device::bus::StringIndex;
use usb_device::bus::UsbBusAllocator;
use usb_device::bus::FakeBus;
use usb_device::class::ClassTable;
use usb_device::class::UsbClass;
use usb_device::class::MAX_CLASSES;
use usb_device::control::Request;
use usb_device::descriptor::DescriptorWriter;
use usb_device::device::ControlInResult;
use usb_device::device::ControlOutResult;
use usb_device::UsbError;

struct Silent;

impl UsbClass for Silent {}

struct Talker {
    name: char,
    heard: Rc<RefCell<Vec<(char, &'static str)>>>,
    out: ControlOutResult,
    answer: ControlInResult,
    string: Option<&'static str>,
}

impl UsbClass for Talker {
    fn reset(&mut self) -> Result<(), UsbError> {
        self.heard.borrow_mut().push((self.name, "reset"));
        Err(UsbError::InvalidState)
    }

    fn control_out(&mut self, _req: &Request, _data: &[u8]) -> ControlOutResult {
        self.heard.borrow_mut().push((self.name, "out"));
        self.out
    }

    fn control_in(&mut self, _req: &Request, data: &mut [u8]) -> ControlInResult {
        self.heard.borrow_mut().push((self.name, "in"));
        data[0] = self.name as u8;
        self.answer
    }

    fn get_string(&self, _index: StringIndex, _lang_id: u16) -> Option<&str> {
        self.heard.borrow_mut().push((self.name, "string"));
        self.string
    }

    fn endpoint_out(&mut self, _addr: u8) {
        self.heard.borrow_mut().push((self.name, "ep out"));
    }
}

fn talkers(
    answers: [(ControlOutResult, ControlInResult, Option<&'static str>); 3],
) -> (ClassTable<dyn UsbClass>, Rc<RefCell<Vec<(char, &'static str)>>>) {
    let heard = Rc::new(RefCell::new(Vec::new()));
    let mut table: ClassTable<dyn UsbClass> = ClassTable::new();
    for (k, (out, answer, string)) in answers.into_iter().enumerate() {
        let name = (b'a' + k as u8) as char;
        table.register(Box::new(Talker { name, heard: heard.clone(), out, answer, string }));
    }
    (table, heard)
}

fn request() -> Request {
    match Request::parse(&[0xc0, 1, 0, 0, 0, 0, 8, 0]) {
        Ok(req) => req,
        Err(e) => panic!("not a request: {:?}", e),
    }
}

fn string_index() -> StringIndex {
    UsbBusAllocator::new(FakeBus {}).string()
}

#[test]
fn classes_without_overrides_do_nothing() {
    let mut class = Silent;
    let mut data = [7u8; 4];
    let mut buf = [0u8; 8];
    let mut writer = DescriptorWriter::new(&mut buf);
    assert_eq!(class.reset(), Ok(()));
    assert_eq!(class.get_configuration_descriptors(&mut writer), Ok(()));
    assert_eq!(writer.count(), 0);
    assert_eq!(class.control_out(&request(), &data), ControlOutResult::Ignore);
    assert_eq!(class.control_in(&request(), &mut data), ControlInResult::Ignore);
    assert_eq!(data, [7u8; 4]);
    class.endpoint_setup(1);
    class.endpoint_out(1);
    class.endpoint_in_complete(0x81);
    assert_eq!(class.get_string(string_index(), 0x0409), None);
}

#[test]
fn table_holds_up_to_eight_classes() {
    let mut table: ClassTable<Silent> = ClassTable::new();
    assert_eq!(table.len(), 0);
    for _ in 0..MAX_CLASSES {
        table.register(Box::new(Silent));
    }
    assert_eq!(table.len(), 8);
    assert_eq!(table.control_out(&request(), &[]), ControlOutResult::Ignore);
    assert_eq!(table.control_in(&request(), &mut [0u8; 4]), ControlInResult::Ignore);
    assert_eq!(table.get_string(string_index(), 0), None);
    table.class(7).endpoint_out(3);
}

#[test]
fn control_in_stops_at_the_first_answer() {
    let ignore = (ControlOutResult::Ignore, ControlInResult::Ignore, None);
    let (mut table, heard) =
        talkers([ignore, (ControlOutResult::Ignore, ControlInResult::Accept(1), None), ignore]);
    let mut data = [0u8; 4];
    assert_eq!(table.control_in(&request(), &mut data), ControlInResult::Accept(1));
    assert_eq!(*heard.borrow(), vec![('a', "in"), ('b', "in")]);
    assert_eq!(data[0], b'b');
}

#[test]
fn control_in_stops_at_a_rejection() {
    let ignore = (ControlOutResult::Ignore, ControlInResult::Ignore, None);
    let (mut table, heard) =
        talkers([(ControlOutResult::Ignore, ControlInResult::Reject, None), ignore, ignore]);
    assert_eq!(table.control_in(&request(), &mut [0u8; 4]), ControlInResult::Reject);
    assert_eq!(*heard.borrow(), vec![('a', "in")]);
}

#[test]
fn control_out_asks_everyone_when_all_ignore() {
    let ignore = (ControlOutResult::Ignore, ControlInResult::Ignore, None);
    let (mut table, heard) = talkers([ignore, ignore, ignore]);
    assert_eq!(table.control_out(&request(), &[1]), ControlOutResult::Ignore);
    assert_eq!(*heard.borrow(), vec![('a', "out"), ('b', "out"), ('c', "out")]);
}

#[test]
fn control_out_stops_at_the_first_answer() {
    let ignore = (ControlOutResult::Ignore, ControlInResult::Ignore, None);
    let (mut table, heard) =
        talkers([ignore, ignore, (ControlOutResult::Accept, ControlInResult::Ignore, None)]);
    assert_eq!(table.control_out(&request(), &[1]), ControlOutResult::Accept);
    assert_eq!(heard.borrow().len(), 3);
    let (mut table, heard) =
        talkers([(ControlOutResult::Reject, ControlInResult::Ignore, None), ignore, ignore]);
    assert_eq!(table.control_out(&request(), &[1]), ControlOutResult::Reject);
    assert_eq!(*heard.borrow(), vec![('a', "out")]);
}

#[test]
fn get_string_stops_at_the_first_string() {
    let ignore = (ControlOutResult::Ignore, ControlInResult::Ignore, None);
    let (mut table, heard) = talkers([
        ignore,
        (ControlOutResult::Ignore, ControlInResult::Ignore, Some("second")),
        (ControlOutResult::Ignore, ControlInResult::Ignore, Some("third")),
    ]);
    assert_eq!(table.get_string(string_index(), 0x0409), Some("second"));
    assert_eq!(*heard.borrow(), vec![('a', "string"), ('b', "string")]);
}

#[test]
fn broadcasts_reach_every_class_in_order() {
    let ignore = (ControlOutResult::Ignore, ControlInResult::Ignore, None);
    let (mut table, heard) = talkers([ignore, ignore, ignore]);
    table.reset();
    table.endpoint_out(2);
    assert_eq!(
        *heard.borrow(),
        vec![
            ('a', "reset"),
            ('b', "reset"),
            ('c', "reset"),
            ('a', "ep out"),
            ('b', "ep out"),
            ('c', "ep out")
        ]
    );
}

#[test]
fn descriptors_are_asked_of_one_class() {
    let ignore = (ControlOutResult::Ignore, ControlInResult::Ignore, None);
    let (mut table, heard) = talkers([ignore, ignore, ignore]);
    let mut buf = [0u8; 8];
    let mut writer = DescriptorWriter::new(&mut buf);
    assert_eq!(table.get_configuration_descriptors(1, &mut writer), Ok(()));
    assert!(heard.borrow().is_empty());
}
