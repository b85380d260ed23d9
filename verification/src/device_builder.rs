//! Putting a device together.

use vstd::prelude::*;
use crate::UsbError;
use crate::bus::UsbBus;
use crate::bus::UsbBusAllocator;
use crate::class::ClassTable;
use crate::class::MAX_CLASSES;
use crate::class::UsbClass;
use crate::device::model::spec_bring_up;
use crate::device::model::spec_brought_up;
use crate::device::model::spec_fresh;
use crate::device::UsbDevice;
use crate::device::UsbDeviceInfo;

verus! {

/// A USB vendor ID and product ID pair.
#[derive(Debug, Clone, Copy, PartialEq, Eq, Structural)]
pub struct UsbVidPid(pub u16, pub u16);

/// The identity of a device for which only the vendor and product IDs have
/// been given: class, subclass and protocol 0, packets of 8 bytes on
/// endpoint zero, release 0.10, empty strings, powered by the bus, without
/// remote wakeup, drawing 100 mA.
pub open spec fn spec_default_info(vid_pid: UsbVidPid) -> UsbDeviceInfo<'static> {
    UsbDeviceInfo {
        device_class: 0x00,
        device_sub_class: 0x00,
        device_protocol: 0x00,
        max_packet_size_0: 8,
        vendor_id: vid_pid.0,
        product_id: vid_pid.1,
        device_release: 0x0010,
        manufacturer: "",
        product: "",
        serial_number: "",
        self_powered: false,
        supports_remote_wakeup: false,
        max_power: 50,
    }
}

/// What is left of a device that could not be put together.
pub struct BuildError<B: UsbBus, C: UsbClass + ?Sized> {
    /// The error of the allocation that failed.
    pub error: UsbError,
    /// The gateway, as the attempt left it.
    pub bus: UsbBusAllocator<B>,
    /// The classes, untouched.
    pub classes: ClassTable<C>,
}

/// Used to build new [`UsbDevice`]s.
pub struct UsbDeviceBuilder<'a, B: UsbBus, C: UsbClass + ?Sized> {
    bus: UsbBusAllocator<B>,
    info: UsbDeviceInfo<'a>,
    _classes: core::marker::PhantomData<C>,
}

impl<'a, B: UsbBus, C: UsbClass + ?Sized> UsbDeviceBuilder<'a, B, C> {
    /// The gateway through which the device will reach the peripheral.
    pub closed spec fn gateway(&self) -> UsbBusAllocator<B> {
        self.bus
    }

    /// The identity that the device will have.
    pub closed spec fn info(&self) -> UsbDeviceInfo<'a> {
        self.info
    }

    pub(crate) fn new(bus: UsbBusAllocator<B>, vid_pid: UsbVidPid) -> (builder: UsbDeviceBuilder<
        'a,
        B,
        C,
    >)
        ensures
            builder.gateway() == bus,
            builder.info() == spec_default_info(vid_pid),
            builder.info().wf(),
    {
        UsbDeviceBuilder {
            bus,
            info: UsbDeviceInfo {
                device_class: 0x00,
                device_sub_class: 0x00,
                device_protocol: 0x00,
                max_packet_size_0: 8,
                vendor_id: vid_pid.0,
                product_id: vid_pid.1,
                device_release: 0x0010,
                manufacturer: "",
                product: "",
                serial_number: "",
                self_powered: false,
                supports_remote_wakeup: false,
                max_power: 50,
            },
            _classes: core::marker::PhantomData,
        }
    }

    /// Sets the device class code assigned by USB.org. Set to `0xff` for
    /// vendor-specific devices that do not conform to any class. Default:
    /// `0x00` (class code specified by interfaces).
    pub fn device_class(self, device_class: u8) -> (builder: Self)
        ensures
            builder.gateway() == self.gateway(),
            builder.info() == (UsbDeviceInfo { device_class, ..self.info() }),
    {
        UsbDeviceBuilder {
            bus: self.bus,
            info: UsbDeviceInfo { device_class, ..self.info },
            _classes: core::marker::PhantomData,
        }
    }

    /// Sets the device sub-class code. Depends on the class. Default: `0x00`.
    pub fn device_sub_class(self, device_sub_class: u8) -> (builder: Self)
        ensures
            builder.gateway() == self.gateway(),
            builder.info() == (UsbDeviceInfo { device_sub_class, ..self.info() }),
    {
        UsbDeviceBuilder {
            bus: self.bus,
            info: UsbDeviceInfo { device_sub_class, ..self.info },
            _classes: core::marker::PhantomData,
        }
    }

    /// Sets the device protocol code. Depends on the class and sub-class.
    /// Default: `0x00`.
    pub fn device_protocol(self, device_protocol: u8) -> (builder: Self)
        ensures
            builder.gateway() == self.gateway(),
            builder.info() == (UsbDeviceInfo { device_protocol, ..self.info() }),
    {
        UsbDeviceBuilder {
            bus: self.bus,
            info: UsbDeviceInfo { device_protocol, ..self.info },
            _classes: core::marker::PhantomData,
        }
    }

    /// Sets the device release version in BCD. Default: `0x0010` ("0.1").
    pub fn device_release(self, device_release: u16) -> (builder: Self)
        ensures
            builder.gateway() == self.gateway(),
            builder.info() == (UsbDeviceInfo { device_release, ..self.info() }),
    {
        UsbDeviceBuilder {
            bus: self.bus,
            info: UsbDeviceInfo { device_release, ..self.info },
            _classes: core::marker::PhantomData,
        }
    }

    /// Sets the manufacturer name string descriptor. Default: (none).
    pub fn manufacturer(self, manufacturer: &'a str) -> (builder: Self)
        ensures
            builder.gateway() == self.gateway(),
            builder.info() == (UsbDeviceInfo { manufacturer, ..self.info() }),
    {
        UsbDeviceBuilder {
            bus: self.bus,
            info: UsbDeviceInfo { manufacturer, ..self.info },
            _classes: core::marker::PhantomData,
        }
    }

    /// Sets the product name string descriptor. Default: (none).
    pub fn product(self, product: &'a str) -> (builder: Self)
        ensures
            builder.gateway() == self.gateway(),
            builder.info() == (UsbDeviceInfo { product, ..self.info() }),
    {
        UsbDeviceBuilder {
            bus: self.bus,
            info: UsbDeviceInfo { product, ..self.info },
            _classes: core::marker::PhantomData,
        }
    }

    /// Sets the serial number string descriptor. Default: (none).
    pub fn serial_number(self, serial_number: &'a str) -> (builder: Self)
        ensures
            builder.gateway() == self.gateway(),
            builder.info() == (UsbDeviceInfo { serial_number, ..self.info() }),
    {
        UsbDeviceBuilder {
            bus: self.bus,
            info: UsbDeviceInfo { serial_number, ..self.info },
            _classes: core::marker::PhantomData,
        }
    }

    /// Sets whether the device may have an external power source. This should
    /// be set to `true` even if the device is sometimes self-powered and may
    /// not always draw power from the USB bus. Default: `false`.
    pub fn self_powered(self, self_powered: bool) -> (builder: Self)
        ensures
            builder.gateway() == self.gateway(),
            builder.info() == (UsbDeviceInfo { self_powered, ..self.info() }),
    {
        UsbDeviceBuilder {
            bus: self.bus,
            info: UsbDeviceInfo { self_powered, ..self.info },
            _classes: core::marker::PhantomData,
        }
    }

    /// Sets whether the device supports remotely waking up the host if
    /// requested. Default: `false`.
    pub fn supports_remote_wakeup(self, supports_remote_wakeup: bool) -> (builder: Self)
        ensures
            builder.gateway() == self.gateway(),
            builder.info() == (UsbDeviceInfo { supports_remote_wakeup, ..self.info() }),
    {
        UsbDeviceBuilder {
            bus: self.bus,
            info: UsbDeviceInfo { supports_remote_wakeup, ..self.info },
            _classes: core::marker::PhantomData,
        }
    }

    /// Sets the maximum packet size in bytes for the control endpoint 0,
    /// which must be 8, 16, 32 or 64. Default: 8 bytes.
    pub fn max_packet_size_0(self, max_packet_size_0: u8) -> (builder: Self)
        requires
            max_packet_size_0 == 8 || max_packet_size_0 == 16 || max_packet_size_0 == 32
                || max_packet_size_0 == 64,
        ensures
            builder.gateway() == self.gateway(),
            builder.info() == (UsbDeviceInfo { max_packet_size_0, ..self.info() }),
            builder.info().wf(),
    {
        UsbDeviceBuilder {
            bus: self.bus,
            info: UsbDeviceInfo { max_packet_size_0, ..self.info },
            _classes: core::marker::PhantomData,
        }
    }

    /// Sets the maximum current drawn from the USB bus by the device in
    /// milliamps, which must be no more than 500. The identity of the
    /// device holds it in units of 2 mA. Default: 100 mA.
    pub fn max_power(self, max_power_ma: usize) -> (builder: Self)
        requires
            max_power_ma <= 500,
        ensures
            builder.gateway() == self.gateway(),
            builder.info() == (UsbDeviceInfo {
                max_power: (max_power_ma / 2) as u8,
                ..self.info()
            }),
    {
        UsbDeviceBuilder {
            bus: self.bus,
            info: UsbDeviceInfo { max_power: (max_power_ma / 2) as u8, ..self.info },
            _classes: core::marker::PhantomData,
        }
    }

    /// Creates the [`UsbDevice`] with the classes of `classes`: the two
    /// halves of endpoint zero are allocated, the peripheral is enabled, the
    /// gateway is frozen, and the device is reset.
    ///
    /// The gateway must not be frozen yet, and the table must hold no more
    /// than `MAX_CLASSES` classes. Fails with the error of the allocation
    /// that failed, and gives back the gateway and the classes.
    pub fn build(self, classes: ClassTable<C>) -> (r: Result<UsbDevice<'a, B, C>, BuildError<B, C>>)
        requires
            !self.gateway().is_frozen(),
            self.info().wf(),
            classes.spec_len() <= MAX_CLASSES,
        ensures
            match r {
                Ok(dev) => {
                    &&& dev.wf()
                    &&& dev.class_table().spec_len() == classes.spec_len()
                    &&& dev@.info == self.info()
                    &&& dev@.classes == classes.spec_len()
                    &&& spec_bring_up(
                        self.gateway()@,
                        self.info().max_packet_size_0,
                        dev@.bus.trace,
                    ).1 is None
                    &&& dev@ == spec_fresh(
                        self.info(),
                        spec_brought_up(self.gateway()@, self.info().max_packet_size_0),
                        classes.log(),
                        classes.spec_len() as int,
                    ).spec_reset(dev@.class_log)
                },
                Err(refused) => {
                    &&& refused.classes == classes
                    &&& spec_bring_up(
                        self.gateway()@,
                        self.info().max_packet_size_0,
                        refused.bus@.trace,
                    ) == (refused.bus@, Some(refused.error))
                },
            },
    {
        UsbDevice::build(self.bus, classes, self.info)
    }
}

} // verus!
