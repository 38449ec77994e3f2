//! Plain values of the `component:usb` interface: descriptors, locations, transfer parameters
//! and results.

use vstd::prelude::*;

verus! {

/// The error codes that a USB operation can end with.
#[derive(Debug, Clone, Copy, PartialEq, Eq, Structural)]
pub enum LibusbError {
    Io,
    InvalidParam,
    Access,
    NoDevice,
    NotFound,
    Busy,
    Timeout,
    Overflow,
    Pipe,
    Interrupted,
    NoMem,
    NotSupported,
    Other,
}

/// The error that a libusb return code stands for.
pub open spec fn error_of(code: int) -> LibusbError {
    if code == -1 {
        LibusbError::Io
    } else if code == -2 {
        LibusbError::InvalidParam
    } else if code == -3 {
        LibusbError::Access
    } else if code == -4 {
        LibusbError::NoDevice
    } else if code == -5 {
        LibusbError::NotFound
    } else if code == -6 {
        LibusbError::Busy
    } else if code == -7 {
        LibusbError::Timeout
    } else if code == -8 {
        LibusbError::Overflow
    } else if code == -9 {
        LibusbError::Pipe
    } else if code == -10 {
        LibusbError::Interrupted
    } else if code == -11 {
        LibusbError::NoMem
    } else if code == -12 {
        LibusbError::NotSupported
    } else {
        LibusbError::Other
    }
}

impl LibusbError {
    /// Reads a libusb return code as an error; unknown codes are `Other`.
    pub fn from_raw(value: i32) -> (error: Self)
        ensures
            error == error_of(value as int),
    {
        match value {
            -1 => LibusbError::Io,
            -2 => LibusbError::InvalidParam,
            -3 => LibusbError::Access,
            -4 => LibusbError::NoDevice,
            -5 => LibusbError::NotFound,
            -6 => LibusbError::Busy,
            -7 => LibusbError::Timeout,
            -8 => LibusbError::Overflow,
            -9 => LibusbError::Pipe,
            -10 => LibusbError::Interrupted,
            -11 => LibusbError::NoMem,
            -12 => LibusbError::NotSupported,
            _ => LibusbError::Other,
        }
    }

    /// The same reading under another name.
    pub fn from_i32(n: i32) -> (error: Self)
        ensures
            error == error_of(n as int),
    {
        Self::from_raw(n)
    }
}

/// Codes -1 to -12 name twelve different errors, none of them `Other`; every other code is
/// `Other`.
pub proof fn law_error_codes(a: int, b: int)
    ensures
        error_of(a) != LibusbError::Other <==> -12 <= a <= -1,
        -12 <= a <= -1 && error_of(a) == error_of(b) ==> a == b,
{
}

/// libusb's numbers for the errors, each with the one error it stands for.
pub proof fn law_each_error_has_its_code(code: int)
    ensures
        error_of(code) == LibusbError::Io <==> code == -1,
        error_of(code) == LibusbError::InvalidParam <==> code == -2,
        error_of(code) == LibusbError::Access <==> code == -3,
        error_of(code) == LibusbError::NoDevice <==> code == -4,
        error_of(code) == LibusbError::NotFound <==> code == -5,
        error_of(code) == LibusbError::Busy <==> code == -6,
        error_of(code) == LibusbError::Timeout <==> code == -7,
        error_of(code) == LibusbError::Overflow <==> code == -8,
        error_of(code) == LibusbError::Pipe <==> code == -9,
        error_of(code) == LibusbError::Interrupted <==> code == -10,
        error_of(code) == LibusbError::NoMem <==> code == -11,
        error_of(code) == LibusbError::NotSupported <==> code == -12,
        error_of(code) == LibusbError::Other <==> code < -12 || code > -1,
{
}

/// How fast a device is connected.
#[derive(Debug, Clone, Copy, PartialEq, Eq, Structural)]
pub enum UsbSpeed {
    Unknown,
    Low,
    Full,
    High,
    Super,
    SuperPlus,
    SuperPlusX2,
}

/// The speed that a libusb speed code stands for.
pub open spec fn speed_of(code: u8) -> UsbSpeed {
    if code == 1 {
        UsbSpeed::Low
    } else if code == 2 {
        UsbSpeed::Full
    } else if code == 3 {
        UsbSpeed::High
    } else if code == 4 {
        UsbSpeed::Super
    } else if code == 5 {
        UsbSpeed::SuperPlus
    } else if code == 6 {
        UsbSpeed::SuperPlusX2
    } else {
        UsbSpeed::Unknown
    }
}

/// libusb's numbers for the speeds, each with the one speed it stands for: they go up from low speed,
/// which is 1. Any other number is no known speed.
pub proof fn law_each_speed_has_its_code(code: u8)
    ensures
        speed_of(code) == UsbSpeed::Low <==> code == 1,
        speed_of(code) == UsbSpeed::Full <==> code == 2,
        speed_of(code) == UsbSpeed::High <==> code == 3,
        speed_of(code) == UsbSpeed::Super <==> code == 4,
        speed_of(code) == UsbSpeed::SuperPlus <==> code == 5,
        speed_of(code) == UsbSpeed::SuperPlusX2 <==> code == 6,
        speed_of(code) == UsbSpeed::Unknown <==> code == 0 || code > 6,
{
}

impl UsbSpeed {
    /// Reads a libusb speed code; unknown codes are `Unknown`.
    pub fn from_raw(value: u8) -> (speed: Self)
        ensures
            speed == speed_of(value),
    {
        match value {
            1 => UsbSpeed::Low,
            2 => UsbSpeed::Full,
            3 => UsbSpeed::High,
            4 => UsbSpeed::Super,
            5 => UsbSpeed::SuperPlus,
            6 => UsbSpeed::SuperPlusX2,
            _ => UsbSpeed::Unknown,
        }
    }

    /// Reads a speed code of a backend that knows no dual-lane speed: code 6 is `Unknown` here.
    pub fn from_u8(n: u8) -> (speed: Self)
        ensures
            speed == (if n == 6 {
                UsbSpeed::Unknown
            } else {
                speed_of(n)
            }),
    {
        match n {
            1 => UsbSpeed::Low,
            2 => UsbSpeed::Full,
            3 => UsbSpeed::High,
            4 => UsbSpeed::Super,
            5 => UsbSpeed::SuperPlus,
            _ => UsbSpeed::Unknown,
        }
    }
}

/// Where a device is plugged in.
#[derive(Debug, Clone, Copy, PartialEq, Eq, Structural)]
pub struct DeviceLocation {
    pub bus_number: u8,
    pub device_address: u8,
    pub port_number: u8,
    pub speed: UsbSpeed,
}

/// The standard device descriptor.
#[derive(Debug, Clone, Copy, PartialEq, Eq, Structural)]
pub struct DeviceDescriptor {
    pub length: u8,
    pub descriptor_type: u8,
    pub usb_version_bcd: u16,
    pub device_class: u8,
    pub device_subclass: u8,
    pub device_protocol: u8,
    pub max_packet_size0: u8,
    pub vendor_id: u16,
    pub product_id: u16,
    pub device_version_bcd: u16,
    pub manufacturer_index: u8,
    pub product_index: u8,
    pub serial_number_index: u8,
    pub num_configurations: u8,
}

/// One endpoint of an interface.
#[derive(Debug, Clone, Copy, PartialEq, Eq, Structural)]
pub struct EndpointDescriptor {
    pub length: u8,
    pub descriptor_type: u8,
    pub endpoint_address: u8,
    pub attributes: u8,
    pub max_packet_size: u16,
    pub interval: u8,
    pub refresh: u8,
    pub synch_address: u8,
}

impl EndpointDescriptor {
    /// Data flows from the device to the host: bit 7 of the address is set.
    pub open spec fn spec_is_in(&self) -> bool {
        self.endpoint_address >= 0x80
    }

    /// A bulk endpoint: the two lowest attribute bits are 2.
    pub open spec fn spec_is_bulk(&self) -> bool {
        self.attributes % 4 == 2
    }

    /// Whether data flows from the device to the host.
    #[verifier::when_used_as_spec(spec_is_in)]
    pub fn is_in(&self) -> (yes: bool)
        ensures
            yes == self.spec_is_in(),
    {
        let address: u8 = self.endpoint_address;
        assert((address & 0x80 != 0) == (address >= 0x80)) by (bit_vector);
        address & 0x80 != 0
    }

    /// Whether this is a bulk endpoint.
    #[verifier::when_used_as_spec(spec_is_bulk)]
    pub fn is_bulk(&self) -> (yes: bool)
        ensures
            yes == self.spec_is_bulk(),
    {
        let attributes: u8 = self.attributes;
        assert((attributes & 0x03 == 0x02) == (attributes % 4 == 2)) by (bit_vector);
        attributes & 0x03 == 0x02
    }
}

/// One alternate setting of an interface, with its endpoints.
#[derive(Debug)]
pub struct InterfaceDescriptor {
    pub length: u8,
    pub descriptor_type: u8,
    pub interface_number: u8,
    pub alternate_setting: u8,
    pub interface_class: u8,
    pub interface_subclass: u8,
    pub interface_protocol: u8,
    pub interface_index: u8,
    pub endpoints: Vec<EndpointDescriptor>,
}

/// A configuration: one entry for each alternate setting of each interface.
#[derive(Debug)]
pub struct ConfigurationDescriptor {
    pub length: u8,
    pub descriptor_type: u8,
    pub total_length: u16,
    pub configuration_value: u8,
    pub configuration_index: u8,
    pub attributes: u8,
    pub max_power: u8,
    pub interfaces: Vec<InterfaceDescriptor>,
}

/// A configuration to select.
#[derive(Debug, Clone, Copy, PartialEq, Eq, Structural)]
pub enum ConfigValue {
    Unconfigured,
    Value(u8),
}

/// The four kinds of USB transfer.
#[derive(Debug, Clone, Copy, PartialEq, Eq, Structural)]
pub enum TransferType {
    Control,
    Isochronous,
    Bulk,
    Interrupt,
}

/// The request of a control transfer.
#[derive(Debug, Clone, Copy, PartialEq, Eq, Structural)]
pub struct TransferSetup {
    pub bm_request_type: u8,
    pub b_request: u8,
    pub w_value: u16,
    pub w_index: u16,
}

/// Where a transfer goes and how long it may take.
#[derive(Debug, Clone, Copy, PartialEq, Eq, Structural)]
pub struct TransferOptions {
    pub endpoint: u8,
    pub timeout_ms: u32,
    pub stream_id: u32,
    pub iso_packets: u32,
}

/// How one isochronous packet ended.
#[derive(Debug, Clone, Copy, PartialEq, Eq, Structural)]
pub enum IsoPacketStatus {
    Success,
    Error,
    TimedOut,
    Cancelled,
    Stall,
    NoDevice,
    Overflow,
}

/// One isochronous packet of a finished transfer.
#[derive(Debug, Clone, Copy, PartialEq, Eq, Structural)]
pub struct IsoPacket {
    pub actual_length: u32,
    pub status: IsoPacketStatus,
}

/// What a finished transfer delivered.
#[derive(Debug)]
pub struct TransferResult {
    pub data: Vec<u8>,
    pub packets: Vec<IsoPacket>,
}

/// A hotplug event as a set of flags.
#[derive(Debug, Clone, Copy, PartialEq, Eq, Structural)]
pub struct Event {
    pub arrived: bool,
    pub left: bool,
}

/// Which device a hotplug event is about.
#[derive(Debug, Clone, Copy, PartialEq, Eq, Structural)]
pub struct Info {
    pub bus: u8,
    pub address: u8,
    pub vendor: u16,
    pub product: u16,
}

/// A device, by the address under which libusb knows it.
#[derive(Debug, Clone, Copy, PartialEq, Eq, Structural)]
pub struct UsbDevice {
    pub device: usize,
}

/// An open device, by the address under which libusb knows it.
#[derive(Debug, Clone, Copy, PartialEq, Eq, Structural)]
pub struct UsbDeviceHandle {
    pub handle: usize,
}

/// Both readings of a speed agree, but for the dual-lane speed, which only one of them knows.
pub proof fn law_speed_readings_agree(code: u8, raw: UsbSpeed, other: UsbSpeed)
    requires
        call_ensures(UsbSpeed::from_raw, (code,), raw),
        call_ensures(UsbSpeed::from_u8, (code,), other),
    ensures
        code != 6 ==> other == raw,
        code == 6 ==> raw == UsbSpeed::SuperPlusX2 && other == UsbSpeed::Unknown,
{
}

/// Data comes in on the endpoints whose address has its highest bit set; bulk endpoints have the two
/// lowest attribute bits 2, whatever the others are.
pub proof fn law_endpoint_bits(endpoint: EndpointDescriptor)
    ensures
        endpoint.is_in() <==> endpoint.endpoint_address / 128 == 1,
        endpoint.is_bulk() <==> endpoint.attributes % 2 == 0 && endpoint.attributes / 2 % 2 == 1,
{
}

} // verus!
