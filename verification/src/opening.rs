//! Opening a mass-storage device: which device, which interface, which endpoints, and in which
//! order the bus is asked. Each step says what to do next; the caller does it and reports.

use vstd::prelude::*;

use crate::bulk_only::{NativeTransport, WasmTransport};
use crate::types::{
    ConfigurationDescriptor, DeviceDescriptor, EndpointDescriptor, InterfaceDescriptor,
    TransferOptions, TransferSetup,
};

verus! {

/// USB mass storage.
pub const CLASS_MASS_STORAGE: u8 = 0x08;

/// Bulk-Only Transport.
pub const PROTOCOL_BULK_ONLY: u8 = 0x50;

/// Bulk-Only Mass Storage Reset.
pub const REQUEST_RESET: u8 = 0xff;

// ---------------------------------------------------------------------------
// Choosing
// ---------------------------------------------------------------------------

impl DeviceDescriptor {
    /// A device of this vendor and product.
    pub open spec fn is_kind(self, vid: u16, pid: u16) -> bool {
        self.vendor_id == vid && self.product_id == pid
    }
}

/// Where the first device of this kind stands; the length of the list where there is none.
pub open spec fn first_device(devices: Seq<DeviceDescriptor>, vid: u16, pid: u16) -> int
    decreases devices.len(),
{
    if devices.len() == 0 || devices[0].is_kind(vid, pid) {
        0
    } else {
        1 + first_device(devices.skip(1), vid, pid)
    }
}

/// Finds the first device of this vendor and product.
pub fn find_device(devices: &[DeviceDescriptor], vid: u16, pid: u16) -> (found: Option<usize>)
    ensures
        found == (if first_device(devices@, vid, pid) < devices@.len() {
            Some(first_device(devices@, vid, pid) as usize)
        } else {
            None
        }),
        match found {
            Some(i) => {
                &&& i < devices@.len()
                &&& devices@[i as int].is_kind(vid, pid)
                &&& forall|j: int| 0 <= j < i ==> !(#[trigger] devices@[j]).is_kind(vid, pid)
            },
            None => forall|j: int|
                0 <= j < devices@.len() ==> !(#[trigger] devices@[j]).is_kind(vid, pid),
        },
{
    let mut i: usize = 0;
    assert(devices@.skip(0) =~= devices@);
    while i < devices.len()
        invariant
            i <= devices@.len(),
            first_device(devices@, vid, pid) == i + first_device(
                devices@.skip(i as int),
                vid,
                pid,
            ),
            forall|j: int| 0 <= j < i ==> !(#[trigger] devices@[j]).is_kind(vid, pid),
        decreases devices@.len() - i,
    {
        let device = &devices[i];
        if device.vendor_id == vid && device.product_id == pid {
            return Some(i);
        }
        assert(devices@.skip(i as int).skip(1) =~= devices@.skip(i + 1));
        i += 1;
    }
    None
}

/// The search for a device ends at the first of the kind, or at the end of the list.
pub proof fn law_search_ends_at_the_first(devices: Seq<DeviceDescriptor>, vid: u16, pid: u16)
    ensures
        ({
            let found = first_device(devices, vid, pid);
            &&& 0 <= found <= devices.len()
            &&& found < devices.len() ==> devices[found].vendor_id == vid
                && devices[found].product_id == pid
            &&& forall|j: int|
                0 <= j < found ==> (#[trigger] devices[j]).vendor_id != vid
                    || devices[j].product_id != pid
        }),
    decreases devices.len(),
{
    if devices.len() > 0 && !devices[0].is_kind(vid, pid) {
        let rest = devices.skip(1);
        law_search_ends_at_the_first(rest, vid, pid);
        let found = first_device(devices, vid, pid);
        assert forall|j: int| 0 <= j < found implies (#[trigger] devices[j]).vendor_id != vid
            || devices[j].product_id != pid by {
            if j > 0 {
                assert(rest[j - 1] == devices[j]);
            }
        }
    }
}

/// A device of the kind that none of the kind comes before is the one that is found.
pub proof fn law_first_device_is_found(
    devices: Seq<DeviceDescriptor>,
    vid: u16,
    pid: u16,
    first: int,
)
    requires
        0 <= first < devices.len(),
        devices[first].vendor_id == vid,
        devices[first].product_id == pid,
        forall|j: int|
            0 <= j < first ==> (#[trigger] devices[j]).vendor_id != vid || devices[j].product_id
                != pid,
    ensures
        first_device(devices, vid, pid) == first,
{
    law_search_ends_at_the_first(devices, vid, pid);
}

impl InterfaceDescriptor {
    /// A mass-storage interface that speaks Bulk-Only Transport.
    pub open spec fn is_bulk_only(self) -> bool {
        self.interface_class == CLASS_MASS_STORAGE && self.interface_protocol
            == PROTOCOL_BULK_ONLY
    }

    fn speaks_bulk_only(&self) -> (yes: bool)
        ensures
            yes == self.is_bulk_only(),
    {
        self.interface_class == CLASS_MASS_STORAGE && self.interface_protocol
            == PROTOCOL_BULK_ONLY
    }
}

/// The number of the first Bulk-Only interface, 0 where there is none.
pub open spec fn bulk_only_number(interfaces: Seq<InterfaceDescriptor>) -> u8
    decreases interfaces.len(),
{
    if interfaces.len() == 0 {
        0
    } else if interfaces[0].is_bulk_only() {
        interfaces[0].interface_number
    } else {
        bulk_only_number(interfaces.skip(1))
    }
}

/// The interface that is claimed is the first whose class is 8, mass storage, and whose protocol is
/// 0x50, Bulk-Only; without one it is interface 0.
pub proof fn law_first_storage_interface(interfaces: Seq<InterfaceDescriptor>, first: int)
    requires
        0 <= first <= interfaces.len(),
        first < interfaces.len() ==> interfaces[first].interface_class == 8
            && interfaces[first].interface_protocol == 0x50,
        forall|j: int|
            0 <= j < first ==> (#[trigger] interfaces[j]).interface_class != 8
                || interfaces[j].interface_protocol != 0x50,
    ensures
        first < interfaces.len() ==> bulk_only_number(interfaces)
            == interfaces[first].interface_number,
        first == interfaces.len() ==> bulk_only_number(interfaces) == 0,
    decreases interfaces.len(),
{
    if first > 0 {
        let rest = interfaces.skip(1);
        assert(!interfaces[0].is_bulk_only());
        assert forall|j: int| 0 <= j < first - 1 implies (#[trigger] rest[j]).interface_class != 8
            || rest[j].interface_protocol != 0x50 by {
            assert(rest[j] == interfaces[j + 1]);
        }
        law_first_storage_interface(rest, first - 1);
    }
}

/// Chooses the interface to claim.
pub fn choose_interface(interfaces: &[InterfaceDescriptor]) -> (number: u8)
    ensures
        number == bulk_only_number(interfaces@),
{
    let mut i: usize = 0;
    assert(interfaces@.skip(0) =~= interfaces@);
    while i < interfaces.len()
        invariant
            i <= interfaces@.len(),
            bulk_only_number(interfaces@) == bulk_only_number(interfaces@.skip(i as int)),
        decreases interfaces@.len() - i,
    {
        if interfaces[i].speaks_bulk_only() {
            return interfaces[i].interface_number;
        }
        assert(interfaces@.skip(i as int).skip(1) =~= interfaces@.skip(i + 1));
        i += 1;
    }
    0
}

/// The address of the last bulk endpoint in this direction.
pub open spec fn last_bulk(endpoints: Seq<EndpointDescriptor>, incoming: bool) -> Option<u8>
    decreases endpoints.len(),
{
    if endpoints.len() == 0 {
        None
    } else if endpoints.last().is_bulk() && endpoints.last().is_in() == incoming {
        Some(endpoints.last().endpoint_address)
    } else {
        last_bulk(endpoints.drop_last(), incoming)
    }
}

/// Of the endpoints that are bulk, by the two lowest bits of their attributes, and lie in the
/// direction that is asked for, from 0x80 on where data comes in and below where it goes out, the
/// last one counts.
pub proof fn law_last_bulk_endpoint(endpoints: Seq<EndpointDescriptor>, incoming: bool, last: int)
    requires
        -1 <= last < endpoints.len(),
        last >= 0 ==> endpoints[last].attributes % 4 == 2 && (endpoints[last].endpoint_address
            >= 0x80) == incoming,
        forall|j: int|
            last < j < endpoints.len() ==> (#[trigger] endpoints[j]).attributes % 4 != 2 || (
            endpoints[j].endpoint_address >= 0x80) != incoming,
    ensures
        last >= 0 ==> last_bulk(endpoints, incoming) == Some(endpoints[last].endpoint_address),
        last == -1 ==> last_bulk(endpoints, incoming) is None,
    decreases endpoints.len(),
{
    if last < endpoints.len() - 1 {
        let front = endpoints.drop_last();
        assert(endpoints[endpoints.len() - 1] == endpoints.last());
        assert forall|j: int| last < j < front.len() implies (#[trigger] front[j]).attributes % 4
            != 2 || (front[j].endpoint_address >= 0x80) != incoming by {
            assert(front[j] == endpoints[j]);
        }
        law_last_bulk_endpoint(front, incoming, last);
    }
}

/// An endpoint that was found has the direction that was asked for.
pub proof fn law_bulk_endpoints_face_their_way(endpoints: Seq<EndpointDescriptor>, incoming: bool)
    ensures
        last_bulk(endpoints, incoming) matches Some(address) ==> (address >= 0x80) == incoming,
    decreases endpoints.len(),
{
    if endpoints.len() > 0 {
        law_bulk_endpoints_face_their_way(endpoints.drop_last(), incoming);
    }
}

/// The last incoming and the last outgoing bulk endpoint.
pub fn find_bulk(endpoints: &[EndpointDescriptor]) -> (found: (Option<u8>, Option<u8>))
    ensures
        found.0 == last_bulk(endpoints@, true),
        found.1 == last_bulk(endpoints@, false),
{
    let mut in_ep: Option<u8> = None;
    let mut out_ep: Option<u8> = None;
    let mut i: usize = 0;
    while i < endpoints.len()
        invariant
            i <= endpoints@.len(),
            in_ep == last_bulk(endpoints@.take(i as int), true),
            out_ep == last_bulk(endpoints@.take(i as int), false),
        decreases endpoints@.len() - i,
    {
        assert(endpoints@.take(i + 1).drop_last() =~= endpoints@.take(i as int));
        let endpoint = &endpoints[i];
        if endpoint.is_bulk() {
            if endpoint.is_in() {
                in_ep = Some(endpoint.endpoint_address);
            } else {
                out_ep = Some(endpoint.endpoint_address);
            }
        }
        i += 1;
    }
    assert(endpoints@.take(i as int) =~= endpoints@);
    (in_ep, out_ep)
}

/// An endpoint address, 0 for none.
pub open spec fn or_zero(endpoint: Option<u8>) -> u8 {
    match endpoint {
        Some(address) => address,
        None => 0,
    }
}

/// The endpoints of the first entry with this interface number: its last incoming and last outgoing
/// bulk endpoint, 0 for one that is not there. `None` where no entry has the number.
pub open spec fn endpoints_of(interfaces: Seq<InterfaceDescriptor>, number: u8) -> Option<(u8, u8)>
    decreases interfaces.len(),
{
    if interfaces.len() == 0 {
        None
    } else if interfaces[0].interface_number == number {
        let endpoints = interfaces[0].endpoints@;
        Some((or_zero(last_bulk(endpoints, true)), or_zero(last_bulk(endpoints, false))))
    } else {
        endpoints_of(interfaces.skip(1), number)
    }
}

/// Of the entries with the number of the claimed interface the first counts: its incoming endpoint
/// comes first, its outgoing endpoint second, and one that it lacks is 0.
pub proof fn law_endpoints_of_the_first_entry(
    interfaces: Seq<InterfaceDescriptor>,
    number: u8,
    first: int,
)
    requires
        0 <= first <= interfaces.len(),
        first < interfaces.len() ==> interfaces[first].interface_number == number,
        forall|j: int|
            0 <= j < first ==> (#[trigger] interfaces[j]).interface_number != number,
    ensures
        first == interfaces.len() ==> endpoints_of(interfaces, number) is None,
        first < interfaces.len() ==> {
            let endpoints = interfaces[first].endpoints@;
            &&& endpoints_of(interfaces, number) matches Some((bulk_in, bulk_out))
            &&& match last_bulk(endpoints, true) {
                Some(address) => bulk_in == address && bulk_in >= 0x80,
                None => bulk_in == 0,
            }
            &&& match last_bulk(endpoints, false) {
                Some(address) => bulk_out == address && bulk_out < 0x80,
                None => bulk_out == 0,
            }
        },
    decreases interfaces.len(),
{
    if first < interfaces.len() {
        law_bulk_endpoints_face_their_way(interfaces[first].endpoints@, true);
        law_bulk_endpoints_face_their_way(interfaces[first].endpoints@, false);
    }
    if first > 0 {
        let rest = interfaces.skip(1);
        assert(interfaces[0].interface_number != number);
        assert forall|j: int| 0 <= j < first - 1 implies (#[trigger] rest[j]).interface_number
            != number by {
            assert(rest[j] == interfaces[j + 1]);
        }
        law_endpoints_of_the_first_entry(rest, number, first - 1);
    }
}

/// Finds the endpoints of an interface.
pub fn find_endpoints(interfaces: &[InterfaceDescriptor], number: u8) -> (found: Option<(u8, u8)>)
    ensures
        found == endpoints_of(interfaces@, number),
{
    let mut i: usize = 0;
    assert(interfaces@.skip(0) =~= interfaces@);
    while i < interfaces.len()
        invariant
            i <= interfaces@.len(),
            endpoints_of(interfaces@, number) == endpoints_of(interfaces@.skip(i as int), number),
        decreases interfaces@.len() - i,
    {
        if interfaces[i].interface_number == number {
            let (in_ep, out_ep) = find_bulk(interfaces[i].endpoints.as_slice());
            let bulk_in: u8 = match in_ep {
                Some(address) => address,
                None => 0,
            };
            let bulk_out: u8 = match out_ep {
                Some(address) => address,
                None => 0,
            };
            return Some((bulk_in, bulk_out));
        }
        assert(interfaces@.skip(i as int).skip(1) =~= interfaces@.skip(i + 1));
        i += 1;
    }
    None
}

/// The reset request for an interface: class request, to the interface, no data.
pub open spec fn reset_setup(interface: u8) -> TransferSetup {
    TransferSetup {
        bm_request_type: 0x21,
        b_request: REQUEST_RESET,
        w_value: 0,
        w_index: interface as u16,
    }
}

/// How the reset request travels: over endpoint 0, with one second to finish.
pub open spec fn reset_options() -> TransferOptions {
    TransferOptions { endpoint: 0, timeout_ms: 1_000, stream_id: 0, iso_packets: 0 }
}

/// The reset request is Bulk-Only Mass Storage Reset: request type 0x21, request 0xff, no value, and
/// the number of the interface. It goes over endpoint 0 and has one second.
pub proof fn law_reset_request(interface: u8)
    ensures
        reset_setup(interface).bm_request_type == 0x21,
        reset_setup(interface).b_request == 0xff,
        reset_setup(interface).w_value == 0,
        reset_setup(interface).w_index == interface,
        reset_options().endpoint == 0,
        reset_options().timeout_ms == 1_000,
        reset_options().stream_id == 0,
        reset_options().iso_packets == 0,
{
}

/// Why a device could not be opened.
#[derive(Debug, Clone, Copy, PartialEq, Eq, Structural)]
pub enum OpenError {
    /// The devices could not be listed.
    ListDevices,
    /// No device of this kind.
    NotFound,
    /// A device descriptor could not be read.
    ReadDescriptor,
    /// The configuration could not be read.
    ReadConfig,
    /// The device could not be opened.
    Open,
    /// The interface could not be claimed.
    Claim { interface: u8 },
    /// The claimed interface is not in the configuration.
    MissingInterface { interface: u8 },
    /// The claimed interface lacks a bulk endpoint.
    NoBulkEndpoints { interface: u8 },
}

// ---------------------------------------------------------------------------
// Through `component:usb`
// ---------------------------------------------------------------------------

/// What to do next.
#[derive(Debug, Clone, Copy, PartialEq, Eq, Structural)]
pub enum WasmOpenAction {
    /// Read the active configuration of this device of the list.
    ReadConfig { device: usize },
    /// Open the device.
    Open,
    /// Ask which configuration is active.
    ReadActive,
    /// Select this configuration; a failure does not matter.
    SelectConfig { value: u8 },
    /// Claim this interface.
    Claim { interface: u8 },
    /// Make this control transfer without data; a failure does not matter.
    Reset { setup: TransferSetup, options: TransferOptions },
    /// The device is ready.
    Ready { transport: WasmTransport },
    /// The device cannot be opened.
    Fail { error: OpenError },
}

/// How far opening has come.
#[derive(Debug)]
pub enum WasmOpen {
    /// The device list is awaited.
    Listing { vid: u16, pid: u16 },
    /// The configuration is awaited.
    Reading,
    /// The device is being opened.
    Opening { config: ConfigurationDescriptor, interface: u8 },
    /// The active configuration is awaited.
    Comparing { config: ConfigurationDescriptor, interface: u8 },
    /// A configuration is being selected.
    Selecting { config: ConfigurationDescriptor, interface: u8 },
    /// The interface is being claimed.
    Claiming { config: ConfigurationDescriptor, interface: u8 },
    /// The device is being reset.
    Resetting { transport: WasmTransport },
    /// Nothing is left to do.
    Over,
}

/// What came of the last step.
#[derive(Debug)]
pub enum WasmOpenReply {
    Failed,
    /// The step succeeded.
    Done,
    /// The device list.
    Devices(Vec<DeviceDescriptor>),
    /// The active configuration.
    Config(ConfigurationDescriptor),
    /// The number of the active configuration.
    Active(u8),
}

impl WasmOpen {
    /// The reply is one to the step at hand.
    pub open spec fn fits(self, reply: WasmOpenReply) -> bool {
        match self {
            WasmOpen::Listing { .. } => reply is Failed || reply is Devices,
            WasmOpen::Reading => reply is Failed || reply is Config,
            WasmOpen::Opening { .. } => reply is Failed || reply is Done,
            WasmOpen::Comparing { .. } => reply is Failed || reply is Active,
            WasmOpen::Selecting { .. } => reply is Failed || reply is Done,
            WasmOpen::Claiming { .. } => reply is Failed || reply is Done,
            WasmOpen::Resetting { .. } => reply is Failed || reply is Done,
            WasmOpen::Over => false,
        }
    }

    /// The transport for the claimed interface of this configuration.
    pub open spec fn transport_for(config: ConfigurationDescriptor, interface: u8) -> Option<
        WasmTransport,
    > {
        match endpoints_of(config.interfaces@, interface) {
            Some((bulk_in, bulk_out)) => Some(
                WasmTransport { bulk_in, bulk_out, tag: 1, interface_number: interface },
            ),
            None => None,
        }
    }

    /// What a reply leads to.
    ///
    /// The first device of the kind is taken, its first Bulk-Only interface (or interface 0) is
    /// claimed after the configuration was made active, and the device is reset. Only failures to
    /// read the configuration's number, to select it, or to reset are ignored.
    pub open spec fn next(self, reply: WasmOpenReply) -> (WasmOpen, WasmOpenAction) {
        match (self, reply) {
            (WasmOpen::Listing { vid, pid }, WasmOpenReply::Devices(devices)) => {
                let found = first_device(devices@, vid, pid);
                if found < devices@.len() {
                    (WasmOpen::Reading, WasmOpenAction::ReadConfig { device: found as usize })
                } else {
                    (WasmOpen::Over, WasmOpenAction::Fail { error: OpenError::NotFound })
                }
            },
            (WasmOpen::Listing { .. }, _) => (
                WasmOpen::Over,
                WasmOpenAction::Fail { error: OpenError::ListDevices },
            ),
            (WasmOpen::Reading, WasmOpenReply::Config(config)) => {
                let interface = bulk_only_number(config.interfaces@);
                (WasmOpen::Opening { config, interface }, WasmOpenAction::Open)
            },
            (WasmOpen::Reading, _) => (
                WasmOpen::Over,
                WasmOpenAction::Fail { error: OpenError::ReadConfig },
            ),
            (WasmOpen::Opening { config, interface }, WasmOpenReply::Done) => (
                WasmOpen::Comparing { config, interface },
                WasmOpenAction::ReadActive,
            ),
            (WasmOpen::Opening { .. }, _) => (
                WasmOpen::Over,
                WasmOpenAction::Fail { error: OpenError::Open },
            ),
            (WasmOpen::Comparing { config, interface }, reply) => {
                let active = match reply {
                    WasmOpenReply::Active(value) => value,
                    _ => 0,
                };
                if active != config.configuration_value {
                    (
                        WasmOpen::Selecting { config, interface },
                        WasmOpenAction::SelectConfig { value: config.configuration_value },
                    )
                } else {
                    (
                        WasmOpen::Claiming { config, interface },
                        WasmOpenAction::Claim { interface },
                    )
                }
            },
            (WasmOpen::Selecting { config, interface }, _) => (
                WasmOpen::Claiming { config, interface },
                WasmOpenAction::Claim { interface },
            ),
            (WasmOpen::Claiming { config, interface }, WasmOpenReply::Done) => {
                match Self::transport_for(config, interface) {
                    Some(transport) => (
                        WasmOpen::Resetting { transport },
                        WasmOpenAction::Reset {
                            setup: reset_setup(interface),
                            options: reset_options(),
                        },
                    ),
                    None => (
                        WasmOpen::Over,
                        WasmOpenAction::Fail { error: OpenError::MissingInterface { interface } },
                    ),
                }
            },
            (WasmOpen::Claiming { interface, .. }, _) => (
                WasmOpen::Over,
                WasmOpenAction::Fail { error: OpenError::Claim { interface } },
            ),
            (WasmOpen::Resetting { transport }, _) => (
                WasmOpen::Over,
                WasmOpenAction::Ready { transport },
            ),
            (WasmOpen::Over, _) => (
                WasmOpen::Over,
                WasmOpenAction::Fail { error: OpenError::NotFound },
            ),
        }
    }

    /// Takes the reply to the last step and says what to do next.
    pub fn resume(self, reply: WasmOpenReply) -> (step: (WasmOpen, WasmOpenAction))
        requires
            self.fits(reply),
        ensures
            step == self.next(reply),
    {
        match self {
            WasmOpen::Listing { vid, pid } => match reply {
                WasmOpenReply::Devices(devices) => match find_device(devices.as_slice(), vid, pid) {
                    Some(device) => (WasmOpen::Reading, WasmOpenAction::ReadConfig { device }),
                    None => (WasmOpen::Over, WasmOpenAction::Fail { error: OpenError::NotFound }),
                },
                _ => (WasmOpen::Over, WasmOpenAction::Fail { error: OpenError::ListDevices }),
            },
            WasmOpen::Reading => match reply {
                WasmOpenReply::Config(config) => {
                    let interface = choose_interface(config.interfaces.as_slice());
                    (WasmOpen::Opening { config, interface }, WasmOpenAction::Open)
                },
                _ => (WasmOpen::Over, WasmOpenAction::Fail { error: OpenError::ReadConfig }),
            },
            WasmOpen::Opening { config, interface } => match reply {
                WasmOpenReply::Done => (
                    WasmOpen::Comparing { config, interface },
                    WasmOpenAction::ReadActive,
                ),
                _ => (WasmOpen::Over, WasmOpenAction::Fail { error: OpenError::Open }),
            },
            WasmOpen::Comparing { config, interface } => {
                let active: u8 = match reply {
                    WasmOpenReply::Active(value) => value,
                    _ => 0,
                };
                let value = config.configuration_value;
                if active != value {
                    (
                        WasmOpen::Selecting { config, interface },
                        WasmOpenAction::SelectConfig { value },
                    )
                } else {
                    (
                        WasmOpen::Claiming { config, interface },
                        WasmOpenAction::Claim { interface },
                    )
                }
            },
            WasmOpen::Selecting { config, interface } => (
                WasmOpen::Claiming { config, interface },
                WasmOpenAction::Claim { interface },
            ),
            WasmOpen::Claiming { config, interface } => match reply {
                WasmOpenReply::Done => match find_endpoints(
                    config.interfaces.as_slice(),
                    interface,
                ) {
                    Some((bulk_in, bulk_out)) => (
                        WasmOpen::Resetting {
                            transport: WasmTransport {
                                bulk_in,
                                bulk_out,
                                tag: 1,
                                interface_number: interface,
                            },
                        },
                        WasmOpenAction::Reset {
                            setup: TransferSetup {
                                bm_request_type: 0x21,
                                b_request: REQUEST_RESET,
                                w_value: 0,
                                w_index: interface as u16,
                            },
                            options: TransferOptions {
                                endpoint: 0,
                                timeout_ms: 1_000,
                                stream_id: 0,
                                iso_packets: 0,
                            },
                        },
                    ),
                    None => (
                        WasmOpen::Over,
                        WasmOpenAction::Fail { error: OpenError::MissingInterface { interface } },
                    ),
                },
                _ => (
                    WasmOpen::Over,
                    WasmOpenAction::Fail { error: OpenError::Claim { interface } },
                ),
            },
            WasmOpen::Resetting { transport } => (
                WasmOpen::Over,
                WasmOpenAction::Ready { transport },
            ),
            WasmOpen::Over => (
                WasmOpen::Over,
                WasmOpenAction::Fail { error: OpenError::NotFound },
            ),
        }
    }
}

impl WasmTransport {
    /// Starts to open the first device of this vendor and product; the device list comes first.
    pub fn open(vid: u16, pid: u16) -> (opening: WasmOpen)
        ensures
            opening == (WasmOpen::Listing { vid, pid }),
    {
        WasmOpen::Listing { vid, pid }
    }
}

/// Opening asks the bus in a fixed order: the device found, its configuration read, the device
/// opened, the configuration selected where it was not active, the interface claimed, the device
/// reset. Where the steps that matter succeed, the device is ready for commands from tag 1 on, on
/// the endpoints of the claimed interface.
pub proof fn law_opening_takes_its_course(
    vid: u16,
    pid: u16,
    devices: Vec<DeviceDescriptor>,
    config: ConfigurationDescriptor,
    active: WasmOpenReply,
    selected: WasmOpenReply,
    reset: WasmOpenReply,
)
    requires
        first_device(devices@, vid, pid) < devices@.len(),
        active is Failed || active is Active,
        selected is Failed || selected is Done,
        reset is Failed || reset is Done,
        endpoints_of(config.interfaces@, bulk_only_number(config.interfaces@)) is Some,
    ensures
        ({
            let interface = bulk_only_number(config.interfaces@);
            let (s1, a1) = (WasmOpen::Listing { vid, pid }).next(WasmOpenReply::Devices(devices));
            let (s2, a2) = s1.next(WasmOpenReply::Config(config));
            let (s3, a3) = s2.next(WasmOpenReply::Done);
            let (s4, a4) = s3.next(active);
            let already = (match active {
                WasmOpenReply::Active(value) => value,
                _ => 0,
            }) == config.configuration_value;
            let (s5, a5) = if already {
                (s4, a4)
            } else {
                s4.next(selected)
            };
            let (s6, a6) = s5.next(WasmOpenReply::Done);
            let (s7, a7) = s6.next(reset);
            &&& a1 == WasmOpenAction::ReadConfig {
                device: first_device(devices@, vid, pid) as usize,
            }
            &&& a2 == WasmOpenAction::Open
            &&& a3 == WasmOpenAction::ReadActive
            &&& !already ==> a4 == WasmOpenAction::SelectConfig {
                value: config.configuration_value,
            }
            &&& a5 == WasmOpenAction::Claim { interface }
            &&& a6 == WasmOpenAction::Reset {
                setup: reset_setup(interface),
                options: reset_options(),
            }
            &&& a7 == WasmOpenAction::Ready {
                transport: WasmOpen::transport_for(config, interface)->0,
            }
            &&& s7 is Over
        }),
{
}

/// What ends the opening: a device list, a configuration, a device or an interface that cannot be
/// had, a list without the device, or a configuration without the claimed interface, each with its
/// own error. Nothing else does, and a device that is ready has the endpoints and the number of the
/// interface that was claimed.
pub proof fn law_opening_gives_up(opening: WasmOpen, reply: WasmOpenReply)
    requires
        opening.fits(reply),
    ensures
        ({
            let (after, action) = opening.next(reply);
            &&& after is Over <==> action is Fail || action is Ready
            &&& match opening {
                WasmOpen::Listing { vid, pid } => match reply {
                    WasmOpenReply::Devices(devices) => action == (WasmOpenAction::Fail {
                        error: OpenError::NotFound,
                    }) <==> forall|j: int|
                        0 <= j < devices@.len() ==> (#[trigger] devices@[j]).vendor_id != vid
                            || devices@[j].product_id != pid,
                    _ => action == (WasmOpenAction::Fail { error: OpenError::ListDevices }),
                },
                WasmOpen::Reading => reply is Failed <==> action == (WasmOpenAction::Fail {
                    error: OpenError::ReadConfig,
                }),
                WasmOpen::Opening { .. } => reply is Failed <==> action == (WasmOpenAction::Fail {
                    error: OpenError::Open,
                }),
                WasmOpen::Claiming { config, interface } => {
                    &&& reply is Failed <==> action == (WasmOpenAction::Fail {
                        error: OpenError::Claim { interface },
                    })
                    &&& reply is Done ==> (action == (WasmOpenAction::Fail {
                        error: OpenError::MissingInterface { interface },
                    }) <==> forall|j: int|
                        0 <= j < config.interfaces@.len() ==> (
                        #[trigger] config.interfaces@[j]).interface_number != interface)
                    &&& after matches WasmOpen::Resetting { transport } ==> {
                        &&& transport.interface_number == interface
                        &&& transport.tag == 1
                        &&& endpoints_of(config.interfaces@, interface) == Some(
                            (transport.bulk_in, transport.bulk_out),
                        )
                    }
                },
                WasmOpen::Resetting { transport } => action == (WasmOpenAction::Ready {
                    transport,
                }),
                _ => !(action is Fail),
            }
        }),
{
    match (opening, reply) {
        (WasmOpen::Listing { vid, pid }, WasmOpenReply::Devices(devices)) => {
            law_search_ends_at_the_first(devices@, vid, pid);
        },
        (WasmOpen::Claiming { config, interface }, WasmOpenReply::Done) => {
            lemma_entry_is_found(config.interfaces@, interface);
        },
        _ => {},
    }
}

proof fn lemma_entry_is_found(interfaces: Seq<InterfaceDescriptor>, number: u8)
    ensures
        endpoints_of(interfaces, number) is None <==> forall|j: int|
            0 <= j < interfaces.len() ==> (#[trigger] interfaces[j]).interface_number != number,
    decreases interfaces.len(),
{
    if interfaces.len() > 0 && interfaces[0].interface_number != number {
        let rest = interfaces.skip(1);
        lemma_entry_is_found(rest, number);
        if endpoints_of(interfaces, number) is None {
            assert forall|j: int| 0 <= j < interfaces.len() implies (
            #[trigger] interfaces[j]).interface_number != number by {
                if j > 0 {
                    assert(rest[j - 1] == interfaces[j]);
                }
            }
        } else {
            let k = choose|k: int| 0 <= k < rest.len() && (#[trigger] rest[k]).interface_number
                == number;
            assert(interfaces[k + 1] == rest[k]);
        }
    }
}

// ---------------------------------------------------------------------------
// Through rusb
// ---------------------------------------------------------------------------

/// The direction of a control request.
#[derive(Debug, Clone, Copy, PartialEq, Eq, Structural)]
pub enum RequestDirection {
    Out,
    In,
}

/// Who defines a control request.
#[derive(Debug, Clone, Copy, PartialEq, Eq, Structural)]
pub enum RequestKind {
    Standard,
    Class,
    Vendor,
    Reserved,
}

/// Whom a control request is for.
#[derive(Debug, Clone, Copy, PartialEq, Eq, Structural)]
pub enum RequestRecipient {
    Device,
    Interface,
    Endpoint,
    Other,
}

/// The byte that says all three: direction in bit 7, kind in bits 5 and 6, recipient below.
pub open spec fn request_byte(
    direction: RequestDirection,
    kind: RequestKind,
    recipient: RequestRecipient,
) -> u8 {
    let d: int = match direction {
        RequestDirection::Out => 0,
        RequestDirection::In => 0x80,
    };
    let k: int = match kind {
        RequestKind::Standard => 0,
        RequestKind::Class => 0x20,
        RequestKind::Vendor => 0x40,
        RequestKind::Reserved => 0x60,
    };
    let r: int = match recipient {
        RequestRecipient::Device => 0,
        RequestRecipient::Interface => 1,
        RequestRecipient::Endpoint => 2,
        RequestRecipient::Other => 3,
    };
    (d + k + r) as u8
}

/// The byte read back: its highest bit is set where data comes in, the two bits below say who defines
/// the request and the five lowest bits whom it is for, each counted from 0 in the order standard,
/// class, vendor, reserved and device, interface, endpoint, other.
pub proof fn law_request_byte_reads_back(
    direction: RequestDirection,
    kind: RequestKind,
    recipient: RequestRecipient,
)
    ensures
        ({
            let byte = request_byte(direction, kind, recipient);
            &&& byte >= 0x80 <==> direction == RequestDirection::In
            &&& byte / 32 % 4 == 0 <==> kind == RequestKind::Standard
            &&& byte / 32 % 4 == 1 <==> kind == RequestKind::Class
            &&& byte / 32 % 4 == 2 <==> kind == RequestKind::Vendor
            &&& byte / 32 % 4 == 3 <==> kind == RequestKind::Reserved
            &&& byte % 32 == 0 <==> recipient == RequestRecipient::Device
            &&& byte % 32 == 1 <==> recipient == RequestRecipient::Interface
            &&& byte % 32 == 2 <==> recipient == RequestRecipient::Endpoint
            &&& byte % 32 == 3 <==> recipient == RequestRecipient::Other
        }),
{
}

/// `rusb::request_type`: puts direction, kind and recipient of a control request into one byte.
#[verifier::external_body]
fn request_type(
    direction: RequestDirection,
    kind: RequestKind,
    recipient: RequestRecipient,
) -> (byte: u8)
    ensures
        byte == request_byte(direction, kind, recipient),
{
    let direction = match direction {
        RequestDirection::Out => rusb::Direction::Out, RequestDirection::In => rusb::Direction::In };
    let kind = match kind {
        RequestKind::Standard => rusb::RequestType::Standard,
        RequestKind::Class => rusb::RequestType::Class,
        RequestKind::Vendor => rusb::RequestType::Vendor,
        RequestKind::Reserved => rusb::RequestType::Reserved };
    let recipient = match recipient {
        RequestRecipient::Device => rusb::Recipient::Device,
        RequestRecipient::Interface => rusb::Recipient::Interface,
        RequestRecipient::Endpoint => rusb::Recipient::Endpoint,
        RequestRecipient::Other => rusb::Recipient::Other };
    rusb::request_type(direction, kind, recipient)
}

/// The alternate settings of one interface.
pub type Settings = Vec<InterfaceDescriptor>;

/// The number of the first interface whose first setting is Bulk-Only, 0 where there is none.
pub open spec fn native_number(interfaces: Seq<Settings>) -> u8
    decreases interfaces.len(),
{
    if interfaces.len() == 0 {
        0
    } else if interfaces[0]@.len() > 0 && interfaces[0]@[0].is_bulk_only() {
        interfaces[0]@[0].interface_number
    } else {
        native_number(interfaces.skip(1))
    }
}

/// The interface that is claimed is the first whose first setting has class 8, mass storage, and
/// protocol 0x50, Bulk-Only; without one it is interface 0.
pub proof fn law_first_native_storage_interface(interfaces: Seq<Settings>, first: int)
    requires
        0 <= first <= interfaces.len(),
        first < interfaces.len() ==> interfaces[first]@.len() > 0
            && interfaces[first]@[0].interface_class == 8
            && interfaces[first]@[0].interface_protocol == 0x50,
        forall|j: int|
            0 <= j < first ==> (#[trigger] interfaces[j])@.len() == 0
                || interfaces[j]@[0].interface_class != 8 || interfaces[j]@[0].interface_protocol
                != 0x50,
    ensures
        first < interfaces.len() ==> native_number(interfaces)
            == interfaces[first]@[0].interface_number,
        first == interfaces.len() ==> native_number(interfaces) == 0,
    decreases interfaces.len(),
{
    if first > 0 {
        let rest = interfaces.skip(1);
        assert(interfaces[0]@.len() == 0 || !interfaces[0]@[0].is_bulk_only());
        assert forall|j: int| 0 <= j < first - 1 implies (#[trigger] rest[j])@.len() == 0
            || rest[j]@[0].interface_class != 8 || rest[j]@[0].interface_protocol != 0x50 by {
            assert(rest[j] == interfaces[j + 1]);
        }
        law_first_native_storage_interface(rest, first - 1);
    }
}

/// Chooses the interface to claim.
pub fn choose_native_interface(interfaces: &[Settings]) -> (number: u8)
    ensures
        number == native_number(interfaces@),
{
    let mut i: usize = 0;
    assert(interfaces@.skip(0) =~= interfaces@);
    while i < interfaces.len()
        invariant
            i <= interfaces@.len(),
            native_number(interfaces@) == native_number(interfaces@.skip(i as int)),
        decreases interfaces@.len() - i,
    {
        let settings = &interfaces[i];
        if settings.len() > 0 && settings[0].speaks_bulk_only() {
            return settings[0].interface_number;
        }
        assert(interfaces@.skip(i as int).skip(1) =~= interfaces@.skip(i + 1));
        i += 1;
    }
    0
}

/// The endpoints of the first setting that has a bulk endpoint each way.
pub open spec fn first_pair(settings: Seq<InterfaceDescriptor>) -> Option<(u8, u8)>
    decreases settings.len(),
{
    if settings.len() == 0 {
        None
    } else {
        match (last_bulk(settings[0].endpoints@, true), last_bulk(settings[0].endpoints@, false)) {
            (Some(bulk_in), Some(bulk_out)) => Some((bulk_in, bulk_out)),
            _ => first_pair(settings.skip(1)),
        }
    }
}

/// The endpoints to use on the interface with this number: those of its first setting that has a
/// bulk endpoint each way.
pub open spec fn native_endpoints(interfaces: Seq<Settings>, number: u8) -> Option<(u8, u8)>
    decreases interfaces.len(),
{
    if interfaces.len() == 0 {
        None
    } else if interfaces[0]@[0].interface_number == number && first_pair(interfaces[0]@) is Some {
        first_pair(interfaces[0]@)
    } else {
        native_endpoints(interfaces.skip(1), number)
    }
}

/// Of the settings the first that has a bulk endpoint each way counts; the pair is its last incoming
/// and its last outgoing one, in this order.
pub proof fn law_first_setting_with_both_ways(settings: Seq<InterfaceDescriptor>, first: int)
    requires
        0 <= first <= settings.len(),
        first < settings.len() ==> last_bulk(settings[first].endpoints@, true) is Some
            && last_bulk(settings[first].endpoints@, false) is Some,
        forall|j: int|
            0 <= j < first ==> last_bulk((#[trigger] settings[j]).endpoints@, true) is None
                || last_bulk(settings[j].endpoints@, false) is None,
    ensures
        first == settings.len() ==> first_pair(settings) is None,
        first < settings.len() ==> {
            &&& first_pair(settings) matches Some((bulk_in, bulk_out))
            &&& last_bulk(settings[first].endpoints@, true) == Some(bulk_in)
            &&& last_bulk(settings[first].endpoints@, false) == Some(bulk_out)
            &&& bulk_in >= 0x80
            &&& bulk_out < 0x80
        },
    decreases settings.len(),
{
    if first < settings.len() {
        law_bulk_endpoints_face_their_way(settings[first].endpoints@, true);
        law_bulk_endpoints_face_their_way(settings[first].endpoints@, false);
    }
    if first > 0 {
        let rest = settings.skip(1);
        assert(last_bulk(settings[0].endpoints@, true) is None || last_bulk(
            settings[0].endpoints@,
            false,
        ) is None);
        assert forall|j: int| 0 <= j < first - 1 implies last_bulk(
            (#[trigger] rest[j]).endpoints@,
            true,
        ) is None || last_bulk(rest[j].endpoints@, false) is None by {
            assert(rest[j] == settings[j + 1]);
        }
        law_first_setting_with_both_ways(rest, first - 1);
    }
}

/// Of the interfaces with the claimed number, told by their first settings, the first that has a
/// setting with a bulk endpoint each way counts.
pub proof fn law_first_interface_with_both_ways(interfaces: Seq<Settings>, number: u8, first: int)
    requires
        0 <= first <= interfaces.len(),
        first < interfaces.len() ==> interfaces[first]@[0].interface_number == number
            && first_pair(interfaces[first]@) is Some,
        forall|j: int|
            0 <= j < first ==> (#[trigger] interfaces[j])@[0].interface_number != number
                || first_pair(interfaces[j]@) is None,
    ensures
        first == interfaces.len() ==> native_endpoints(interfaces, number) is None,
        first < interfaces.len() ==> native_endpoints(interfaces, number) == first_pair(
            interfaces[first]@,
        ),
    decreases interfaces.len(),
{
    if first > 0 {
        let rest = interfaces.skip(1);
        assert(interfaces[0]@[0].interface_number != number || first_pair(interfaces[0]@) is None);
        assert forall|j: int| 0 <= j < first - 1 implies (
        #[trigger] rest[j])@[0].interface_number != number || first_pair(rest[j]@) is None by {
            assert(rest[j] == interfaces[j + 1]);
        }
        law_first_interface_with_both_ways(rest, number, first - 1);
    }
}

fn find_pair(settings: &[InterfaceDescriptor]) -> (found: Option<(u8, u8)>)
    ensures
        found == first_pair(settings@),
{
    let mut i: usize = 0;
    assert(settings@.skip(0) =~= settings@);
    while i < settings.len()
        invariant
            i <= settings@.len(),
            first_pair(settings@) == first_pair(settings@.skip(i as int)),
        decreases settings@.len() - i,
    {
        if let (Some(bulk_in), Some(bulk_out)) = find_bulk(settings[i].endpoints.as_slice()) {
            return Some((bulk_in, bulk_out));
        }
        assert(settings@.skip(i as int).skip(1) =~= settings@.skip(i + 1));
        i += 1;
    }
    None
}

/// Finds the bulk endpoints of an interface.
pub fn find_bulk_endpoints(interfaces: &[Settings], interface_number: u8) -> (found: Option<
    (u8, u8),
>)
    requires
        forall|i: int| 0 <= i < interfaces@.len() ==> (#[trigger] interfaces@[i])@.len() > 0,
    ensures
        found == native_endpoints(interfaces@, interface_number),
{
    let mut i: usize = 0;
    assert(interfaces@.skip(0) =~= interfaces@);
    while i < interfaces.len()
        invariant
            forall|i: int| 0 <= i < interfaces@.len() ==> (#[trigger] interfaces@[i])@.len() > 0,
            i <= interfaces@.len(),
            native_endpoints(interfaces@, interface_number) == native_endpoints(
                interfaces@.skip(i as int),
                interface_number,
            ),
        decreases interfaces@.len() - i,
    {
        let settings = &interfaces[i];
        assert(interfaces@.skip(i as int)[0] == interfaces@[i as int]);
        if settings[0].interface_number == interface_number {
            if let Some(pair) = find_pair(settings.as_slice()) {
                return Some(pair);
            }
        }
        assert(interfaces@.skip(i as int).skip(1) =~= interfaces@.skip(i + 1));
        i += 1;
    }
    None
}

/// What to do next.
#[derive(Debug, Clone, Copy, PartialEq, Eq, Structural)]
pub enum NativeOpenAction {
    /// Read configuration 0 of this device of the list.
    ReadConfig { device: usize },
    /// Open the device, and let the system detach kernel drivers where it can.
    Open,
    /// Claim this interface.
    Claim { interface: u8 },
    /// Read configuration 0 again.
    ReadConfigAgain,
    /// Make this control request without data; a failure does not matter.
    Reset { request_type: u8, request: u8, value: u16, index: u16 },
    /// The device is ready.
    Ready { transport: NativeTransport },
    /// The device cannot be opened.
    Fail { error: OpenError },
}

/// How far opening has come.
#[derive(Debug, Clone, Copy, PartialEq, Eq, Structural)]
pub enum NativeOpen {
    /// The device list is awaited.
    Listing { vid: u16, pid: u16 },
    /// The configuration is awaited.
    Reading,
    /// The device is being opened.
    Opening { interface: u8 },
    /// The interface is being claimed.
    Claiming { interface: u8 },
    /// The configuration is awaited a second time.
    Rereading { interface: u8 },
    /// The device is being reset.
    Resetting { transport: NativeTransport },
    /// Nothing is left to do.
    Over,
}

/// What came of the last step.
#[derive(Debug)]
pub enum NativeOpenReply {
    Failed,
    /// The step succeeded.
    Done,
    /// The device list: vendor and product of each, `None` where the descriptor could not be read.
    Devices(Vec<Option<(u16, u16)>>),
    /// The configuration: the alternate settings of each interface.
    Config(Vec<Settings>),
}

/// The search through the device list ends at the first device of the kind or the first that cannot
/// be read, whichever comes first: its place, or the length of the list.
pub open spec fn search_end(devices: Seq<Option<(u16, u16)>>, vid: u16, pid: u16) -> int
    decreases devices.len(),
{
    if devices.len() == 0 || devices[0] is None || devices[0] == Some((vid, pid)) {
        0
    } else {
        1 + search_end(devices.skip(1), vid, pid)
    }
}

/// The search goes past every device that could be read and is of another kind, and past no other.
pub proof fn law_search_passes_other_kinds(devices: Seq<Option<(u16, u16)>>, vid: u16, pid: u16)
    ensures
        ({
            let end = search_end(devices, vid, pid);
            &&& 0 <= end <= devices.len()
            &&& forall|j: int|
                0 <= j < end ==> #[trigger] devices[j] is Some && devices[j] != Some((vid, pid))
            &&& end < devices.len() ==> devices[end] is None || devices[end] == Some((vid, pid))
        }),
    decreases devices.len(),
{
    if devices.len() > 0 && devices[0] is Some && devices[0] != Some((vid, pid)) {
        let rest = devices.skip(1);
        law_search_passes_other_kinds(rest, vid, pid);
        let end = search_end(devices, vid, pid);
        assert forall|j: int| 0 <= j < end implies #[trigger] devices[j] is Some && devices[j]
            != Some((vid, pid)) by {
            if j > 0 {
                assert(rest[j - 1] == devices[j]);
            }
        }
    }
}

fn search(devices: &[Option<(u16, u16)>], vid: u16, pid: u16) -> (end: usize)
    ensures
        end == search_end(devices@, vid, pid),
        end <= devices@.len(),
        end < devices@.len() ==> devices@[end as int] is None || devices@[end as int] == Some(
            (vid, pid),
        ),
{
    let mut i: usize = 0;
    assert(devices@.skip(0) =~= devices@);
    while i < devices.len()
        invariant
            i <= devices@.len(),
            search_end(devices@, vid, pid) == i + search_end(devices@.skip(i as int), vid, pid),
        decreases devices@.len() - i,
    {
        match devices[i] {
            None => return i,
            Some((v, p)) => {
                if v == vid && p == pid {
                    return i;
                }
            },
        }
        assert(devices@.skip(i as int).skip(1) =~= devices@.skip(i + 1));
        i += 1;
    }
    i
}

impl NativeOpen {
    /// The reply is one to the step at hand. A configuration that is read for its endpoints has a
    /// setting for each interface.
    pub open spec fn fits(self, reply: NativeOpenReply) -> bool {
        match self {
            NativeOpen::Listing { .. } => reply is Failed || reply is Devices,
            NativeOpen::Reading => reply is Failed || reply is Config,
            NativeOpen::Opening { .. } => reply is Failed || reply is Done,
            NativeOpen::Claiming { .. } => reply is Failed || reply is Done,
            NativeOpen::Rereading { .. } => match reply {
                NativeOpenReply::Failed => true,
                NativeOpenReply::Config(interfaces) => forall|i: int|
                    0 <= i < interfaces@.len() ==> (#[trigger] interfaces@[i])@.len() > 0,
                _ => false,
            },
            NativeOpen::Resetting { .. } => reply is Failed || reply is Done,
            NativeOpen::Over => false,
        }
    }

    /// What a reply leads to.
    pub open spec fn next(self, reply: NativeOpenReply) -> (NativeOpen, NativeOpenAction) {
        match (self, reply) {
            (NativeOpen::Listing { vid, pid }, NativeOpenReply::Devices(devices)) => {
                let end = search_end(devices@, vid, pid);
                if end >= devices@.len() {
                    (NativeOpen::Over, NativeOpenAction::Fail { error: OpenError::NotFound })
                } else if devices@[end] is None {
                    (NativeOpen::Over, NativeOpenAction::Fail { error: OpenError::ReadDescriptor })
                } else {
                    (NativeOpen::Reading, NativeOpenAction::ReadConfig { device: end as usize })
                }
            },
            (NativeOpen::Listing { .. }, _) => (
                NativeOpen::Over,
                NativeOpenAction::Fail { error: OpenError::ListDevices },
            ),
            (NativeOpen::Reading, NativeOpenReply::Config(interfaces)) => (
                NativeOpen::Opening { interface: native_number(interfaces@) },
                NativeOpenAction::Open,
            ),
            (NativeOpen::Reading, _) => (
                NativeOpen::Over,
                NativeOpenAction::Fail { error: OpenError::ReadConfig },
            ),
            (NativeOpen::Opening { interface }, NativeOpenReply::Done) => (
                NativeOpen::Claiming { interface },
                NativeOpenAction::Claim { interface },
            ),
            (NativeOpen::Opening { .. }, _) => (
                NativeOpen::Over,
                NativeOpenAction::Fail { error: OpenError::Open },
            ),
            (NativeOpen::Claiming { interface }, NativeOpenReply::Done) => (
                NativeOpen::Rereading { interface },
                NativeOpenAction::ReadConfigAgain,
            ),
            (NativeOpen::Claiming { interface }, _) => (
                NativeOpen::Over,
                NativeOpenAction::Fail { error: OpenError::Claim { interface } },
            ),
            (NativeOpen::Rereading { interface }, NativeOpenReply::Config(interfaces)) => {
                match native_endpoints(interfaces@, interface) {
                    Some((bulk_in, bulk_out)) => (
                        NativeOpen::Resetting {
                            transport: NativeTransport {
                                bulk_in,
                                bulk_out,
                                tag: 1,
                                interface_number: interface,
                            },
                        },
                        NativeOpenAction::Reset {
                            request_type: request_byte(
                                RequestDirection::Out,
                                RequestKind::Class,
                                RequestRecipient::Interface,
                            ),
                            request: REQUEST_RESET,
                            value: 0,
                            index: interface as u16,
                        },
                    ),
                    None => (
                        NativeOpen::Over,
                        NativeOpenAction::Fail { error: OpenError::NoBulkEndpoints { interface } },
                    ),
                }
            },
            (NativeOpen::Rereading { .. }, _) => (
                NativeOpen::Over,
                NativeOpenAction::Fail { error: OpenError::ReadConfig },
            ),
            (NativeOpen::Resetting { transport }, _) => (
                NativeOpen::Over,
                NativeOpenAction::Ready { transport },
            ),
            (NativeOpen::Over, _) => (
                NativeOpen::Over,
                NativeOpenAction::Fail { error: OpenError::NotFound },
            ),
        }
    }

    /// Takes the reply to the last step and says what to do next.
    pub fn resume(self, reply: NativeOpenReply) -> (step: (NativeOpen, NativeOpenAction))
        requires
            self.fits(reply),
        ensures
            step == self.next(reply),
    {
        match self {
            NativeOpen::Listing { vid, pid } => match reply {
                NativeOpenReply::Devices(devices) => {
                    let end = search(devices.as_slice(), vid, pid);
                    if end == devices.len() {
                        (NativeOpen::Over, NativeOpenAction::Fail { error: OpenError::NotFound })
                    } else if devices[end].is_none() {
                        (
                            NativeOpen::Over,
                            NativeOpenAction::Fail { error: OpenError::ReadDescriptor },
                        )
                    } else {
                        (NativeOpen::Reading, NativeOpenAction::ReadConfig { device: end })
                    }
                },
                _ => (NativeOpen::Over, NativeOpenAction::Fail { error: OpenError::ListDevices }),
            },
            NativeOpen::Reading => match reply {
                NativeOpenReply::Config(interfaces) => {
                    let interface = choose_native_interface(interfaces.as_slice());
                    (NativeOpen::Opening { interface }, NativeOpenAction::Open)
                },
                _ => (NativeOpen::Over, NativeOpenAction::Fail { error: OpenError::ReadConfig }),
            },
            NativeOpen::Opening { interface } => match reply {
                NativeOpenReply::Done => (
                    NativeOpen::Claiming { interface },
                    NativeOpenAction::Claim { interface },
                ),
                _ => (NativeOpen::Over, NativeOpenAction::Fail { error: OpenError::Open }),
            },
            NativeOpen::Claiming { interface } => match reply {
                NativeOpenReply::Done => (
                    NativeOpen::Rereading { interface },
                    NativeOpenAction::ReadConfigAgain,
                ),
                _ => (
                    NativeOpen::Over,
                    NativeOpenAction::Fail { error: OpenError::Claim { interface } },
                ),
            },
            NativeOpen::Rereading { interface } => match reply {
                NativeOpenReply::Config(interfaces) => match find_bulk_endpoints(
                    interfaces.as_slice(),
                    interface,
                ) {
                    Some((bulk_in, bulk_out)) => {
                        let request_type = request_type(
                            RequestDirection::Out,
                            RequestKind::Class,
                            RequestRecipient::Interface,
                        );
                        (
                            NativeOpen::Resetting {
                                transport: NativeTransport {
                                    bulk_in,
                                    bulk_out,
                                    tag: 1,
                                    interface_number: interface,
                                },
                            },
                            NativeOpenAction::Reset {
                                request_type,
                                request: REQUEST_RESET,
                                value: 0,
                                index: interface as u16,
                            },
                        )
                    },
                    None => (
                        NativeOpen::Over,
                        NativeOpenAction::Fail { error: OpenError::NoBulkEndpoints { interface } },
                    ),
                },
                _ => (NativeOpen::Over, NativeOpenAction::Fail { error: OpenError::ReadConfig }),
            },
            NativeOpen::Resetting { transport } => (
                NativeOpen::Over,
                NativeOpenAction::Ready { transport },
            ),
            NativeOpen::Over => (
                NativeOpen::Over,
                NativeOpenAction::Fail { error: OpenError::NotFound },
            ),
        }
    }
}

impl NativeTransport {
    /// Starts to open the first device of this vendor and product; the device list comes first.
    pub fn open(vid: u16, pid: u16) -> (opening: NativeOpen)
        ensures
            opening == (NativeOpen::Listing { vid, pid }),
    {
        NativeOpen::Listing { vid, pid }
    }
}

/// Opening asks the bus in a fixed order: the device found, its configuration read, the device opened,
/// the interface claimed, the configuration read again for its endpoints, the device reset. The
/// device found is of the kind, and neither a device of the kind nor one that cannot be read comes
/// before it. Where the reset fails the device is ready all the same, for commands from tag 1 on.
pub proof fn law_native_opening_takes_its_course(
    vid: u16,
    pid: u16,
    devices: Vec<Option<(u16, u16)>>,
    first: usize,
    config: Vec<Settings>,
    config_again: Vec<Settings>,
    reset: NativeOpenReply,
)
    requires
        first < devices@.len(),
        devices@[first as int] == Some((vid, pid)),
        forall|j: int|
            0 <= j < first ==> #[trigger] devices@[j] is Some && devices@[j] != Some((vid, pid)),
        forall|i: int|
            0 <= i < config_again@.len() ==> (#[trigger] config_again@[i])@.len() > 0,
        native_endpoints(config_again@, native_number(config@)) is Some,
        reset is Failed || reset is Done,
    ensures
        ({
            let interface = native_number(config@);
            let (bulk_in, bulk_out) = native_endpoints(config_again@, interface)->0;
            let (s1, a1) = (NativeOpen::Listing { vid, pid }).next(
                NativeOpenReply::Devices(devices),
            );
            let (s2, a2) = s1.next(NativeOpenReply::Config(config));
            let (s3, a3) = s2.next(NativeOpenReply::Done);
            let (s4, a4) = s3.next(NativeOpenReply::Done);
            let (s5, a5) = s4.next(NativeOpenReply::Config(config_again));
            let (s6, a6) = s5.next(reset);
            &&& a1 == NativeOpenAction::ReadConfig { device: first }
            &&& a2 == NativeOpenAction::Open
            &&& a3 == NativeOpenAction::Claim { interface }
            &&& a4 == NativeOpenAction::ReadConfigAgain
            &&& s4.fits(NativeOpenReply::Config(config_again))
            &&& a5 == NativeOpenAction::Reset {
                request_type: 0x21,
                request: 0xff,
                value: 0,
                index: interface as u16,
            }
            &&& s5.fits(reset)
            &&& a6 == NativeOpenAction::Ready {
                transport: NativeTransport { bulk_in, bulk_out, tag: 1, interface_number: interface },
            }
            &&& s6 is Over
        }),
{
    law_search_passes_other_kinds(devices@, vid, pid);
}

/// What ends the opening, each with its own error: a device list, a configuration, a device or an
/// interface that cannot be had, a list without the device, a device in the list that cannot be read
/// and comes before it, or an interface without bulk endpoints. Nothing else does.
pub proof fn law_native_opening_gives_up(opening: NativeOpen, reply: NativeOpenReply)
    requires
        opening.fits(reply),
    ensures
        ({
            let (after, action) = opening.next(reply);
            &&& after is Over <==> action is Fail || action is Ready
            &&& match opening {
                NativeOpen::Listing { vid, pid } => match reply {
                    NativeOpenReply::Devices(devices) => match action {
                        NativeOpenAction::Fail { error: OpenError::NotFound } => forall|j: int|
                            0 <= j < devices@.len() ==> #[trigger] devices@[j] is Some
                                && devices@[j] != Some((vid, pid)),
                        NativeOpenAction::Fail { error: OpenError::ReadDescriptor } => exists|k: int|
                            0 <= k < devices@.len() && #[trigger] devices@[k] is None && forall|j: int|
                                0 <= j < k ==> #[trigger] devices@[j] != Some((vid, pid)),
                        NativeOpenAction::ReadConfig { device } => device < devices@.len()
                            && devices@[device as int] == Some((vid, pid)),
                        _ => false,
                    },
                    _ => action == (NativeOpenAction::Fail { error: OpenError::ListDevices }),
                },
                NativeOpen::Reading => reply is Failed <==> action == (NativeOpenAction::Fail {
                    error: OpenError::ReadConfig,
                }),
                NativeOpen::Opening { .. } => reply is Failed <==> action == (
                NativeOpenAction::Fail { error: OpenError::Open }),
                NativeOpen::Claiming { interface } => reply is Failed <==> action == (
                NativeOpenAction::Fail { error: OpenError::Claim { interface } }),
                NativeOpen::Rereading { interface } => match reply {
                    NativeOpenReply::Config(config) => action == (NativeOpenAction::Fail {
                        error: OpenError::NoBulkEndpoints { interface },
                    }) <==> native_endpoints(config@, interface) is None,
                    _ => action == (NativeOpenAction::Fail { error: OpenError::ReadConfig }),
                },
                NativeOpen::Resetting { transport } => action == (NativeOpenAction::Ready {
                    transport,
                }),
                NativeOpen::Over => true,
            }
        }),
{
    if let (NativeOpen::Listing { vid, pid }, NativeOpenReply::Devices(devices)) = (opening, reply) {
        law_search_passes_other_kinds(devices@, vid, pid);
        let end = search_end(devices@, vid, pid);
        assert(devices@.len() == devices.len());
        assert(end < devices@.len() ==> end as usize == end);
    }
}

/// Both ways of opening a device send the same reset request.
pub proof fn law_same_reset_request(interface: u8)
    ensures
        request_byte(RequestDirection::Out, RequestKind::Class, RequestRecipient::Interface)
            == reset_setup(interface).bm_request_type,
        reset_setup(interface).bm_request_type == 0x21,
{
}

/// Opening starts with the device list, for the vendor and product that are asked for.
pub proof fn law_opening_starts_with_the_list(
    vid: u16,
    pid: u16,
    wasm: WasmOpen,
    native: NativeOpen,
)
    requires
        call_ensures(WasmTransport::open, (vid, pid), wasm),
        call_ensures(NativeTransport::open, (vid, pid), native),
    ensures
        wasm == (WasmOpen::Listing { vid, pid }),
        native == (NativeOpen::Listing { vid, pid }),
{
}

} // verus!
