//! The decisions of the libusb backend: what its return codes mean, which devices are listed, how
//! descriptors are read and when hotplug monitoring starts.

use vstd::prelude::*;

use crate::policy::{AllowedUSBDevices, USBDeviceIdentifier};
#[allow(unused_imports)]
use crate::types;
use crate::types::{
    ConfigValue, ConfigurationDescriptor, DeviceDescriptor, DeviceLocation, EndpointDescriptor,
    InterfaceDescriptor, LibusbError, UsbDevice, UsbDeviceHandle, UsbSpeed,
};

verus! {

// ---------------------------------------------------------------------------
// Return codes
// ---------------------------------------------------------------------------

/// What a return code means that reports nothing but success or failure.
pub open spec fn outcome_of(rc: i32) -> Result<(), LibusbError> {
    if rc >= 0 {
        Ok(())
    } else {
        Err(types::error_of(rc as int))
    }
}

/// A return code that is not negative is success; a negative one is the error with that number.
pub proof fn law_negative_codes_are_errors(rc: i32)
    ensures
        outcome_of(rc) is Ok <==> rc >= 0,
        rc < 0 ==> outcome_of(rc) == Err::<(), LibusbError>(types::error_of(rc as int)),
{
}

/// Reads the return code of a call that reports nothing but success or failure: claiming or
/// releasing an interface, selecting an alternate setting, clearing a halt, resetting, attaching
/// or detaching a kernel driver, selecting a configuration, allocating or freeing streams.
pub fn check_code(rc: i32) -> (result: Result<(), LibusbError>)
    ensures
        result == outcome_of(rc),
{
    if rc >= 0 {
        Ok(())
    } else {
        Err(LibusbError::from_raw(rc))
    }
}

/// Reads the answer to a query for the active configuration; its number keeps its low eight bits.
pub fn read_configuration(rc: i32, config: i32) -> (result: Result<u8, LibusbError>)
    ensures
        rc >= 0 ==> result == Ok::<u8, LibusbError>((config as int % 256) as u8),
        rc < 0 ==> result == Err::<u8, LibusbError>(types::error_of(rc as int)),
{
    if rc >= 0 {
        assert((config as u8) == (config as u32 % 256) as u8) by (bit_vector);
        assert((config as u32) as int % 256 == config as int % 256) by {
            assert(config >= 0 ==> config as u32 == config) by (bit_vector);
            assert(config < 0 ==> config as u32 == config + 0x1_0000_0000) by (bit_vector);
        }
        Ok(config as u8)
    } else {
        Err(LibusbError::from_raw(rc))
    }
}

/// The number by which libusb knows a configuration; 0 stands for none.
pub fn configuration_number(config: ConfigValue) -> (number: i32)
    ensures
        number == (match config {
            ConfigValue::Value(value) => value as int,
            ConfigValue::Unconfigured => 0,
        }),
{
    match config {
        ConfigValue::Value(value) => value as i32,
        ConfigValue::Unconfigured => 0,
    }
}

/// Reads the answer to whether a kernel driver holds an interface.
pub fn read_driver_active(rc: i32) -> (result: Result<bool, LibusbError>)
    ensures
        rc == 0 ==> result == Ok::<bool, LibusbError>(false),
        rc > 0 ==> result == Ok::<bool, LibusbError>(true),
        rc < 0 ==> result == Err::<bool, LibusbError>(types::error_of(rc as int)),
{
    if rc == 0 {
        Ok(false)
    } else if rc > 0 {
        Ok(true)
    } else {
        Err(LibusbError::from_raw(rc))
    }
}

/// Reads the answer to opening a device.
pub fn read_opened(rc: i32, handle: usize) -> (result: Result<UsbDeviceHandle, LibusbError>)
    ensures
        rc >= 0 ==> result == Ok::<UsbDeviceHandle, LibusbError>(UsbDeviceHandle { handle }),
        rc < 0 ==> result == Err::<UsbDeviceHandle, LibusbError>(types::error_of(rc as int)),
{
    if rc < 0 {
        Err(LibusbError::from_raw(rc))
    } else {
        Ok(UsbDeviceHandle { handle })
    }
}

/// A configuration keeps its number on the way to libusb and back; none is 0. Of a number beyond eight
/// bits the low eight are kept.
pub proof fn law_configuration_numbers(
    config: ConfigValue,
    number: i32,
    rc: i32,
    active: Result<u8, LibusbError>,
)
    requires
        call_ensures(configuration_number, (config,), number),
        call_ensures(read_configuration, (rc, number), active),
    ensures
        rc >= 0 ==> active == Ok::<u8, LibusbError>(
            match config {
                ConfigValue::Value(value) => value,
                ConfigValue::Unconfigured => 0,
            },
        ),
        rc < 0 ==> active == Err::<u8, LibusbError>(types::error_of(rc as int)),
{
}

/// A kernel driver holds an interface where libusb answers with a positive number and none does where
/// it answers 0; a negative answer is an error.
pub proof fn law_driver_answers(rc: i32, held: Result<bool, LibusbError>)
    requires
        call_ensures(read_driver_active, (rc,), held),
    ensures
        held == Ok::<bool, LibusbError>(true) <==> rc > 0,
        held == Ok::<bool, LibusbError>(false) <==> rc == 0,
        held is Err <==> rc < 0,
        held matches Err(error) ==> error == types::error_of(rc as int),
{
}

/// A device that was opened is known by the handle that libusb gave; nothing is handed out where
/// opening failed.
pub proof fn law_opened_handle(rc: i32, handle: usize, opened: Result<UsbDeviceHandle, LibusbError>)
    requires
        call_ensures(read_opened, (rc, handle), opened),
    ensures
        opened is Ok <==> rc >= 0,
        opened matches Ok(open) ==> open.handle == handle,
        opened matches Err(error) ==> error == types::error_of(rc as int),
{
}

/// A call that reports nothing but success or failure succeeded unless its code is negative; a
/// negative code is the error.
pub proof fn law_checked_codes(rc: i32, checked: Result<(), LibusbError>)
    requires
        call_ensures(check_code, (rc,), checked),
    ensures
        checked is Ok <==> rc >= 0,
        checked matches Err(error) ==> error == types::error_of(rc as int),
{
}

// ---------------------------------------------------------------------------
// Listing devices
// ---------------------------------------------------------------------------

/// What libusb tells about one entry of its device list.
#[derive(Debug, Clone, Copy)]
pub struct DeviceProbe {
    /// The device's address; 0 for an empty entry.
    pub device: usize,
    /// The device descriptor, where it could be read.
    pub descriptor: Option<DeviceDescriptor>,
    pub bus_number: u8,
    pub device_address: u8,
    pub port_number: u8,
    /// libusb's speed code.
    pub speed: u8,
}

/// One listed device.
pub type Listing = (UsbDevice, DeviceDescriptor, DeviceLocation);

impl DeviceProbe {
    /// The kind of device that a descriptor describes.
    pub open spec fn kind_of(descriptor: DeviceDescriptor) -> USBDeviceIdentifier {
        USBDeviceIdentifier {
            vendor_id: descriptor.vendor_id,
            product_id: descriptor.product_id,
        }
    }

    /// The entry appears in the guest's list: it is a device, it could be read, and the rule
    /// permits it.
    pub open spec fn is_listed(self, allowed: AllowedUSBDevices) -> bool {
        &&& self.device != 0
        &&& self.descriptor is Some
        &&& allowed.permits(Self::kind_of(self.descriptor->0))
    }

    /// The entry as the guest sees it.
    pub open spec fn listing(self) -> Listing {
        (
            UsbDevice { device: self.device },
            self.descriptor->0,
            DeviceLocation {
                bus_number: self.bus_number,
                device_address: self.device_address,
                port_number: self.port_number,
                speed: types::speed_of(self.speed),
            },
        )
    }
}

/// The guest's device list: the permitted entries, in libusb's order.
pub open spec fn listed(probes: Seq<DeviceProbe>, allowed: AllowedUSBDevices) -> Seq<Listing>
    decreases probes.len(),
{
    if probes.len() == 0 {
        Seq::empty()
    } else {
        let before = listed(probes.drop_last(), allowed);
        if probes.last().is_listed(allowed) {
            before.push(probes.last().listing())
        } else {
            before
        }
    }
}

fn consider(probe: &DeviceProbe, allowed: &AllowedUSBDevices) -> (entry: Option<Listing>)
    ensures
        probe.is_listed(*allowed) ==> entry == Some(probe.listing()),
        !probe.is_listed(*allowed) ==> entry is None,
{
    if probe.device == 0 {
        return None;
    }
    match probe.descriptor {
        None => None,
        Some(descriptor) => {
            let id = USBDeviceIdentifier {
                vendor_id: descriptor.vendor_id,
                product_id: descriptor.product_id,
            };
            if !allowed.is_allowed(&id) {
                return None;
            }
            let location = DeviceLocation {
                bus_number: probe.bus_number,
                device_address: probe.device_address,
                port_number: probe.port_number,
                speed: UsbSpeed::from_raw(probe.speed),
            };
            Some((UsbDevice { device: probe.device }, descriptor, location))
        },
    }
}

/// Picks the devices that the guest gets to see. `count` is what libusb returned for its list:
/// negative for an error.
pub fn select_devices(
    count: i32,
    probes: &[DeviceProbe],
    allowed: &AllowedUSBDevices,
) -> (result: Result<Vec<Listing>, LibusbError>)
    ensures
        count < 0 ==> result == Err::<Vec<Listing>, LibusbError>(types::error_of(count as int)),
        count >= 0 ==> result is Ok && result->Ok_0@ == listed(probes@, *allowed),
        count >= 0 ==> forall|k: int|
            0 <= k < result->Ok_0@.len() ==> exists|j: int|
                0 <= j < probes@.len() && stands_for(
                    #[trigger] result->Ok_0@[k],
                    #[trigger] probes@[j],
                ),
{
    if count < 0 {
        return Err(LibusbError::from_raw(count));
    }
    let mut devices: Vec<Listing> = Vec::new();
    let mut i: usize = 0;
    while i < probes.len()
        invariant
            i <= probes@.len(),
            devices@ == listed(probes@.take(i as int), *allowed),
        decreases probes@.len() - i,
    {
        assert(probes@.take(i + 1).drop_last() =~= probes@.take(i as int));
        if let Some(entry) = consider(&probes[i], allowed) {
            devices.push(entry);
        }
        i += 1;
    }
    assert(probes@.take(i as int) =~= probes@);
    proof {
        law_listed_devices_are_real(probes@, *allowed);
    }
    Ok(devices)
}

/// A listed device is this entry of libusb's list, field by field.
pub open spec fn stands_for(entry: Listing, probe: DeviceProbe) -> bool {
    let (device, descriptor, location) = entry;
    &&& device.device == probe.device
    &&& Some(descriptor) == probe.descriptor
    &&& location.bus_number == probe.bus_number
    &&& location.device_address == probe.device_address
    &&& location.port_number == probe.port_number
    &&& location.speed == types::speed_of(probe.speed)
}

/// Each listed device is an entry of libusb's list, field by field: the device itself, its
/// descriptor, bus, address and port, with the speed by its code. The entry is not empty, and the
/// rule permits its vendor and product.
pub proof fn law_listed_devices_are_real(probes: Seq<DeviceProbe>, allowed: AllowedUSBDevices)
    ensures
        forall|k: int|
            0 <= k < listed(probes, allowed).len() ==> exists|j: int|
                0 <= j < probes.len() && stands_for(
                    #[trigger] listed(probes, allowed)[k],
                    #[trigger] probes[j],
                ),
        forall|k: int|
            0 <= k < listed(probes, allowed).len() ==> exists|j: int|
                {
                    let (device, descriptor, location) = #[trigger] listed(probes, allowed)[k];
                    let p = #[trigger] probes[j];
                    &&& 0 <= j < probes.len()
                    &&& p.device != 0
                    &&& allowed.permits(
                        USBDeviceIdentifier {
                            vendor_id: descriptor.vendor_id,
                            product_id: descriptor.product_id,
                        },
                    )
                    &&& device.device == p.device
                    &&& Some(descriptor) == p.descriptor
                    &&& location.bus_number == p.bus_number
                    &&& location.device_address == p.device_address
                    &&& location.port_number == p.port_number
                    &&& location.speed == types::speed_of(p.speed)
                },
{
    law_only_permitted_devices(probes, allowed);
    let all = listed(probes, allowed);
    assert forall|k: int| 0 <= k < all.len() implies exists|j: int|
        0 <= j < probes.len() && stands_for(#[trigger] all[k], #[trigger] probes[j]) by {
        let j = choose|j: int|
            0 <= j < probes.len() && (#[trigger] probes[j]).is_listed(allowed)
                && probes[j].listing() == all[k];
        assert(stands_for(all[k], probes[j]));
    }
    assert forall|k: int| 0 <= k < all.len() implies exists|j: int|
        {
            let (device, descriptor, location) = #[trigger] all[k];
            let p = #[trigger] probes[j];
            &&& 0 <= j < probes.len()
            &&& p.device != 0
            &&& allowed.permits(
                USBDeviceIdentifier {
                    vendor_id: descriptor.vendor_id,
                    product_id: descriptor.product_id,
                },
            )
            &&& device.device == p.device
            &&& Some(descriptor) == p.descriptor
            &&& location.bus_number == p.bus_number
            &&& location.device_address == p.device_address
            &&& location.port_number == p.port_number
            &&& location.speed == types::speed_of(p.speed)
        } by {
        let j = choose|j: int|
            0 <= j < probes.len() && (#[trigger] probes[j]).is_listed(allowed)
                && probes[j].listing() == all[k];
        assert(stands_for(all[k], probes[j]));
        assert(probes[j].device != 0);
    }
}

/// The list that a guest is given: an error where libusb reports one, and else only entries of
/// libusb's list, each with the device, descriptor, bus, address and port of that entry, and every
/// entry that is permitted among them.
pub proof fn law_guest_sees_what_is_there(
    count: i32,
    probes: &[DeviceProbe],
    allowed: AllowedUSBDevices,
    result: Result<Vec<Listing>, LibusbError>,
)
    requires
        call_ensures(select_devices, (count, probes, &allowed), result),
    ensures
        result is Err <==> count < 0,
        result matches Ok(list) ==> {
            &&& forall|k: int|
                0 <= k < list@.len() ==> exists|j: int|
                    {
                        let (device, descriptor, location) = #[trigger] list@[k];
                        let p = #[trigger] probes@[j];
                        &&& 0 <= j < probes@.len()
                        &&& device.device == p.device
                        &&& Some(descriptor) == p.descriptor
                        &&& location.bus_number == p.bus_number
                        &&& location.device_address == p.device_address
                        &&& location.port_number == p.port_number
                    }
            &&& forall|j: int|
                {
                    let p = #[trigger] probes@[j];
                    0 <= j < probes@.len() && p.device != 0 && p.descriptor is Some
                        && allowed.permits(
                        USBDeviceIdentifier {
                            vendor_id: p.descriptor->0.vendor_id,
                            product_id: p.descriptor->0.product_id,
                        },
                    )
                } ==> exists|k: int|
                    0 <= k < list@.len() && stands_for(#[trigger] list@[k], probes@[j])
        },
{
    if count >= 0 {
        let list = listed(probes@, allowed);
        law_listed_devices_are_real(probes@, allowed);
        assert forall|j: int|
            {
                let p = #[trigger] probes@[j];
                0 <= j < probes@.len() && p.device != 0 && p.descriptor is Some && allowed.permits(
                    USBDeviceIdentifier {
                        vendor_id: p.descriptor->0.vendor_id,
                        product_id: p.descriptor->0.product_id,
                    },
                )
            } implies exists|k: int|
            0 <= k < list.len() && stands_for(#[trigger] list[k], probes@[j]) by {
            law_no_permitted_device_missing(probes@, allowed, j);
            let k = choose|k: int| 0 <= k < list.len() && list[k] == probes@[j].listing();
            assert(stands_for(list[k], probes@[j]));
        }
    }
}

/// What one entry of libusb's list becomes: itself, field by field, where it is a device whose
/// descriptor could be read and whose vendor and product the rule permits, and else nothing.
pub proof fn law_one_entry_listed(p: DeviceProbe, allowed: AllowedUSBDevices)
    ensures
        ({
            let list = listed(seq![p], allowed);
            let wanted = p.device != 0 && p.descriptor is Some && allowed.permits(
                USBDeviceIdentifier {
                    vendor_id: p.descriptor->0.vendor_id,
                    product_id: p.descriptor->0.product_id,
                },
            );
            &&& !wanted ==> list.len() == 0
            &&& wanted ==> {
                let (device, descriptor, location) = list[0];
                &&& list.len() == 1
                &&& device.device == p.device
                &&& descriptor == p.descriptor->0
                &&& location.bus_number == p.bus_number
                &&& location.device_address == p.device_address
                &&& location.port_number == p.port_number
                &&& location.speed == types::speed_of(p.speed)
            }
        }),
{
    reveal_with_fuel(listed, 2);
    assert(seq![p].drop_last() =~= Seq::<DeviceProbe>::empty());
}

/// The list keeps libusb's order, and no entry bears on another: what two lists put together become
/// is what the first becomes followed by what the second becomes.
pub proof fn law_list_keeps_its_order(
    first: Seq<DeviceProbe>,
    second: Seq<DeviceProbe>,
    allowed: AllowedUSBDevices,
)
    ensures
        listed(first + second, allowed) == listed(first, allowed) + listed(second, allowed),
    decreases second.len(),
{
    if second.len() == 0 {
        assert(first + second =~= first);
        assert(listed(first, allowed) + listed(second, allowed) =~= listed(first, allowed));
    } else {
        law_list_keeps_its_order(first, second.drop_last(), allowed);
        assert((first + second).drop_last() =~= first + second.drop_last());
        assert((first + second).last() == second.last());
        assert(listed(first + second, allowed) =~= listed(first, allowed) + listed(
            second,
            allowed,
        ));
    }
}

/// A guest's list holds permitted devices only: each listed device stands for an entry of libusb's
/// list that could be read and that the rule permits.
pub proof fn law_only_permitted_devices(probes: Seq<DeviceProbe>, allowed: AllowedUSBDevices)
    ensures
        forall|k: int|
            0 <= k < listed(probes, allowed).len() ==> allowed.permits(
                DeviceProbe::kind_of((#[trigger] listed(probes, allowed)[k]).1),
            ) && exists|j: int|
                0 <= j < probes.len() && (#[trigger] probes[j]).is_listed(allowed)
                    && probes[j].listing() == listed(probes, allowed)[k],
    decreases probes.len(),
{
    if probes.len() > 0 {
        let front = probes.drop_last();
        law_only_permitted_devices(front, allowed);
        let all = listed(probes, allowed);
        assert forall|k: int| 0 <= k < all.len() implies allowed.permits(
            DeviceProbe::kind_of((#[trigger] all[k]).1),
        ) && exists|j: int|
            0 <= j < probes.len() && (#[trigger] probes[j]).is_listed(allowed)
                && probes[j].listing() == all[k] by {
            if k < listed(front, allowed).len() {
                assert(all[k] == listed(front, allowed)[k]);
                let j = choose|j: int|
                    0 <= j < front.len() && (#[trigger] front[j]).is_listed(allowed)
                        && front[j].listing() == listed(front, allowed)[k];
                assert(probes[j] == front[j]);
            } else {
                assert(probes[probes.len() - 1].is_listed(allowed));
            }
        }
    }
}

/// No permitted device is left out: every entry that could be read and that the rule permits is in
/// the guest's list.
pub proof fn law_no_permitted_device_missing(
    probes: Seq<DeviceProbe>,
    allowed: AllowedUSBDevices,
    i: int,
)
    requires
        0 <= i < probes.len(),
        probes[i].is_listed(allowed),
    ensures
        listed(probes, allowed).contains(probes[i].listing()),
    decreases probes.len(),
{
    let all = listed(probes, allowed);
    if i == probes.len() - 1 {
        assert(all[all.len() - 1] == probes[i].listing());
    } else {
        let front = probes.drop_last();
        law_no_permitted_device_missing(front, allowed, i);
        let k = choose|k: int|
            0 <= k < listed(front, allowed).len() && listed(front, allowed)[k]
                == front[i].listing();
        assert(all[k] == probes[i].listing());
    }
}

// ---------------------------------------------------------------------------
// Configuration descriptors
// ---------------------------------------------------------------------------

/// An endpoint as libusb reports it.
#[derive(Debug, Clone, Copy)]
pub struct RawEndpoint {
    pub b_length: u8,
    pub b_descriptor_type: u8,
    pub b_endpoint_address: u8,
    pub bm_attributes: u8,
    pub w_max_packet_size: u16,
    pub b_interval: u8,
    pub b_refresh: u8,
    pub b_synch_address: u8,
}

/// An alternate setting as libusb reports it.
#[derive(Debug)]
pub struct RawAltSetting {
    pub b_length: u8,
    pub b_descriptor_type: u8,
    pub b_interface_number: u8,
    pub b_alternate_setting: u8,
    pub b_interface_class: u8,
    pub b_interface_sub_class: u8,
    pub b_interface_protocol: u8,
    pub i_interface: u8,
    pub endpoints: Vec<RawEndpoint>,
}

/// An interface as libusb reports it: its alternate settings.
#[derive(Debug)]
pub struct RawInterface {
    pub altsetting: Vec<RawAltSetting>,
}

/// A configuration as libusb reports it.
#[derive(Debug)]
pub struct RawConfig {
    pub b_length: u8,
    pub b_descriptor_type: u8,
    pub w_total_length: u16,
    pub b_configuration_value: u8,
    pub i_configuration: u8,
    pub bm_attributes: u8,
    pub b_max_power: u8,
    pub interfaces: Vec<RawInterface>,
}

impl RawEndpoint {
    /// The endpoint as the guest sees it.
    pub open spec fn described(self) -> EndpointDescriptor {
        EndpointDescriptor {
            length: self.b_length,
            descriptor_type: self.b_descriptor_type,
            endpoint_address: self.b_endpoint_address,
            attributes: self.bm_attributes,
            max_packet_size: self.w_max_packet_size,
            interval: self.b_interval,
            refresh: self.b_refresh,
            synch_address: self.b_synch_address,
        }
    }
}

impl RawAltSetting {
    /// `seen` describes this alternate setting, with all its endpoints in order.
    pub open spec fn described_by(self, seen: InterfaceDescriptor) -> bool {
        &&& seen.length == self.b_length
        &&& seen.descriptor_type == self.b_descriptor_type
        &&& seen.interface_number == self.b_interface_number
        &&& seen.alternate_setting == self.b_alternate_setting
        &&& seen.interface_class == self.b_interface_class
        &&& seen.interface_subclass == self.b_interface_sub_class
        &&& seen.interface_protocol == self.b_interface_protocol
        &&& seen.interface_index == self.i_interface
        &&& seen.endpoints@ == self.endpoints@.map_values(|e: RawEndpoint| e.described())
    }
}

/// All alternate settings of all interfaces, one after the other.
pub open spec fn all_settings(interfaces: Seq<RawInterface>) -> Seq<RawAltSetting>
    decreases interfaces.len(),
{
    if interfaces.len() == 0 {
        Seq::empty()
    } else {
        all_settings(interfaces.drop_last()) + interfaces.last().altsetting@
    }
}

impl RawConfig {
    /// `seen` describes this configuration, with one entry for each alternate setting.
    pub open spec fn described_by(self, seen: ConfigurationDescriptor) -> bool {
        let settings = all_settings(self.interfaces@);
        &&& seen.length == self.b_length
        &&& seen.descriptor_type == self.b_descriptor_type
        &&& seen.total_length == self.w_total_length
        &&& seen.configuration_value == self.b_configuration_value
        &&& seen.configuration_index == self.i_configuration
        &&& seen.attributes == self.bm_attributes
        &&& seen.max_power == self.b_max_power
        &&& seen.interfaces@.len() == settings.len()
        &&& forall|i: int|
            0 <= i < settings.len() ==> settings[i].described_by(#[trigger] seen.interfaces@[i])
    }
}

/// The guest's list of interfaces goes through libusb's interfaces in order, and through the settings
/// of each in order: two runs of interfaces put together give the settings of the first followed by
/// those of the second, and one interface gives its own.
pub proof fn law_settings_keep_their_order(
    first: Seq<RawInterface>,
    second: Seq<RawInterface>,
    one: RawInterface,
)
    ensures
        all_settings(first + second) == all_settings(first) + all_settings(second),
        all_settings(seq![one]) == one.altsetting@,
    decreases second.len(),
{
    reveal_with_fuel(all_settings, 2);
    assert(seq![one].drop_last() =~= Seq::<RawInterface>::empty());
    assert(all_settings(seq![one]) =~= one.altsetting@);
    if second.len() == 0 {
        assert(first + second =~= first);
        assert(all_settings(first) + all_settings(second) =~= all_settings(first));
    } else {
        law_settings_keep_their_order(first, second.drop_last(), one);
        assert((first + second).drop_last() =~= first + second.drop_last());
        assert((first + second).last() == second.last());
        assert(all_settings(first + second) =~= all_settings(first) + all_settings(second));
    }
}

/// What the guest sees of a configuration are libusb's numbers, each in its place: those of the
/// configuration, of each alternate setting, and of each endpoint.
pub proof fn law_descriptors_field_by_field(
    raw: RawConfig,
    seen: ConfigurationDescriptor,
    i: int,
    k: int,
)
    requires
        raw.described_by(seen),
    ensures
        seen.length == raw.b_length,
        seen.descriptor_type == raw.b_descriptor_type,
        seen.total_length == raw.w_total_length,
        seen.configuration_value == raw.b_configuration_value,
        seen.configuration_index == raw.i_configuration,
        seen.attributes == raw.bm_attributes,
        seen.max_power == raw.b_max_power,
        seen.interfaces@.len() == all_settings(raw.interfaces@).len(),
        0 <= i < seen.interfaces@.len() ==> {
            let setting = all_settings(raw.interfaces@)[i];
            let interface = seen.interfaces@[i];
            &&& interface.length == setting.b_length
            &&& interface.descriptor_type == setting.b_descriptor_type
            &&& interface.interface_number == setting.b_interface_number
            &&& interface.alternate_setting == setting.b_alternate_setting
            &&& interface.interface_class == setting.b_interface_class
            &&& interface.interface_subclass == setting.b_interface_sub_class
            &&& interface.interface_protocol == setting.b_interface_protocol
            &&& interface.interface_index == setting.i_interface
            &&& interface.endpoints@.len() == setting.endpoints@.len()
            &&& 0 <= k < setting.endpoints@.len() ==> {
                let from = setting.endpoints@[k];
                let endpoint = interface.endpoints@[k];
                &&& endpoint.length == from.b_length
                &&& endpoint.descriptor_type == from.b_descriptor_type
                &&& endpoint.endpoint_address == from.b_endpoint_address
                &&& endpoint.attributes == from.bm_attributes
                &&& endpoint.max_packet_size == from.w_max_packet_size
                &&& endpoint.interval == from.b_interval
                &&& endpoint.refresh == from.b_refresh
                &&& endpoint.synch_address == from.b_synch_address
            }
        },
{
}

fn describe_endpoints(raw: &[RawEndpoint]) -> (seen: Vec<EndpointDescriptor>)
    ensures
        seen@ == raw@.map_values(|e: RawEndpoint| e.described()),
{
    let mut seen: Vec<EndpointDescriptor> = Vec::new();
    let mut k: usize = 0;
    while k < raw.len()
        invariant
            k <= raw@.len(),
            seen@.len() == k,
            forall|j: int| 0 <= j < k ==> seen@[j] == raw@[j].described(),
        decreases raw@.len() - k,
    {
        let endpoint = &raw[k];
        seen.push(
            EndpointDescriptor {
                length: endpoint.b_length,
                descriptor_type: endpoint.b_descriptor_type,
                endpoint_address: endpoint.b_endpoint_address,
                attributes: endpoint.bm_attributes,
                max_packet_size: endpoint.w_max_packet_size,
                interval: endpoint.b_interval,
                refresh: endpoint.b_refresh,
                synch_address: endpoint.b_synch_address,
            },
        );
        k += 1;
    }
    assert(seen@ =~= raw@.map_values(|e: RawEndpoint| e.described()));
    seen
}

fn describe_setting(raw: &RawAltSetting) -> (seen: InterfaceDescriptor)
    ensures
        raw.described_by(seen),
{
    InterfaceDescriptor {
        length: raw.b_length,
        descriptor_type: raw.b_descriptor_type,
        interface_number: raw.b_interface_number,
        alternate_setting: raw.b_alternate_setting,
        interface_class: raw.b_interface_class,
        interface_subclass: raw.b_interface_sub_class,
        interface_protocol: raw.b_interface_protocol,
        interface_index: raw.i_interface,
        endpoints: describe_endpoints(raw.endpoints.as_slice()),
    }
}

/// Turns a configuration of libusb into the guest's form: interfaces and their alternate settings
/// become one flat list.
pub fn generate_config_descriptor(raw: &RawConfig) -> (seen: ConfigurationDescriptor)
    ensures
        raw.described_by(seen),
{
    let mut interfaces: Vec<InterfaceDescriptor> = Vec::new();
    let mut i: usize = 0;
    while i < raw.interfaces.len()
        invariant
            i <= raw.interfaces@.len(),
            interfaces@.len() == all_settings(raw.interfaces@.take(i as int)).len(),
            forall|n: int|
                0 <= n < interfaces@.len() ==> all_settings(
                    raw.interfaces@.take(i as int),
                )[n].described_by(#[trigger] interfaces@[n]),
        decreases raw.interfaces@.len() - i,
    {
        let interface = &raw.interfaces[i];
        let ghost before = all_settings(raw.interfaces@.take(i as int));
        let ghost after = all_settings(raw.interfaces@.take(i + 1));
        assert(raw.interfaces@.take(i + 1).drop_last() =~= raw.interfaces@.take(i as int));
        assert(after == before + interface.altsetting@);
        let mut j: usize = 0;
        while j < interface.altsetting.len()
            invariant
                j <= interface.altsetting@.len(),
                after == before + interface.altsetting@,
                interfaces@.len() == before.len() + j,
                forall|n: int|
                    0 <= n < interfaces@.len() ==> after[n].described_by(
                        #[trigger] interfaces@[n],
                    ),
            decreases interface.altsetting@.len() - j,
        {
            interfaces.push(describe_setting(&interface.altsetting[j]));
            j += 1;
        }
        i += 1;
    }
    assert(raw.interfaces@.take(i as int) =~= raw.interfaces@);
    ConfigurationDescriptor {
        length: raw.b_length,
        descriptor_type: raw.b_descriptor_type,
        total_length: raw.w_total_length,
        configuration_value: raw.b_configuration_value,
        configuration_index: raw.i_configuration,
        attributes: raw.bm_attributes,
        max_power: raw.b_max_power,
        interfaces,
    }
}

/// Reads the answer to a query for a configuration descriptor. `config` is present exactly where
/// the query succeeded.
pub fn read_config_descriptor(
    rc: i32,
    config: Option<&RawConfig>,
) -> (result: Result<ConfigurationDescriptor, LibusbError>)
    requires
        rc >= 0 ==> config is Some,
    ensures
        rc < 0 ==> result == Err::<ConfigurationDescriptor, LibusbError>(
            types::error_of(rc as int),
        ),
        rc >= 0 ==> result is Ok && config->0.described_by(result->Ok_0),
{
    if rc < 0 {
        Err(LibusbError::from_raw(rc))
    } else {
        Ok(generate_config_descriptor(config.unwrap()))
    }
}

// ---------------------------------------------------------------------------
// Backend state
// ---------------------------------------------------------------------------

/// `LIBUSB_HOTPLUG_EVENT_DEVICE_ARRIVED`.
pub const HOTPLUG_ARRIVED: i32 = 1;

/// `LIBUSB_HOTPLUG_EVENT_DEVICE_LEFT`.
pub const HOTPLUG_LEFT: i32 = 2;

/// The state of the libusb backend.
#[derive(Debug, Clone, Copy, PartialEq, Eq, Structural)]
pub struct LibusbBackend {
    /// The libusb context, once there is one.
    pub context: Option<usize>,
    /// The event loop has been started.
    pub event_loop: bool,
    pub hotplug_enabled: bool,
    pub hotplug_handle: Option<i32>,
}

/// What initialising the backend takes.
#[derive(Debug, Clone, Copy, PartialEq, Eq, Structural)]
pub enum InitStep {
    /// The backend is ready.
    Ready,
    /// A libusb context has to be made.
    CreateContext,
}

/// What switching hotplug monitoring on takes.
#[derive(Debug, Clone, Copy, PartialEq, Eq, Structural)]
pub enum HotplugStep {
    /// Monitoring is on.
    Ready,
    /// A callback has to be registered with this context.
    Register { context: usize },
}

impl LibusbBackend {
    /// The event loop runs exactly while there is a context, and a callback is registered exactly
    /// where monitoring is on.
    pub open spec fn wf(&self) -> bool {
        &&& self.event_loop == self.context is Some
        &&& self.hotplug_enabled == self.hotplug_handle is Some
        &&& self.hotplug_enabled ==> self.context is Some
    }

    /// A backend that has not been initialised.
    pub fn new() -> (backend: Self)
        ensures
            backend.wf(),
            backend == (LibusbBackend {
                context: None,
                event_loop: false,
                hotplug_enabled: false,
                hotplug_handle: None,
            }),
    {
        LibusbBackend {
            context: None,
            event_loop: false,
            hotplug_enabled: false,
            hotplug_handle: None,
        }
    }

    /// Initialising twice is no error: a context is made only where there is none.
    pub fn init(&self) -> (step: InitStep)
        ensures
            step == (if self.context is Some {
                InitStep::Ready
            } else {
                InitStep::CreateContext
            }),
    {
        if self.context.is_some() {
            InitStep::Ready
        } else {
            InitStep::CreateContext
        }
    }

    /// Takes libusb's answer to making a context; with a context the event loop starts.
    pub fn initialised(&mut self, rc: i32, context: usize) -> (result: Result<(), LibusbError>)
        requires
            old(self).wf(),
            old(self).context is None,
        ensures
            final(self).wf(),
            result == outcome_of(rc),
            rc < 0 ==> *final(self) == *old(self),
            rc >= 0 ==> *final(self) == (LibusbBackend {
                context: Some(context),
                event_loop: true,
                ..*old(self)
            }),
    {
        if rc < 0 {
            return Err(LibusbError::from_raw(rc));
        }
        self.context = Some(context);
        self.event_loop = true;
        Ok(())
    }

    /// Whether the event loop goes on after a round that returned `rc`.
    pub fn keep_polling(running: bool, rc: i32) -> (go_on: bool)
        ensures
            go_on == (running && rc >= 0),
    {
        running && rc >= 0
    }

    /// The context to list devices with.
    pub fn listing_context(&self) -> (result: Result<usize, LibusbError>)
        ensures
            result == (match self.context {
                Some(context) => Ok::<usize, LibusbError>(context),
                None => Err::<usize, LibusbError>(LibusbError::NotFound),
            }),
    {
        match self.context {
            Some(context) => Ok(context),
            None => Err(LibusbError::NotFound),
        }
    }

    /// Switching monitoring on twice is no error; it takes a libusb with hotplug support
    /// (`capability` is not 0) and a context.
    pub fn enable_hotplug(&self, capability: i32) -> (result: Result<HotplugStep, LibusbError>)
        ensures
            result == (if self.hotplug_enabled {
                Ok::<HotplugStep, LibusbError>(HotplugStep::Ready)
            } else if capability == 0 {
                Err::<HotplugStep, LibusbError>(LibusbError::NotSupported)
            } else {
                match self.context {
                    Some(context) => Ok::<HotplugStep, LibusbError>(
                        HotplugStep::Register { context },
                    ),
                    None => Err::<HotplugStep, LibusbError>(LibusbError::NotFound),
                }
            }),
    {
        if self.hotplug_enabled {
            return Ok(HotplugStep::Ready);
        }
        if capability == 0 {
            return Err(LibusbError::NotSupported);
        }
        match self.context {
            Some(context) => Ok(HotplugStep::Register { context }),
            None => Err(LibusbError::NotFound),
        }
    }

    /// Takes libusb's answer to registering the hotplug callback.
    pub fn hotplug_registered(&mut self, rc: i32, handle: i32) -> (result: Result<(), LibusbError>)
        requires
            old(self).wf(),
            old(self).context is Some,
        ensures
            final(self).wf(),
            result == outcome_of(rc),
            rc < 0 ==> *final(self) == *old(self),
            rc >= 0 ==> *final(self) == (LibusbBackend {
                hotplug_enabled: true,
                hotplug_handle: Some(handle),
                ..*old(self)
            }),
    {
        if rc < 0 {
            return Err(LibusbError::from_raw(rc));
        }
        self.hotplug_handle = Some(handle);
        self.hotplug_enabled = true;
        Ok(())
    }
}

/// What a backend is ready for follows from its context: without one it has to be made before devices
/// can be listed or watched, and with one it is not made again. Watching also takes a libusb that
/// can, and is not set up twice.
pub proof fn law_backend_goes_by_its_context(
    backend: LibusbBackend,
    capability: i32,
    step: InitStep,
    listing: Result<usize, LibusbError>,
    watching: Result<HotplugStep, LibusbError>,
)
    requires
        backend.wf(),
        call_ensures(LibusbBackend::init, (&backend,), step),
        call_ensures(LibusbBackend::listing_context, (&backend,), listing),
        call_ensures(LibusbBackend::enable_hotplug, (&backend, capability), watching),
    ensures
        backend.context is None ==> {
            &&& step == InitStep::CreateContext
            &&& listing == Err::<usize, LibusbError>(LibusbError::NotFound)
            &&& watching == Err::<HotplugStep, LibusbError>(
                if capability == 0 {
                    LibusbError::NotSupported
                } else {
                    LibusbError::NotFound
                },
            )
        },
        backend.context matches Some(context) ==> {
            &&& step == InitStep::Ready
            &&& listing == Ok::<usize, LibusbError>(context)
            &&& backend.hotplug_handle is Some ==> watching == Ok::<HotplugStep, LibusbError>(
                HotplugStep::Ready,
            )
            &&& backend.hotplug_handle is None && capability != 0 ==> watching == Ok::<
                HotplugStep,
                LibusbError,
            >(HotplugStep::Register { context })
            &&& backend.hotplug_handle is None && capability == 0 ==> watching == Err::<
                HotplugStep,
                LibusbError,
            >(LibusbError::NotSupported)
        },
{
}

/// The event loop ends where it is told to, and after an error.
pub proof fn law_polling_ends(running: bool, rc: i32, go_on: bool)
    requires
        call_ensures(LibusbBackend::keep_polling, (running, rc), go_on),
    ensures
        !running ==> !go_on,
        rc < 0 ==> !go_on,
        running && rc >= 0 ==> go_on,
{
}

/// A context that was made starts the event loop, and a callback that was registered switches
/// monitoring on; where libusb refuses, the backend stays as it was.
pub proof fn law_backend_takes_what_it_gets(
    backend: &mut LibusbBackend,
    rc: i32,
    context: usize,
    made: Result<(), LibusbError>,
    watching: &mut LibusbBackend,
    handle: i32,
    registered: Result<(), LibusbError>,
)
    requires
        call_ensures(LibusbBackend::initialised, (backend, rc, context), made),
        call_ensures(LibusbBackend::hotplug_registered, (watching, rc, handle), registered),
    ensures
        made is Ok <==> rc >= 0,
        registered is Ok <==> rc >= 0,
        rc >= 0 ==> {
            &&& final(backend).context == Some(context)
            &&& final(backend).event_loop
            &&& final(backend).hotplug_enabled == old(backend).hotplug_enabled
            &&& final(watching).hotplug_enabled
            &&& final(watching).hotplug_handle == Some(handle)
            &&& final(watching).context == old(watching).context
        },
        rc < 0 ==> *final(backend) == *old(backend) && *final(watching) == *old(watching),
{
}

} // verus!
