use libusb1_sys::constants as libusb;
use wasi_usb::backend::{
    check_code, configuration_number, generate_config_descriptor, read_config_descriptor,
    read_configuration, read_driver_active, read_opened, select_devices, DeviceProbe, HotplugStep,
    InitStep, LibusbBackend, RawAltSetting, RawConfig, RawEndpoint, RawInterface, HOTPLUG_ARRIVED,
    HOTPLUG_LEFT,
};
use wasi_usb::host::MyState;
use wasi_usb::hotplug::{HotplugQueue, Notification};
use wasi_usb::policy::{AllowedUSBDevices, USBDeviceIdentifier};
use wasi_usb::transfers::{
    conclude, plan_transfer, zeroed, Completion, DropAction, UsbTransfer, STATUS_CANCELLED,
    STATUS_COMPLETED, STATUS_ERROR, STATUS_NO_DEVICE, STATUS_OVERFLOW, STATUS_STALL,
    STATUS_TIMED_OUT, TYPE_BULK, TYPE_CONTROL, TYPE_INTERRUPT, TYPE_ISOCHRONOUS,
};
use wasi_usb::types::{
    ConfigValue, DeviceDescriptor, Event, IsoPacket, IsoPacketStatus, LibusbError, TransferOptions,
    TransferSetup, TransferType, UsbDevice, UsbDeviceHandle, UsbSpeed,
};

fn id(vendor_id: u16, product_id: u16) -> USBDeviceIdentifier {
    USBDeviceIdentifier { vendor_id, product_id }
}

fn descriptor(vendor_id: u16, product_id: u16) -> DeviceDescriptor {
    DeviceDescriptor {
        length: 18,
        descriptor_type: 1,
        usb_version_bcd: 0x0210,
        device_class: 0,
        device_subclass: 0,
        device_protocol: 0,
        max_packet_size0: 64,
        vendor_id,
        product_id,
        device_version_bcd: 0x0100,
        manufacturer_index: 1,
        product_index: 2,
        serial_number_index: 3,
        num_configurations: 1,
    }
}

fn probe(device: usize, vendor_id: u16, product_id: u16) -> DeviceProbe {
    DeviceProbe {
        device,
        descriptor: Some(descriptor(vendor_id, product_id)),
        bus_number: 1,
        device_address: device as u8,
        port_number: 4,
        speed: 3,
    }
}

fn setup(bm_request_type: u8) -> TransferSetup {
    TransferSetup { bm_request_type, b_request: 9, w_value: 0x1234, w_index: 0x5678 }
}

fn opts(endpoint: u8, iso_packets: u32) -> TransferOptions {
    TransferOptions { endpoint, timeout_ms: 250, stream_id: 0, iso_packets }
}

/// A host with an open device, and the index of that device.
fn opened() -> (MyState, u32) {
    let mut state = MyState::new(AllowedUSBDevices::All);
    let list = state.list_devices(1, &[probe(9, 9, 9)]).unwrap();
    let rep = state.opened(list[0].0, 0, 0x77).unwrap();
    (state, rep)
}

/// Adds a transfer to the host.
fn transfer(state: &mut MyState, rep: u32, kind: TransferType, bm: u8, ep: u8, size: u32) -> u32 {
    let (handle, plan) = state.new_transfer(rep, kind, setup(bm), size, opts(ep, 3));
    assert_eq!(handle, UsbDeviceHandle { handle: 0x77 });
    state.transfer_allocated(plan, 0x1000).unwrap()
}

// ---------------------------------------------------------------------------
// Codes
// ---------------------------------------------------------------------------

#[test]
fn codes_are_those_of_libusb() {
    assert_eq!(TYPE_CONTROL, libusb::LIBUSB_TRANSFER_TYPE_CONTROL);
    assert_eq!(TYPE_ISOCHRONOUS, libusb::LIBUSB_TRANSFER_TYPE_ISOCHRONOUS);
    assert_eq!(TYPE_BULK, libusb::LIBUSB_TRANSFER_TYPE_BULK);
    assert_eq!(TYPE_INTERRUPT, libusb::LIBUSB_TRANSFER_TYPE_INTERRUPT);
    assert_eq!(STATUS_COMPLETED, libusb::LIBUSB_TRANSFER_COMPLETED);
    assert_eq!(STATUS_ERROR, libusb::LIBUSB_TRANSFER_ERROR);
    assert_eq!(STATUS_TIMED_OUT, libusb::LIBUSB_TRANSFER_TIMED_OUT);
    assert_eq!(STATUS_CANCELLED, libusb::LIBUSB_TRANSFER_CANCELLED);
    assert_eq!(STATUS_STALL, libusb::LIBUSB_TRANSFER_STALL);
    assert_eq!(STATUS_NO_DEVICE, libusb::LIBUSB_TRANSFER_NO_DEVICE);
    assert_eq!(STATUS_OVERFLOW, libusb::LIBUSB_TRANSFER_OVERFLOW);
    assert_eq!(HOTPLUG_ARRIVED, libusb::LIBUSB_HOTPLUG_EVENT_DEVICE_ARRIVED);
    assert_eq!(HOTPLUG_LEFT, libusb::LIBUSB_HOTPLUG_EVENT_DEVICE_LEFT);
    assert_eq!(LibusbError::from_raw(libusb::LIBUSB_ERROR_IO), LibusbError::Io);
    assert_eq!(LibusbError::from_raw(libusb::LIBUSB_ERROR_PIPE), LibusbError::Pipe);
    assert_eq!(LibusbError::from_raw(libusb::LIBUSB_ERROR_OTHER), LibusbError::Other);
    assert_eq!(LibusbError::from_raw(libusb::LIBUSB_ERROR_NOT_SUPPORTED), LibusbError::NotSupported);
}

#[test]
fn error_codes() {
    let known = [
        LibusbError::Io,
        LibusbError::InvalidParam,
        LibusbError::Access,
        LibusbError::NoDevice,
        LibusbError::NotFound,
        LibusbError::Busy,
        LibusbError::Timeout,
        LibusbError::Overflow,
        LibusbError::Pipe,
        LibusbError::Interrupted,
        LibusbError::NoMem,
        LibusbError::NotSupported,
    ];
    for (i, error) in known.iter().enumerate() {
        assert_eq!(LibusbError::from_raw(-1 - i as i32), *error);
        assert_eq!(LibusbError::from_i32(-1 - i as i32), *error);
    }
    for code in [-99, -13, 0, 1, i32::MIN, i32::MAX] {
        assert_eq!(LibusbError::from_raw(code), LibusbError::Other);
        assert_eq!(LibusbError::from_i32(code), LibusbError::Other);
    }
}

#[test]
fn speed_codes() {
    let speeds = [
        UsbSpeed::Unknown,
        UsbSpeed::Low,
        UsbSpeed::Full,
        UsbSpeed::High,
        UsbSpeed::Super,
        UsbSpeed::SuperPlus,
        UsbSpeed::SuperPlusX2,
        UsbSpeed::Unknown,
    ];
    for (code, speed) in speeds.iter().enumerate() {
        assert_eq!(UsbSpeed::from_raw(code as u8), *speed);
    }
    assert_eq!(UsbSpeed::from_u8(5), UsbSpeed::SuperPlus);
    assert_eq!(UsbSpeed::from_u8(6), UsbSpeed::Unknown);
}

#[test]
fn return_codes() {
    assert_eq!(check_code(0), Ok(()));
    assert_eq!(check_code(3), Ok(()));
    assert_eq!(check_code(-6), Err(LibusbError::Busy));
    assert_eq!(read_configuration(0, 2), Ok(2));
    assert_eq!(read_configuration(0, 257), Ok(1));
    assert_eq!(read_configuration(0, -1), Ok(255));
    assert_eq!(read_configuration(-4, 2), Err(LibusbError::NoDevice));
    assert_eq!(configuration_number(ConfigValue::Value(7)), 7);
    assert_eq!(configuration_number(ConfigValue::Unconfigured), 0);
    assert_eq!(read_driver_active(0), Ok(false));
    assert_eq!(read_driver_active(1), Ok(true));
    assert_eq!(read_driver_active(-12), Err(LibusbError::NotSupported));
    assert_eq!(read_opened(0, 5), Ok(UsbDeviceHandle { handle: 5 }));
    assert_eq!(read_opened(-3, 5), Err(LibusbError::Access));
}

// ---------------------------------------------------------------------------
// Policy
// ---------------------------------------------------------------------------

#[test]
fn identifiers_from_text() {
    assert_eq!(USBDeviceIdentifier::from_str("046d:086C"), Ok(id(0x046d, 0x086c)));
    assert_eq!(USBDeviceIdentifier::from_str("+1:ffff"), Ok(id(1, 0xffff)));
    let format = Err("Invalid format. Expected vendor_id:product_id");
    assert_eq!(USBDeviceIdentifier::from_str("046d"), format);
    assert_eq!(USBDeviceIdentifier::from_str("1:2:3"), format);
    assert_eq!(USBDeviceIdentifier::from_str(""), format);
    assert_eq!(USBDeviceIdentifier::from_str(":2"), Err("Invalid vendor_id"));
    assert_eq!(USBDeviceIdentifier::from_str("10000:2"), Err("Invalid vendor_id"));
    assert_eq!(USBDeviceIdentifier::from_str(" 1:2"), Err("Invalid vendor_id"));
    assert_eq!(USBDeviceIdentifier::from_str("1:g"), Err("Invalid product_id"));
    assert_eq!(USBDeviceIdentifier::from_str("1:"), Err("Invalid product_id"));
}

#[test]
fn rules_permit_and_forbid() {
    let list = || vec![id(1, 2), id(3, 4)];
    let allowed = AllowedUSBDevices::from_list(list(), true);
    let denied = AllowedUSBDevices::from_list(list(), false);
    for (device, listed) in [(id(1, 2), true), (id(3, 4), true), (id(1, 4), false)] {
        assert_eq!(allowed.is_allowed(&device), listed);
        assert_eq!(denied.is_allowed(&device), !listed);
        assert!(AllowedUSBDevices::All.is_allowed(&device));
        assert_eq!(allowed.duplicate().is_allowed(&device), listed);
        assert_eq!(denied.duplicate().is_allowed(&device), !listed);
    }
    assert!(AllowedUSBDevices::All.duplicate().is_allowed(&id(9, 9)));
    assert!(!AllowedUSBDevices::from_list(vec![], true).is_allowed(&id(1, 2)));
    assert!(AllowedUSBDevices::from_list(vec![], false).is_allowed(&id(1, 2)));
}

// ---------------------------------------------------------------------------
// Devices
// ---------------------------------------------------------------------------

#[test]
fn listed_devices() {
    let mut unreadable = probe(3, 1, 1);
    unreadable.descriptor = None;
    let probes = [probe(1, 1, 1), probe(0, 1, 1), probe(2, 2, 2), unreadable, probe(4, 1, 1)];
    let rule = AllowedUSBDevices::Denied(vec![id(2, 2)]);
    let list = select_devices(5, &probes, &rule).unwrap();
    assert_eq!(list.len(), 2);
    assert_eq!(list[0].0, UsbDevice { device: 1 });
    assert_eq!(list[1].0, UsbDevice { device: 4 });
    assert_eq!(list[1].1, descriptor(1, 1));
    assert_eq!((list[1].2.bus_number, list[1].2.device_address, list[1].2.port_number), (1, 4, 4));
    assert_eq!(list[1].2.speed, UsbSpeed::High);
    assert_eq!(select_devices(-11, &probes, &rule).unwrap_err(), LibusbError::NoMem);
}

#[test]
fn listed_devices_get_entries() {
    let mut state = MyState::new(AllowedUSBDevices::Allowed(vec![id(2, 2)]));
    let probes = [probe(1, 1, 1), probe(2, 2, 2), probe(3, 2, 2)];
    let list = state.list_devices(3, &probes).unwrap();
    assert_eq!(list.len(), 2);
    assert_ne!(list[0].0, list[1].0);
    assert_eq!(state.device(list[0].0), Some(UsbDevice { device: 2 }));
    assert_eq!(state.device(list[1].0), Some(UsbDevice { device: 3 }));
    assert_eq!(state.handle(list[0].0), None);
    assert!(state.find_transfer(list[0].0).is_none());
    assert_eq!(state.device(99), None);
    assert_eq!(state.list_devices(-1, &probes).unwrap_err(), LibusbError::Io);
}

#[test]
fn opening_and_closing_devices() {
    let (mut state, rep) = opened();
    assert_eq!(state.handle(rep), Some(UsbDeviceHandle { handle: 0x77 }));
    let device = state.list_devices(1, &[probe(9, 9, 9)]).unwrap()[0].0;
    assert_eq!(state.opened(device, -5, 0), Err(LibusbError::NotFound));
    assert_eq!(state.drop_handle(rep), UsbDeviceHandle { handle: 0x77 });
    assert_eq!(state.handle(rep), None);
}

#[test]
fn hotplug_events_in_order() {
    let rule = AllowedUSBDevices::Denied(vec![id(6, 6)]);
    let note = |device: usize, event: i32, vendor: u16| Notification {
        device,
        event,
        id: Some(id(vendor, vendor)),
        bus: 2,
        address: 9,
    };
    let mut queue = HotplugQueue::new();
    assert!(queue.notify(&note(1, HOTPLUG_ARRIVED, 5), &rule));
    assert!(!queue.notify(&note(2, HOTPLUG_ARRIVED, 6), &rule));
    assert!(!queue.notify(&note(3, 3, 5), &rule));
    assert!(!queue.notify(&Notification { id: None, ..note(4, HOTPLUG_LEFT, 5) }, &rule));
    assert!(queue.notify(&note(5, HOTPLUG_LEFT, 7), &rule));

    let mut state = MyState::new(AllowedUSBDevices::All);
    let events = state.poll_events(&mut queue).unwrap();
    assert_eq!(events.len(), 2);
    assert_eq!(events[0].0, Event { arrived: true, left: false });
    assert_eq!((events[0].1.bus, events[0].1.address), (2, 9));
    assert_eq!((events[0].1.vendor, events[0].1.product), (5, 5));
    assert_eq!(state.device(events[0].2), Some(UsbDevice { device: 1 }));
    assert_eq!(events[1].0, Event { arrived: false, left: true });
    assert_eq!(state.device(events[1].2), Some(UsbDevice { device: 5 }));
    assert!(state.poll_events(&mut queue).unwrap().is_empty());
    assert!(queue.poll_events().is_empty());
}

#[test]
fn backend_starts_once() {
    let mut backend = LibusbBackend::new();
    assert_eq!(backend.listing_context(), Err(LibusbError::NotFound));
    assert_eq!(backend.enable_hotplug(0), Err(LibusbError::NotSupported));
    assert_eq!(backend.enable_hotplug(1), Err(LibusbError::NotFound));
    assert_eq!(backend.init(), InitStep::CreateContext);
    assert_eq!(backend.initialised(-11, 0), Err(LibusbError::NoMem));
    assert_eq!(backend, LibusbBackend::new());
    assert_eq!(backend.initialised(0, 0xc0), Ok(()));
    assert_eq!(backend.init(), InitStep::Ready);
    assert_eq!(backend.listing_context(), Ok(0xc0));
    assert!(backend.event_loop);
    assert_eq!(backend.enable_hotplug(1), Ok(HotplugStep::Register { context: 0xc0 }));
    assert_eq!(backend.hotplug_registered(-2, 0), Err(LibusbError::InvalidParam));
    assert!(!backend.hotplug_enabled);
    assert_eq!(backend.hotplug_registered(0, 8), Ok(()));
    assert_eq!(backend.hotplug_handle, Some(8));
    assert_eq!(backend.enable_hotplug(0), Ok(HotplugStep::Ready));
    assert!(LibusbBackend::keep_polling(true, 0));
    assert!(!LibusbBackend::keep_polling(true, -1));
    assert!(!LibusbBackend::keep_polling(false, 0));
}

#[test]
fn configuration_descriptors() {
    let endpoint = |address: u8| RawEndpoint {
        b_length: 7,
        b_descriptor_type: 5,
        b_endpoint_address: address,
        bm_attributes: 2,
        w_max_packet_size: 512,
        b_interval: 1,
        b_refresh: 3,
        b_synch_address: 4,
    };
    let alt = |number: u8, setting: u8, endpoints: Vec<RawEndpoint>| RawAltSetting {
        b_length: 9,
        b_descriptor_type: 4,
        b_interface_number: number,
        b_alternate_setting: setting,
        b_interface_class: 8,
        b_interface_sub_class: 6,
        b_interface_protocol: 0x50,
        i_interface: 2,
        endpoints,
    };
    let raw = RawConfig {
        b_length: 9,
        b_descriptor_type: 2,
        w_total_length: 55,
        b_configuration_value: 1,
        i_configuration: 3,
        bm_attributes: 0x80,
        b_max_power: 250,
        interfaces: vec![
            RawInterface { altsetting: vec![alt(0, 0, vec![]), alt(0, 1, vec![endpoint(0x81)])] },
            RawInterface { altsetting: vec![] },
            RawInterface { altsetting: vec![alt(1, 0, vec![endpoint(2), endpoint(0x83)])] },
        ],
    };
    let seen = generate_config_descriptor(&raw);
    assert_eq!((seen.length, seen.descriptor_type, seen.total_length), (9, 2, 55));
    assert_eq!((seen.configuration_value, seen.configuration_index), (1, 3));
    assert_eq!((seen.attributes, seen.max_power), (0x80, 250));
    let places: Vec<(u8, u8, usize)> = seen
        .interfaces
        .iter()
        .map(|i| (i.interface_number, i.alternate_setting, i.endpoints.len()))
        .collect();
    assert_eq!(places, vec![(0, 0, 0), (0, 1, 1), (1, 0, 2)]);
    let last = &seen.interfaces[2];
    assert_eq!((last.interface_class, last.interface_subclass), (8, 6));
    assert_eq!((last.interface_protocol, last.interface_index), (0x50, 2));
    assert_eq!(last.endpoints[1].endpoint_address, 0x83);
    assert_eq!((last.endpoints[1].max_packet_size, last.endpoints[1].interval), (512, 1));
    assert_eq!((last.endpoints[1].refresh, last.endpoints[1].synch_address), (3, 4));
    assert!(last.endpoints[1].is_in() && last.endpoints[1].is_bulk() && !last.endpoints[0].is_in());
    assert_eq!(read_config_descriptor(0, Some(&raw)).unwrap().interfaces.len(), 3);
    assert_eq!(read_config_descriptor(-5, None).unwrap_err(), LibusbError::NotFound);
}

// ---------------------------------------------------------------------------
// Transfers
// ---------------------------------------------------------------------------

#[test]
fn control_transfer_layout() {
    let plan = plan_transfer(TransferType::Control, setup(0x21), 0x1_0203, opts(0, 7));
    assert_eq!(plan.transfer_type, TYPE_CONTROL);
    assert_eq!(plan.iso_packets, 0);
    assert_eq!(plan.length, 0x1_020b);
    assert_eq!(plan.buffer.len(), 0x1_020b);
    assert_eq!(plan.buffer[..8], [0x21, 9, 0x34, 0x12, 0x78, 0x56, 0x03, 0x02]);
    assert!(plan.buffer[8..].iter().all(|b| *b == 0));
    assert!(plan.packet_lengths.is_empty());
    assert_eq!((plan.timeout, plan.endpoint, plan.stream_id), (250, 0, None));
}

#[test]
fn isochronous_transfer_layout() {
    let plan = plan_transfer(TransferType::Isochronous, setup(0), 1000, opts(0x81, 3));
    assert_eq!(plan.iso_packets, 3);
    assert_eq!(plan.packet_lengths, vec![333, 333, 334]);
    assert_eq!(plan.packet_lengths.iter().sum::<u32>(), 1000);
    assert_eq!((plan.length, plan.buffer.len()), (1000, 1000));
    let many = plan_transfer(TransferType::Isochronous, setup(0), 2, opts(0x81, 5));
    assert_eq!(many.packet_lengths, vec![0, 0, 0, 0, 2]);
    let none = plan_transfer(TransferType::Isochronous, setup(0), 2, opts(0x81, 0));
    assert!(none.packet_lengths.is_empty());
    let huge = plan_transfer(TransferType::Isochronous, setup(0), 2, opts(0x81, u32::MAX));
    assert_eq!(huge.iso_packets, -1);
    assert!(huge.packet_lengths.is_empty());
}

#[test]
fn other_transfer_layouts() {
    let mut options = opts(2, 9);
    options.stream_id = 4;
    let bulk = plan_transfer(TransferType::Bulk, setup(0), 5, options);
    assert_eq!((bulk.transfer_type, bulk.iso_packets, bulk.stream_id), (TYPE_BULK, 0, Some(4)));
    assert_eq!(bulk.buffer, zeroed(5));
    let interrupt = plan_transfer(TransferType::Interrupt, setup(0), 0, opts(0x82, 9));
    assert_eq!((interrupt.transfer_type, interrupt.length), (TYPE_INTERRUPT, 0));
    assert!(interrupt.buffer.is_empty());
}

#[test]
fn transfer_that_cannot_be_allocated() {
    let (mut state, rep) = opened();
    let (_, plan) = state.new_transfer(rep, TransferType::Bulk, setup(0), 5, opts(2, 0));
    assert_eq!(state.transfer_allocated(plan, 0), Err(LibusbError::NoMem));
}

#[test]
fn submitting_outgoing_data() {
    let (mut state, rep) = opened();
    let bulk = transfer(&mut state, rep, TransferType::Bulk, 0x80, 2, 4);
    assert_eq!(state.submit_transfer(bulk, true, &[1; 4]).unwrap_err(), LibusbError::Busy);
    assert_eq!(state.submit_transfer(bulk, false, &[1; 3]).unwrap_err(), LibusbError::InvalidParam);
    let sent = state.submit_transfer(bulk, false, &[1, 2, 3, 4]).unwrap();
    assert_eq!((sent.transfer, sent.buffer), (0x1000, vec![1, 2, 3, 4]));
    assert!(state.find_transfer(bulk).unwrap().buffer.is_none());

    let control = transfer(&mut state, rep, TransferType::Control, 0x21, 0, 2);
    assert_ne!(control, bulk);
    assert_eq!(state.submit_transfer(control, false, &[]).unwrap_err(), LibusbError::InvalidParam);
    let sent = state.submit_transfer(control, false, &[0xaa, 0xbb]).unwrap();
    assert_eq!(sent.buffer, vec![0x21, 9, 0x34, 0x12, 0x78, 0x56, 2, 0, 0xaa, 0xbb]);
}

#[test]
fn submitting_for_incoming_data() {
    let (mut state, rep) = opened();
    let bulk = transfer(&mut state, rep, TransferType::Bulk, 0, 0x81, 4);
    assert_eq!(state.submit_transfer(bulk, false, &[9; 9]).unwrap().buffer, vec![0; 4]);
    let control = transfer(&mut state, rep, TransferType::Control, 0xa1, 0, 1);
    assert_eq!(
        state.submit_transfer(control, false, &[]).unwrap().buffer,
        vec![0xa1, 9, 0x34, 0x12, 0x78, 0x56, 1, 0, 0]
    );
}

#[test]
fn awaiting_transfers() {
    let (mut state, rep) = opened();
    let t = transfer(&mut state, rep, TransferType::Bulk, 0, 0x81, 4);
    assert_eq!(state.begin_await(t), Err(LibusbError::NotFound));
    state.submit_transfer(t, false, &[]).unwrap();
    assert_eq!(state.transfer_submitted(t, -4), Err(LibusbError::NoDevice));
    assert_eq!(state.begin_await(t), Err(LibusbError::NotFound));
    assert_eq!(state.transfer_submitted(t, 0), Ok(()));
    assert_eq!(state.begin_await(t), Ok(()));
    assert_eq!(state.begin_await(t), Err(LibusbError::NotFound));
    assert_eq!(
        state.finish_await(t, Some(Err(LibusbError::Timeout)), None).unwrap_err(),
        LibusbError::Timeout
    );
    assert!(state.find_transfer(t).is_some());
    assert_eq!(state.finish_await(t, None, None).unwrap_err(), LibusbError::Interrupted);
    let result = state.finish_await(t, Some(Ok(vec![5, 6])), None).unwrap();
    assert_eq!((result.data, result.packets.len()), (vec![5, 6], 0));
    assert!(state.find_transfer(t).is_none());
    assert_eq!(state.drop_transfer(t, true), None);
}

#[test]
fn dropping_transfers() {
    let (mut state, rep) = opened();
    let fresh = transfer(&mut state, rep, TransferType::Bulk, 0, 0x81, 4);
    assert_eq!(state.cancel_transfer(fresh, true), None);
    assert_eq!(state.cancel_transfer(fresh, false), Some(0x1000));
    assert_eq!(state.drop_transfer(fresh, false), Some((0x1000, DropAction::Free)));
    assert_eq!(state.drop_transfer(fresh, false), None);
    for (completed, action) in [(false, DropAction::Cancel), (true, DropAction::Nothing)] {
        let t = transfer(&mut state, rep, TransferType::Bulk, 0, 0x81, 4);
        state.submit_transfer(t, false, &[]).unwrap();
        state.transfer_submitted(t, 0).unwrap();
        assert_eq!(state.drop_transfer(t, completed), Some((0x1000, action)));
    }
    let t = UsbTransfer::from_plan(
        plan_transfer(TransferType::Bulk, setup(0), 1, opts(1, 0)),
        5,
    );
    assert_eq!(t.drop_action(true), DropAction::Nothing);
}

fn completion<'a>(status: i32, kind: u8, endpoint: u8, actual: i32, buffer: &'a [u8]) -> Completion<'a> {
    Completion {
        status,
        transfer_type: kind,
        endpoint,
        length: buffer.len() as i32,
        actual_length: actual,
        buffer: Some(buffer),
        packets: vec![],
    }
}

#[test]
fn completed_bulk_transfers() {
    let buffer = [1, 2, 3, 4];
    assert_eq!(completion(0, TYPE_BULK, 0x81, 3, &buffer).result(), Ok(vec![1, 2, 3]));
    assert_eq!(completion(0, TYPE_BULK, 0x81, 0, &buffer).result(), Ok(vec![]));
    assert_eq!(completion(0, TYPE_INTERRUPT, 2, 3, &buffer).result(), Ok(vec![0, 0, 0]));
    let mut none = completion(0, TYPE_BULK, 0x81, 3, &buffer);
    none.buffer = None;
    assert_eq!(none.result(), Ok(vec![]));
    assert_eq!(none.packet_results(), None);
}

#[test]
fn completed_control_transfers() {
    let mut buffer = [0u8; 12];
    buffer[0] = 0x80;
    buffer[8..].copy_from_slice(&[7, 8, 9, 10]);
    assert_eq!(completion(0, TYPE_CONTROL, 0, 3, &buffer).result(), Ok(vec![7, 8, 9]));
    buffer[0] = 0x21;
    assert_eq!(completion(0, TYPE_CONTROL, 0, 4, &buffer).result(), Ok(vec![]));
}

#[test]
fn completed_isochronous_transfers() {
    let buffer = [1, 2, 3, 4, 5, 6];
    let mut c = completion(0, TYPE_ISOCHRONOUS, 0x81, 0, &buffer);
    c.packets = vec![(2, 0), (0, 1), (1, 2), (0, 3), (0, 4), (0, 5), (0, 6), (0, 9)];
    assert_eq!(c.result(), Ok(buffer.to_vec()));
    let raw = c.packet_results();
    assert_eq!(raw.as_ref().unwrap().len(), 8);
    let result = conclude(Some(Ok(vec![1])), raw).unwrap();
    assert_eq!(
        result.packets.iter().map(|p| p.status).collect::<Vec<_>>(),
        vec![
            IsoPacketStatus::Success,
            IsoPacketStatus::Error,
            IsoPacketStatus::TimedOut,
            IsoPacketStatus::Cancelled,
            IsoPacketStatus::Stall,
            IsoPacketStatus::NoDevice,
            IsoPacketStatus::Overflow,
            IsoPacketStatus::Error,
        ]
    );
    assert_eq!(result.packets[0], IsoPacket { actual_length: 2, status: IsoPacketStatus::Success });
}

#[test]
fn failed_transfers() {
    let cases = [
        (1, LibusbError::Io),
        (2, LibusbError::Timeout),
        (3, LibusbError::Interrupted),
        (4, LibusbError::Pipe),
        (5, LibusbError::NoDevice),
        (6, LibusbError::Overflow),
        (7, LibusbError::Other),
        (-1, LibusbError::Other),
    ];
    for (status, error) in cases {
        let mut c = completion(status, TYPE_ISOCHRONOUS, 0x81, 0, &[]);
        c.packets = vec![(1, 0)];
        assert_eq!(c.result(), Err(error));
        assert_eq!(c.packet_results(), None);
    }
}
