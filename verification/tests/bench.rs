use wasi_usb::args::{
    default_condition, has_flag, named_arg, named_number, number_arg, parse_hex_u8, parse_vid_pid,
    placed_args, positional_arg, positional_number, Runtime, VidPidError,
};
use wasi_usb::bulk_only::{NativeTransport, WasmTransport};
use wasi_usb::checksum::checksum_hex;
use wasi_usb::instrument::{
    claim_detail, new_transfer_detail, submit_detail, CallTrace, CtxSwitches,
};
use wasi_usb::opening::{
    choose_interface, choose_native_interface, find_bulk_endpoints, find_device, find_endpoints,
    NativeOpenAction, NativeOpenReply, OpenError, WasmOpenAction, WasmOpenReply,
};
use wasi_usb::text::{
    chars_of, find_char, parse_unsigned, push_decimal, push_hex_byte, push_padded, same_text,
    trim, ParseFailure,
};
use wasi_usb::types::{
    ConfigurationDescriptor, DeviceDescriptor, EndpointDescriptor, InterfaceDescriptor, IsoPacket,
    IsoPacketStatus, LibusbError, TransferOptions, TransferResult, TransferSetup, TransferType,
};
use wasi_usb::w_bulk::{BulkConfig, BulkConfigError, BulkMode};
use wasi_usb::w_ctrl::{descriptor_bytes, descriptor_request, CtrlConfig, CtrlRun};
use wasi_usb::w_iso::{
    check, check_packets, payload, IsoCall, IsoConfig, IsoDevice, IsoOpenAction, IsoOpenReply, IsoRun,
};

fn args(words: &[&str]) -> Vec<String> {
    words.iter().map(|w| w.to_string()).collect()
}

// ---------------------------------------------------------------------------
// Text
// ---------------------------------------------------------------------------

#[test]
fn numbers_are_written() {
    for n in [0u128, 7, 10, 99, 100, 12_345, u64::MAX as u128, u128::MAX] {
        let mut s = String::new();
        push_decimal(&mut s, n);
        assert_eq!(s, n.to_string());
        let mut s = String::from("x");
        push_padded(&mut s, n, 4);
        assert_eq!(s, format!("x{n:04}"));
    }
    for b in [0u8, 9, 10, 0x81, 0xff] {
        let mut s = String::new();
        push_hex_byte(&mut s, b);
        assert_eq!(s, format!("{b:02x}"));
    }
}

#[test]
fn numbers_are_read_as_std_reads_them() {
    for s in ["", "+", "-", "0", "00", "+7", "++7", "-7", "65535", "65536", "99999999999999999999",
        "a", "1x", "x1", " 1", "1 ", "99999999999999999999x"]
    {
        let chars = chars_of(s);
        let ours = parse_unsigned(&chars, 10, 0xffff);
        let std = s.parse::<u16>();
        assert_eq!(ours.ok(), std.ok().map(|n| n as u64), "{s:?}");
        let hex = parse_unsigned(&chars, 16, 0xffff);
        assert_eq!(hex.ok(), u16::from_str_radix(s, 16).ok().map(|n| n as u64), "{s:?}");
    }
    assert_eq!(parse_unsigned(&chars_of(""), 10, 9), Err(ParseFailure::Empty));
    assert_eq!(parse_unsigned(&chars_of("+"), 10, 9), Err(ParseFailure::InvalidDigit));
    assert_eq!(parse_unsigned(&chars_of("1a"), 10, 9), Err(ParseFailure::InvalidDigit));
    assert_eq!(parse_unsigned(&chars_of("10"), 10, 9), Err(ParseFailure::TooLarge));
    assert_eq!(parse_unsigned(&chars_of("18446744073709551615"), 10, u64::MAX), Ok(u64::MAX));
    assert_eq!(
        parse_unsigned(&chars_of("18446744073709551616"), 10, u64::MAX),
        Err(ParseFailure::TooLarge)
    );
}

#[test]
fn written_numbers_read_back() {
    for n in [0u64, 1, 10, 4711, u64::MAX] {
        let mut s = String::new();
        push_decimal(&mut s, n as u128);
        assert_eq!(parse_unsigned(&chars_of(&s), 10, u64::MAX), Ok(n));
    }
}

#[test]
fn texts_are_cut_and_compared() {
    for s in ["", " ", "a", " a b\t", "\u{2003}x\u{85}\u{3000}", "\u{200b}x", "a\u{1680}"] {
        let chars = chars_of(s);
        assert_eq!(trim(&chars).iter().collect::<String>(), s.trim());
    }
    let chars = chars_of("a:b:c");
    assert_eq!(find_char(&chars, ':', 0), 1);
    assert_eq!(find_char(&chars, ':', 2), 3);
    assert_eq!(find_char(&chars, ':', 4), 5);
    assert!(same_text("é", "é") && !same_text("e", "é") && !same_text("a", "ab"));
}

// ---------------------------------------------------------------------------
// Arguments
// ---------------------------------------------------------------------------

#[test]
fn device_arguments() {
    assert_eq!(parse_vid_pid("0951:1666"), Ok((0x0951, 0x1666)));
    assert_eq!(parse_vid_pid(" 0951 : 1666 "), Ok((0x0951, 0x1666)));
    assert_eq!(parse_vid_pid("0951"), Err(VidPidError::NoColon));
    assert_eq!(parse_vid_pid(":1"), Err(VidPidError::Vid(ParseFailure::Empty)));
    assert_eq!(parse_vid_pid("10000:1"), Err(VidPidError::Vid(ParseFailure::TooLarge)));
    assert_eq!(parse_vid_pid("1:2:3"), Err(VidPidError::Pid(ParseFailure::InvalidDigit)));
    assert_eq!(parse_vid_pid("1: "), Err(VidPidError::Pid(ParseFailure::Empty)));
}

#[test]
fn hexadecimal_arguments() {
    assert_eq!(parse_hex_u8("0x81"), Ok(0x81));
    assert_eq!(parse_hex_u8("81"), Ok(0x81));
    assert_eq!(parse_hex_u8("0X0f"), Ok(0x0f));
    assert_eq!(parse_hex_u8("0x0x0X2"), Ok(2));
    assert_eq!(parse_hex_u8("0X0x2"), Err(ParseFailure::InvalidDigit));
    assert_eq!(parse_hex_u8("0x"), Err(ParseFailure::Empty));
    assert_eq!(parse_hex_u8("0x100"), Err(ParseFailure::TooLarge));
}

#[test]
fn named_and_positional_arguments() {
    let a = args(&["prog", "--alt", "5", "--alt", "6", "--last"]);
    assert_eq!(named_arg(&a, "--alt"), Some("5".to_string()));
    assert_eq!(named_arg(&a, "--last"), None);
    assert_eq!(named_arg(&a, "--none"), None);
    assert_eq!(named_arg(&[], "--none"), None);
    assert_eq!(named_number(&a, "--alt", 0xff, 1), 5);
    assert_eq!(named_number(&a, "5", 0xff, 1), 1);
    assert_eq!(positional_arg(&a, 2, "d"), "5");
    assert_eq!(positional_arg(&a, 9, "d"), "d");
    assert_eq!(positional_number(&a, 2, 4, 1), 1);
    assert_eq!(positional_number(&a, 2, 5, 1), 5);
    assert_eq!(number_arg(None, 5, 3), 3);
    assert!(has_flag(&a, "--last") && !has_flag(&a, "--random"));
    assert_eq!(default_condition(Runtime::Native), "native-rusb");
    assert_eq!(default_condition(Runtime::WasmRusb), "wasi-rusb");
    assert_eq!(default_condition(Runtime::WasmRaw), "wasi-raw-wit");
}

#[test]
fn bulk_configurations() {
    let c = BulkConfig::from_args(&args(&["w_bulk"]), Runtime::Native).unwrap();
    assert_eq!((c.output.as_str(), c.vid, c.pid), ("bench_w_bulk.csv", 0x0951, 0x1666));
    assert_eq!((c.iterations, c.blocks_per_iter), (100, 128));
    assert_eq!((c.condition.as_str(), c.mode, c.random), ("native-rusb", BulkMode::Read, false));
    let all = args(&["w", "o.csv", "1:2", "7", "9", "--mode", "rw", "--random", "--condition", "x"]);
    let c = BulkConfig::from_args(&all, Runtime::WasmRaw).unwrap();
    assert_eq!((c.output.as_str(), c.vid, c.pid), ("o.csv", 1, 2));
    assert_eq!((c.iterations, c.blocks_per_iter), (7, 9));
    assert_eq!((c.condition.as_str(), c.mode, c.random), ("x", BulkMode::ReadWrite, true));
    let c = BulkConfig::from_args(&args(&["w", "o", "1:2", "x", "70000", "--mode", "?"]), Runtime::Native);
    let c = c.unwrap();
    assert_eq!((c.iterations, c.blocks_per_iter, c.mode), (100, 128, BulkMode::Read));
    assert_eq!(
        BulkConfig::from_args(&args(&["w", "o", "1:2", "1", "0"]), Runtime::Native).unwrap_err(),
        BulkConfigError::NoBlocks
    );
    assert_eq!(
        BulkConfig::from_args(&args(&["w", "o", "12", "1", "0"]), Runtime::Native).unwrap_err(),
        BulkConfigError::VidPid(VidPidError::NoColon)
    );
    for mode in [BulkMode::Read, BulkMode::Write, BulkMode::ReadWrite] {
        let a = args(&["w", "o", "1:2", "1", "1", "--mode", mode.as_str()]);
        assert_eq!(BulkConfig::from_args(&a, Runtime::Native).unwrap().mode, mode);
    }
}

#[test]
fn options_without_positionals() {
    let a = args(&["w_bulk", "--condition", "wasi-rusb"]);
    let c = BulkConfig::from_args(&a, Runtime::Native).unwrap();
    assert_eq!((c.condition.as_str(), c.output.as_str()), ("wasi-rusb", "bench_w_bulk.csv"));
    assert_eq!((c.vid, c.pid, c.iterations, c.blocks_per_iter), (0x0951, 0x1666, 100, 128));
    let a = args(&["w", "--random", "o", "--mode", "write", "1:2", "--condition", "x", "3", "4"]);
    let c = BulkConfig::from_args(&a, Runtime::Native).unwrap();
    assert_eq!((c.output.as_str(), c.vid, c.pid), ("o", 1, 2));
    assert_eq!((c.iterations, c.blocks_per_iter), (3, 4));
    assert_eq!((c.mode, c.random, c.condition.as_str()), (BulkMode::Write, true, "x"));
    assert_eq!(BulkConfig::device_arg(&a), "1:2");
    let a = args(&["w", "--condition", "x", "o", "1:2"]);
    let c = CtrlConfig::from_args(&a, Runtime::Native).unwrap();
    assert_eq!((c.output.as_str(), c.vid, c.condition.as_str()), ("o", 1, "x"));
    assert_eq!(CtrlConfig::device_arg(&args(&["w"])), "2341:8057");
    let a = args(&["w", "--iface", "2", "--ep", "0x82"]);
    let c = IsoConfig::from_args(&a, Runtime::Native).unwrap();
    assert_eq!((c.output.as_str(), c.vid, c.iface, c.ep_in), ("bench_w_iso.csv", 0x046d, 2, 0x82));
    assert_eq!(IsoConfig::device_arg(&a), "046d:086c");
    let a = args(&["p", "--x", "v", "a", "--f", "b", "--x"]);
    assert_eq!(placed_args(&a, &["--x"], &["--f"]), args(&["p", "a", "b"]));
}

#[test]
fn control_configurations() {
    let c = CtrlConfig::from_args(&args(&["w"]), Runtime::WasmRaw).unwrap();
    assert_eq!((c.output.as_str(), c.vid, c.pid), ("bench_w_ctrl.csv", 0x2341, 0x8057));
    assert_eq!((c.iterations, c.condition.as_str()), (1000, "wasi-raw-wit"));
    let a = args(&["w", "o", "1:x"]);
    assert_eq!(
        CtrlConfig::from_args(&a, Runtime::Native).unwrap_err(),
        VidPidError::Pid(ParseFailure::InvalidDigit)
    );
}

#[test]
fn isochronous_configurations() {
    let c = IsoConfig::from_args(&args(&["w"]), Runtime::Native).unwrap();
    assert_eq!((c.output.as_str(), c.vid, c.pid), ("bench_w_iso.csv", 0x046d, 0x086c));
    assert_eq!((c.iterations, c.condition.as_str()), (200, "native-rusb"));
    assert_eq!((c.iface, c.alt, c.ep_in, c.packet_size, c.num_packets), (1, 1, 0x81, 1024, 32));
    let a = args(&[
        "w", "o", "1:2", "3", "--iface", "2", "--alt", "4", "--ep", "0x82", "--pkt-size", "512",
        "--num-pkts", "8",
    ]);
    let c = IsoConfig::from_args(&a, Runtime::Native).unwrap();
    assert_eq!((c.iface, c.alt, c.ep_in, c.packet_size, c.num_packets), (2, 4, 0x82, 512, 8));
    let a = args(&["w", "o", "1:2", "3", "--iface", "256", "--ep", "zz"]);
    let c = IsoConfig::from_args(&a, Runtime::Native).unwrap();
    assert_eq!((c.iface, c.ep_in), (1, 0x81));
    assert!(IsoConfig::from_args(&args(&["w", "o", "-"]), Runtime::Native).is_err());
}

// ---------------------------------------------------------------------------
// Opening mass-storage devices
// ---------------------------------------------------------------------------

fn descriptor(vendor_id: u16, product_id: u16) -> DeviceDescriptor {
    DeviceDescriptor {
        length: 18,
        descriptor_type: 1,
        usb_version_bcd: 0,
        device_class: 0,
        device_subclass: 0,
        device_protocol: 0,
        max_packet_size0: 64,
        vendor_id,
        product_id,
        device_version_bcd: 0,
        manufacturer_index: 0,
        product_index: 0,
        serial_number_index: 0,
        num_configurations: 1,
    }
}

fn endpoint(endpoint_address: u8, attributes: u8) -> EndpointDescriptor {
    EndpointDescriptor {
        length: 7,
        descriptor_type: 5,
        endpoint_address,
        attributes,
        max_packet_size: 512,
        interval: 0,
        refresh: 0,
        synch_address: 0,
    }
}

fn interface(number: u8, class: u8, protocol: u8, endpoints: Vec<EndpointDescriptor>) -> InterfaceDescriptor {
    InterfaceDescriptor {
        length: 9,
        descriptor_type: 4,
        interface_number: number,
        alternate_setting: 0,
        interface_class: class,
        interface_subclass: 6,
        interface_protocol: protocol,
        interface_index: 0,
        endpoints,
    }
}

fn configuration(value: u8, interfaces: Vec<InterfaceDescriptor>) -> ConfigurationDescriptor {
    ConfigurationDescriptor {
        length: 9,
        descriptor_type: 2,
        total_length: 32,
        configuration_value: value,
        configuration_index: 0,
        attributes: 0x80,
        max_power: 50,
        interfaces,
    }
}

fn storage() -> Vec<InterfaceDescriptor> {
    vec![
        interface(3, 9, 0x50, vec![]),
        interface(
            5,
            8,
            0x50,
            vec![endpoint(0x81, 2), endpoint(0x02, 2), endpoint(0x83, 3), endpoint(0x84, 0x12)],
        ),
    ]
}

#[test]
fn choosing_devices_and_interfaces() {
    let devices = [descriptor(1, 1), descriptor(2, 2), descriptor(2, 2)];
    assert_eq!(find_device(&devices, 2, 2), Some(1));
    assert_eq!(find_device(&devices, 2, 1), None);
    assert_eq!(choose_interface(&storage()), 5);
    assert_eq!(choose_interface(&storage()[..1]), 0);
    assert_eq!(find_endpoints(&storage(), 5), Some((0x84, 0x02)));
    assert_eq!(find_endpoints(&storage(), 3), Some((0, 0)));
    assert_eq!(find_endpoints(&storage(), 0), None);
}

#[test]
fn opening_through_the_component_interface() {
    for active in [1u8, 0] {
        let open = WasmTransport::open(2, 2);
        let list = vec![descriptor(1, 1), descriptor(2, 2)];
        let (open, action) = open.resume(WasmOpenReply::Devices(list));
        assert_eq!(action, WasmOpenAction::ReadConfig { device: 1 });
        let (open, action) = open.resume(WasmOpenReply::Config(configuration(1, storage())));
        assert_eq!(action, WasmOpenAction::Open);
        let (open, action) = open.resume(WasmOpenReply::Done);
        assert_eq!(action, WasmOpenAction::ReadActive);
        let (mut open, mut action) = open.resume(WasmOpenReply::Active(active));
        if active == 0 {
            assert_eq!(action, WasmOpenAction::SelectConfig { value: 1 });
            let step = open.resume(WasmOpenReply::Failed);
            open = step.0;
            action = step.1;
        }
        assert_eq!(action, WasmOpenAction::Claim { interface: 5 });
        let (open, action) = open.resume(WasmOpenReply::Done);
        let setup = TransferSetup { bm_request_type: 0x21, b_request: 0xff, w_value: 0, w_index: 5 };
        let options = TransferOptions { endpoint: 0, timeout_ms: 1000, stream_id: 0, iso_packets: 0 };
        assert_eq!(action, WasmOpenAction::Reset { setup, options });
        let (_, action) = open.resume(WasmOpenReply::Failed);
        let transport =
            WasmTransport { bulk_in: 0x84, bulk_out: 0x02, tag: 1, interface_number: 5 };
        assert_eq!(action, WasmOpenAction::Ready { transport });
    }
}

#[test]
fn opening_failures_through_the_component_interface() {
    let fail = |error: OpenError| WasmOpenAction::Fail { error };
    let (_, a) = WasmTransport::open(2, 2).resume(WasmOpenReply::Failed);
    assert_eq!(a, fail(OpenError::ListDevices));
    let (_, a) = WasmTransport::open(2, 2).resume(WasmOpenReply::Devices(vec![descriptor(2, 1)]));
    assert_eq!(a, fail(OpenError::NotFound));
    let found = || WasmTransport::open(2, 2).resume(WasmOpenReply::Devices(vec![descriptor(2, 2)])).0;
    assert_eq!(found().resume(WasmOpenReply::Failed).1, fail(OpenError::ReadConfig));
    let opening = || found().resume(WasmOpenReply::Config(configuration(1, vec![]))).0;
    assert_eq!(opening().resume(WasmOpenReply::Failed).1, fail(OpenError::Open));
    let claiming = || {
        let open = opening().resume(WasmOpenReply::Done).0;
        open.resume(WasmOpenReply::Active(1)).0
    };
    assert_eq!(claiming().resume(WasmOpenReply::Failed).1, fail(OpenError::Claim { interface: 0 }));
    assert_eq!(
        claiming().resume(WasmOpenReply::Done).1,
        fail(OpenError::MissingInterface { interface: 0 })
    );
}

#[test]
fn choosing_interfaces_natively() {
    let config = vec![
        vec![interface(3, 9, 0x50, vec![]), interface(3, 8, 0x50, vec![])],
        vec![
            interface(5, 8, 0x50, vec![endpoint(0x81, 2)]),
            interface(5, 8, 0x62, vec![endpoint(0x82, 2), endpoint(0x03, 2), endpoint(0x85, 2)]),
        ],
    ];
    assert_eq!(choose_native_interface(&config), 5);
    assert_eq!(choose_native_interface(&[vec![]]), 0);
    assert_eq!(find_bulk_endpoints(&config, 5), Some((0x85, 0x03)));
    assert_eq!(find_bulk_endpoints(&config, 3), None);
    assert_eq!(find_bulk_endpoints(&config, 9), None);
}

#[test]
fn opening_natively() {
    let config = || {
        vec![vec![interface(5, 8, 0x50, vec![endpoint(0x81, 2), endpoint(0x02, 2)])]]
    };
    let open = NativeTransport::open(2, 2);
    let (open, action) = open.resume(NativeOpenReply::Devices(vec![Some((1, 1)), Some((2, 2)), None]));
    assert_eq!(action, NativeOpenAction::ReadConfig { device: 1 });
    let (open, action) = open.resume(NativeOpenReply::Config(config()));
    assert_eq!(action, NativeOpenAction::Open);
    let (open, action) = open.resume(NativeOpenReply::Done);
    assert_eq!(action, NativeOpenAction::Claim { interface: 5 });
    let (open, action) = open.resume(NativeOpenReply::Done);
    assert_eq!(action, NativeOpenAction::ReadConfigAgain);
    let (open, action) = open.resume(NativeOpenReply::Config(config()));
    let expected = rusb::request_type(
        rusb::Direction::Out,
        rusb::RequestType::Class,
        rusb::Recipient::Interface,
    );
    assert_eq!(expected, 0x21);
    assert_eq!(
        action,
        NativeOpenAction::Reset { request_type: expected, request: 0xff, value: 0, index: 5 }
    );
    let (_, action) = open.resume(NativeOpenReply::Done);
    let transport = NativeTransport { bulk_in: 0x81, bulk_out: 0x02, tag: 1, interface_number: 5 };
    assert_eq!(action, NativeOpenAction::Ready { transport });
}

#[test]
fn opening_failures_natively() {
    let fail = |error: OpenError| NativeOpenAction::Fail { error };
    let open = NativeTransport::open(2, 2);
    assert_eq!(open.resume(NativeOpenReply::Failed).1, fail(OpenError::ListDevices));
    let list = vec![Some((1, 1))];
    assert_eq!(open.resume(NativeOpenReply::Devices(list)).1, fail(OpenError::NotFound));
    let list = vec![Some((1, 1)), None, Some((2, 2))];
    assert_eq!(open.resume(NativeOpenReply::Devices(list)).1, fail(OpenError::ReadDescriptor));
    let reading = open.resume(NativeOpenReply::Devices(vec![Some((2, 2))])).0;
    assert_eq!(reading.resume(NativeOpenReply::Failed).1, fail(OpenError::ReadConfig));
    let opening = reading.resume(NativeOpenReply::Config(vec![])).0;
    assert_eq!(opening.resume(NativeOpenReply::Failed).1, fail(OpenError::Open));
    let claiming = opening.resume(NativeOpenReply::Done).0;
    assert_eq!(claiming.resume(NativeOpenReply::Failed).1, fail(OpenError::Claim { interface: 0 }));
    let rereading = claiming.resume(NativeOpenReply::Done).0;
    assert_eq!(rereading.resume(NativeOpenReply::Failed).1, fail(OpenError::ReadConfig));
    assert_eq!(
        rereading.resume(NativeOpenReply::Config(vec![])).1,
        fail(OpenError::NoBulkEndpoints { interface: 0 })
    );
}

// ---------------------------------------------------------------------------
// Control and isochronous runs
// ---------------------------------------------------------------------------

#[test]
fn descriptor_requests() {
    let (setup, options) = descriptor_request();
    assert_eq!((setup.bm_request_type, setup.b_request), (0x80, 6));
    assert_eq!((setup.w_value, setup.w_index), (0x0100, 0));
    assert_eq!((options.endpoint, options.timeout_ms), (0, 500));
    let mut buffer = [0u8; 18];
    buffer[0] = 18;
    buffer[1] = 1;
    assert_eq!(descriptor_bytes(&buffer, 2), vec![18, 1]);
    assert_eq!(descriptor_bytes(&buffer, 18), buffer.to_vec());
}

#[test]
fn control_runs() {
    let config = CtrlConfig::from_args(&args(&["w", "o", "1:2", "102"]), Runtime::Native).unwrap();
    let mut run = CtrlRun::new(config);
    let mut shown = Vec::new();
    while run.has_next() {
        let n = run.iteration;
        let (row, show) = run.record(18, 5, &Default::default(), &Default::default(), None);
        assert_eq!((row.iteration, row.bytes, row.workload.as_str()), (n, 18, "ctrl"));
        assert!(row.notes.is_none() && row.checksum_hex.is_none());
        if show {
            shown.push(n);
        }
    }
    assert_eq!(shown, vec![0, 100, 101]);
}

#[test]
fn isochronous_runs() {
    let config = IsoConfig::from_args(&args(&["w", "o", "1:2", "23"]), Runtime::Native).unwrap();
    let mut run = IsoRun::new(config);
    let mut shown = Vec::new();
    while run.has_next() {
        let n = run.iteration;
        let (row, show) = run.record(100, b"abc", 5, &Default::default(), &Default::default(), None);
        assert_eq!((row.iteration, row.bytes, row.workload.as_str()), (n, 100, "iso"));
        assert_eq!(row.checksum_hex, Some(checksum_hex(b"abc")));
        if show {
            shown.push(n);
        }
    }
    assert_eq!(shown, vec![0, 20, 22]);
    assert_eq!(run.total_bytes, 2300);
}

#[test]
fn captures() {
    let device = IsoDevice { iface: 1, ep_in: 0x81, packet_size: 1024, num_packets: 32 };
    let plan = device.capture();
    assert_eq!((plan.length, plan.endpoint, plan.timeout_ms), (32768, 0x81, 5000));
    let (_, options) = plan.request();
    assert_eq!((options.endpoint, options.iso_packets, options.timeout_ms), (0x81, 32, 5000));
    assert_eq!(IsoDevice::captured_natively(0, 7), Ok(7));
    assert_eq!(IsoDevice::captured_natively(2, 3), Ok(3));
    assert_eq!(IsoDevice::captured_natively(4, 3), Err(4));
    let packet = |n: u32| IsoPacket { actual_length: n, status: IsoPacketStatus::Success };
    let result = TransferResult { data: vec![], packets: vec![packet(u32::MAX), packet(3)] };
    assert_eq!(IsoDevice::captured_through_component(Ok(result)), Ok(u32::MAX as u64 + 3));
    assert_eq!(IsoDevice::captured_through_component(Err(LibusbError::Timeout)), Ok(0));
    assert_eq!(
        IsoDevice::captured_through_component(Err(LibusbError::Pipe)),
        Err(LibusbError::Pipe)
    );
    assert_eq!((check(0), check(-3), check(1)), (Ok(()), Err(-3), Err(1)));
    assert!(check_packets(&[1, 2, 3, 4, 5, 6], &[2, 0, 1], 2));
    assert!(!check_packets(&[1, 2, 3, 4, 5, 6], &[3, 0, 1], 2));
    assert!(!check_packets(&[1, 2, 3, 4, 5], &[2, 0, 1], 2));
    assert_eq!(payload(&[1, 2, 3, 4, 5, 6], &[2, 0, 1], 2), vec![1, 2, 5]);
    assert_eq!(payload(&[], &[], 2), Vec::<u8>::new());
}

#[test]
fn opening_streams_through_libusb() {
    let open = IsoDevice::open(1, 2, 3, 4, 0x81, 512, 8, false);
    let (open, a) = open.resume(IsoOpenReply::Done);
    assert_eq!(a, IsoOpenAction::OpenKind { vid: 1, pid: 2 });
    assert_eq!(open.resume(IsoOpenReply::Failed).1, IsoOpenAction::NotFound);
    let (open, a) = open.resume(IsoOpenReply::Done);
    assert_eq!(a, IsoOpenAction::AskDriver { iface: 3 });
    assert_eq!(
        open.resume(IsoOpenReply::Driver(false)).1,
        IsoOpenAction::SetConfiguration { value: 1 }
    );
    let (open, a) = open.resume(IsoOpenReply::Driver(true));
    assert_eq!(a, IsoOpenAction::Detach { iface: 3 });
    let (open, a) = open.resume(IsoOpenReply::Failed);
    assert_eq!(a, IsoOpenAction::SetConfiguration { value: 1 });
    let (open, a) = open.resume(IsoOpenReply::Done);
    assert_eq!(a, IsoOpenAction::Claim { iface: 3 });
    assert_eq!(
        open.resume(IsoOpenReply::Failed).1,
        IsoOpenAction::Fail { call: IsoCall::ClaimInterface }
    );
    let (open, a) = open.resume(IsoOpenReply::Done);
    assert_eq!(a, IsoOpenAction::SetAltSetting { iface: 3, alt: 4 });
    let (_, a) = open.resume(IsoOpenReply::Done);
    let opened = IsoDevice { iface: 3, ep_in: 0x81, packet_size: 512, num_packets: 8 };
    assert_eq!(a, IsoOpenAction::Ready { opened });
}

#[test]
fn opening_streams_through_the_component_interface() {
    let open = IsoDevice::open(1, 2, 3, 4, 0x81, 512, 8, true);
    assert_eq!(
        open.resume(IsoOpenReply::Failed).1,
        IsoOpenAction::Fail { call: IsoCall::ListDevices }
    );
    assert_eq!(open.resume(IsoOpenReply::Devices(vec![])).1, IsoOpenAction::NotFound);
    let (open, a) = open.resume(IsoOpenReply::Devices(vec![descriptor(9, 9), descriptor(1, 2)]));
    assert_eq!(a, IsoOpenAction::OpenDevice { device: 1 });
    assert_eq!(open.resume(IsoOpenReply::Failed).1, IsoOpenAction::Fail { call: IsoCall::Open });
    let (open, a) = open.resume(IsoOpenReply::Done);
    assert_eq!(a, IsoOpenAction::SetConfiguration { value: 1 });
    let (open, a) = open.resume(IsoOpenReply::Done);
    assert_eq!(a, IsoOpenAction::AskDriver { iface: 3 });
    let (open, a) = open.resume(IsoOpenReply::Failed);
    assert_eq!(a, IsoOpenAction::Claim { iface: 3 });
    let (open, a) = open.resume(IsoOpenReply::Done);
    assert_eq!(a, IsoOpenAction::SetAltSetting { iface: 3, alt: 4 });
    assert_eq!(
        open.resume(IsoOpenReply::Failed).1,
        IsoOpenAction::Fail { call: IsoCall::SetAltSetting }
    );
}

// ---------------------------------------------------------------------------
// Tracing
// ---------------------------------------------------------------------------

#[test]
fn context_switches_from_a_process_status() {
    let status = "Name:\tx\nvoluntary_ctxt_switches:\t12\nnonvoluntary_ctxt_switches:\t 7 \n";
    assert_eq!(
        CtxSwitches::parse(status),
        Some(CtxSwitches { voluntary: 12, nonvoluntary: 7 })
    );
    let bad_first = "voluntary_ctxt_switches: x\r\nvoluntary_ctxt_switches: 3\r\nnonvoluntary_ctxt_switches: 4";
    assert_eq!(
        CtxSwitches::parse(bad_first),
        Some(CtxSwitches { voluntary: 3, nonvoluntary: 4 })
    );
    assert_eq!(CtxSwitches::parse("voluntary_ctxt_switches: 3\n"), None);
    assert_eq!(CtxSwitches::parse(" voluntary_ctxt_switches: 3\nnonvoluntary_ctxt_switches: 4"), None);
    assert_eq!(CtxSwitches::parse(""), None);
}

#[test]
fn trace_lines() {
    let detail = submit_detail(2, 65536, 0x81);
    assert_eq!(detail, "xfer_type=Bulk len=65536 dir=In");
    let start = CtxSwitches { voluntary: 5, nonvoluntary: 9 };
    let end = CtxSwitches { voluntary: 5, nonvoluntary: 10 };
    let trace = CallTrace::enter("submit_transfer", Some(start)).detail(&detail);
    assert_eq!(
        trace.line(42, Some(end)),
        "op=submit_transfer dur_us=42 ctx_vol_delta=0 ctx_nvol_delta=1 xfer_type=Bulk len=65536 dir=In"
    );
    assert_eq!(trace.line(42, None), "op=submit_transfer dur_us=42 xfer_type=Bulk len=65536 dir=In");
    let back = CtxSwitches { voluntary: 1, nonvoluntary: 1 };
    assert_eq!(
        CallTrace::enter("x", Some(start)).line(0, Some(back)),
        "op=x dur_us=0 ctx_vol_delta=0 ctx_nvol_delta=0 "
    );
    let trace = CallTrace::enter("y", None).detail("a=1").detail("b=2").detail("");
    assert_eq!(trace.line(7, Some(end)), "op=y dur_us=7 a=1 b=2 ");
}

#[test]
fn trace_details() {
    assert_eq!(
        new_transfer_detail(TransferType::Isochronous, 32768, 0x81, 32),
        "xfer_type=Isochronous buf_size=32768 ep=0x81 iso_pkts=32"
    );
    assert_eq!(
        new_transfer_detail(TransferType::Control, 0, 5, 0),
        "xfer_type=Control buf_size=0 ep=0x05 iso_pkts=0"
    );
    assert_eq!(submit_detail(0, 1, 0), "xfer_type=Control len=1 dir=Out");
    assert_eq!(submit_detail(3, 1, 0x7f), "xfer_type=Interrupt len=1 dir=Out");
    assert_eq!(submit_detail(9, 1, 0x80), "xfer_type=Unknown len=1 dir=In");
    assert_eq!(claim_detail(1), "iface=1");
}
