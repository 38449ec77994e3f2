use wasi_usb::args::Runtime;
use wasi_usb::bulk_only::{
    build_cbw, read_le, take_tag, validate_csw, BulkTransport, CswError, NativeTransport,
    WasmTransport,
};
use wasi_usb::checksum::{checksum_hex, hex_text};
use wasi_usb::exchange::{BotError, NativeAction, NativeReply, Payload, Stage, WasmAction, WasmReply};
use wasi_usb::mass_storage::{ask_geometry, Capacity, ScsiDevice, ScsiError};
use wasi_usb::w_bulk::{check_run, lcg_next, lcg_seed, BulkConfig, BulkMode, BulkRun};

/// A disk in memory that answers SCSI commands.
struct RamDisk {
    block_size: u32,
    content: Vec<u8>,
    commands: Vec<Vec<u8>>,
    answer: Option<Vec<u8>>,
    fail_from: usize,
    deliver_at_most: usize,
}

impl RamDisk {
    fn new(blocks: u32, block_size: u32) -> Self {
        let len = (blocks * block_size) as usize;
        RamDisk {
            block_size,
            content: (0..len).map(|i| (i % 251) as u8).collect(),
            commands: Vec::new(),
            answer: None,
            fail_from: usize::MAX,
            deliver_at_most: usize::MAX,
        }
    }

    fn place(&self, command: &[u8]) -> (usize, usize) {
        let lba = u32::from_be_bytes([command[2], command[3], command[4], command[5]]);
        let count = u16::from_be_bytes([command[7], command[8]]);
        let at = (lba * self.block_size) as usize;
        (at, count as usize * self.block_size as usize)
    }

    fn log(&mut self, command: &[u8]) -> Result<(), &'static str> {
        self.commands.push(command.to_vec());
        if self.commands.len() > self.fail_from {
            Err("no answer")
        } else {
            Ok(())
        }
    }
}

impl BulkTransport for RamDisk {
    type Error = &'static str;

    fn command_in(&mut self, cbwcb: &[u8], transfer_len: u32) -> Result<Vec<u8>, &'static str> {
        self.log(cbwcb)?;
        if cbwcb[0] == 0x25 {
            if let Some(answer) = &self.answer {
                return Ok(answer.clone());
            }
            let last = self.content.len() as u32 / self.block_size - 1;
            let mut answer = last.to_be_bytes().to_vec();
            answer.extend_from_slice(&self.block_size.to_be_bytes());
            return Ok(answer);
        }
        let (at, len) = self.place(cbwcb);
        assert_eq!(len, transfer_len as usize);
        let len = len.min(self.deliver_at_most);
        Ok(self.content[at..at + len].to_vec())
    }

    fn command_out(&mut self, cbwcb: &[u8], data: Option<&[u8]>) -> Result<(), &'static str> {
        self.log(cbwcb)?;
        if let Some(data) = data {
            let (at, len) = self.place(cbwcb);
            assert_eq!(len, data.len());
            self.content[at..at + len].copy_from_slice(data);
        }
        Ok(())
    }
}

fn config(mode: BulkMode, random: bool, iterations: u32, blocks: u16) -> BulkConfig {
    BulkConfig {
        output: "out.csv".to_string(),
        vid: 1,
        pid: 2,
        iterations,
        blocks_per_iter: blocks,
        condition: "native-rusb".to_string(),
        mode,
        random,
    }
}

#[test]
fn command_wrapper_bytes() {
    let cbw = build_cbw(0x0102_0304, 512, true, &[0x28, 1, 2, 3, 4, 5, 6, 7, 8, 9]);
    let mut expected = vec![0x55, 0x53, 0x42, 0x43, 4, 3, 2, 1, 0, 2, 0, 0, 0x80, 0, 10];
    expected.extend_from_slice(&[0x28, 1, 2, 3, 4, 5, 6, 7, 8, 9]);
    expected.extend_from_slice(&[0; 6]);
    assert_eq!(cbw.to_vec(), expected);
    assert_eq!(&cbw[0..4], b"USBC");
    let out = WasmTransport::build_cbw(u32::MAX, 0, false, &[7; 16]);
    assert_eq!(&out[4..8], &[0xff; 4]);
    assert_eq!((out[12], out[14], out[30]), (0, 16, 7));
}

#[test]
fn wrappers_of_different_commands_differ() {
    let base = build_cbw(1, 2, true, &[3]);
    assert_ne!(base, build_cbw(2, 2, true, &[3]));
    assert_ne!(base, build_cbw(1, 3, true, &[3]));
    assert_ne!(base, build_cbw(1, 2, false, &[3]));
    assert_ne!(base, build_cbw(1, 2, true, &[4]));
    assert_ne!(base, build_cbw(1, 2, true, &[3, 0]));
}

fn csw(tag: u32, status: u8) -> Vec<u8> {
    let mut bytes = b"USBS".to_vec();
    bytes.extend_from_slice(&tag.to_le_bytes());
    bytes.extend_from_slice(&[0; 4]);
    bytes.push(status);
    bytes
}

#[test]
fn status_wrapper_verdicts() {
    assert_eq!(validate_csw(&csw(9, 0), 9), Ok(()));
    assert_eq!(validate_csw(&csw(9, 0), 8), Err(CswError::Tag { got: 9, expected: 8 }));
    assert_eq!(validate_csw(&csw(9, 2), 9), Err(CswError::Failed { status: 2 }));
    assert_eq!(WasmTransport::validate_csw(&csw(9, 0)[..12], 9), Err(CswError::TooShort { len: 12 }));
    let mut wrong = csw(9, 0);
    wrong[0] = b'X';
    assert_eq!(
        validate_csw(&wrong, 9),
        Err(CswError::Signature { got: read_le(b'X', b'S', b'B', b'S') })
    );
    let mut long = csw(9, 0);
    long.push(77);
    assert_eq!(validate_csw(&long, 9), Ok(()));
}

#[test]
fn tags_count_up_and_wrap() {
    let mut native = NativeTransport { bulk_in: 0x81, bulk_out: 2, tag: u32::MAX, interface_number: 0 };
    assert_eq!(native.next_tag(), u32::MAX);
    assert_eq!(native.next_tag(), 0);
    assert_eq!(native.next_tag(), 1);
    let mut counter = 1;
    assert_eq!((take_tag(&mut counter), counter), (1, 2));
}

#[test]
fn transfer_options_of_the_component_transport() {
    let t = WasmTransport { bulk_in: 0x81, bulk_out: 2, tag: 1, interface_number: 0 };
    assert_eq!((t.bulk_in_opts().endpoint, t.bulk_in_opts().timeout_ms), (0x81, 10_000));
    assert_eq!((t.bulk_out_opts().endpoint, t.bulk_out_opts().timeout_ms), (2, 10_000));
    assert_eq!(t.bulk_out_opts().stream_id, 0);
    assert_eq!(WasmTransport::empty_setup().b_request, 0);
}

#[test]
fn device_geometry() {
    let device = ScsiDevice::new(RamDisk::new(64, 512)).ok().unwrap();
    assert_eq!(device.block_size(), 512);
    assert_eq!(device.num_blocks(), 64);
    assert_eq!(device.capacity.total_bytes, 64 * 512);
    assert_eq!(device.transport.commands[0], vec![0; 6]);
    assert_eq!(device.transport.commands[1], vec![0x25, 0, 0, 0, 0, 0, 0, 0, 0, 0]);
}

#[test]
fn geometry_answers() {
    let full = Capacity::from_answer::<()>(&[0xff, 0xff, 0xff, 0xff, 0, 0, 2, 0]).unwrap();
    assert_eq!(full.num_blocks, u32::MAX);
    assert_eq!(full.total_bytes, u32::MAX as u64 * 512);
    assert!(matches!(
        Capacity::from_answer::<()>(&[0; 7]),
        Err(ScsiError::CapacityTooShort { len: 7 })
    ));
    assert!(matches!(Capacity::from_answer::<()>(&[1; 4]), Err(ScsiError::CapacityTooShort { len: 4 })));
    assert!(matches!(
        Capacity::from_answer::<()>(&[0, 0, 0, 1, 0, 0, 0, 0]),
        Err(ScsiError::ZeroBlockSize)
    ));
}

#[test]
fn device_that_is_not_ready() {
    let mut disk = RamDisk::new(8, 512);
    disk.fail_from = 0;
    assert!(matches!(ScsiDevice::new(disk), Err(ScsiError::TestUnitReady("no answer"))));
    let mut disk = RamDisk::new(8, 512);
    disk.fail_from = 1;
    assert!(matches!(ScsiDevice::new(disk), Err(ScsiError::ReadCapacity("no answer"))));
    let mut disk = RamDisk::new(8, 512);
    disk.answer = Some(vec![0; 3]);
    assert!(matches!(ScsiDevice::new(disk), Err(ScsiError::CapacityTooShort { len: 3 })));
    let mut disk = RamDisk::new(8, 512);
    disk.answer = Some(vec![0; 8]);
    assert!(matches!(ScsiDevice::new(disk), Err(ScsiError::ZeroBlockSize)));
}

#[test]
fn nothing_follows_a_failed_command() {
    let mut disk = RamDisk::new(8, 512);
    assert_eq!(ask_geometry(&mut disk).ok().unwrap().num_blocks, 8);
    assert_eq!(disk.commands.len(), 2);
    let mut disk = RamDisk::new(8, 512);
    disk.fail_from = 0;
    assert!(matches!(ask_geometry(&mut disk), Err(ScsiError::TestUnitReady("no answer"))));
    assert_eq!(disk.commands, vec![vec![0; 6]]);
    let mut disk = RamDisk::new(8, 512);
    disk.answer = Some(vec![0; 8]);
    assert!(matches!(ask_geometry(&mut disk), Err(ScsiError::ZeroBlockSize)));
    assert_eq!(disk.commands.len(), 2);
}

#[test]
fn reading_and_writing_blocks() {
    let mut device = ScsiDevice::new(RamDisk::new(64, 512)).ok().unwrap();
    let before = device.transport.content.clone();
    assert_eq!(device.read_blocks(3, 2).ok().unwrap(), before[3 * 512..5 * 512].to_vec());
    assert_eq!(device.transport.commands[2], vec![0x28, 0, 0, 0, 0, 3, 0, 0, 2, 0]);
    let data = vec![0xabu8; 1024];
    assert!(device.write_blocks(5, 2, &data).is_ok());
    assert_eq!(device.transport.commands[3], vec![0x2a, 0, 0, 0, 0, 5, 0, 0, 2, 0]);
    assert_eq!(device.read_blocks(5, 2).ok().unwrap(), data);
    assert_eq!(device.transport.content[..5 * 512], before[..5 * 512]);
    assert_eq!(device.transport.content[7 * 512..], before[7 * 512..]);
}

#[test]
fn write_needs_whole_blocks() {
    let mut device = ScsiDevice::new(RamDisk::new(64, 512)).ok().unwrap();
    match device.write_blocks(0, 2, &[0; 1000]) {
        Err(ScsiError::DataLength { len, expected, count, block_size }) => {
            assert_eq!((len, expected, count, block_size), (1000, 1024, 2, 512));
        }
        _ => panic!("a short buffer was written"),
    }
    assert_eq!(device.transport.commands.len(), 2);
}

#[test]
fn rewriting_changes_nothing() {
    let mut device = ScsiDevice::new(RamDisk::new(64, 512)).ok().unwrap();
    let before = device.transport.content.clone();
    let data = device.readwrite_blocks(10, 4).ok().unwrap();
    assert_eq!(data, before[10 * 512..14 * 512].to_vec());
    assert_eq!(device.transport.content, before);
    assert_eq!(device.transport.commands[2][0], 0x28);
    assert_eq!(device.transport.commands[3][0], 0x2a);
}

#[test]
fn failing_commands_say_where() {
    let mut disk = RamDisk::new(64, 512);
    disk.fail_from = 2;
    let mut device = ScsiDevice::new(disk).ok().unwrap();
    assert!(matches!(
        device.read_blocks(7, 1),
        Err(ScsiError::Read { lba: 7, count: 1, error: "no answer" })
    ));
    assert!(matches!(
        device.write_blocks(8, 1, &[0; 512]),
        Err(ScsiError::Write { lba: 8, count: 1, error: "no answer" })
    ));
    let mut disk = RamDisk::new(64, 512);
    disk.fail_from = 3;
    let mut device = ScsiDevice::new(disk).ok().unwrap();
    assert!(matches!(
        device.readwrite_blocks(7, 1),
        Err(ScsiError::Write { lba: 7, count: 1, error: "no answer" })
    ));
    let mut disk = RamDisk::new(64, 512);
    disk.deliver_at_most = 100;
    let mut device = ScsiDevice::new(disk).ok().unwrap();
    assert!(matches!(
        device.readwrite_blocks(7, 1),
        Err(ScsiError::DataLength { len: 100, expected: 512, count: 1, block_size: 512 })
    ));
}

#[test]
fn native_command_in_pieces() {
    let mut t = NativeTransport { bulk_in: 0x81, bulk_out: 2, tag: 5, interface_number: 0 };
    let (mut x, cbw) = t.begin_in(&[0x28, 0], 10);
    assert_eq!(t.tag, 6);
    assert_eq!(cbw, build_cbw(5, 10, true, &[0x28, 0]));
    assert!(matches!(x.resume(NativeReply::Sent(31)), NativeAction::ReceiveData { max: 10 }));
    assert!(matches!(x.resume(NativeReply::Received(vec![1; 4])), NativeAction::ReceiveData { max: 6 }));
    assert!(matches!(x.resume(NativeReply::Received(vec![2; 6])), NativeAction::ReceiveStatus { max: 13 }));
    let status = csw(5, 0);
    assert!(matches!(
        x.resume(NativeReply::Received(status[..5].to_vec())),
        NativeAction::ReceiveStatus { max: 8 }
    ));
    assert!(matches!(
        x.resume(NativeReply::Received(status[5..].to_vec())),
        NativeAction::Finish(Ok(()))
    ));
    assert_eq!(x.into_data(), vec![1, 1, 1, 1, 2, 2, 2, 2, 2, 2]);
}

#[test]
fn native_command_that_ends_early() {
    let mut t = NativeTransport { bulk_in: 0x81, bulk_out: 2, tag: 1, interface_number: 0 };
    let (mut x, _) = t.begin_in(&[0x28], 10);
    x.resume(NativeReply::Sent(31));
    x.resume(NativeReply::Received(vec![9; 3]));
    assert!(matches!(x.resume(NativeReply::Received(vec![])), NativeAction::ReceiveStatus { max: 13 }));
    assert!(matches!(x.resume(NativeReply::Received(csw(1, 0))), NativeAction::Finish(Ok(()))));
    assert_eq!(x.into_data(), vec![9; 3]);
}

#[test]
fn native_command_without_data() {
    let mut t = NativeTransport { bulk_in: 0x81, bulk_out: 2, tag: 1, interface_number: 0 };
    let (mut x, cbw) = t.begin_out(&[0; 6], 0);
    assert_eq!(cbw, build_cbw(1, 0, false, &[0; 6]));
    assert!(matches!(x.resume(NativeReply::Sent(31)), NativeAction::ReceiveStatus { max: 13 }));
    assert!(matches!(
        x.resume(NativeReply::Received(csw(2, 0))),
        NativeAction::Finish(Err(BotError::Status(CswError::Tag { got: 2, expected: 1 })))
    ));
}

#[test]
fn native_command_that_sends() {
    let mut t = NativeTransport { bulk_in: 0x81, bulk_out: 2, tag: 1, interface_number: 0 };
    let (mut x, _) = t.begin_out(&[0x2a], 100);
    assert!(matches!(x.resume(NativeReply::Sent(31)), NativeAction::SendData { offset: 0 }));
    assert!(matches!(x.resume(NativeReply::Sent(60)), NativeAction::SendData { offset: 60 }));
    assert!(matches!(x.resume(NativeReply::Sent(40)), NativeAction::ReceiveStatus { max: 13 }));
    assert!(matches!(x.resume(NativeReply::Received(csw(1, 0))), NativeAction::Finish(Ok(()))));
}

#[test]
fn native_command_failures() {
    let t = NativeTransport { bulk_in: 0x81, bulk_out: 2, tag: 1, interface_number: 0 };
    let (mut x, _) = t.clone().begin_out(&[0x2a], 100);
    assert!(matches!(
        x.resume(NativeReply::Sent(30)),
        NativeAction::Finish(Err(BotError::ShortCommand { sent: 30 }))
    ));
    let (mut x, _) = t.clone().begin_out(&[0x2a], 100);
    assert!(matches!(
        x.resume(NativeReply::Failed),
        NativeAction::Finish(Err(BotError::Transport { stage: Stage::Command }))
    ));
    let (mut x, _) = t.clone().begin_out(&[0x2a], 100);
    x.resume(NativeReply::Sent(31));
    assert!(matches!(x.resume(NativeReply::Sent(0)), NativeAction::Finish(Err(BotError::Stalled))));
    let (mut x, _) = t.clone().begin_in(&[0x28], 4);
    x.resume(NativeReply::Sent(31));
    assert!(matches!(
        x.resume(NativeReply::Failed),
        NativeAction::Finish(Err(BotError::Transport { stage: Stage::DataIn }))
    ));
    let (mut x, _) = t.clone().begin_in(&[0x28], 0);
    x.resume(NativeReply::Sent(31));
    assert!(matches!(
        x.resume(NativeReply::Received(vec![])),
        NativeAction::Finish(Err(BotError::NoStatus))
    ));
}

#[test]
fn component_command_in() {
    let mut t = WasmTransport { bulk_in: 0x81, bulk_out: 2, tag: 3, interface_number: 0 };
    let (mut x, first) = t.begin_in(&[0x28, 0], 10);
    assert_eq!(t.tag, 4);
    match first {
        WasmAction::Transfer { size: 31, options, payload: Payload::Command(cbw) } => {
            assert_eq!(options, t.bulk_out_opts());
            assert_eq!(cbw, build_cbw(3, 10, true, &[0x28, 0]));
        }
        _ => panic!("the command wrapper comes first"),
    }
    match x.resume(WasmReply::Completed(vec![0; 31])) {
        WasmAction::Transfer { size: 10, options, payload: Payload::Nothing } => {
            assert_eq!(options, t.bulk_in_opts());
        }
        _ => panic!("the data comes next"),
    }
    match x.resume(WasmReply::Completed(vec![8; 10])) {
        WasmAction::Transfer { size: 13, options, payload: Payload::Nothing } => {
            assert_eq!(options, t.bulk_in_opts());
        }
        _ => panic!("the status wrapper comes last"),
    }
    assert!(matches!(x.resume(WasmReply::Completed(csw(3, 0))), WasmAction::Finish(Ok(()))));
    assert_eq!(x.into_data(), vec![8; 10]);
}

#[test]
fn component_command_out() {
    let mut t = WasmTransport { bulk_in: 0x81, bulk_out: 2, tag: 3, interface_number: 0 };
    let (mut x, _) = t.begin_out(&[0x2a], Some(0));
    match x.resume(WasmReply::Completed(vec![])) {
        WasmAction::Transfer { size: 0, options, payload: Payload::Data } => {
            assert_eq!(options, t.bulk_out_opts());
        }
        _ => panic!("data of no length still has its step"),
    }
    assert!(matches!(
        x.resume(WasmReply::Failed),
        WasmAction::Finish(Err(BotError::Transport { stage: Stage::DataOut }))
    ));
    let (mut x, _) = t.begin_out(&[0; 6], None);
    assert!(matches!(
        x.resume(WasmReply::Completed(vec![])),
        WasmAction::Transfer { size: 13, .. }
    ));
    assert!(matches!(
        x.resume(WasmReply::Completed(vec![1, 2])),
        WasmAction::Finish(Err(BotError::Status(CswError::TooShort { len: 2 })))
    ));
}

#[test]
fn both_transports_end_sending_alike() {
    for (tag, status) in [(7, 0), (7, 1), (8, 0)] {
        let answer = csw(tag, status);
        let mut native = NativeTransport { bulk_in: 0x81, bulk_out: 2, tag: 7, interface_number: 0 };
        let (mut n, _) = native.begin_out(&[0x2a], 100);
        n.resume(NativeReply::Sent(31));
        n.resume(NativeReply::Sent(30));
        n.resume(NativeReply::Sent(70));
        n.resume(NativeReply::Received(answer[..6].to_vec()));
        let mut wasm = WasmTransport { bulk_in: 0x81, bulk_out: 2, tag: 7, interface_number: 0 };
        let (mut w, _) = wasm.begin_out(&[0x2a], Some(100));
        w.resume(WasmReply::Completed(vec![]));
        w.resume(WasmReply::Completed(vec![]));
        match (
            n.resume(NativeReply::Received(answer[6..].to_vec())),
            w.resume(WasmReply::Completed(answer)),
        ) {
            (NativeAction::Finish(a), WasmAction::Finish(b)) => {
                assert_eq!(a, b);
                assert_eq!(a.is_ok(), (tag, status) == (7, 0));
            }
            _ => panic!("the command is over"),
        }
    }
}

#[test]
fn generator_values() {
    let mut state = 0;
    assert_eq!(lcg_next(&mut state), (1_442_695_040_888_963_407u64 >> 33) as u32);
    assert_eq!(state, 1_442_695_040_888_963_407);
    let mut state = 0xdead_beef;
    let expected = 0xdead_beefu64
        .wrapping_mul(6_364_136_223_846_793_005)
        .wrapping_add(1_442_695_040_888_963_407);
    assert_eq!(lcg_next(&mut state), (expected >> 33) as u32);
    assert_eq!(state, expected);
    assert_eq!(lcg_seed(Runtime::Native, 1234), 1234);
    assert_eq!(lcg_seed(Runtime::WasmRaw, 1234), 0xdead_beef);
    assert_eq!(lcg_seed(Runtime::WasmRusb, 1234), 0xdead_beef);
}

#[test]
fn random_runs_start_at_multiples_and_repeat() {
    let mut starts = Vec::new();
    for _ in 0..2 {
        let scsi = ScsiDevice::new(RamDisk::new(67, 16)).ok().unwrap();
        let mut run = BulkRun::new(scsi, config(BulkMode::Read, true, 200, 8), 42);
        let mut seen = Vec::new();
        while let Some(lba) = run.next_start() {
            assert_eq!(lba % 8, 0);
            assert!(lba + 8 <= 67);
            let data = run.transfer(lba).ok().unwrap();
            assert_eq!(data, run.scsi.transport.content[lba as usize * 16..][..128].to_vec());
            run.record(lba, &data, 1, &Default::default(), &Default::default(), None);
            seen.push(lba);
        }
        assert_eq!(seen.len(), 200);
        assert_eq!(run.total_bytes, 200 * 128);
        for k in 0..8 {
            assert!(seen.contains(&(k * 8)), "no transfer at {}", k * 8);
        }
        starts.push(seen);
    }
    assert_eq!(starts[0], starts[1]);
}

#[test]
fn random_runs_reach_the_last_place() {
    let scsi = ScsiDevice::new(RamDisk::new(16, 16)).ok().unwrap();
    let mut run = BulkRun::new(scsi, config(BulkMode::Read, true, 100, 8), 42);
    let mut seen = [0; 2];
    while let Some(lba) = run.next_start() {
        let data = run.transfer(lba).ok().unwrap();
        run.record(lba, &data, 1, &Default::default(), &Default::default(), None);
        seen[lba as usize / 8] += 1;
    }
    assert!(seen[0] > 0 && seen[1] > 0);
    assert_eq!(seen[0] + seen[1], 100);
}

#[test]
fn sequential_runs_start_at_zero() {
    let scsi = ScsiDevice::new(RamDisk::new(8, 16)).ok().unwrap();
    let mut run = BulkRun::new(scsi, config(BulkMode::Read, true, 1, 8), 42);
    assert_eq!(run.next_start(), Some(0));
    assert_eq!(run.lcg, 42);
    let scsi = ScsiDevice::new(RamDisk::new(80, 16)).ok().unwrap();
    let mut run = BulkRun::new(scsi, config(BulkMode::Read, false, 1, 8), 42);
    assert_eq!(run.next_start(), Some(0));
}

#[test]
fn write_runs_write_the_pattern() {
    let scsi = ScsiDevice::new(RamDisk::new(32, 16)).ok().unwrap();
    let mut run = BulkRun::new(scsi, config(BulkMode::Write, false, 1, 2), 0);
    assert_eq!(run.transfer(3).ok().unwrap(), vec![0x5a; 32]);
    assert_eq!(run.scsi.transport.content[48..80], [0x5a; 32]);
    assert_ne!(run.scsi.transport.content[80], 0x5a);
}

#[test]
fn rewriting_runs_keep_the_content() {
    let scsi = ScsiDevice::new(RamDisk::new(32, 16)).ok().unwrap();
    let before = scsi.transport.content.clone();
    let mut run = BulkRun::new(scsi, config(BulkMode::ReadWrite, true, 50, 2), 7);
    while let Some(lba) = run.next_start() {
        let data = run.transfer(lba).ok().unwrap();
        run.record(lba, &data, 1, &Default::default(), &Default::default(), None);
    }
    assert_eq!(run.scsi.transport.content, before);
}

#[test]
fn failing_iterations_report_their_command() {
    let mut disk = RamDisk::new(32, 16);
    disk.fail_from = 2;
    let scsi = ScsiDevice::new(disk).ok().unwrap();
    let mut run = BulkRun::new(scsi, config(BulkMode::Write, false, 1, 2), 0);
    assert!(matches!(run.transfer(3), Err(ScsiError::Write { lba: 3, count: 2, .. })));
    for mode in [BulkMode::Read, BulkMode::ReadWrite] {
        let mut disk = RamDisk::new(32, 16);
        disk.deliver_at_most = 20;
        let scsi = ScsiDevice::new(disk).ok().unwrap();
        let mut run = BulkRun::new(scsi, config(mode, false, 1, 2), 0);
        assert!(matches!(
            run.transfer(3),
            Err(ScsiError::DataLength { len: 20, expected: 32, count: 2, block_size: 16 })
        ));
        assert_eq!(run.scsi.transport.commands.len(), 3);
        let mut disk = RamDisk::new(32, 16);
        disk.fail_from = 2;
        let scsi = ScsiDevice::new(disk).ok().unwrap();
        let mut run = BulkRun::new(scsi, config(mode, false, 1, 2), 0);
        assert!(matches!(run.transfer(3), Err(ScsiError::Read { lba: 3, count: 2, .. })));
        assert_eq!(run.scsi.transport.commands.len(), 3);
    }
}

#[test]
fn short_reads_are_errors() {
    let mut disk = RamDisk::new(64, 512);
    disk.deliver_at_most = 511;
    let mut device = ScsiDevice::new(disk).ok().unwrap();
    assert!(matches!(
        device.read_blocks(7, 1),
        Err(ScsiError::DataLength { len: 511, expected: 512, count: 1, block_size: 512 })
    ));
    assert_eq!(device.read_blocks(7, 0).ok().unwrap(), Vec::<u8>::new());
}

#[test]
fn checksums_of_known_payloads() {
    assert_eq!(
        checksum_hex(b""),
        "e3b0c44298fc1c149afbf4c8996fb92427ae41e4649b934ca495991b7852b855"
    );
    assert_eq!(
        checksum_hex(b"abc"),
        "ba7816bf8f01cfea414140de5dae2223b00361a396177a9cb410ff61f20015ad"
    );
    assert_eq!(hex_text(&[0, 0x0f, 0xa5, 0xff]), "000fa5ff");
    assert_eq!(hex_text(&[]), "");
    assert_ne!(checksum_hex(&[0x5a; 32]), checksum_hex(&[0x5a; 33]));
}

#[test]
fn rows_of_a_run() {
    let scsi = ScsiDevice::new(RamDisk::new(32, 16)).ok().unwrap();
    let mut run = BulkRun::new(scsi, config(BulkMode::ReadWrite, false, 12, 2), 0);
    let mut shown = Vec::new();
    for i in 0..12 {
        let (row, show) =
            run.record(5, &[0x5a; 32], 1000 + i, &Default::default(), &Default::default(), Some(65536));
        assert_eq!(row.condition, "native-rusb");
        assert_eq!(row.workload, "bulk");
        assert_eq!(row.iteration as u64, i);
        assert_eq!((row.bytes, row.duration_ns), (32, 1000 + i));
        assert_eq!(row.guest_mem_bytes, Some(65536));
        assert_eq!(row.notes.as_deref(), Some("mode=rw lba=5"));
        assert_eq!(row.checksum_hex, Some(checksum_hex(&[0x5a; 32])));
        shown.push(show);
    }
    assert_eq!(run.next_start(), None);
    assert_eq!(run.total_bytes, 12 * 32);
    let expected: Vec<bool> = (0..12).map(|i| i == 0 || i == 10 || i == 11).collect();
    assert_eq!(shown, expected);
}

#[test]
fn runs_that_do_not_fit() {
    assert!(check_run(&config(BulkMode::Read, false, 100, 128), 512));
    assert!(!check_run(&config(BulkMode::Read, false, 100, 0), 512));
    assert!(!check_run(&config(BulkMode::Read, false, 1, 2), u32::MAX));
    assert!(check_run(&config(BulkMode::Write, false, 1, 2), u32::MAX));
    assert!(!check_run(&config(BulkMode::Write, false, u32::MAX, u16::MAX), u32::MAX));
}
