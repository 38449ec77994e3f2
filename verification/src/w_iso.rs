//! The isochronous benchmark: one capture from a streaming endpoint per iteration.

use vstd::prelude::*;

use crate::args;
use crate::args::{Runtime, VidPidError};
#[allow(unused_imports)]
use crate::checksum;
use crate::checksum::checksum_hex;
use crate::csv::{Row, Rusage};
use crate::opening::find_device;
#[allow(unused_imports)]
use crate::opening;
#[allow(unused_imports)]
use crate::text;
use crate::transfers::{STATUS_COMPLETED, STATUS_TIMED_OUT};
use crate::types::{
    DeviceDescriptor, IsoPacket, LibusbError, TransferOptions, TransferResult, TransferSetup,
};

verus! {

/// How long a capture may take, in milliseconds.
pub const CAPTURE_TIMEOUT_MS: u32 = 5_000;

// ---------------------------------------------------------------------------
// Configuration
// ---------------------------------------------------------------------------

/// What the command line asks for.
#[derive(Debug)]
pub struct IsoConfig {
    pub output: String,
    pub vid: u16,
    pub pid: u16,
    pub iterations: u32,
    pub condition: String,
    pub iface: u8,
    pub alt: u8,
    pub ep_in: u8,
    pub packet_size: u32,
    pub num_packets: u32,
}

/// The endpoint that an argument names, 0x81 where it names none.
pub open spec fn endpoint_or_default(s: Option<Seq<char>>) -> nat {
    match s {
        Some(s) => match args::hex_byte_of(s) {
            Ok(byte) => byte,
            Err(_) => 0x81,
        },
        None => 0x81,
    }
}

/// The options of this benchmark. Each takes a value.
pub open spec fn iso_options() -> Seq<Seq<char>> {
    seq!["--condition"@, "--iface"@, "--alt"@, "--ep"@, "--pkt-size"@, "--num-pkts"@]
}

impl IsoConfig {
    /// The arguments that count by their places.
    pub open spec fn places(args: Seq<Seq<char>>) -> Seq<Seq<char>> {
        args::placed(args, iso_options(), Seq::empty())
    }

    /// What names the device: the second argument by place.
    pub open spec fn device_text(args: Seq<Seq<char>>) -> Seq<char> {
        args::positional(Self::places(args), 2, "046d:086c"@)
    }

    /// The device that the arguments name.
    pub open spec fn device_of(args: Seq<Seq<char>>) -> Result<(u16, u16), VidPidError> {
        args::vid_pid_of(Self::device_text(args))
    }

    /// This is what the arguments ask for.
    pub open spec fn is_asked_for(&self, args: Seq<Seq<char>>, runtime: Runtime) -> bool {
        &&& self.output@ == args::positional(Self::places(args), 1, "bench_w_iso.csv"@)
        &&& Self::device_of(args) == Ok::<(u16, u16), VidPidError>((self.vid, self.pid))
        &&& self.iterations == args::number_or(
            args::at(Self::places(args), 3),
            0xffff_ffff,
            200,
        )
        &&& self.condition@ == args::condition_of(args, runtime)
        &&& self.iface == args::number_or(args::named(args, "--iface"@), 0xff, 1)
        &&& self.alt == args::number_or(args::named(args, "--alt"@), 0xff, 1)
        &&& self.ep_in == endpoint_or_default(args::named(args, "--ep"@))
        &&& self.packet_size == args::number_or(
            args::named(args, "--pkt-size"@),
            0xffff_ffff,
            1024,
        )
        &&& self.num_packets == args::number_or(args::named(args, "--num-pkts"@), 0xffff_ffff, 32)
    }

    fn placed_args(args: &[String]) -> (places: Vec<String>)
        ensures
            args::texts(places@) == Self::places(args::texts(args@)),
    {
        let options: [&str; 6] = [
            "--condition",
            "--iface",
            "--alt",
            "--ep",
            "--pkt-size",
            "--num-pkts",
        ];
        let flags: [&str; 0] = [];
        assert(args::words(options@) =~= iso_options());
        assert(args::words(flags@) =~= Seq::<Seq<char>>::empty());
        args::placed_args(args, &options, &flags)
    }

    /// What names the device on this command line.
    pub fn device_arg(args: &[String]) -> (device: String)
        ensures
            device@ == Self::device_text(args::texts(args@)),
    {
        args::positional_arg(Self::placed_args(args).as_slice(), 2, "046d:086c")
    }

    /// Reads the command line: output file, device and iterations by their places, the rest by
    /// name, wherever that stands.
    pub fn from_args(args: &[String], runtime: Runtime) -> (result: Result<Self, VidPidError>)
        ensures
            match result {
                Ok(config) => config.is_asked_for(args::texts(args@), runtime),
                Err(error) => Self::device_of(args::texts(args@)) == Err::<
                    (u16, u16),
                    VidPidError,
                >(error),
            },
    {
        let places = Self::placed_args(args);
        let output = args::positional_arg(places.as_slice(), 1, "bench_w_iso.csv");
        let iterations = args::positional_number(places.as_slice(), 3, 0xffff_ffff, 200) as u32;
        let condition = args::condition_arg(args, runtime);
        let iface = args::named_number(args, "--iface", 0xff, 1) as u8;
        let alt = args::named_number(args, "--alt", 0xff, 1) as u8;
        let ep_in: u8 = match args::named_arg(args, "--ep") {
            Some(s) => match args::parse_hex_u8(s.as_str()) {
                Ok(byte) => byte,
                Err(_) => 0x81,
            },
            None => 0x81,
        };
        let packet_size = args::named_number(args, "--pkt-size", 0xffff_ffff, 1024) as u32;
        let num_packets = args::named_number(args, "--num-pkts", 0xffff_ffff, 32) as u32;
        match args::parse_vid_pid(Self::device_arg(args).as_str()) {
            Err(error) => Err(error),
            Ok((vid, pid)) => Ok(
                IsoConfig {
                    output,
                    vid,
                    pid,
                    iterations,
                    condition,
                    iface,
                    alt,
                    ep_in,
                    packet_size,
                    num_packets,
                },
            ),
        }
    }
}

/// A command line without options gives the output file, the device and the iterations in this
/// order. What it leaves out is bench_w_iso.csv, 046d:086c and 200, in order; the stream is then
/// interface 1, setting 1, endpoint 0x81, with 32 packets of 1024 bytes.
pub proof fn law_plain_command_line(
    config: IsoConfig,
    args: Seq<Seq<char>>,
    runtime: Runtime,
    iterations: nat,
)
    requires
        config.is_asked_for(args, runtime),
        forall|j: int|
            0 <= j < args.len() ==> #[trigger] args[j] != "--condition"@ && args[j] != "--iface"@
                && args[j] != "--alt"@ && args[j] != "--ep"@ && args[j] != "--pkt-size"@ && args[j]
                != "--num-pkts"@,
    ensures
        config.output@ == (if args.len() > 1 {
            args[1]
        } else {
            "bench_w_iso.csv"@
        }),
        args::vid_pid_of(
            if args.len() > 2 {
                args[2]
            } else {
                "046d:086c"@
            },
        ) == Ok::<(u16, u16), VidPidError>((config.vid, config.pid)),
        args.len() <= 3 ==> config.iterations == 200,
        args.len() > 3 && args[3] == text::decimal(iterations) && iterations <= u32::MAX
            ==> config.iterations == iterations,
        config.condition@ == args::condition_name(runtime),
        config.iface == 1,
        config.alt == 1,
        config.ep_in == 0x81,
        config.packet_size == 1024,
        config.num_packets == 32,
{
    let flags = Seq::<Seq<char>>::empty();
    assert forall|j: int| 0 <= j < args.len() implies !iso_options().contains(#[trigger] args[j])
        && !flags.contains(args[j]) by {}
    args::law_plain_arguments_keep_their_places(args, iso_options(), flags);
    args::law_written_number_is_taken(iterations, 0xffff_ffff, 200);
    let end = if args.len() > 0 {
        args.len() - 1
    } else {
        0
    };
    args::law_value_stands_behind_its_name(args, "--condition"@, end);
    args::law_value_stands_behind_its_name(args, "--iface"@, end);
    args::law_value_stands_behind_its_name(args, "--alt"@, end);
    args::law_value_stands_behind_its_name(args, "--ep"@, end);
    args::law_value_stands_behind_its_name(args, "--pkt-size"@, end);
    args::law_value_stands_behind_its_name(args, "--num-pkts"@, end);
}

/// Each option sets what it is named after: the interface, its setting, the size and the number of
/// the packets in base ten, and the endpoint in base sixteen, with `0x` in front or without.
pub proof fn law_options_set_the_stream(
    config: IsoConfig,
    args: Seq<Seq<char>>,
    runtime: Runtime,
    n: nat,
    b: u8,
)
    requires
        config.is_asked_for(args, runtime),
    ensures
        n <= u8::MAX && args::named(args, "--iface"@) == Some(text::decimal(n)) ==> config.iface == n,
        n <= u8::MAX && args::named(args, "--alt"@) == Some(text::decimal(n)) ==> config.alt == n,
        n <= u32::MAX && args::named(args, "--pkt-size"@) == Some(text::decimal(n))
            ==> config.packet_size == n,
        n <= u32::MAX && args::named(args, "--num-pkts"@) == Some(text::decimal(n))
            ==> config.num_packets == n,
        args::named(args, "--ep"@) == Some(text::hex_byte(b)) ==> config.ep_in == b,
        args::named(args, "--ep"@) == Some(seq!['0', 'x'] + text::hex_byte(b)) ==> config.ep_in
            == b,
        args::named(args, "--ep"@) matches Some(s) && args::hex_byte_of(s) is Err ==> config.ep_in
            == 0x81,
        args::named(args, "--condition"@) matches Some(name) ==> config.condition@ == name,
{
    args::law_written_number_is_taken(n, 0xff, 1);
    args::law_written_number_is_taken(n, 0xffff_ffff, 1024);
    args::law_written_number_is_taken(n, 0xffff_ffff, 32);
    args::law_hex_byte_with_prefix_or_without(b);
}

// ---------------------------------------------------------------------------
// The device
// ---------------------------------------------------------------------------

/// An opened streaming device.
#[derive(Debug, Clone, Copy, PartialEq, Eq, Structural)]
pub struct IsoDevice {
    pub iface: u8,
    pub ep_in: u8,
    pub packet_size: u32,
    pub num_packets: u32,
}

/// Reads a libusb return code that reports nothing but success, as 0, or failure.
pub fn check(rc: i32) -> (result: Result<(), i32>)
    ensures
        rc == 0 ==> result == Ok::<(), i32>(()),
        rc != 0 ==> result == Err::<(), i32>(rc),
{
    if rc == 0 {
        Ok(())
    } else {
        Err(rc)
    }
}

/// The calls that opening a device makes.
#[derive(Debug, Clone, Copy, PartialEq, Eq, Structural)]
pub enum IsoCall {
    Init,
    ListDevices,
    Open,
    DriverActive,
    DetachDriver,
    SetConfiguration,
    ClaimInterface,
    SetAltSetting,
}

/// What to do next.
#[derive(Debug, Clone, Copy, PartialEq, Eq, Structural)]
pub enum IsoOpenAction {
    /// Open the device of this vendor and product.
    OpenKind { vid: u16, pid: u16 },
    /// Open this device of the list.
    OpenDevice { device: usize },
    /// Ask whether a kernel driver holds the interface.
    AskDriver { iface: u8 },
    /// Detach the kernel driver; a failure does not matter.
    Detach { iface: u8 },
    /// Select this configuration.
    SetConfiguration { value: u8 },
    /// Claim the interface.
    Claim { iface: u8 },
    /// Select this alternate setting.
    SetAltSetting { iface: u8, alt: u8 },
    /// The device is ready.
    Ready { opened: IsoDevice },
    /// There is no such device.
    NotFound,
    /// This call failed.
    Fail { call: IsoCall },
}

/// What came of the last call.
#[derive(Debug)]
pub enum IsoOpenReply {
    Failed,
    /// The call succeeded.
    Done,
    /// The device list.
    Devices(Vec<DeviceDescriptor>),
    /// Whether a kernel driver holds the interface.
    Driver(bool),
}

/// How far opening has come: the call at hand, and what is wanted.
#[derive(Debug, Clone, Copy, PartialEq, Eq, Structural)]
pub struct IsoOpen {
    pub vid: u16,
    pub pid: u16,
    pub alt: u8,
    pub device: IsoDevice,
    /// The device is reached through the `component:usb` interface, not through libusb itself.
    pub through_component: bool,
    pub call: IsoCall,
    pub over: bool,
}

impl IsoOpen {
    /// On to the next call.
    pub open spec fn at(self, call: IsoCall) -> Self {
        IsoOpen { call, ..self }
    }

    /// Nothing is left to do.
    pub open spec fn ended(self) -> Self {
        IsoOpen { over: true, ..self }
    }

    /// The reply is one to the call at hand.
    pub open spec fn fits(self, reply: IsoOpenReply) -> bool {
        !self.over && match self.call {
            IsoCall::ListDevices => reply is Failed || reply is Devices,
            IsoCall::DriverActive => reply is Failed || reply is Driver,
            _ => reply is Failed || reply is Done,
        }
    }

    /// The step that follows once the configuration is selected and the driver is out of the way.
    pub open spec fn claiming(self) -> (Self, IsoOpenAction) {
        (
            self.at(IsoCall::ClaimInterface),
            IsoOpenAction::Claim { iface: self.device.iface },
        )
    }

    /// The step that selects configuration 1.
    pub open spec fn configuring(self) -> (Self, IsoOpenAction) {
        (self.at(IsoCall::SetConfiguration), IsoOpenAction::SetConfiguration { value: 1 })
    }

    /// The step that asks for a kernel driver.
    pub open spec fn asking(self) -> (Self, IsoOpenAction) {
        (self.at(IsoCall::DriverActive), IsoOpenAction::AskDriver { iface: self.device.iface })
    }

    /// What a reply leads to.
    ///
    /// Through libusb: start, open, make way, configure, claim, set. Through the component
    /// interface: list, open, configure, make way, claim, set.
    pub open spec fn next(self, reply: IsoOpenReply) -> (Self, IsoOpenAction) {
        let failed = (self.ended(), IsoOpenAction::Fail { call: self.call });
        match self.call {
            IsoCall::Init => if reply is Done {
                (
                    self.at(IsoCall::Open),
                    IsoOpenAction::OpenKind { vid: self.vid, pid: self.pid },
                )
            } else {
                failed
            },
            IsoCall::ListDevices => match reply {
                IsoOpenReply::Devices(devices) => {
                    let found = opening::first_device(devices@, self.vid, self.pid);
                    if found < devices@.len() {
                        (
                            self.at(IsoCall::Open),
                            IsoOpenAction::OpenDevice { device: found as usize },
                        )
                    } else {
                        (self.ended(), IsoOpenAction::NotFound)
                    }
                },
                _ => failed,
            },
            IsoCall::Open => if reply is Done {
                if self.through_component {
                    self.configuring()
                } else {
                    self.asking()
                }
            } else if self.through_component {
                failed
            } else {
                (self.ended(), IsoOpenAction::NotFound)
            },
            IsoCall::DriverActive => if reply == IsoOpenReply::Driver(true) {
                (
                    self.at(IsoCall::DetachDriver),
                    IsoOpenAction::Detach { iface: self.device.iface },
                )
            } else if self.through_component {
                self.claiming()
            } else {
                self.configuring()
            },
            IsoCall::DetachDriver => if self.through_component {
                self.claiming()
            } else {
                self.configuring()
            },
            IsoCall::SetConfiguration => if reply !is Done {
                failed
            } else if self.through_component {
                self.asking()
            } else {
                self.claiming()
            },
            IsoCall::ClaimInterface => if reply is Done {
                (
                    self.at(IsoCall::SetAltSetting),
                    IsoOpenAction::SetAltSetting { iface: self.device.iface, alt: self.alt },
                )
            } else {
                failed
            },
            IsoCall::SetAltSetting => if reply is Done {
                (self.ended(), IsoOpenAction::Ready { opened: self.device })
            } else {
                failed
            },
        }
    }

    /// Where a run of replies leads.
    pub open spec fn after(self, replies: Seq<IsoOpenReply>) -> Self
        decreases replies.len(),
    {
        if replies.len() == 0 {
            self
        } else {
            self.after(replies.drop_last()).next(replies.last()).0
        }
    }

    /// What is done on reply `k` of a run.
    pub open spec fn action_at(self, replies: Seq<IsoOpenReply>, k: int) -> IsoOpenAction {
        self.after(replies.take(k)).next(replies[k]).1
    }

    /// Each reply of the run answers the call at hand.
    pub open spec fn all_fit(self, replies: Seq<IsoOpenReply>) -> bool {
        forall|k: int|
            0 <= k < replies.len() ==> self.after(#[trigger] replies.take(k)).fits(replies[k])
    }

    fn fail(self) -> (step: (Self, IsoOpenAction))
        ensures
            step == (self.ended(), IsoOpenAction::Fail { call: self.call }),
    {
        (IsoOpen { over: true, ..self }, IsoOpenAction::Fail { call: self.call })
    }

    fn claim(self) -> (step: (Self, IsoOpenAction))
        ensures
            step == self.claiming(),
    {
        (
            IsoOpen { call: IsoCall::ClaimInterface, ..self },
            IsoOpenAction::Claim { iface: self.device.iface },
        )
    }

    fn configure(self) -> (step: (Self, IsoOpenAction))
        ensures
            step == self.configuring(),
    {
        (
            IsoOpen { call: IsoCall::SetConfiguration, ..self },
            IsoOpenAction::SetConfiguration { value: 1 },
        )
    }

    fn ask(self) -> (step: (Self, IsoOpenAction))
        ensures
            step == self.asking(),
    {
        (
            IsoOpen { call: IsoCall::DriverActive, ..self },
            IsoOpenAction::AskDriver { iface: self.device.iface },
        )
    }

    /// Takes the reply to the last call and says what to do next.
    pub fn resume(self, reply: IsoOpenReply) -> (step: (Self, IsoOpenAction))
        requires
            self.fits(reply),
        ensures
            step == self.next(reply),
            reply == IsoOpenReply::Driver(true) ==> step.1 == (IsoOpenAction::Detach {
                iface: self.device.iface,
            }),
    {
        let done = match reply {
            IsoOpenReply::Done => true,
            _ => false,
        };
        match self.call {
            IsoCall::Init => {
                if done {
                    (
                        IsoOpen { call: IsoCall::Open, ..self },
                        IsoOpenAction::OpenKind { vid: self.vid, pid: self.pid },
                    )
                } else {
                    self.fail()
                }
            },
            IsoCall::ListDevices => match reply {
                IsoOpenReply::Devices(devices) => match find_device(
                    devices.as_slice(),
                    self.vid,
                    self.pid,
                ) {
                    Some(device) => (
                        IsoOpen { call: IsoCall::Open, ..self },
                        IsoOpenAction::OpenDevice { device },
                    ),
                    None => (IsoOpen { over: true, ..self }, IsoOpenAction::NotFound),
                },
                _ => self.fail(),
            },
            IsoCall::Open => {
                if done {
                    if self.through_component {
                        self.configure()
                    } else {
                        self.ask()
                    }
                } else if self.through_component {
                    self.fail()
                } else {
                    (IsoOpen { over: true, ..self }, IsoOpenAction::NotFound)
                }
            },
            IsoCall::DriverActive => {
                let held = match reply {
                    IsoOpenReply::Driver(held) => held,
                    _ => false,
                };
                if held {
                    (
                        IsoOpen { call: IsoCall::DetachDriver, ..self },
                        IsoOpenAction::Detach { iface: self.device.iface },
                    )
                } else if self.through_component {
                    self.claim()
                } else {
                    self.configure()
                }
            },
            IsoCall::DetachDriver => {
                if self.through_component {
                    self.claim()
                } else {
                    self.configure()
                }
            },
            IsoCall::SetConfiguration => {
                if !done {
                    self.fail()
                } else if self.through_component {
                    self.ask()
                } else {
                    self.claim()
                }
            },
            IsoCall::ClaimInterface => {
                if done {
                    (
                        IsoOpen { call: IsoCall::SetAltSetting, ..self },
                        IsoOpenAction::SetAltSetting { iface: self.device.iface, alt: self.alt },
                    )
                } else {
                    self.fail()
                }
            },
            IsoCall::SetAltSetting => {
                if done {
                    (
                        IsoOpen { over: true, ..self },
                        IsoOpenAction::Ready { opened: self.device },
                    )
                } else {
                    self.fail()
                }
            },
        }
    }
}

/// A device is ready only after its interface was claimed and its alternate setting selected, and
/// it is then the device that was asked for.
pub proof fn law_ready_is_what_was_asked_for(opening: IsoOpen, reply: IsoOpenReply, ready: IsoDevice)
    requires
        opening.fits(reply),
        opening.next(reply).1 == (IsoOpenAction::Ready { opened: ready }),
    ensures
        opening.call == IsoCall::SetAltSetting,
        reply is Done,
        ready == opening.device,
{
}

/// Through libusb itself, opening takes its course in this order: the device of the kind is opened,
/// asked for a kernel driver, which is detached where there is one, given configuration 1, claimed
/// and set. Whether a driver could be asked for or detached does not matter.
pub proof fn law_opening_through_libusb_takes_its_course(
    opening: IsoOpen,
    driver: IsoOpenReply,
    detached: IsoOpenReply,
)
    requires
        opening.call == IsoCall::Init,
        !opening.over,
        !opening.through_component,
        driver is Failed || driver is Driver,
        detached is Failed || detached is Done,
    ensures
        ({
            let iface = opening.device.iface;
            let held = driver == IsoOpenReply::Driver(true);
            let (s1, a1) = opening.next(IsoOpenReply::Done);
            let (s2, a2) = s1.next(IsoOpenReply::Done);
            let (s3, a3) = s2.next(driver);
            let (s4, a4) = if held {
                s3.next(detached)
            } else {
                (s3, a3)
            };
            let (s5, a5) = s4.next(IsoOpenReply::Done);
            let (s6, a6) = s5.next(IsoOpenReply::Done);
            let (s7, a7) = s6.next(IsoOpenReply::Done);
            &&& s2.fits(driver)
            &&& a1 == IsoOpenAction::OpenKind { vid: opening.vid, pid: opening.pid }
            &&& a2 == IsoOpenAction::AskDriver { iface }
            &&& held ==> s3.fits(detached) && a3 == IsoOpenAction::Detach { iface }
            &&& a4 == IsoOpenAction::SetConfiguration { value: 1 }
            &&& a5 == IsoOpenAction::Claim { iface }
            &&& a6 == IsoOpenAction::SetAltSetting { iface, alt: opening.alt }
            &&& a7 == IsoOpenAction::Ready { opened: opening.device }
            &&& s7.over
        }),
{
}

/// Through the component interface, opening takes its course in this order: the first device of the
/// kind is opened, given configuration 1, asked for a kernel driver, which is detached where there
/// is one, claimed and set. Whether a driver could be asked for or detached does not matter.
pub proof fn law_opening_through_component_takes_its_course(
    opening: IsoOpen,
    devices: Vec<DeviceDescriptor>,
    first: usize,
    driver: IsoOpenReply,
    detached: IsoOpenReply,
)
    requires
        opening.call == IsoCall::ListDevices,
        !opening.over,
        opening.through_component,
        first < devices@.len(),
        devices@[first as int].vendor_id == opening.vid,
        devices@[first as int].product_id == opening.pid,
        forall|j: int|
            0 <= j < first ==> (#[trigger] devices@[j]).vendor_id != opening.vid
                || devices@[j].product_id != opening.pid,
        driver is Failed || driver is Driver,
        detached is Failed || detached is Done,
    ensures
        ({
            let iface = opening.device.iface;
            let held = driver == IsoOpenReply::Driver(true);
            let (s1, a1) = opening.next(IsoOpenReply::Devices(devices));
            let (s2, a2) = s1.next(IsoOpenReply::Done);
            let (s3, a3) = s2.next(IsoOpenReply::Done);
            let (s4, a4) = s3.next(driver);
            let (s5, a5) = if held {
                s4.next(detached)
            } else {
                (s4, a4)
            };
            let (s6, a6) = s5.next(IsoOpenReply::Done);
            let (s7, a7) = s6.next(IsoOpenReply::Done);
            &&& s3.fits(driver)
            &&& a1 == IsoOpenAction::OpenDevice { device: first }
            &&& a2 == IsoOpenAction::SetConfiguration { value: 1 }
            &&& a3 == IsoOpenAction::AskDriver { iface }
            &&& held ==> s4.fits(detached) && a4 == IsoOpenAction::Detach { iface }
            &&& a5 == IsoOpenAction::Claim { iface }
            &&& a6 == IsoOpenAction::SetAltSetting { iface, alt: opening.alt }
            &&& a7 == IsoOpenAction::Ready { opened: opening.device }
            &&& s7.over
        }),
{
    opening::law_first_device_is_found(devices@, opening.vid, opening.pid, first as int);
}

/// A call that matters and failed is the last: the error names it. Through libusb a device that
/// cannot be opened is one that is not there; so is, through the component interface, one that is
/// not in the list.
pub proof fn law_opening_gives_up(opening: IsoOpen, reply: IsoOpenReply)
    requires
        opening.fits(reply),
    ensures
        ({
            let (after, action) = opening.next(reply);
            &&& action is Fail <==> reply is Failed && opening.call != IsoCall::DriverActive
                && opening.call != IsoCall::DetachDriver && (opening.call == IsoCall::Open
                ==> opening.through_component)
            &&& action is Fail ==> action == IsoOpenAction::Fail { call: opening.call }
            &&& opening.call == IsoCall::Open && reply is Failed && !opening.through_component
                ==> action == IsoOpenAction::NotFound
            &&& reply matches IsoOpenReply::Devices(devices) ==> (action == IsoOpenAction::NotFound
                <==> forall|j: int|
                0 <= j < devices@.len() ==> (#[trigger] devices@[j]).vendor_id != opening.vid
                    || devices@[j].product_id != opening.pid)
            &&& after.over <==> action is Fail || action is NotFound || action is Ready
        }),
{
    if let IsoOpenReply::Devices(devices) = reply {
        opening::law_search_ends_at_the_first(devices@, opening.vid, opening.pid);
    }
}

/// A kernel driver never stays on an interface that is claimed, however the device is reached: in
/// every run of replies that leads to the claim, each answer that a driver holds the interface was
/// followed at once by a request to detach it, before the claim.
pub proof fn law_driver_is_detached_before_the_claim(opening: IsoOpen, replies: Seq<IsoOpenReply>)
    requires
        !opening.over,
        opening.all_fit(replies),
        replies.len() > 0,
        opening.action_at(replies, replies.len() - 1) is Claim,
    ensures
        forall|k: int|
            0 <= k < replies.len() && #[trigger] replies[k] == IsoOpenReply::Driver(true) ==> k
                < replies.len() - 1 && opening.action_at(replies, k) == (IsoOpenAction::Detach {
                iface: opening.device.iface,
            }),
{
    assert forall|k: int|
        0 <= k < replies.len() && #[trigger] replies[k] == IsoOpenReply::Driver(true) implies k
        < replies.len() - 1 && opening.action_at(replies, k) == (IsoOpenAction::Detach {
        iface: opening.device.iface,
    }) by {
        assert(opening.after(replies.take(k)).fits(replies[k]));
        lemma_run_keeps_its_aim(opening, replies.take(k));
    }
}

/// On the answer that a kernel driver holds the interface, opening asks at once to detach it from that
/// interface, however the device is reached.
pub proof fn law_held_interface_is_freed(opening: IsoOpen, step: (IsoOpen, IsoOpenAction))
    requires
        !opening.over,
        opening.call == IsoCall::DriverActive,
        call_ensures(IsoOpen::resume, (opening, IsoOpenReply::Driver(true)), step),
    ensures
        step.1 == (IsoOpenAction::Detach { iface: opening.device.iface }),
{
}

/// Nothing is claimed unasked: every run of replies that leads to the claim of an interface went
/// through the question whether a kernel driver holds it and through the choice of configuration 1,
/// however the device is reached.
pub proof fn law_claim_is_prepared(opening: IsoOpen, replies: Seq<IsoOpenReply>)
    requires
        opening.call == (if opening.through_component {
            IsoCall::ListDevices
        } else {
            IsoCall::Init
        }),
        !opening.over,
        opening.all_fit(replies),
        replies.len() > 0,
        opening.action_at(replies, replies.len() - 1) is Claim,
    ensures
        opening.action_at(replies, replies.len() - 1) == (IsoOpenAction::Claim {
            iface: opening.device.iface,
        }),
        exists|k: int|
            0 <= k < replies.len() - 1 && #[trigger] opening.action_at(replies, k) == (
            IsoOpenAction::AskDriver { iface: opening.device.iface }),
        exists|k: int|
            0 <= k < replies.len() - 1 && #[trigger] opening.action_at(replies, k) == (
            IsoOpenAction::SetConfiguration { value: 1 }) && replies[k + 1] is Done,
{
    let front = replies.drop_last();
    assert(replies.take(replies.len() - 1) =~= front);
    assert(opening.after(replies.take(replies.len() - 1)).fits(replies.last()));
    lemma_all_fit_front(opening, replies);
    lemma_run_keeps_its_aim(opening, front);
    lemma_steps_so_far(opening, front);
    let before = opening.after(front);
    let asked = choose|k: int|
        0 <= k < front.len() && #[trigger] opening.action_at(front, k) == (
        IsoOpenAction::AskDriver { iface: opening.device.iface });
    lemma_action_of_front(opening, replies, asked);
    if before.call == IsoCall::SetConfiguration {
        let last = front.len() - 1;
        lemma_action_of_front(opening, replies, last);
        assert(replies[last + 1] is Done);
    } else {
        let set = choose|k: int|
            0 <= k < front.len() - 1 && #[trigger] opening.action_at(front, k) == (
            IsoOpenAction::SetConfiguration { value: 1 }) && front[k + 1] is Done;
        lemma_action_of_front(opening, replies, set);
    }
}

proof fn lemma_run_keeps_its_aim(opening: IsoOpen, replies: Seq<IsoOpenReply>)
    ensures
        opening.after(replies).device == opening.device,
        opening.after(replies).through_component == opening.through_component,
    decreases replies.len(),
{
    if replies.len() > 0 {
        lemma_run_keeps_its_aim(opening, replies.drop_last());
    }
}

proof fn lemma_all_fit_front(opening: IsoOpen, replies: Seq<IsoOpenReply>)
    requires
        replies.len() > 0,
        opening.all_fit(replies),
    ensures
        opening.all_fit(replies.drop_last()),
{
    let front = replies.drop_last();
    assert forall|k: int| 0 <= k < front.len() implies opening.after(#[trigger] front.take(k)).fits(
        front[k],
    ) by {
        assert(front.take(k) =~= replies.take(k));
    }
}

proof fn lemma_action_of_front(opening: IsoOpen, replies: Seq<IsoOpenReply>, k: int)
    requires
        0 <= k < replies.len() - 1,
    ensures
        opening.action_at(replies, k) == opening.action_at(replies.drop_last(), k),
        replies[k] == replies.drop_last()[k],
{
    assert(replies.drop_last().take(k) =~= replies.take(k));
}

/// Which calls lie behind the call at hand.
proof fn lemma_steps_so_far(opening: IsoOpen, replies: Seq<IsoOpenReply>)
    requires
        opening.call == (if opening.through_component {
            IsoCall::ListDevices
        } else {
            IsoCall::Init
        }),
        opening.all_fit(replies),
        !opening.after(replies).over,
    ensures
        ({
            let call = opening.after(replies).call;
            let asking = exists|k: int|
                0 <= k < replies.len() && #[trigger] opening.action_at(replies, k) == (
                IsoOpenAction::AskDriver { iface: opening.device.iface });
            let configured = exists|k: int|
                0 <= k < replies.len() - 1 && #[trigger] opening.action_at(replies, k) == (
                IsoOpenAction::SetConfiguration { value: 1 }) && replies[k + 1] is Done;
            &&& call == IsoCall::DriverActive || call == IsoCall::DetachDriver ==> asking
                && (opening.through_component ==> configured)
            &&& call == IsoCall::SetConfiguration ==> replies.len() > 0 && opening.action_at(
                replies,
                replies.len() - 1,
            ) == (IsoOpenAction::SetConfiguration { value: 1 }) && (!opening.through_component
                ==> asking)
        }),
    decreases replies.len(),
{
    if replies.len() > 0 {
        let front = replies.drop_last();
        let last = replies.len() - 1;
        assert(replies.take(last) =~= front);
        assert(opening.after(replies.take(last)).fits(replies[last]));
        lemma_all_fit_front(opening, replies);
        lemma_run_keeps_its_aim(opening, front);
        lemma_steps_so_far(opening, front);
        let before = opening.after(front);
        if before.call == IsoCall::DriverActive || before.call == IsoCall::DetachDriver || (
        before.call == IsoCall::SetConfiguration && !opening.through_component) {
            let asked = choose|k: int|
                0 <= k < front.len() && #[trigger] opening.action_at(front, k) == (
                IsoOpenAction::AskDriver { iface: opening.device.iface });
            lemma_action_of_front(opening, replies, asked);
        }
        if opening.through_component && (before.call == IsoCall::DriverActive || before.call
            == IsoCall::DetachDriver) {
            let set = choose|k: int|
                0 <= k < front.len() - 1 && #[trigger] opening.action_at(front, k) == (
                IsoOpenAction::SetConfiguration { value: 1 }) && front[k + 1] is Done;
            lemma_action_of_front(opening, replies, set);
            assert(replies[set + 1] == front[set + 1]);
        }
        if before.call == IsoCall::SetConfiguration {
            lemma_action_of_front(opening, replies, last - 1);
            assert(replies[last - 1 + 1] == replies[last]);
        }
        assert(opening.action_at(replies, last) == before.next(replies[last]).1);
    }
}

/// No step of opening changes what is being opened.
pub proof fn law_opening_keeps_its_aim(opening: IsoOpen, reply: IsoOpenReply)
    ensures
        ({
            let after = opening.next(reply).0;
            &&& after.vid == opening.vid
            &&& after.pid == opening.pid
            &&& after.alt == opening.alt
            &&& after.device == opening.device
            &&& after.through_component == opening.through_component
        }),
{
}

/// One capture, as libusb is told about it.
#[derive(Debug, Clone, Copy, PartialEq, Eq, Structural)]
pub struct CapturePlan {
    pub endpoint: u8,
    /// The length of the buffer.
    pub length: u32,
    pub num_packets: u32,
    pub packet_size: u32,
    pub timeout_ms: u32,
}

/// The sum of the packets' actual lengths.
pub open spec fn captured(packets: Seq<IsoPacket>) -> nat
    decreases packets.len(),
{
    if packets.len() == 0 {
        0
    } else {
        captured(packets.drop_last()) + packets.last().actual_length as nat
    }
}

fn sum_packets(packets: &[IsoPacket]) -> (sum: u64)
    requires
        packets@.len() <= u32::MAX,
    ensures
        sum == captured(packets@),
{
    let mut sum: u64 = 0;
    let mut i: usize = 0;
    while i < packets.len()
        invariant
            packets@.len() <= u32::MAX,
            i <= packets@.len(),
            sum == captured(packets@.take(i as int)),
            sum <= i * 0xffff_ffff,
        decreases packets@.len() - i,
    {
        assert(packets@.take(i + 1).drop_last() =~= packets@.take(i as int));
        assert(i * 0xffff_ffff + 0xffff_ffff <= 0xffff_ffff * 0xffff_ffff) by (nonlinear_arith)
            requires
                i < 0xffff_ffff,
        ;
        sum = sum + packets[i].actual_length as u64;
        i += 1;
    }
    assert(packets@.take(i as int) =~= packets@);
    sum
}

impl IsoDevice {
    /// How many bytes a capture takes at most.
    pub open spec fn span(&self) -> int {
        self.packet_size * self.num_packets
    }

    /// Starts to open a device, through libusb itself or through the component interface.
    pub fn open(
        vid: u16,
        pid: u16,
        iface: u8,
        alt: u8,
        ep_in: u8,
        packet_size: u32,
        num_packets: u32,
        through_component: bool,
    ) -> (opening: IsoOpen)
        ensures
            opening == (IsoOpen {
                vid,
                pid,
                alt,
                device: IsoDevice { iface, ep_in, packet_size, num_packets },
                through_component,
                call: if through_component {
                    IsoCall::ListDevices
                } else {
                    IsoCall::Init
                },
                over: false,
            }),
    {
        IsoOpen {
            vid,
            pid,
            alt,
            device: IsoDevice { iface, ep_in, packet_size, num_packets },
            through_component,
            call: if through_component {
                IsoCall::ListDevices
            } else {
                IsoCall::Init
            },
            over: false,
        }
    }

    /// The next capture.
    pub fn capture(&self) -> (plan: CapturePlan)
        requires
            self.span() <= u32::MAX,
        ensures
            plan == (CapturePlan {
                endpoint: self.ep_in,
                length: self.span() as u32,
                num_packets: self.num_packets,
                packet_size: self.packet_size,
                timeout_ms: CAPTURE_TIMEOUT_MS,
            }),
    {
        CapturePlan {
            endpoint: self.ep_in,
            length: self.packet_size * self.num_packets,
            num_packets: self.num_packets,
            packet_size: self.packet_size,
            timeout_ms: CAPTURE_TIMEOUT_MS,
        }
    }

    /// What a capture through libusb came to: the bytes that it reports, unless it neither completed
    /// nor timed out.
    pub fn captured_natively(status: i32, actual_length: i32) -> (result: Result<u64, i32>)
        requires
            actual_length >= 0,
        ensures
            status == STATUS_COMPLETED || status == STATUS_TIMED_OUT ==> result == Ok::<u64, i32>(
                actual_length as u64,
            ),
            status != STATUS_COMPLETED && status != STATUS_TIMED_OUT ==> result == Err::<u64, i32>(
                status,
            ),
            result is Ok <==> status == 0 || status == 2,
    {
        if status != STATUS_COMPLETED && status != STATUS_TIMED_OUT {
            Err(status)
        } else {
            Ok(actual_length as u64)
        }
    }

    /// What a capture through the component interface came to: the sum over its packets; a timeout
    /// counts as a capture of nothing.
    pub fn captured_through_component(result: Result<TransferResult, LibusbError>) -> (bytes: Result<
        u64,
        LibusbError,
    >)
        requires
            result is Ok ==> result->Ok_0.packets@.len() <= u32::MAX,
        ensures
            match result {
                Ok(transfer) => bytes is Ok && bytes->Ok_0 == captured(transfer.packets@),
                Err(error) => if error == LibusbError::Timeout {
                    bytes == Ok::<u64, LibusbError>(0)
                } else {
                    bytes == Err::<u64, LibusbError>(error)
                },
            },
    {
        match result {
            Ok(transfer) => Ok(sum_packets(transfer.packets.as_slice())),
            Err(LibusbError::Timeout) => Ok(0),
            Err(error) => Err(error),
        }
    }
}

/// What came in: of each packet's share of the buffer as many bytes as its length says.
pub open spec fn payload_of(buffer: Seq<u8>, lengths: Seq<u32>, packet_size: nat) -> Seq<u8>
    decreases lengths.len(),
{
    if lengths.len() == 0 {
        Seq::empty()
    } else {
        let at = (lengths.len() - 1) * packet_size;
        payload_of(buffer, lengths.drop_last(), packet_size) + buffer.subrange(
            at,
            at + lengths.last(),
        )
    }
}

/// Every packet has its share of the buffer, and no packet is longer than that.
pub open spec fn packets_fit(buffer: Seq<u8>, lengths: Seq<u32>, packet_size: nat) -> bool {
    &&& lengths.len() * packet_size <= buffer.len()
    &&& forall|i: int| 0 <= i < lengths.len() ==> #[trigger] lengths[i] <= packet_size
}

/// Packets fit exactly where the buffer has a share of this size for each of them and each is no
/// longer than its share. The bytes of every packet then lie in the buffer, apart from those of any
/// other.
pub proof fn law_packets_stay_in_their_shares(
    buffer: Seq<u8>,
    lengths: Seq<u32>,
    packet_size: nat,
    i: int,
)
    ensures
        packets_fit(buffer, lengths, packet_size) <==> lengths.len() * packet_size <= buffer.len()
            && forall|j: int| 0 <= j < lengths.len() ==> #[trigger] lengths[j] <= packet_size,
        packets_fit(buffer, lengths, packet_size) && 0 <= i < lengths.len() ==> 0 <= i * packet_size
            && i * packet_size + lengths[i] <= (i + 1) * packet_size <= buffer.len(),
{
    if packets_fit(buffer, lengths, packet_size) && 0 <= i < lengths.len() {
        let len = lengths[i] as int;
        assert(0 <= i * packet_size && i * packet_size + len <= (i + 1) * packet_size && (i + 1)
            * packet_size <= lengths.len() * packet_size) by (nonlinear_arith)
            requires
                0 <= i < lengths.len(),
                0 <= len <= packet_size,
        ;
    }
}

/// Whether every packet lies in its share of the buffer.
pub fn check_packets(buffer: &[u8], lengths: &[u32], packet_size: u32) -> (fit: bool)
    ensures
        fit == packets_fit(buffer@, lengths@, packet_size as nat),
{
    let count = lengths.len();
    assert(count * packet_size <= 0xffff_ffff_ffff_ffff * 0xffff_ffff) by (nonlinear_arith)
        requires
            count <= 0xffff_ffff_ffff_ffff,
            packet_size <= 0xffff_ffff,
    ;
    if count as u128 * packet_size as u128 > buffer.len() as u128 {
        return false;
    }
    let mut i: usize = 0;
    while i < lengths.len()
        invariant
            i <= lengths@.len(),
            lengths@.len() * packet_size <= buffer@.len(),
            forall|j: int| 0 <= j < i ==> #[trigger] lengths@[j] <= packet_size,
        decreases lengths@.len() - i,
    {
        if lengths[i] > packet_size {
            return false;
        }
        i += 1;
    }
    true
}

/// Puts together what came in.
pub fn payload(buffer: &[u8], lengths: &[u32], packet_size: u32) -> (bytes: Vec<u8>)
    requires
        packets_fit(buffer@, lengths@, packet_size as nat),
    ensures
        bytes@ == payload_of(buffer@, lengths@, packet_size as nat),
{
    let total = buffer.len();
    let mut bytes: Vec<u8> = Vec::new();
    let mut i: usize = 0;
    let mut at: usize = 0;
    while i < lengths.len()
        invariant
            packets_fit(buffer@, lengths@, packet_size as nat),
            total == buffer@.len(),
            i <= lengths@.len(),
            at == i * packet_size,
            bytes@ == payload_of(buffer@, lengths@.take(i as int), packet_size as nat),
        decreases lengths@.len() - i,
    {
        let len = lengths[i];
        assert((i + 1) * packet_size == i * packet_size + packet_size) by (nonlinear_arith);
        assert((i + 1) * packet_size <= lengths@.len() * (packet_size as nat)) by (nonlinear_arith)
            requires
                i + 1 <= lengths@.len(),
        ;
        assert(len <= packet_size && at + packet_size <= total);
        bytes.extend_from_slice(vstd::slice::slice_subrange(buffer, at, at + len as usize));
        at = at + packet_size as usize;
        i += 1;
        assert(lengths@.take(i as int).drop_last() =~= lengths@.take(i - 1));
    }
    assert(lengths@.take(i as int) =~= lengths@);
    bytes
}

/// What is captured of two runs of packets is captured of each; one packet counts for its length.
pub proof fn law_captures_add_up(a: Seq<IsoPacket>, b: Seq<IsoPacket>, packet: IsoPacket)
    ensures
        captured(a + b) == captured(a) + captured(b),
        captured(seq![packet]) == packet.actual_length,
        captured(Seq::<IsoPacket>::empty()) == 0,
    decreases b.len(),
{
    reveal_with_fuel(captured, 2);
    assert(seq![packet].drop_last() =~= Seq::<IsoPacket>::empty());
    if b.len() == 0 {
        assert(a + b =~= a);
    } else {
        assert((a + b).drop_last() =~= a + b.drop_last());
        law_captures_add_up(a, b.drop_last(), packet);
    }
}

/// Each packet's bytes are in the payload, behind those of the packets before it: the first bytes of
/// the packet's share of the buffer, as many as came in.
pub proof fn law_payload_keeps_packets_in_order(
    buffer: Seq<u8>,
    lengths: Seq<u32>,
    packet_size: nat,
    i: int,
)
    requires
        packets_fit(buffer, lengths, packet_size),
        0 <= i < lengths.len(),
    ensures
        ({
            let whole = payload_of(buffer, lengths, packet_size);
            let start = payload_of(buffer, lengths.take(i), packet_size).len();
            &&& start + lengths[i] <= whole.len()
            &&& i == 0 ==> start == 0
            &&& i == lengths.len() - 1 ==> whole.len() == start + lengths[i]
            &&& forall|j: int|
                0 <= j < lengths[i] ==> #[trigger] whole[start + j] == buffer[i * packet_size + j]
        }),
    decreases lengths.len(),
{
    let front = lengths.drop_last();
    let n = front.len() as int;
    assert(lengths.len() * packet_size == n * packet_size + packet_size) by (nonlinear_arith)
        requires
            lengths.len() == n + 1,
    ;
    assert(0 <= n * packet_size) by (nonlinear_arith)
        requires
            0 <= n,
    ;
    assert(lengths[n] <= packet_size);
    let whole = payload_of(buffer, lengths, packet_size);
    let first = payload_of(buffer, front, packet_size);
    let tail = buffer.subrange(n * packet_size, n * packet_size + lengths.last());
    assert(whole == first + tail);
    if i == n {
        assert(lengths.take(i) =~= front);
        assert forall|j: int| 0 <= j < lengths[i] implies #[trigger] whole[first.len() + j]
            == buffer[i * packet_size + j] by {
            assert(tail[j] == buffer[n * packet_size + j]);
        }
    } else {
        assert(front.take(i) =~= lengths.take(i));
        assert forall|k: int| 0 <= k < front.len() implies #[trigger] front[k] <= packet_size by {
            assert(lengths[k] <= packet_size);
        }
        law_payload_keeps_packets_in_order(buffer, front, packet_size, i);
        let start = payload_of(buffer, lengths.take(i), packet_size).len();
        assert forall|j: int| 0 <= j < lengths[i] implies #[trigger] whole[start + j] == buffer[i
            * packet_size + j] by {
            assert(whole[start + j] == first[start + j]);
        }
    }
    if i == 0 {
        assert(lengths.take(0).len() == 0);
    }
}

/// The payload of a capture is as long as its packets say.
pub proof fn law_payload_is_what_was_captured(
    buffer: Seq<u8>,
    packets: Seq<IsoPacket>,
    packet_size: nat,
)
    requires
        packets_fit(buffer, packets.map_values(|p: IsoPacket| p.actual_length), packet_size),
    ensures
        payload_of(
            buffer,
            packets.map_values(|p: IsoPacket| p.actual_length),
            packet_size,
        ).len() == captured(packets),
    decreases packets.len(),
{
    let lengths = packets.map_values(|p: IsoPacket| p.actual_length);
    if packets.len() > 0 {
        let front = packets.drop_last();
        let front_lengths = front.map_values(|p: IsoPacket| p.actual_length);
        assert(lengths.drop_last() =~= front_lengths);
        let at = (lengths.len() - 1) * packet_size;
        assert(0 <= at && at + packet_size == lengths.len() * packet_size) by (nonlinear_arith)
            requires
                at == (lengths.len() - 1) * packet_size,
                lengths.len() > 0,
        ;
        assert(lengths[lengths.len() - 1] <= packet_size);
        assert forall|i: int| 0 <= i < front_lengths.len() implies #[trigger] front_lengths[i]
            <= packet_size by {
            assert(lengths[i] <= packet_size);
        }
        law_payload_is_what_was_captured(buffer, front, packet_size);
    }
}

impl CapturePlan {
    /// How the capture travels through the component interface.
    pub fn request(&self) -> (request: (TransferSetup, TransferOptions))
        ensures
            request.0 == (TransferSetup {
                bm_request_type: 0,
                b_request: 0,
                w_value: 0,
                w_index: 0,
            }),
            request.1 == (TransferOptions {
                endpoint: self.endpoint,
                timeout_ms: self.timeout_ms,
                stream_id: 0,
                iso_packets: self.num_packets,
            }),
    {
        (
            TransferSetup { bm_request_type: 0, b_request: 0, w_value: 0, w_index: 0 },
            TransferOptions {
                endpoint: self.endpoint,
                timeout_ms: self.timeout_ms,
                stream_id: 0,
                iso_packets: self.num_packets,
            },
        )
    }
}

// ---------------------------------------------------------------------------
// The run
// ---------------------------------------------------------------------------

/// A run of the benchmark.
#[derive(Debug)]
pub struct IsoRun {
    pub config: IsoConfig,
    /// Iterations done.
    pub iteration: u32,
    /// Bytes captured.
    pub total_bytes: u64,
}

impl IsoRun {
    /// No more iterations were done than asked for.
    pub open spec fn wf(&self) -> bool {
        self.iteration <= self.config.iterations
    }

    /// A run that has not done anything yet.
    pub fn new(config: IsoConfig) -> (run: Self)
        ensures
            run.wf(),
            run == (IsoRun { config, iteration: 0, total_bytes: 0 }),
    {
        IsoRun { config, iteration: 0, total_bytes: 0 }
    }

    /// Whether an iteration is left to do.
    pub fn has_next(&self) -> (yes: bool)
        ensures
            yes == (self.iteration < self.config.iterations),
    {
        self.iteration < self.config.iterations
    }

    /// Logs a finished iteration: its row, with the checksum of what came in, and whether progress is
    /// to be shown (every twentieth iteration and the last).
    pub fn record(
        &mut self,
        bytes: u64,
        payload: &[u8],
        duration_ns: u64,
        before: &Rusage,
        after: &Rusage,
        guest_mem: Option<u64>,
    ) -> (logged: (Row, bool))
        requires
            old(self).iteration < old(self).config.iterations,
            old(self).total_bytes + bytes <= u64::MAX,
        ensures
            final(self).wf(),
            *final(self) == (IsoRun {
                iteration: (old(self).iteration + 1) as u32,
                total_bytes: (old(self).total_bytes + bytes) as u64,
                ..*old(self)
            }),
            logged.0.measures(
                old(self).config.condition@,
                "iso"@,
                old(self).iteration,
                bytes,
                duration_ns,
                *before,
                *after,
                guest_mem,
                Some(checksum::hex_digits(checksum::sha256_digest(payload@))),
            ),
            logged.0.notes is None,
            logged.1 == (old(self).iteration % 20 == 0 || old(self).iteration == old(
                self,
            ).config.iterations - 1),
    {
        let iteration = self.iteration;
        let row = Row::measured(
            self.config.condition.as_str(),
            "iso",
            iteration,
            bytes,
            duration_ns,
            before,
            after,
            guest_mem,
            Some(checksum_hex(payload)),
        );
        self.total_bytes = self.total_bytes + bytes;
        self.iteration = iteration + 1;
        let shown = iteration % 20 == 0 || iteration == self.config.iterations - 1;
        (row, shown)
    }
}

/// A capture asks the streaming endpoint for all packets at full length, within five seconds, and
/// through the component interface for the same: the same endpoint, number of packets and time.
pub proof fn law_capture_asks_for_all_packets(
    device: IsoDevice,
    plan: CapturePlan,
    request: (TransferSetup, TransferOptions),
)
    requires
        device.packet_size * device.num_packets <= u32::MAX,
        call_ensures(IsoDevice::capture, (&device,), plan),
        call_ensures(CapturePlan::request, (&plan,), request),
    ensures
        plan.endpoint == device.ep_in,
        plan.length == device.packet_size * device.num_packets,
        plan.num_packets == device.num_packets,
        plan.packet_size == device.packet_size,
        plan.timeout_ms == 5_000,
        request.1.endpoint == device.ep_in,
        request.1.iso_packets == device.num_packets,
        request.1.timeout_ms == 5_000,
        request.1.stream_id == 0,
{
    let (size, count) = (device.packet_size, device.num_packets);
    assert(0 <= size * count) by (nonlinear_arith);
}

/// A capture that timed out is no failure, however the device is reached: through libusb what came in
/// until then counts, through the component interface nothing does. Any other failure is handed on.
pub proof fn law_captures_may_time_out(
    status: i32,
    actual_length: i32,
    natively: Result<u64, i32>,
    result: Result<TransferResult, LibusbError>,
    through_component: Result<u64, LibusbError>,
)
    requires
        actual_length >= 0,
        call_ensures(IsoDevice::captured_natively, (status, actual_length), natively),
        call_ensures(IsoDevice::captured_through_component, (result,), through_component),
    ensures
        status == 0 || status == 2 ==> natively is Ok && natively->Ok_0 == actual_length,
        status != 0 && status != 2 ==> natively == Err::<u64, i32>(status),
        result matches Ok(transfer) ==> through_component is Ok && through_component->Ok_0
            == captured(transfer.packets@),
        result matches Err(error) ==> (error == LibusbError::Timeout ==> through_component == Ok::<
            u64,
            LibusbError,
        >(0)) && (error != LibusbError::Timeout ==> through_component == Err::<u64, LibusbError>(
            error,
        )),
{
}

/// Opening starts with the first call of the way to the device, libusb's own start or the device list,
/// and aims at the device, interface and setting that are asked for.
pub proof fn law_opening_starts_at_the_start(
    vid: u16,
    pid: u16,
    iface: u8,
    alt: u8,
    ep_in: u8,
    packet_size: u32,
    num_packets: u32,
    through_component: bool,
    opening: IsoOpen,
)
    requires
        call_ensures(
            IsoDevice::open,
            (vid, pid, iface, alt, ep_in, packet_size, num_packets, through_component),
            opening,
        ),
    ensures
        !opening.over,
        opening.through_component == through_component,
        through_component ==> opening.call == IsoCall::ListDevices,
        !through_component ==> opening.call == IsoCall::Init,
        opening.vid == vid,
        opening.pid == pid,
        opening.alt == alt,
        opening.device.iface == iface,
        opening.device.ep_in == ep_in,
        opening.device.packet_size == packet_size,
        opening.device.num_packets == num_packets,
{
}

/// A logged iteration counts once, with its bytes; progress shows for every twentieth and for the
/// last.
pub proof fn law_logged_iterations_count(
    run: &mut IsoRun,
    bytes: u64,
    payload: &[u8],
    duration_ns: u64,
    before: Rusage,
    after: Rusage,
    guest_mem: Option<u64>,
    logged: (Row, bool),
)
    requires
        old(run).iteration < old(run).config.iterations,
        old(run).total_bytes + bytes <= u64::MAX,
        call_ensures(
            IsoRun::record,
            (run, bytes, payload, duration_ns, &before, &after, guest_mem),
            logged,
        ),
    ensures
        final(run).iteration == old(run).iteration + 1,
        final(run).total_bytes == old(run).total_bytes + bytes,
        logged.0.iteration == old(run).iteration,
        logged.0.bytes == bytes,
        logged.0.duration_ns == duration_ns,
        logged.0.condition@ == old(run).config.condition@,
        logged.0.workload@ == "iso"@,
        logged.0.rss_peak_kb == after.rss_peak_kb,
        logged.0.guest_mem_bytes == guest_mem,
        logged.1 <==> old(run).iteration % 20 == 0 || old(run).iteration + 1 == old(
            run,
        ).config.iterations,
{
}

} // verus!
