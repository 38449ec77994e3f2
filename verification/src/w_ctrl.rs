//! The control benchmark: one GET_DESCRIPTOR request per iteration.

use vstd::prelude::*;

use crate::args;
use crate::args::{Runtime, VidPidError};
use crate::csv::{Row, Rusage};
#[allow(unused_imports)]
use crate::text;
use crate::types::{TransferOptions, TransferSetup};

verus! {

/// The length of a device descriptor.
pub const DESCRIPTOR_LEN: u32 = 18;

/// How long a request may take, in milliseconds.
pub const REQUEST_TIMEOUT_MS: u32 = 500;

/// What the command line asks for.
#[derive(Debug)]
pub struct CtrlConfig {
    pub output: String,
    pub vid: u16,
    pub pid: u16,
    pub iterations: u32,
    pub condition: String,
}

impl CtrlConfig {
    /// The arguments that count by their places.
    pub open spec fn places(args: Seq<Seq<char>>) -> Seq<Seq<char>> {
        args::placed(args, seq!["--condition"@], Seq::empty())
    }

    /// What names the device: the second argument by place.
    pub open spec fn device_text(args: Seq<Seq<char>>) -> Seq<char> {
        args::positional(Self::places(args), 2, "2341:8057"@)
    }

    /// The device that the arguments name.
    pub open spec fn device_of(args: Seq<Seq<char>>) -> Result<(u16, u16), VidPidError> {
        args::vid_pid_of(Self::device_text(args))
    }

    /// This is what the arguments ask for.
    pub open spec fn is_asked_for(&self, args: Seq<Seq<char>>, runtime: Runtime) -> bool {
        &&& self.output@ == args::positional(Self::places(args), 1, "bench_w_ctrl.csv"@)
        &&& Self::device_of(args) == Ok::<(u16, u16), VidPidError>((self.vid, self.pid))
        &&& self.iterations == args::number_or(
            args::at(Self::places(args), 3),
            0xffff_ffff,
            1000,
        )
        &&& self.condition@ == args::condition_of(args, runtime)
    }

    fn placed_args(args: &[String]) -> (places: Vec<String>)
        ensures
            args::texts(places@) == Self::places(args::texts(args@)),
    {
        let options: [&str; 1] = ["--condition"];
        let flags: [&str; 0] = [];
        assert(args::words(options@) =~= seq!["--condition"@]);
        assert(args::words(flags@) =~= Seq::<Seq<char>>::empty());
        args::placed_args(args, &options, &flags)
    }

    /// What names the device on this command line.
    pub fn device_arg(args: &[String]) -> (device: String)
        ensures
            device@ == Self::device_text(args::texts(args@)),
    {
        args::positional_arg(Self::placed_args(args).as_slice(), 2, "2341:8057")
    }

    /// Reads the command line: output file, device and iterations by their places, the condition by
    /// its name, wherever that stands.
    pub fn from_args(args: &[String], runtime: Runtime) -> (result: Result<Self, VidPidError>)
        ensures
            match result {
                Ok(config) => config.is_asked_for(args::texts(args@), runtime),
                Err(error) => Self::device_of(args::texts(args@)) == Err::<
                    (u16, u16),
                    VidPidError,
                >(error),
            },
    {
        let places = Self::placed_args(args);
        let output = args::positional_arg(places.as_slice(), 1, "bench_w_ctrl.csv");
        let iterations = args::positional_number(places.as_slice(), 3, 0xffff_ffff, 1000) as u32;
        let condition = args::condition_arg(args, runtime);
        match args::parse_vid_pid(Self::device_arg(args).as_str()) {
            Err(error) => Err(error),
            Ok((vid, pid)) => Ok(CtrlConfig { output, vid, pid, iterations, condition }),
        }
    }
}

/// GET_DESCRIPTOR for the device descriptor: to the host, standard, about the device.
pub open spec fn descriptor_setup() -> TransferSetup {
    TransferSetup { bm_request_type: 0x80, b_request: 0x06, w_value: 0x0100, w_index: 0 }
}

/// The request is GET_DESCRIPTOR, request 6 to the device, standard and incoming, for descriptor 0 of
/// type 1, in no language.
pub proof fn law_descriptor_request()
    ensures
        descriptor_setup().bm_request_type == 0x80,
        descriptor_setup().b_request == 6,
        descriptor_setup().w_value / 256 == 1,
        descriptor_setup().w_value % 256 == 0,
        descriptor_setup().w_index == 0,
        REQUEST_TIMEOUT_MS == 500,
        DESCRIPTOR_LEN == 18,
{
}

/// A command line without options gives the output file, the device and the iterations in this
/// order. What it leaves out is bench_w_ctrl.csv, 2341:8057 and 1000, in order, under the name of
/// the runtime.
pub proof fn law_plain_command_line(
    config: CtrlConfig,
    args: Seq<Seq<char>>,
    runtime: Runtime,
    iterations: nat,
)
    requires
        config.is_asked_for(args, runtime),
        forall|j: int| 0 <= j < args.len() ==> #[trigger] args[j] != "--condition"@,
    ensures
        config.output@ == (if args.len() > 1 {
            args[1]
        } else {
            "bench_w_ctrl.csv"@
        }),
        args::vid_pid_of(
            if args.len() > 2 {
                args[2]
            } else {
                "2341:8057"@
            },
        ) == Ok::<(u16, u16), VidPidError>((config.vid, config.pid)),
        args.len() <= 3 ==> config.iterations == 1000,
        args.len() > 3 && args[3] == text::decimal(iterations) && iterations <= u32::MAX
            ==> config.iterations == iterations,
        config.condition@ == args::condition_name(runtime),
{
    let options = seq!["--condition"@];
    let flags = Seq::<Seq<char>>::empty();
    assert forall|j: int| 0 <= j < args.len() implies !options.contains(#[trigger] args[j])
        && !flags.contains(args[j]) by {}
    args::law_plain_arguments_keep_their_places(args, options, flags);
    args::law_written_number_is_taken(iterations, 0xffff_ffff, 1000);
    let end = if args.len() > 0 {
        args.len() - 1
    } else {
        0
    };
    args::law_value_stands_behind_its_name(args, "--condition"@, end);
}

/// The request and how it travels: over endpoint 0, with half a second to finish.
pub fn descriptor_request() -> (request: (TransferSetup, TransferOptions))
    ensures
        request.0 == descriptor_setup(),
        request.1 == (TransferOptions {
            endpoint: 0,
            timeout_ms: REQUEST_TIMEOUT_MS,
            stream_id: 0,
            iso_packets: 0,
        }),
{
    (
        TransferSetup { bm_request_type: 0x80, b_request: 0x06, w_value: 0x0100, w_index: 0 },
        TransferOptions {
            endpoint: 0,
            timeout_ms: REQUEST_TIMEOUT_MS,
            stream_id: 0,
            iso_packets: 0,
        },
    )
}

/// The part of the buffer that the device filled.
pub fn descriptor_bytes(buffer: &[u8; 18], filled: usize) -> (bytes: Vec<u8>)
    requires
        filled <= 18,
    ensures
        bytes@ == buffer@.take(filled as int),
{
    let mut bytes: Vec<u8> = Vec::new();
    let mut i: usize = 0;
    while i < filled
        invariant
            i <= filled <= 18,
            bytes@ == buffer@.take(i as int),
        decreases filled - i,
    {
        bytes.push(buffer[i]);
        i += 1;
        assert(bytes@ =~= buffer@.take(i as int));
    }
    bytes
}

/// A run of the benchmark.
#[derive(Debug)]
pub struct CtrlRun {
    pub config: CtrlConfig,
    /// Iterations done.
    pub iteration: u32,
}

impl CtrlRun {
    /// No more iterations were done than asked for.
    pub open spec fn wf(&self) -> bool {
        self.iteration <= self.config.iterations
    }

    /// A run that has not done anything yet.
    pub fn new(config: CtrlConfig) -> (run: Self)
        ensures
            run.wf(),
            run == (CtrlRun { config, iteration: 0 }),
    {
        CtrlRun { config, iteration: 0 }
    }

    /// Whether an iteration is left to do.
    pub fn has_next(&self) -> (yes: bool)
        ensures
            yes == (self.iteration < self.config.iterations),
    {
        self.iteration < self.config.iterations
    }

    /// Logs a finished iteration: its row, and whether progress is to be shown (every hundredth
    /// iteration and the last).
    pub fn record(
        &mut self,
        bytes: u64,
        duration_ns: u64,
        before: &Rusage,
        after: &Rusage,
        guest_mem: Option<u64>,
    ) -> (logged: (Row, bool))
        requires
            old(self).iteration < old(self).config.iterations,
        ensures
            final(self).wf(),
            *final(self) == (CtrlRun {
                iteration: (old(self).iteration + 1) as u32,
                ..*old(self)
            }),
            logged.0.measures(
                old(self).config.condition@,
                "ctrl"@,
                old(self).iteration,
                bytes,
                duration_ns,
                *before,
                *after,
                guest_mem,
                None,
            ),
            logged.0.notes is None,
            logged.1 == (old(self).iteration % 100 == 0 || old(self).iteration == old(
                self,
            ).config.iterations - 1),
    {
        let iteration = self.iteration;
        let row = Row::measured(
            self.config.condition.as_str(),
            "ctrl",
            iteration,
            bytes,
            duration_ns,
            before,
            after,
            guest_mem,
            None,
        );
        self.iteration = iteration + 1;
        let shown = iteration % 100 == 0 || iteration == self.config.iterations - 1;
        (row, shown)
    }
}

/// The request goes over endpoint 0 and has half a second.
pub proof fn law_request_goes_over_endpoint_zero(request: (TransferSetup, TransferOptions))
    requires
        call_ensures(descriptor_request, (), request),
    ensures
        request.0.bm_request_type == 0x80,
        request.0.b_request == 6,
        request.0.w_value == 0x0100,
        request.0.w_index == 0,
        request.1.endpoint == 0,
        request.1.timeout_ms == 500,
        request.1.stream_id == 0,
        request.1.iso_packets == 0,
{
}

/// A logged iteration counts once; progress shows for every hundredth and for the last.
pub proof fn law_logged_iterations_count(
    run: &mut CtrlRun,
    bytes: u64,
    duration_ns: u64,
    before: Rusage,
    after: Rusage,
    guest_mem: Option<u64>,
    logged: (Row, bool),
)
    requires
        old(run).iteration < old(run).config.iterations,
        call_ensures(
            CtrlRun::record,
            (run, bytes, duration_ns, &before, &after, guest_mem),
            logged,
        ),
    ensures
        final(run).iteration == old(run).iteration + 1,
        logged.0.iteration == old(run).iteration,
        logged.0.bytes == bytes,
        logged.0.duration_ns == duration_ns,
        logged.0.condition@ == old(run).config.condition@,
        logged.0.workload@ == "ctrl"@,
        logged.0.rss_peak_kb == after.rss_peak_kb,
        logged.0.guest_mem_bytes == guest_mem,
        logged.0.checksum_hex is None,
        logged.1 <==> old(run).iteration % 100 == 0 || old(run).iteration + 1 == old(
            run,
        ).config.iterations,
{
}

} // verus!
