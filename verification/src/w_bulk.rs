//! The bulk benchmark: SCSI reads and writes on a mass-storage device.

use vstd::prelude::*;

use crate::args;
use crate::args::{Runtime, VidPidError};
#[allow(unused_imports)]
use crate::bulk_only::{BulkTransport, Exchange};
#[allow(unused_imports)]
use crate::checksum;
use crate::checksum::checksum_hex;
use crate::csv::{Row, Rusage};
#[allow(unused_imports)]
use crate::mass_storage;
use crate::mass_storage::{ScsiDevice, ScsiError};
use crate::text;

verus! {

// ---------------------------------------------------------------------------
// Configuration
// ---------------------------------------------------------------------------

/// What each iteration does.
#[derive(Debug, Clone, Copy, PartialEq, Eq, Structural)]
pub enum BulkMode {
    Read,
    Write,
    ReadWrite,
}

impl BulkMode {
    /// The name of a mode on the command line.
    pub open spec fn name(self) -> Seq<char> {
        match self {
            BulkMode::Read => "read"@,
            BulkMode::Write => "write"@,
            BulkMode::ReadWrite => "rw"@,
        }
    }

    /// The mode that a name stands for; unknown names stand for reading.
    pub open spec fn of_name(name: Option<Seq<char>>) -> BulkMode {
        if name == Some("write"@) {
            BulkMode::Write
        } else if name == Some("rw"@) {
            BulkMode::ReadWrite
        } else {
            BulkMode::Read
        }
    }

    /// The name of this mode.
    pub fn as_str(self) -> (name: &'static str)
        ensures
            name@ == self.name(),
    {
        match self {
            BulkMode::Read => "read",
            BulkMode::Write => "write",
            BulkMode::ReadWrite => "rw",
        }
    }

    fn from_name(name: Option<String>) -> (mode: Self)
        ensures
            mode == Self::of_name(
                match name {
                    Some(s) => Some(s@),
                    None => None,
                },
            ),
    {
        match name {
            Some(s) => {
                if text::same_text(s.as_str(), "write") {
                    BulkMode::Write
                } else if text::same_text(s.as_str(), "rw") {
                    BulkMode::ReadWrite
                } else {
                    BulkMode::Read
                }
            },
            None => BulkMode::Read,
        }
    }
}

/// Each mode is found again under its name.
pub proof fn law_mode_names(mode: BulkMode)
    ensures
        BulkMode::of_name(Some(mode.name())) == mode,
{
    reveal_strlit("read");
    reveal_strlit("write");
    reveal_strlit("rw");
    assert("read"@.len() == 4 && "write"@.len() == 5 && "rw"@.len() == 2);
}

/// What the command line asks for.
#[derive(Debug)]
pub struct BulkConfig {
    pub output: String,
    pub vid: u16,
    pub pid: u16,
    pub iterations: u32,
    pub blocks_per_iter: u16,
    pub condition: String,
    pub mode: BulkMode,
    pub random: bool,
}

/// Why a command line is refused.
#[derive(Debug, Clone, Copy, PartialEq, Eq, Structural)]
pub enum BulkConfigError {
    VidPid(VidPidError),
    /// An iteration has to move something.
    NoBlocks,
}

impl BulkConfig {
    /// The arguments that count by their places.
    pub open spec fn places(args: Seq<Seq<char>>) -> Seq<Seq<char>> {
        args::placed(args, seq!["--condition"@, "--mode"@], seq!["--random"@])
    }

    /// What names the device: the second argument by place.
    pub open spec fn device_text(args: Seq<Seq<char>>) -> Seq<char> {
        args::positional(Self::places(args), 2, "0951:1666"@)
    }

    /// The device that the arguments name.
    pub open spec fn device_of(args: Seq<Seq<char>>) -> Result<(u16, u16), VidPidError> {
        args::vid_pid_of(Self::device_text(args))
    }

    /// The blocks per iteration that the fourth argument by place names.
    pub open spec fn blocks_of(args: Seq<Seq<char>>) -> nat {
        args::number_or(args::at(Self::places(args), 4), 0xffff, 128)
    }

    /// This is what the arguments ask for.
    pub open spec fn is_asked_for(&self, args: Seq<Seq<char>>, runtime: Runtime) -> bool {
        &&& self.output@ == args::positional(Self::places(args), 1, "bench_w_bulk.csv"@)
        &&& Self::device_of(args) == Ok::<(u16, u16), VidPidError>((self.vid, self.pid))
        &&& self.iterations == args::number_or(
            args::at(Self::places(args), 3),
            0xffff_ffff,
            100,
        )
        &&& self.blocks_per_iter == Self::blocks_of(args)
        &&& self.condition@ == args::condition_of(args, runtime)
        &&& self.mode == BulkMode::of_name(args::named(args, "--mode"@))
        &&& self.random == args.contains("--random"@)
    }

    fn placed_args(args: &[String]) -> (places: Vec<String>)
        ensures
            args::texts(places@) == Self::places(args::texts(args@)),
    {
        let options: [&str; 2] = ["--condition", "--mode"];
        let flags: [&str; 1] = ["--random"];
        assert(args::words(options@) =~= seq!["--condition"@, "--mode"@]);
        assert(args::words(flags@) =~= seq!["--random"@]);
        args::placed_args(args, &options, &flags)
    }

    /// What names the device on this command line.
    pub fn device_arg(args: &[String]) -> (device: String)
        ensures
            device@ == Self::device_text(args::texts(args@)),
    {
        args::positional_arg(Self::placed_args(args).as_slice(), 2, "0951:1666")
    }

    /// Reads the command line: output file, device, iterations and blocks per iteration by their
    /// places, the rest by name, wherever that stands.
    pub fn from_args(args: &[String], runtime: Runtime) -> (result: Result<Self, BulkConfigError>)
        ensures
            match result {
                Ok(config) => {
                    &&& config.is_asked_for(args::texts(args@), runtime)
                    &&& config.blocks_per_iter > 0
                },
                Err(BulkConfigError::VidPid(error)) => Self::device_of(args::texts(args@)) == Err::<
                    (u16, u16),
                    VidPidError,
                >(error),
                Err(BulkConfigError::NoBlocks) => {
                    &&& Self::device_of(args::texts(args@)) is Ok
                    &&& Self::blocks_of(args::texts(args@)) == 0
                },
            },
    {
        let places = Self::placed_args(args);
        let output = args::positional_arg(places.as_slice(), 1, "bench_w_bulk.csv");
        let iterations = args::positional_number(places.as_slice(), 3, 0xffff_ffff, 100) as u32;
        let blocks_per_iter = args::positional_number(places.as_slice(), 4, 0xffff, 128) as u16;
        let condition = args::condition_arg(args, runtime);
        let mode = BulkMode::from_name(args::named_arg(args, "--mode"));
        let random = args::has_flag(args, "--random");
        match args::parse_vid_pid(Self::device_arg(args).as_str()) {
            Err(error) => Err(BulkConfigError::VidPid(error)),
            Ok((vid, pid)) => {
                if blocks_per_iter == 0 {
                    return Err(BulkConfigError::NoBlocks);
                }
                Ok(
                    BulkConfig {
                        output,
                        vid,
                        pid,
                        iterations,
                        blocks_per_iter,
                        condition,
                        mode,
                        random,
                    },
                )
            },
        }
    }
}

/// A command line without options and flags gives the output file, the device, the iterations and
/// the blocks per iteration in this order. What it leaves out is bench_w_bulk.csv, 0951:1666, 100
/// and 128, in order, for reading, under the name of the runtime.
pub proof fn law_plain_command_line(
    config: BulkConfig,
    args: Seq<Seq<char>>,
    runtime: Runtime,
    iterations: nat,
    blocks: nat,
)
    requires
        config.is_asked_for(args, runtime),
        forall|j: int|
            0 <= j < args.len() ==> #[trigger] args[j] != "--condition"@ && args[j] != "--mode"@
                && args[j] != "--random"@,
    ensures
        config.output@ == (if args.len() > 1 {
            args[1]
        } else {
            "bench_w_bulk.csv"@
        }),
        args::vid_pid_of(
            if args.len() > 2 {
                args[2]
            } else {
                "0951:1666"@
            },
        ) == Ok::<(u16, u16), VidPidError>((config.vid, config.pid)),
        args.len() <= 3 ==> config.iterations == 100,
        args.len() > 3 && args[3] == text::decimal(iterations) && iterations <= u32::MAX
            ==> config.iterations == iterations,
        args.len() <= 4 ==> config.blocks_per_iter == 128,
        args.len() > 4 && args[4] == text::decimal(blocks) && blocks <= u16::MAX
            ==> config.blocks_per_iter == blocks,
        config.condition@ == args::condition_name(runtime),
        config.mode == BulkMode::Read,
        !config.random,
{
    let options = seq!["--condition"@, "--mode"@];
    let flags = seq!["--random"@];
    assert forall|j: int| 0 <= j < args.len() implies !options.contains(#[trigger] args[j])
        && !flags.contains(args[j]) by {}
    args::law_plain_arguments_keep_their_places(args, options, flags);
    args::law_written_number_is_taken(iterations, 0xffff_ffff, 100);
    args::law_written_number_is_taken(blocks, 0xffff, 128);
    let end = if args.len() > 0 {
        args.len() - 1
    } else {
        0
    };
    args::law_value_stands_behind_its_name(args, "--condition"@, end);
    args::law_value_stands_behind_its_name(args, "--mode"@, end);
}

/// The mode is what stands behind `--mode`: `write` writes, `rw` reads and writes back, and anything
/// else reads. The places are random exactly where `--random` is among the arguments.
pub proof fn law_options_set_the_run(config: BulkConfig, args: Seq<Seq<char>>, runtime: Runtime)
    requires
        config.is_asked_for(args, runtime),
    ensures
        config.mode == BulkMode::Write <==> args::named(args, "--mode"@) == Some("write"@),
        config.mode == BulkMode::ReadWrite <==> args::named(args, "--mode"@) == Some("rw"@),
        config.random <==> exists|i: int|
            0 <= i < args.len() && #[trigger] args[i] == "--random"@,
        args::named(args, "--condition"@) matches Some(name) ==> config.condition@ == name,
{
    reveal_strlit("write");
    reveal_strlit("rw");
    assert("write"@.len() == 5 && "rw"@.len() == 2);
}

// ---------------------------------------------------------------------------
// Where to read and write
// ---------------------------------------------------------------------------

/// The multiplier of the linear congruential generator.
pub const LCG_FACTOR: u64 = 6_364_136_223_846_793_005;

/// The increment of the linear congruential generator.
pub const LCG_STEP: u64 = 1_442_695_040_888_963_407;

/// The state that follows a state of the generator.
pub open spec fn lcg_after(state: u64) -> u64 {
    ((state * LCG_FACTOR + LCG_STEP) % 0x1_0000_0000_0000_0000) as u64
}

/// The number that a state stands for: its upper 31 bits.
pub open spec fn lcg_output(state: u64) -> u32 {
    (state / 0x2_0000_0000) as u32
}

/// Steps the generator and gives its next number.
pub fn lcg_next(state: &mut u64) -> (n: u32)
    ensures
        *final(state) == lcg_after(*old(state)),
        n == lcg_output(*final(state)),
        n < 0x8000_0000,
{
    let s: u64 = *state;
    assert(s * LCG_FACTOR + LCG_STEP <= u128::MAX) by (nonlinear_arith)
        requires
            s <= 0xffff_ffff_ffff_ffff,
            LCG_FACTOR <= 0xffff_ffff_ffff_ffff,
            LCG_STEP <= 0xffff_ffff_ffff_ffff,
    ;
    let next = ((s as u128 * LCG_FACTOR as u128 + LCG_STEP as u128) % 0x1_0000_0000_0000_0000)
        as u64;
    *state = next;
    (next / 0x2_0000_0000) as u32
}

/// The generator multiplies by 6364136223846793005 and adds 1442695040888963407, and keeps the low 64
/// bits; its numbers are the upper 31 bits of its states.
pub proof fn law_generator(state: u64)
    ensures
        (state * 6_364_136_223_846_793_005 + 1_442_695_040_888_963_407 - lcg_after(state))
            % 0x1_0000_0000_0000_0000 == 0,
        lcg_output(state) * 0x2_0000_0000 <= state < lcg_output(state) * 0x2_0000_0000
            + 0x2_0000_0000,
{
}

/// The seed of a run: the second of the clock in which it starts; a guest always starts alike.
pub fn lcg_seed(runtime: Runtime, clock_secs: u64) -> (seed: u64)
    ensures
        seed == (if runtime == Runtime::Native {
            clock_secs
        } else {
            0xdead_beef
        }),
{
    if runtime == Runtime::Native {
        clock_secs
    } else {
        0xdead_beef
    }
}

/// How many places a random transfer can start at: the multiples of the transfer's length where it
/// fits.
pub open spec fn start_count(num_blocks: int, count: int) -> int {
    num_blocks / count
}

/// The place that the number `n` picks.
pub open spec fn random_start(n: u32, num_blocks: u32, count: u16) -> int {
    n as int % start_count(num_blocks as int, count as int) * count
}

fn pick_start(n: u32, num_blocks: u32, count: u16) -> (lba: u32)
    requires
        0 < count <= num_blocks,
    ensures
        lba == random_start(n, num_blocks, count),
        lba + count <= num_blocks,
{
    let slots: u32 = num_blocks / count as u32;
    proof {
        law_random_start(n, num_blocks, count);
        assert(slots > 0) by (nonlinear_arith)
            requires
                slots == num_blocks as int / count as int,
                0 < count <= num_blocks,
        ;
    }
    (n % slots) * count as u32
}

/// A random transfer starts at a multiple of its length and lies within the device.
pub proof fn law_random_start(n: u32, num_blocks: u32, count: u16)
    requires
        0 < count <= num_blocks,
    ensures
        0 <= random_start(n, num_blocks, count),
        random_start(n, num_blocks, count) % (count as int) == 0,
        random_start(n, num_blocks, count) + count <= num_blocks,
{
    let slots = start_count(num_blocks as int, count as int);
    let k = n as int % slots;
    let c = count as int;
    let total = num_blocks as int;
    assert(slots > 0 && slots * c <= total) by (nonlinear_arith)
        requires
            slots == total / c,
            0 < c <= total,
    ;
    assert(0 <= k < slots);
    assert(0 <= k * c && k * c + c <= slots * c) by (nonlinear_arith)
        requires
            0 <= k < slots,
            0 < c,
    ;
    vstd::arithmetic::div_mod::lemma_mod_multiples_basic(k, c);
}

/// Every multiple of the length at which a transfer fits is picked by some number.
pub proof fn law_every_start_is_possible(k: int, num_blocks: u32, count: u16)
    requires
        0 < count <= num_blocks,
        0 <= k < 0x8000_0000,
        k * count + count <= num_blocks,
    ensures
        random_start(k as u32, num_blocks, count) == k * count,
{
    let slots = start_count(num_blocks as int, count as int);
    let c = count as int;
    let total = num_blocks as int;
    assert(k < slots) by (nonlinear_arith)
        requires
            slots == total / c,
            0 < c,
            0 <= k,
            k * c + c <= total,
    ;
    assert(k % slots == k) by {
        vstd::arithmetic::div_mod::lemma_small_mod(k as nat, slots as nat);
    }
}

/// Numbers that differ by the number of places pick the same place.
pub proof fn law_starts_recur(n: u32, num_blocks: u32, count: u16)
    requires
        0 < count <= num_blocks,
        n + num_blocks / count as u32 <= u32::MAX,
    ensures
        random_start((n + num_blocks / count as u32) as u32, num_blocks, count) == random_start(
            n,
            num_blocks,
            count,
        ),
{
    let slots = start_count(num_blocks as int, count as int);
    assert(slots > 0) by (nonlinear_arith)
        requires
            slots == num_blocks as int / count as int,
            0 < count <= num_blocks,
    ;
    vstd::arithmetic::div_mod::lemma_mod_add_multiples_vanish(n as int, slots);
}

// ---------------------------------------------------------------------------
// The run
// ---------------------------------------------------------------------------

/// A run of the benchmark on an opened device.
pub struct BulkRun<T: BulkTransport> {
    pub scsi: ScsiDevice<T>,
    pub config: BulkConfig,
    /// What `write` mode writes.
    pub pattern: Vec<u8>,
    /// The state of the generator.
    pub lcg: u64,
    /// Iterations done.
    pub iteration: u32,
    /// Bytes moved.
    pub total_bytes: u64,
}

/// The note names the mode as the command line does, and the first block in base ten.
pub proof fn law_note_names_mode_and_block(mode: BulkMode, lba: u32)
    ensures
        note_of(mode, lba) == "mode="@ + (match mode {
            BulkMode::Read => "read"@,
            BulkMode::Write => "write"@,
            BulkMode::ReadWrite => "rw"@,
        }) + " lba="@ + text::decimal(lba as nat),
{
}

/// How an iteration is told apart in the log.
pub open spec fn note_of(mode: BulkMode, lba: u32) -> Seq<char> {
    "mode="@ + mode.name() + " lba="@ + text::decimal(lba as nat)
}

/// One iteration of this run can be carried out and counted: its length fits into the commands and
/// all iterations together into the total.
pub open spec fn run_fits(config: BulkConfig, block_size: u32) -> bool {
    let span = config.blocks_per_iter * block_size;
    &&& config.blocks_per_iter > 0
    &&& config.mode != BulkMode::Write ==> span <= u32::MAX
    &&& span <= usize::MAX
    &&& config.iterations * span <= u64::MAX
}

/// A run fits exactly where it moves something, its transfers fit into the memory and, where it
/// reads, into the 32 bits of a command's length, and the bytes of all its iterations can be counted
/// in 64 bits.
pub proof fn law_run_fits(config: BulkConfig, block_size: u32)
    ensures
        ({
            let span = config.blocks_per_iter * block_size;
            run_fits(config, block_size) <==> config.blocks_per_iter >= 1 && span <= usize::MAX && (
            config.mode == BulkMode::Write || span < 0x1_0000_0000) && config.iterations * span
                < 0x1_0000_0000_0000_0000
        }),
{
}

/// Whether a run with this configuration fits a device with this block size.
pub fn check_run(config: &BulkConfig, block_size: u32) -> (fits: bool)
    ensures
        fits == run_fits(*config, block_size),
{
    let count = config.blocks_per_iter;
    assert(count * block_size <= 0xffff * 0xffff_ffff) by (nonlinear_arith)
        requires
            count <= 0xffff,
            block_size <= 0xffff_ffff,
    ;
    let span: u64 = count as u64 * block_size as u64;
    let iterations = config.iterations;
    assert(iterations * span <= 0xffff_ffff * (0xffff * 0xffff_ffff)) by (nonlinear_arith)
        requires
            iterations <= 0xffff_ffff,
            span <= 0xffff * 0xffff_ffff,
    ;
    let all: u128 = iterations as u128 * span as u128;
    count > 0 && (config.mode == BulkMode::Write || span <= 0xffff_ffff) && span
        <= usize::MAX as u64 && all <= 0xffff_ffff_ffff_ffff
}

impl<T: BulkTransport> BulkRun<T> {
    /// How many bytes an iteration moves.
    pub open spec fn span(&self) -> int {
        self.config.blocks_per_iter * self.scsi.capacity.block_size
    }

    /// The run fits its device, the pattern is as long as a transfer, and each iteration moved a
    /// whole transfer.
    pub open spec fn wf(&self) -> bool {
        &&& run_fits(self.config, self.scsi.capacity.block_size)
        &&& self.pattern@ == Seq::new(self.span() as nat, |i: int| 0x5au8)
        &&& self.iteration <= self.config.iterations
        &&& self.total_bytes == self.iteration * self.span()
    }

    /// Only the generator differs from `other`.
    pub open spec fn same_but_lcg(&self, other: Self) -> bool {
        *self == (BulkRun { lcg: self.lcg, ..other })
    }

    /// The next transfer starts at a random place.
    pub open spec fn is_random(&self) -> bool {
        self.config.random && self.scsi.capacity.num_blocks > self.config.blocks_per_iter
    }

    /// A run that has not done anything yet.
    pub fn new(scsi: ScsiDevice<T>, config: BulkConfig, seed: u64) -> (run: Self)
        requires
            run_fits(config, scsi.capacity.block_size),
        ensures
            run.wf(),
            run.scsi == scsi,
            run.config == config,
            run.lcg == seed,
            run.iteration == 0,
            run.total_bytes == 0,
    {
        let span = config.blocks_per_iter as usize * scsi.capacity.block_size as usize;
        let pattern = vec![0x5au8; span];
        let run = BulkRun { scsi, config, pattern, lcg: seed, iteration: 0, total_bytes: 0 };
        assert(run.pattern@ =~= Seq::new(run.span() as nat, |i: int| 0x5au8));
        run
    }

    /// Where the next iteration starts; `None` when all iterations are done.
    pub fn next_start(&mut self) -> (lba: Option<u32>)
        requires
            old(self).wf(),
        ensures
            final(self).wf(),
            final(self).same_but_lcg(*old(self)),
            match lba {
                None => old(self).iteration == old(self).config.iterations && final(self).lcg
                    == old(self).lcg,
                Some(lba) => {
                    &&& old(self).iteration < old(self).config.iterations
                    &&& old(self).is_random() ==> {
                        &&& final(self).lcg == lcg_after(old(self).lcg)
                        &&& lba == random_start(
                            lcg_output(final(self).lcg),
                            old(self).scsi.capacity.num_blocks,
                            old(self).config.blocks_per_iter,
                        )
                        &&& lba + old(self).config.blocks_per_iter
                            <= old(self).scsi.capacity.num_blocks
                    }
                    &&& !old(self).is_random() ==> final(self).lcg == old(self).lcg && lba == 0
                },
            },
    {
        if self.iteration == self.config.iterations {
            return None;
        }
        let num_blocks = self.scsi.num_blocks();
        let count = self.config.blocks_per_iter;
        if self.config.random && num_blocks > count as u32 {
            let n = lcg_next(&mut self.lcg);
            Some(pick_start(n, num_blocks, count))
        } else {
            Some(0)
        }
    }

    /// Carries out one transfer and gives back what it moved.
    pub fn transfer(&mut self, lba: u32) -> (result: Result<Vec<u8>, ScsiError<T::Error>>)
        requires
            old(self).wf(),
        ensures
            final(self).wf(),
            final(self).config == old(self).config,
            final(self).iteration == old(self).iteration,
            final(self).total_bytes == old(self).total_bytes,
            final(self).lcg == old(self).lcg,
            final(self).scsi.capacity == old(self).scsi.capacity,
            came_to(
                old(self).config.mode,
                lba,
                old(self).config.blocks_per_iter,
                old(self).scsi.capacity.block_size,
                old(self).pattern@,
                old(self).scsi.history(),
                final(self).scsi.history(),
                result,
            ),
    {
        let count = self.config.blocks_per_iter;
        match self.config.mode {
            BulkMode::Read => self.scsi.read_blocks(lba, count),
            BulkMode::Write => match self.scsi.write_blocks(lba, count, self.pattern.as_slice()) {
                Ok(_) => Ok(self.pattern.clone()),
                Err(error) => Err(error),
            },
            BulkMode::ReadWrite => self.scsi.readwrite_blocks(lba, count),
        }
    }

    /// Logs a finished iteration that moved `data`: its row, with the checksum of the data, and
    /// whether progress is to be shown (every tenth iteration and the last).
    pub fn record(
        &mut self,
        lba: u32,
        data: &[u8],
        duration_ns: u64,
        before: &Rusage,
        after: &Rusage,
        guest_mem: Option<u64>,
    ) -> (logged: (Row, bool))
        requires
            old(self).wf(),
            old(self).iteration < old(self).config.iterations,
            data@.len() == old(self).span(),
        ensures
            final(self).wf(),
            *final(self) == (BulkRun {
                iteration: (old(self).iteration + 1) as u32,
                total_bytes: (old(self).total_bytes + data@.len()) as u64,
                ..*old(self)
            }),
            logged.0.measures(
                old(self).config.condition@,
                "bulk"@,
                old(self).iteration,
                data@.len() as u64,
                duration_ns,
                *before,
                *after,
                guest_mem,
                Some(checksum::hex_digits(checksum::sha256_digest(data@))),
            ),
            logged.0.notes is Some,
            logged.0.notes->0@ == note_of(old(self).config.mode, lba),
            logged.1 == (old(self).iteration % 10 == 0 || old(self).iteration == old(
                self,
            ).config.iterations - 1),
    {
        let iteration = self.iteration;
        let bytes = data.len() as u64;
        let mut row = Row::measured(
            self.config.condition.as_str(),
            "bulk",
            iteration,
            bytes,
            duration_ns,
            before,
            after,
            guest_mem,
            Some(checksum_hex(data)),
        );
        let mut note = String::new();
        text::push_text(&mut note, "mode=");
        text::push_text(&mut note, self.config.mode.as_str());
        text::push_text(&mut note, " lba=");
        text::push_decimal(&mut note, lba as u128);
        assert(note@ =~= note_of(self.config.mode, lba));
        row.notes = Some(note);
        proof {
            let n = self.iteration as int;
            let all = self.config.iterations as int;
            let span = self.span();
            assert((n + 1) * span == n * span + span) by (nonlinear_arith);
            assert((n + 1) * span <= all * span) by (nonlinear_arith)
                requires
                    n + 1 <= all,
                    0 <= span,
            ;
        }
        self.total_bytes = self.total_bytes + bytes;
        self.iteration = iteration + 1;
        let shown = iteration % 10 == 0 || iteration == self.config.iterations - 1;
        (row, shown)
    }
}

/// Transfers start at random places exactly where the command line asks for it and the device has
/// more blocks than a transfer moves.
pub proof fn law_random_where_there_is_room<T: BulkTransport>(run: BulkRun<T>)
    ensures
        run.is_random() <==> run.config.random && run.scsi.capacity.num_blocks
            > run.config.blocks_per_iter,
{
}

/// The pattern that is written is 0x5a over the length of a transfer, which is the blocks of an
/// iteration times the block size, and each iteration that is done counts for that length.
pub proof fn law_pattern_and_total<T: BulkTransport>(run: BulkRun<T>)
    requires
        run.wf(),
    ensures
        run.pattern@.len() == run.config.blocks_per_iter * run.scsi.capacity.block_size,
        forall|i: int| 0 <= i < run.pattern@.len() ==> #[trigger] run.pattern@[i] == 0x5a,
        run.total_bytes == run.iteration * (run.config.blocks_per_iter
            * run.scsi.capacity.block_size),
        run.iteration <= run.config.iterations,
{
    let count = run.config.blocks_per_iter;
    let size = run.scsi.capacity.block_size;
    assert(0 <= count * size) by (nonlinear_arith);
}

/// What an iteration that failed asked of the device, byte by byte. Where the READ failed, or
/// delivered too little, nothing came after it. Where the WRITE failed, it had the pattern, or the
/// bytes that a READ of the same blocks had delivered just before.
pub proof fn law_failed_iteration_stops<E>(
    mode: BulkMode,
    lba: u32,
    count: u16,
    block_size: u32,
    pattern: Seq<u8>,
    start: Seq<Exchange<E>>,
    end: Seq<Exchange<E>>,
    error: ScsiError<E>,
)
    requires
        count * block_size <= u32::MAX,
        came_to(mode, lba, count, block_size, pattern, start, end, Err(error)),
    ensures
        ({
            let n = start.len() as int;
            &&& end.take(n) == start
            &&& match error {
                ScsiError::Read { lba: l, count: c, error: e } => {
                    &&& mode != BulkMode::Write
                    &&& l == lba && c == count
                    &&& end.len() == n + 1
                    &&& end[n] matches Exchange::In { command, asked, reply }
                    &&& asked == count * block_size
                    &&& reply == Err::<Seq<u8>, E>(e)
                    &&& mass_storage::is_block_command(command, 0x28, lba, count)
                },
                ScsiError::DataLength { len, expected, count: c, block_size: b } => {
                    &&& mode != BulkMode::Write
                    &&& c == count && b == block_size
                    &&& len < expected && expected == count * block_size
                    &&& end.len() == n + 1
                    &&& end[n] matches Exchange::In { command, asked, reply }
                    &&& reply is Ok && reply->Ok_0.len() == len
                    &&& mass_storage::is_block_command(command, 0x28, lba, count)
                },
                ScsiError::Write { lba: l, count: c, error: e } => {
                    &&& mode != BulkMode::Read
                    &&& l == lba && c == count
                    &&& end.len() == n + (if mode == BulkMode::Write {
                        1int
                    } else {
                        2
                    })
                    &&& end[end.len() - 1] matches Exchange::Out { command, data, outcome }
                    &&& outcome == Err::<(), E>(e)
                    &&& mass_storage::is_block_command(command, 0x2a, lba, count)
                    &&& mode == BulkMode::Write ==> data == Some(pattern)
                    &&& mode == BulkMode::ReadWrite ==> {
                        &&& data is Some && data->0.len() == count * block_size
                        &&& end[n] matches Exchange::In { command: first, asked, reply }
                        &&& reply == Ok::<Seq<u8>, E>(data->0)
                        &&& mass_storage::is_block_command(first, 0x28, lba, count)
                    }
                },
                _ => false,
            }
        }),
{
    mass_storage::law_block_command_layout(0x28, lba, count);
    mass_storage::law_block_command_layout(0x2a, lba, count);
    let n = start.len() as int;
    assert(end.take(n) =~= start);
}

/// An iteration led from `start` to `end` and came to `result`.
///
/// A success moved all the blocks, by the commands of the mode. A failure is that of the command
/// that failed, or a READ that delivered too little, and no command followed it.
pub open spec fn came_to<E>(
    mode: BulkMode,
    lba: u32,
    count: u16,
    block_size: u32,
    pattern: Seq<u8>,
    start: Seq<Exchange<E>>,
    end: Seq<Exchange<E>>,
    result: Result<Vec<u8>, ScsiError<E>>,
) -> bool {
    let span = count * block_size;
    match result {
        Ok(data) => {
            &&& data@.len() == span
            &&& match mode {
                BulkMode::Read => end == mass_storage::reading(
                    start,
                    lba,
                    count,
                    span as u32,
                    Ok(data@),
                ),
                BulkMode::Write => data@ == pattern && end == writing(
                    start,
                    lba,
                    count,
                    pattern,
                    Ok(()),
                ),
                BulkMode::ReadWrite => end == mass_storage::rewriting(
                    start,
                    lba,
                    count,
                    data@,
                    Ok(()),
                ),
            }
        },
        Err(ScsiError::Read { lba: l, count: c, error }) => {
            &&& mode != BulkMode::Write
            &&& l == lba
            &&& c == count
            &&& end == mass_storage::reading(start, lba, count, span as u32, Err(error))
        },
        Err(ScsiError::DataLength { len, expected, count: c, block_size: b }) => {
            &&& mode != BulkMode::Write
            &&& len < expected == span
            &&& c == count
            &&& b == block_size
            &&& mass_storage::delivered(start, end, lba, count, span as u32, len as nat)
        },
        Err(ScsiError::Write { lba: l, count: c, error }) => {
            &&& l == lba
            &&& c == count
            &&& match mode {
                BulkMode::Read => false,
                BulkMode::Write => end == writing(start, lba, count, pattern, Err(error)),
                BulkMode::ReadWrite => exists|data: Seq<u8>|
                    data.len() == span && end == #[trigger] mass_storage::rewriting(
                        start,
                        lba,
                        count,
                        data,
                        Err::<(), E>(error),
                    ),
            }
        },
        Err(_) => false,
    }
}

/// What an iteration that succeeded asked of the device, byte by byte. Reading is one READ of the
/// iteration's blocks, whose bytes are the result. Writing is one WRITE of them, with the pattern.
/// Reading and writing back is that READ and then a WRITE of the bytes that were read to the blocks
/// that they came from.
pub proof fn law_iteration_does_what_its_mode_says<E>(
    mode: BulkMode,
    lba: u32,
    count: u16,
    block_size: u32,
    pattern: Seq<u8>,
    start: Seq<Exchange<E>>,
    end: Seq<Exchange<E>>,
    data: Vec<u8>,
)
    requires
        count * block_size <= u32::MAX,
        came_to(mode, lba, count, block_size, pattern, start, end, Ok(data)),
    ensures
        ({
            let n = start.len() as int;
            &&& data@.len() == count * block_size
            &&& end.len() == n + (if mode == BulkMode::ReadWrite {
                2int
            } else {
                1
            })
            &&& end.take(n) == start
            &&& mode != BulkMode::Write ==> {
                &&& end[n] matches Exchange::In { command, asked, reply }
                &&& asked == count * block_size
                &&& reply == Ok::<Seq<u8>, E>(data@)
                &&& mass_storage::is_block_command(command, 0x28, lba, count)
            }
            &&& mode != BulkMode::Read ==> {
                &&& end[end.len() - 1] matches Exchange::Out { command, data: sent, outcome }
                &&& sent == Some(data@)
                &&& outcome == Ok::<(), E>(())
                &&& mass_storage::is_block_command(command, 0x2a, lba, count)
            }
            &&& mode == BulkMode::Write ==> data@ == pattern
        }),
{
    mass_storage::law_block_command_layout(0x28, lba, count);
    mass_storage::law_block_command_layout(0x2a, lba, count);
    let n = start.len() as int;
    assert(end.take(n) =~= start);
}

/// The history after a WRITE with the given outcome.
pub open spec fn writing<E>(
    start: Seq<Exchange<E>>,
    lba: u32,
    count: u16,
    data: Seq<u8>,
    outcome: Result<(), E>,
) -> Seq<Exchange<E>> {
    start.push(
        Exchange::Out {
            command: mass_storage::block_command(mass_storage::OP_WRITE, lba, count),
            data: Some(data),
            outcome,
        },
    )
}

/// A native run is seeded by the clock, so that runs differ; in a guest every run has the same seed.
pub proof fn law_guests_start_alike(runtime: Runtime, secs: u64, other: u64, seed: u64, again: u64)
    requires
        call_ensures(lcg_seed, (runtime, secs), seed),
        call_ensures(lcg_seed, (runtime, other), again),
    ensures
        runtime == Runtime::Native ==> seed == secs && again == other,
        runtime == Runtime::WasmRusb || runtime == Runtime::WasmRaw ==> seed == 0xdead_beef && again
            == 0xdead_beef,
{
}

/// Each iteration is given a place, and the run ends after the last one. A random place is a multiple
/// of the length of a transfer from which a whole transfer fits onto the device; else it is block 0.
pub proof fn law_places_of_a_run<T: BulkTransport>(run: &mut BulkRun<T>, place: Option<u32>)
    requires
        old(run).wf(),
        call_ensures(BulkRun::<T>::next_start, (run,), place),
    ensures
        place is None <==> old(run).iteration == old(run).config.iterations,
        place matches Some(lba) ==> {
            let count = old(run).config.blocks_per_iter;
            let blocks = old(run).scsi.capacity.num_blocks;
            if old(run).config.random && blocks > count {
                lba as int % count as int == 0 && lba + count <= blocks
            } else {
                lba == 0
            }
        },
        final(run).iteration == old(run).iteration,
        final(run).total_bytes == old(run).total_bytes,
        final(run).config == old(run).config,
        final(run).scsi == old(run).scsi,
{
    let count = old(run).config.blocks_per_iter;
    let blocks = old(run).scsi.capacity.num_blocks;
    if 0 < count <= blocks {
        law_random_start(lcg_output(final(run).lcg), blocks, count);
    }
}

/// A logged iteration counts once, with its bytes; progress shows for every tenth and for the last.
pub proof fn law_logged_iterations_count<T: BulkTransport>(
    run: &mut BulkRun<T>,
    lba: u32,
    data: &[u8],
    duration_ns: u64,
    before: Rusage,
    after: Rusage,
    guest_mem: Option<u64>,
    logged: (Row, bool),
)
    requires
        old(run).wf(),
        old(run).iteration < old(run).config.iterations,
        old(run).total_bytes + data@.len() <= u64::MAX,
        call_ensures(
            BulkRun::<T>::record,
            (run, lba, data, duration_ns, &before, &after, guest_mem),
            logged,
        ),
    ensures
        final(run).iteration == old(run).iteration + 1,
        final(run).total_bytes == old(run).total_bytes + data@.len(),
        logged.0.iteration == old(run).iteration,
        logged.0.bytes == data@.len() as u64,
        logged.0.duration_ns == duration_ns,
        logged.0.condition@ == old(run).config.condition@,
        logged.0.workload@ == "bulk"@,
        logged.0.rss_peak_kb == after.rss_peak_kb,
        logged.0.guest_mem_bytes == guest_mem,
        logged.1 <==> old(run).iteration % 10 == 0 || old(run).iteration + 1 == old(
            run,
        ).config.iterations,
{
}

} // verus!
