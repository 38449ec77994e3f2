//! SCSI block commands over any Bulk-Only transport.

use vstd::prelude::*;

use crate::bulk_only::{BulkTransport, Exchange};

verus! {

/// READ (10).
pub const OP_READ: u8 = 0x28;

/// WRITE (10).
pub const OP_WRITE: u8 = 0x2a;

/// READ CAPACITY (10).
pub const OP_READ_CAPACITY: u8 = 0x25;

/// Block geometry of a device.
#[derive(Debug, Clone, Copy, PartialEq, Eq, Structural)]
pub struct Capacity {
    /// Bytes per logical block.
    pub block_size: u32,
    /// Number of logical blocks.
    pub num_blocks: u32,
    /// `block_size * num_blocks`.
    pub total_bytes: u64,
}

/// Why a SCSI command was not carried out. `E` is the transport's error.
#[derive(Debug)]
pub enum ScsiError<E> {
    /// TEST UNIT READY failed.
    TestUnitReady(E),
    /// READ CAPACITY failed.
    ReadCapacity(E),
    /// READ CAPACITY returned fewer than 8 bytes.
    CapacityTooShort { len: usize },
    /// The device reports blocks of no size.
    ZeroBlockSize,
    /// READ failed.
    Read { lba: u32, count: u16, error: E },
    /// The data to write, or the data that a READ delivered, is not `count` blocks long.
    DataLength { len: usize, expected: usize, count: u16, block_size: u32 },
    /// WRITE failed.
    Write { lba: u32, count: u16, error: E },
}

// ---------------------------------------------------------------------------
// Command blocks
// ---------------------------------------------------------------------------

/// A 32-bit number, highest byte first.
pub open spec fn be_bytes(n: u32) -> Seq<u8> {
    seq![
        (n / 0x100_0000) as u8,
        (n / 0x1_0000 % 0x100) as u8,
        (n / 0x100 % 0x100) as u8,
        (n % 0x100) as u8,
    ]
}

/// The number that four bytes stand for, highest byte first.
pub open spec fn be_value(b0: u8, b1: u8, b2: u8, b3: u8) -> u32 {
    (0x100_0000 * b0 + 0x1_0000 * b1 + 0x100 * b2 + b3) as u32
}

fn read_be(b0: u8, b1: u8, b2: u8, b3: u8) -> (n: u32)
    ensures
        n == be_value(b0, b1, b2, b3),
{
    0x100_0000 * b0 as u32 + 0x1_0000 * b1 as u32 + 0x100 * b2 as u32 + b3 as u32
}

/// The command block of READ (10) or WRITE (10).
pub open spec fn block_command(op: u8, lba: u32, count: u16) -> Seq<u8> {
    seq![op, 0] + be_bytes(lba) + seq![0, (count / 0x100) as u8, (count % 0x100) as u8, 0]
}

/// The command block of READ CAPACITY (10).
pub open spec fn capacity_command() -> Seq<u8> {
    seq![OP_READ_CAPACITY, 0, 0, 0, 0, 0, 0, 0, 0, 0]
}

/// The command block of TEST UNIT READY.
pub open spec fn ready_command() -> Seq<u8> {
    seq![0, 0, 0, 0, 0, 0]
}

/// The first block that a READ or WRITE command block is about.
pub open spec fn command_lba(command: Seq<u8>) -> u32 {
    be_value(command[2], command[3], command[4], command[5])
}

/// How many blocks a READ or WRITE command block is about.
pub open spec fn command_count(command: Seq<u8>) -> u16 {
    (0x100 * command[7] + command[8]) as u16
}

fn build_block_command(op: u8, lba: u32, count: u16) -> (command: [u8; 10])
    ensures
        command@ == block_command(op, lba, count),
        command@[2] * 0x100_0000 + command@[3] * 0x1_0000 + command@[4] * 0x100 + command@[5] == lba,
        command@[7] * 0x100 + command@[8] == count,
{
    let command = [
        op,
        0x00,
        (lba / 0x100_0000) as u8,
        (lba / 0x1_0000 % 0x100) as u8,
        (lba / 0x100 % 0x100) as u8,
        (lba % 0x100) as u8,
        0x00,
        (count / 0x100) as u8,
        (count % 0x100) as u8,
        0x00,
    ];
    assert(command@ =~= block_command(op, lba, count));
    command
}

/// The ten bytes of READ and WRITE: the operation, the first block in four bytes with the highest
/// first, the number of blocks in two bytes with the higher first, and zeros between and after.
pub proof fn law_block_command_layout(op: u8, lba: u32, count: u16)
    ensures
        ({
            let c = block_command(op, lba, count);
            &&& c.len() == 10
            &&& c[0] == op
            &&& c[1] == 0
            &&& c[2] * 0x100_0000 + c[3] * 0x1_0000 + c[4] * 0x100 + c[5] == lba
            &&& c[6] == 0
            &&& c[7] * 0x100 + c[8] == count
            &&& c[9] == 0
        }),
{
}

/// These ten bytes ask for `count` blocks from block `lba` on.
pub open spec fn is_block_command(c: Seq<u8>, op: u8, lba: u32, count: u16) -> bool {
    &&& c.len() == 10
    &&& c[0] == op
    &&& c[2] * 0x100_0000 + c[3] * 0x1_0000 + c[4] * 0x100 + c[5] == lba
    &&& c[7] * 0x100 + c[8] == count
    &&& c[1] == 0 && c[6] == 0 && c[9] == 0
}

/// READ is 0x28, WRITE is 0x2a. READ CAPACITY is 0x25 and nine zeros, TEST UNIT READY six zeros.
pub proof fn law_operation_codes()
    ensures
        OP_READ == 0x28,
        OP_WRITE == 0x2a,
        capacity_command() == seq![0x25u8, 0, 0, 0, 0, 0, 0, 0, 0, 0],
        ready_command() == seq![0u8, 0, 0, 0, 0, 0],
{
}

/// From a READ or WRITE command block the operation, the first block and the number of blocks can
/// be told.
pub proof fn law_block_command_reads_back(op: u8, lba: u32, count: u16)
    ensures
        block_command(op, lba, count).len() == 10,
        block_command(op, lba, count)[0] == op,
        command_lba(block_command(op, lba, count)) == lba,
        command_count(block_command(op, lba, count)) == count,
{
}

// ---------------------------------------------------------------------------
// Capacity
// ---------------------------------------------------------------------------

/// The block size in an answer to READ CAPACITY.
pub open spec fn reported_block_size(data: Seq<u8>) -> u32 {
    be_value(data[4], data[5], data[6], data[7])
}

/// The last block address in an answer to READ CAPACITY.
pub open spec fn reported_last_lba(data: Seq<u8>) -> u32 {
    be_value(data[0], data[1], data[2], data[3])
}

/// The geometry that an answer to READ CAPACITY reports. A device with 2^32 blocks counts as one
/// block less.
pub open spec fn reported_capacity(data: Seq<u8>) -> Capacity {
    let block_size = reported_block_size(data);
    let last_lba = reported_last_lba(data);
    let num_blocks = if last_lba == u32::MAX {
        u32::MAX
    } else {
        (last_lba + 1) as u32
    };
    Capacity { block_size, num_blocks, total_bytes: (num_blocks * block_size) as u64 }
}

/// What an answer to READ CAPACITY says: the address of the last block in the first four bytes, the
/// block size in the next four, the highest byte first in both. There is one block more than the
/// last address, as far as that can be counted, and the total is the product.
pub proof fn law_capacity_layout(data: Seq<u8>)
    requires
        data.len() >= 8,
    ensures
        ({
            let last = data[0] * 0x100_0000 + data[1] * 0x1_0000 + data[2] * 0x100 + data[3];
            let size = data[4] * 0x100_0000 + data[5] * 0x1_0000 + data[6] * 0x100 + data[7];
            let capacity = reported_capacity(data);
            &&& capacity.block_size == size
            &&& last < u32::MAX ==> capacity.num_blocks == last + 1
            &&& last >= u32::MAX ==> capacity.num_blocks == u32::MAX
            &&& capacity.total_bytes == capacity.num_blocks * size
            &&& reported_block_size(data) == size
        }),
{
    let n = reported_capacity(data).num_blocks;
    let size = reported_block_size(data);
    assert(0 <= n * size <= 0xffff_ffff * 0xffff_ffff) by (nonlinear_arith)
        requires
            0 <= n <= 0xffff_ffff,
            0 <= size <= 0xffff_ffff,
    ;
}

impl Capacity {
    /// The total is the product of block size and number of blocks, and neither is zero.
    pub open spec fn wf(&self) -> bool {
        &&& self.block_size > 0
        &&& self.num_blocks > 0
        &&& self.total_bytes == self.block_size * self.num_blocks
    }

    /// Reads the answer to READ CAPACITY.
    pub fn from_answer<E>(data: &[u8]) -> (result: Result<Self, ScsiError<E>>)
        ensures
            match result {
                Ok(capacity) => {
                    &&& data@.len() >= 8
                    &&& reported_block_size(data@) != 0
                    &&& capacity == reported_capacity(data@)
                    &&& capacity.wf()
                    &&& capacity.block_size == data@[4] * 0x100_0000 + data@[5] * 0x1_0000
                        + data@[6] * 0x100 + data@[7]
                },
                Err(ScsiError::CapacityTooShort { len }) => data@.len() < 8 && len == data@.len(),
                Err(ScsiError::ZeroBlockSize) => data@.len() >= 8 && reported_block_size(data@)
                    == 0,
                Err(_) => false,
            },
    {
        if data.len() < 8 {
            return Err(ScsiError::CapacityTooShort { len: data.len() });
        }
        let last_lba = read_be(data[0], data[1], data[2], data[3]);
        let block_size = read_be(data[4], data[5], data[6], data[7]);
        if block_size == 0 {
            return Err(ScsiError::ZeroBlockSize);
        }
        let num_blocks: u32 = if last_lba == u32::MAX {
            u32::MAX
        } else {
            last_lba + 1
        };
        assert(num_blocks * block_size <= 0xffff_ffff * 0xffff_ffff) by (nonlinear_arith)
            requires
                num_blocks <= 0xffff_ffff,
                block_size <= 0xffff_ffff,
        ;
        assert(num_blocks * block_size == block_size * num_blocks) by (nonlinear_arith);
        let total_bytes: u64 = num_blocks as u64 * block_size as u64;
        Ok(Capacity { block_size, num_blocks, total_bytes })
    }
}

// ---------------------------------------------------------------------------
// The device
// ---------------------------------------------------------------------------

/// A block device behind a transport.
pub struct ScsiDevice<T: BulkTransport> {
    pub transport: T,
    /// Block geometry, as the device reported it.
    pub capacity: Capacity,
}

impl<T: BulkTransport> ScsiDevice<T> {
    /// The commands carried out so far, oldest first.
    pub open spec fn history(&self) -> Seq<Exchange<T::Error>> {
        self.transport.history()
    }

    /// The geometry makes sense.
    pub open spec fn wf(&self) -> bool {
        self.capacity.wf()
    }

    /// How many bytes `count` blocks take.
    pub open spec fn span(&self, count: u16) -> int {
        count * self.capacity.block_size
    }

    /// Checks that the device is ready and asks for its geometry.
    ///
    /// An error is that of the first command that failed, or says what is wrong with the geometry
    /// that the device reported. The transport goes with it; `ask_geometry` keeps it, and says that
    /// nothing was sent after the command that failed.
    pub fn new(transport: T) -> (result: Result<Self, ScsiError<T::Error>>)
        ensures
            match result {
                Ok(device) => {
                    &&& device.wf()
                    &&& opened_with(transport.history(), device.history(), Ok(device.capacity))
                },
                Err(error) => exists|used: T|
                    opened_with(transport.history(), #[trigger] used.history(), Err(error)),
            },
    {
        let mut transport = transport;
        match ask_geometry(&mut transport) {
            Ok(capacity) => Ok(ScsiDevice { transport, capacity }),
            Err(error) => Err(error),
        }
    }

    /// Reads `count` blocks from block `lba` on.
    ///
    /// A device that sends less than that has not done what it was asked.
    pub fn read_blocks(&mut self, lba: u32, count: u16) -> (result: Result<
        Vec<u8>,
        ScsiError<T::Error>,
    >)
        requires
            old(self).span(count) <= u32::MAX,
        ensures
            final(self).capacity == old(self).capacity,
            match result {
                Ok(data) => {
                    &&& data@.len() == old(self).span(count)
                    &&& final(self).history() == reading(
                        old(self).history(),
                        lba,
                        count,
                        old(self).span(count) as u32,
                        Ok(data@),
                    )
                },
                Err(ScsiError::Read { lba: l, count: c, error }) => {
                    &&& l == lba
                    &&& c == count
                    &&& final(self).history() == reading(
                        old(self).history(),
                        lba,
                        count,
                        old(self).span(count) as u32,
                        Err(error),
                    )
                },
                Err(ScsiError::DataLength { len, expected, count: c, block_size }) => {
                    &&& len < expected == old(self).span(count)
                    &&& c == count
                    &&& block_size == old(self).capacity.block_size
                    &&& delivered(
                        old(self).history(),
                        final(self).history(),
                        lba,
                        count,
                        old(self).span(count) as u32,
                        len as nat,
                    )
                },
                Err(_) => false,
            },
    {
        let ghost start = self.history();
        let block_size = self.capacity.block_size;
        let transfer_len = count as u32 * block_size;
        let command = build_block_command(OP_READ, lba, count);
        match self.transport.command_in(&command, transfer_len) {
            Ok(data) => {
                assert(self.history() == reading(
                    start,
                    lba,
                    count,
                    transfer_len,
                    Ok::<Seq<u8>, T::Error>(data@),
                ));
                let expected = transfer_len as usize;
                if data.len() != expected {
                    return Err(
                        ScsiError::DataLength { len: data.len(), expected, count, block_size },
                    );
                }
                Ok(data)
            },
            Err(error) => Err(ScsiError::Read { lba, count, error }),
        }
    }

    /// Writes `data`, which must be exactly `count` blocks long, from block `lba` on.
    pub fn write_blocks(&mut self, lba: u32, count: u16, data: &[u8]) -> (result: Result<
        (),
        ScsiError<T::Error>,
    >)
        requires
            old(self).span(count) <= usize::MAX,
        ensures
            final(self).capacity == old(self).capacity,
            match result {
                Ok(()) => {
                    &&& data@.len() == old(self).span(count)
                    &&& final(self).history() == old(self).history().push(
                        Exchange::Out {
                            command: block_command(OP_WRITE, lba, count),
                            data: Some(data@),
                            outcome: Ok(()),
                        },
                    )
                },
                Err(ScsiError::DataLength { len, expected, count: c, block_size }) => {
                    &&& data@.len() != old(self).span(count)
                    &&& len == data@.len()
                    &&& expected == old(self).span(count)
                    &&& c == count
                    &&& block_size == old(self).capacity.block_size
                    &&& final(self).history() == old(self).history()
                },
                Err(ScsiError::Write { lba: l, count: c, error }) => {
                    &&& data@.len() == old(self).span(count)
                    &&& l == lba
                    &&& c == count
                    &&& final(self).history() == old(self).history().push(
                        Exchange::Out {
                            command: block_command(OP_WRITE, lba, count),
                            data: Some(data@),
                            outcome: Err(error),
                        },
                    )
                },
                Err(_) => false,
            },
    {
        let expected = count as usize * self.capacity.block_size as usize;
        if data.len() != expected {
            return Err(
                ScsiError::DataLength {
                    len: data.len(),
                    expected,
                    count,
                    block_size: self.capacity.block_size,
                },
            );
        }
        let command = build_block_command(OP_WRITE, lba, count);
        match self.transport.command_out(&command, Some(data)) {
            Ok(done) => {
                assert(done == ());
                Ok(done)
            },
            Err(error) => Err(ScsiError::Write { lba, count, error }),
        }
    }

    /// Reads `count` blocks from block `lba` on and writes the same bytes back.
    ///
    /// Where the device sent less than `count` blocks nothing is written.
    pub fn readwrite_blocks(&mut self, lba: u32, count: u16) -> (result: Result<
        Vec<u8>,
        ScsiError<T::Error>,
    >)
        requires
            old(self).span(count) <= u32::MAX,
        ensures
            final(self).capacity == old(self).capacity,
            ({
                let asked = old(self).span(count) as u32;
                match result {
                    Ok(data) => {
                        &&& data@.len() == old(self).span(count)
                        &&& final(self).history() == rewriting(
                            old(self).history(),
                            lba,
                            count,
                            data@,
                            Ok(()),
                        )
                    },
                    Err(ScsiError::Read { lba: l, count: c, error }) => {
                        &&& l == lba
                        &&& c == count
                        &&& final(self).history() == reading(
                            old(self).history(),
                            lba,
                            count,
                            asked,
                            Err(error),
                        )
                    },
                    Err(ScsiError::DataLength { len, expected, count: c, block_size }) => {
                        &&& len < expected == old(self).span(count)
                        &&& c == count
                        &&& block_size == old(self).capacity.block_size
                        &&& delivered(
                            old(self).history(),
                            final(self).history(),
                            lba,
                            count,
                            asked,
                            len as nat,
                        )
                    },
                    Err(ScsiError::Write { lba: l, count: c, error }) => {
                        &&& l == lba
                        &&& c == count
                        &&& exists|data: Seq<u8>|
                            {
                                &&& data.len() == old(self).span(count)
                                &&& final(self).history() == (#[trigger] rewriting(
                                    old(self).history(),
                                    lba,
                                    count,
                                    data,
                                    Err::<(), T::Error>(error),
                                ))
                            }
                    },
                    Err(_) => false,
                }
            }),
    {
        let ghost start = self.history();
        let data = match self.read_blocks(lba, count) {
            Ok(data) => data,
            Err(error) => {
                return Err(error);
            },
        };
        match self.write_blocks(lba, count, data.as_slice()) {
            Ok(()) => Ok(data),
            Err(error) => {
                assert(error is Write ==> self.history() == rewriting(
                    start,
                    lba,
                    count,
                    data@,
                    Err::<(), T::Error>(error->Write_error),
                ));
                Err(error)
            },
        }
    }

    /// Bytes per logical block.
    pub fn block_size(&self) -> (size: u32)
        ensures
            size == self.capacity.block_size,
    {
        self.capacity.block_size
    }

    /// Number of logical blocks.
    pub fn num_blocks(&self) -> (count: u32)
        ensures
            count == self.capacity.num_blocks,
    {
        self.capacity.num_blocks
    }
}

/// The history after a device was checked, with the given outcome.
pub open spec fn checking<E>(start: Seq<Exchange<E>>, outcome: Result<(), E>) -> Seq<Exchange<E>> {
    start.push(Exchange::Out { command: ready_command(), data: None, outcome })
}

/// The history after a device was checked and asked for its geometry, with the given reply.
pub open spec fn opening<E>(start: Seq<Exchange<E>>, reply: Result<Seq<u8>, E>) -> Seq<Exchange<E>> {
    checking(start, Ok(())).push(Exchange::In { command: capacity_command(), asked: 8, reply })
}

/// Opening a device led from `start` to `end` and came to `result`.
pub open spec fn opened_with<E>(
    start: Seq<Exchange<E>>,
    end: Seq<Exchange<E>>,
    result: Result<Capacity, ScsiError<E>>,
) -> bool {
    match result {
        Err(ScsiError::TestUnitReady(error)) => end == checking(start, Err(error)),
        Err(ScsiError::ReadCapacity(error)) => end == opening(start, Err(error)),
        Err(ScsiError::CapacityTooShort { len }) => exists|data: Seq<u8>|
            data.len() == len && len < 8 && end == #[trigger] opening(
                start,
                Ok::<Seq<u8>, E>(data),
            ),
        Err(ScsiError::ZeroBlockSize) => exists|data: Seq<u8>|
            data.len() == 8 && reported_block_size(data) == 0 && end == #[trigger] opening(
                start,
                Ok::<Seq<u8>, E>(data),
            ),
        Err(_) => false,
        Ok(capacity) => exists|data: Seq<u8>|
            data.len() == 8 && reported_block_size(data) != 0 && capacity == reported_capacity(data)
                && end == #[trigger] opening(start, Ok::<Seq<u8>, E>(data)),
    }
}

/// What opening a device asks of it: TEST UNIT READY first, and only where that succeeds READ CAPACITY,
/// for eight bytes; nothing more. The first command that fails gives the error. The answer gives the
/// geometry, by its bytes, unless it is too short or names a block size of nothing.
pub proof fn law_opening_asks_for_the_geometry<E>(
    start: Seq<Exchange<E>>,
    end: Seq<Exchange<E>>,
    result: Result<Capacity, ScsiError<E>>,
)
    requires
        opened_with(start, end, result),
    ensures
        ({
            let n = start.len() as int;
            &&& end.len() > n
            &&& end.take(n) == start
            &&& end[n] matches Exchange::Out { command, data, outcome }
            &&& command == seq![0u8, 0, 0, 0, 0, 0]
            &&& data is None
            &&& result matches Err(ScsiError::TestUnitReady(error)) ==> end.len() == n + 1
                && outcome == Err::<(), E>(error)
        }),
        !(result matches Err(ScsiError::TestUnitReady(_))) ==> {
            let n = start.len() as int;
            &&& end.len() == n + 2
            &&& end[n]->outcome == Ok::<(), E>(())
            &&& end[n + 1] matches Exchange::In { command, asked, reply }
            &&& command == seq![0x25u8, 0, 0, 0, 0, 0, 0, 0, 0, 0]
            &&& asked == 8
            &&& match result {
                Ok(capacity) => reply matches Ok(d) && {
                    let last = d[0] * 0x100_0000 + d[1] * 0x1_0000 + d[2] * 0x100 + d[3];
                    let size = d[4] * 0x100_0000 + d[5] * 0x1_0000 + d[6] * 0x100 + d[7];
                    &&& d.len() == 8
                    &&& size > 0
                    &&& capacity.block_size == size
                    &&& capacity.num_blocks == (if last < u32::MAX {
                        last + 1
                    } else {
                        u32::MAX as int
                    })
                    &&& capacity.total_bytes == capacity.num_blocks * size
                },
                Err(ScsiError::ReadCapacity(error)) => reply == Err::<Seq<u8>, E>(error),
                Err(ScsiError::CapacityTooShort { len }) => reply matches Ok(d) && d.len() == len
                    && len < 8,
                Err(ScsiError::ZeroBlockSize) => reply matches Ok(d) && d.len() == 8 && d[4] == 0
                    && d[5] == 0 && d[6] == 0 && d[7] == 0,
                Err(_) => false,
            }
        },
{
    let n = start.len() as int;
    assert(end.take(n) =~= start);
    if !(result matches Err(ScsiError::TestUnitReady(_))) {
        if let Exchange::In { command, asked, reply } = end[n + 1] {
            if let Ok(d) = reply {
                if d.len() == 8 {
                    law_capacity_layout(d);
                }
            }
        }
    }
}

/// Checks that a device is ready and asks for its geometry. Nothing is sent after a command that
/// failed, or after an answer that is of no use.
pub fn ask_geometry<T: BulkTransport>(transport: &mut T) -> (result: Result<
    Capacity,
    ScsiError<T::Error>,
>)
    ensures
        opened_with(old(transport).history(), final(transport).history(), result),
        result is Ok ==> result->Ok_0.wf(),
{
    let ghost start = transport.history();
    let ready: [u8; 6] = [0x00, 0x00, 0x00, 0x00, 0x00, 0x00];
    assert(ready@ =~= ready_command());
    match transport.command_out(&ready, None) {
        Ok(done) => {
            assert(done == ());
        },
        Err(error) => {
            return Err(ScsiError::TestUnitReady(error));
        },
    }
    let ask: [u8; 10] = [0x25, 0x00, 0x00, 0x00, 0x00, 0x00, 0x00, 0x00, 0x00, 0x00];
    assert(ask@ =~= capacity_command());
    let data = match transport.command_in(&ask, 8) {
        Ok(data) => data,
        Err(error) => {
            return Err(ScsiError::ReadCapacity(error));
        },
    };
    assert(transport.history() == opening(start, Ok::<Seq<u8>, T::Error>(data@)));
    Capacity::from_answer(data.as_slice())
}

/// The history after a READ with the given reply.
pub open spec fn reading<E>(
    start: Seq<Exchange<E>>,
    lba: u32,
    count: u16,
    asked: u32,
    reply: Result<Seq<u8>, E>,
) -> Seq<Exchange<E>> {
    start.push(Exchange::In { command: block_command(OP_READ, lba, count), asked, reply })
}

/// A READ adds one exchange to what went before: ten bytes that ask for these blocks, with the length
/// and the reply as they were.
pub proof fn law_reading_asks_for_its_blocks<E>(
    start: Seq<Exchange<E>>,
    lba: u32,
    count: u16,
    asked: u32,
    reply: Result<Seq<u8>, E>,
)
    ensures
        ({
            let end = reading(start, lba, count, asked, reply);
            let n = start.len() as int;
            &&& end.len() == n + 1
            &&& end.take(n) == start
            &&& end[n] matches Exchange::In { command, asked: a, reply: r }
            &&& a == asked
            &&& r == reply
            &&& is_block_command(command, 0x28, lba, count)
        }),
{
    law_block_command_layout(0x28, lba, count);
    assert(reading(start, lba, count, asked, reply).take(start.len() as int) =~= start);
}

/// A READ led from `start` to `end` and delivered `len` bytes.
pub open spec fn delivered<E>(
    start: Seq<Exchange<E>>,
    end: Seq<Exchange<E>>,
    lba: u32,
    count: u16,
    asked: u32,
    len: nat,
) -> bool {
    exists|data: Seq<u8>|
        data.len() == len && end == #[trigger] reading(
            start,
            lba,
            count,
            asked,
            Ok::<Seq<u8>, E>(data),
        )
}

/// The history after `data` was read and written back with the given outcome.
pub open spec fn rewriting<E>(
    start: Seq<Exchange<E>>,
    lba: u32,
    count: u16,
    data: Seq<u8>,
    outcome: Result<(), E>,
) -> Seq<Exchange<E>> {
    reading(start, lba, count, data.len() as u32, Ok(data)).push(
        Exchange::Out {
            command: block_command(OP_WRITE, lba, count),
            data: Some(data),
            outcome,
        },
    )
}

/// Reading and writing back adds two exchanges to what went before: a READ of these blocks that
/// delivered the data, and a WRITE of the same data to the same blocks.
pub proof fn law_rewriting_reads_and_writes<E>(
    start: Seq<Exchange<E>>,
    lba: u32,
    count: u16,
    data: Seq<u8>,
    outcome: Result<(), E>,
)
    requires
        data.len() <= u32::MAX,
    ensures
        ({
            let end = rewriting(start, lba, count, data, outcome);
            let n = start.len() as int;
            &&& end.len() == n + 2
            &&& end.take(n) == start
            &&& end[n] matches Exchange::In { command, asked, reply }
            &&& asked == data.len()
            &&& reply == Ok::<Seq<u8>, E>(data)
            &&& is_block_command(command, 0x28, lba, count)
            &&& end[n + 1] matches Exchange::Out { command: second, data: sent, outcome: came }
            &&& sent == Some(data)
            &&& came == outcome
            &&& is_block_command(second, 0x2a, lba, count)
        }),
{
    law_block_command_layout(0x28, lba, count);
    law_block_command_layout(0x2a, lba, count);
    assert(rewriting(start, lba, count, data, outcome).take(start.len() as int) =~= start);
}

// ---------------------------------------------------------------------------
// What the commands do to a device that honours them
// ---------------------------------------------------------------------------

/// `content` with `data` in place of what stood from `at` on.
pub open spec fn overwritten(content: Seq<u8>, at: int, data: Seq<u8>) -> Seq<u8> {
    content.take(at) + data + content.skip(at + data.len())
}

/// The device whose content was `before` carried out the command and now holds `after`: a READ
/// delivers what is there and changes nothing, a WRITE puts its data in place.
pub open spec fn honoured<E>(
    exchange: Exchange<E>,
    block_size: nat,
    before: Seq<u8>,
    after: Seq<u8>,
) -> bool {
    match exchange {
        Exchange::In { command, asked, reply } => {
            let at = command_lba(command) * block_size;
            &&& after == before
            &&& reply is Ok && command[0] == OP_READ ==> {
                &&& at + command_count(command) * block_size <= before.len()
                &&& reply->Ok_0 == before.subrange(at, at + command_count(command) * block_size)
            }
        },
        Exchange::Out { command, data, outcome } => {
            let at = command_lba(command) * block_size;
            outcome is Ok && command[0] == OP_WRITE && data is Some ==> {
                &&& at + data->0.len() <= before.len()
                &&& after == overwritten(before, at, data->0)
            }
        },
    }
}

/// Reading blocks and writing them back, as `readwrite_blocks` does, leaves the content of a device
/// that honours both commands as it was.
pub proof fn law_rewriting_changes_nothing<E>(
    lba: u32,
    count: u16,
    data: Seq<u8>,
    asked: u32,
    block_size: nat,
    before: Seq<u8>,
    between: Seq<u8>,
    after: Seq<u8>,
)
    requires
        honoured(
            Exchange::<E>::In {
                command: block_command(OP_READ, lba, count),
                asked,
                reply: Ok(data),
            },
            block_size,
            before,
            between,
        ),
        honoured(
            Exchange::<E>::Out {
                command: block_command(OP_WRITE, lba, count),
                data: Some(data),
                outcome: Ok(()),
            },
            block_size,
            between,
            after,
        ),
    ensures
        after == before,
{
    law_block_command_reads_back(OP_READ, lba, count);
    law_block_command_reads_back(OP_WRITE, lba, count);
    let at = lba * block_size;
    assert(0 <= at && 0 <= count * block_size) by (nonlinear_arith)
        requires
            at == lba * block_size,
    ;
    assert(overwritten(before, at, before.subrange(at, at + count * block_size)) =~= before);
}

/// What was written is what a later read of the same blocks gives back, on a device that honours
/// both commands.
pub proof fn law_read_gives_back_what_was_written<E>(
    lba: u32,
    count: u16,
    written: Seq<u8>,
    read: Seq<u8>,
    asked: u32,
    block_size: nat,
    before: Seq<u8>,
    between: Seq<u8>,
    after: Seq<u8>,
)
    requires
        written.len() == count * block_size,
        honoured(
            Exchange::<E>::Out {
                command: block_command(OP_WRITE, lba, count),
                data: Some(written),
                outcome: Ok(()),
            },
            block_size,
            before,
            between,
        ),
        honoured(
            Exchange::<E>::In {
                command: block_command(OP_READ, lba, count),
                asked,
                reply: Ok(read),
            },
            block_size,
            between,
            after,
        ),
    ensures
        read == written,
        after == between,
{
    law_block_command_reads_back(OP_READ, lba, count);
    law_block_command_reads_back(OP_WRITE, lba, count);
    let at = lba * block_size;
    assert(0 <= at) by (nonlinear_arith)
        requires
            at == lba * block_size,
    ;
    assert(read =~= written);
}

/// A write touches nothing but its own blocks: a read elsewhere gives what it gave before.
pub proof fn law_write_leaves_other_blocks_alone<E>(
    lba: u32,
    count: u16,
    written: Seq<u8>,
    block_size: nat,
    before: Seq<u8>,
    after: Seq<u8>,
    i: int,
)
    requires
        honoured(
            Exchange::<E>::Out {
                command: block_command(OP_WRITE, lba, count),
                data: Some(written),
                outcome: Ok(()),
            },
            block_size,
            before,
            after,
        ),
        0 <= i < before.len(),
        i < lba * block_size || lba * block_size + written.len() <= i,
    ensures
        after.len() == before.len(),
        after[i] == before[i],
{
    law_block_command_reads_back(OP_WRITE, lba, count);
    let at = lba * block_size;
    assert(0 <= at) by (nonlinear_arith)
        requires
            at == lba * block_size,
    ;
}

/// Reading blocks is one READ of them, for as many bytes as they have, and gives those bytes. On any
/// error nothing more was sent.
pub proof fn law_read_blocks<T: BulkTransport>(
    device: &mut ScsiDevice<T>,
    lba: u32,
    count: u16,
    result: Result<Vec<u8>, ScsiError<T::Error>>,
)
    requires
        count * old(device).capacity.block_size <= u32::MAX,
        call_ensures(ScsiDevice::<T>::read_blocks, (device, lba, count), result),
    ensures
        ({
            let n = old(device).history().len() as int;
            let span = count * old(device).capacity.block_size;
            &&& final(device).history().len() == n + 1
            &&& final(device).history().take(n) == old(device).history()
            &&& final(device).history()[n] matches Exchange::In { command, asked, reply }
            &&& asked == span
            &&& is_block_command(command, 0x28, lba, count)
            &&& match result {
                Ok(data) => data@.len() == span && reply == Ok::<Seq<u8>, T::Error>(data@),
                Err(ScsiError::Read { error, .. }) => reply == Err::<Seq<u8>, T::Error>(error),
                Err(ScsiError::DataLength { len, .. }) => reply is Ok && reply->Ok_0.len() == len
                    && len < span,
                Err(_) => false,
            }
        }),
{
    let start = old(device).history();
    let end = final(device).history();
    law_block_command_layout(0x28, lba, count);
    assert(end.take(start.len() as int) =~= start);
}

/// Writing blocks is one WRITE of them with the data, where the data is as long as they are; else it
/// is an error, and nothing is sent.
pub proof fn law_write_blocks<T: BulkTransport>(
    device: &mut ScsiDevice<T>,
    lba: u32,
    count: u16,
    data: &[u8],
    result: Result<(), ScsiError<T::Error>>,
)
    requires
        count * old(device).capacity.block_size <= usize::MAX,
        call_ensures(ScsiDevice::<T>::write_blocks, (device, lba, count, data), result),
    ensures
        ({
            let n = old(device).history().len() as int;
            let span = count * old(device).capacity.block_size;
            if data@.len() != span {
                result is Err && result->Err_0 is DataLength && final(device).history() == old(
                    device,
                ).history()
            } else {
                &&& final(device).history().len() == n + 1
                &&& final(device).history().take(n) == old(device).history()
                &&& final(device).history()[n] matches Exchange::Out { command, data: sent, outcome }
                &&& sent == Some(data@)
                &&& is_block_command(command, 0x2a, lba, count)
                &&& match result {
                    Ok(_) => outcome is Ok,
                    Err(ScsiError::Write { error, .. }) => outcome == Err::<(), T::Error>(error),
                    Err(_) => false,
                }
            }
        }),
{
    let start = old(device).history();
    let end = final(device).history();
    law_block_command_layout(0x2a, lba, count);
    if data@.len() == count * old(device).capacity.block_size {
        assert(end.take(start.len() as int) =~= start);
    }
}

/// An answer to READ CAPACITY gives the geometry that its bytes say, the highest byte first: the last
/// block in the first four and the block size in the next four. One with fewer than eight bytes, or
/// with a block size of nothing, is refused.
pub proof fn law_answer_gives_the_geometry<E>(data: &[u8], result: Result<Capacity, ScsiError<E>>)
    requires
        call_ensures(Capacity::from_answer::<E>, (data,), result),
    ensures
        data@.len() < 8 ==> result is Err && result->Err_0 is CapacityTooShort,
        data@.len() >= 8 ==> {
            let d = data@;
            let last = d[0] * 0x100_0000 + d[1] * 0x1_0000 + d[2] * 0x100 + d[3];
            let size = d[4] * 0x100_0000 + d[5] * 0x1_0000 + d[6] * 0x100 + d[7];
            &&& size == 0 ==> result is Err && result->Err_0 is ZeroBlockSize
            &&& size > 0 ==> {
                &&& result matches Ok(capacity)
                &&& capacity.block_size == size
                &&& last < u32::MAX ==> capacity.num_blocks == last + 1
                &&& last == u32::MAX ==> capacity.num_blocks == u32::MAX
                &&& capacity.total_bytes == capacity.num_blocks * size
            }
        },
{
    if data@.len() >= 8 {
        law_capacity_layout(data@);
    }
}

} // verus!
