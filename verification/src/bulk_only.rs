//! USB Bulk-Only Transport: command and status wrappers, and what both transports have in common.

use vstd::prelude::*;

use crate::types::{TransferOptions, TransferSetup};

verus! {

/// `dCBWSignature`: the bytes `USBC`.
pub const CBW_SIGNATURE: u32 = 0x4342_5355;

/// `dCSWSignature`: the bytes `USBS`.
pub const CSW_SIGNATURE: u32 = 0x5342_5355;

// ---------------------------------------------------------------------------
// Numbers as bytes
// ---------------------------------------------------------------------------

/// A 32-bit number, lowest byte first.
pub open spec fn le_bytes(n: u32) -> Seq<u8> {
    seq![
        (n % 0x100) as u8,
        (n / 0x100 % 0x100) as u8,
        (n / 0x1_0000 % 0x100) as u8,
        (n / 0x100_0000) as u8,
    ]
}

/// The number that four bytes stand for, lowest byte first.
pub open spec fn le_value(b0: u8, b1: u8, b2: u8, b3: u8) -> u32 {
    (b0 + 0x100 * b1 + 0x1_0000 * b2 + 0x100_0000 * b3) as u32
}

/// Reads four bytes, lowest byte first.
pub fn read_le(b0: u8, b1: u8, b2: u8, b3: u8) -> (n: u32)
    ensures
        n == le_value(b0, b1, b2, b3),
        n == b0 + 0x100 * b1 + 0x1_0000 * b2 + 0x100_0000 * b3,
{
    b0 as u32 + 0x100 * b1 as u32 + 0x1_0000 * b2 as u32 + 0x100_0000 * b3 as u32
}

proof fn lemma_le_round_trip(n: u32)
    ensures
        le_value(le_bytes(n)[0], le_bytes(n)[1], le_bytes(n)[2], le_bytes(n)[3]) == n,
{
}

// ---------------------------------------------------------------------------
// Transport trait
// ---------------------------------------------------------------------------

/// One command that a transport carried out, with the device's answer.
pub enum Exchange<E> {
    /// A command whose data comes from the device.
    In { command: Seq<u8>, asked: u32, reply: Result<Seq<u8>, E> },
    /// A command whose data, if any, goes to the device.
    Out { command: Seq<u8>, data: Option<Seq<u8>>, outcome: Result<(), E> },
}

/// A device that takes command blocks over Bulk-Only Transport.
///
/// An implementation owes a `history` that grows with each command by exactly what went out and what
/// came back; a `Ghost` log in the implementing type is one. The default, which stays empty, is no
/// such log: it is for implementations whose contracts are not proved.
pub trait BulkTransport: Sized {
    /// Why a command failed.
    type Error;

    /// The commands carried out so far, oldest first.
    closed spec fn history(&self) -> Seq<Exchange<Self::Error>> {
        Seq::empty()
    }

    /// Sends a command block and receives at most `transfer_len` bytes of data.
    fn command_in(&mut self, cbwcb: &[u8], transfer_len: u32) -> (result: Result<
        Vec<u8>,
        Self::Error,
    >)
        requires
            0 < cbwcb@.len() <= 16,
        ensures
            final(self).history() == old(self).history().push(
                Exchange::In {
                    command: cbwcb@,
                    asked: transfer_len,
                    reply: match result {
                        Ok(data) => Ok(data@),
                        Err(error) => Err(error),
                    },
                },
            ),
            result is Ok ==> result->Ok_0@.len() <= transfer_len,
    ;

    /// Sends a command block, then the data where there is any.
    fn command_out(&mut self, cbwcb: &[u8], data: Option<&[u8]>) -> (result: Result<
        (),
        Self::Error,
    >)
        requires
            0 < cbwcb@.len() <= 16,
        ensures
            final(self).history() == old(self).history().push(
                Exchange::Out {
                    command: cbwcb@,
                    data: match data {
                        Some(bytes) => Some(bytes@),
                        None => None,
                    },
                    outcome: result,
                },
            ),
    ;
}

// ---------------------------------------------------------------------------
// Command Block Wrapper
// ---------------------------------------------------------------------------

/// The 31 bytes of a Command Block Wrapper for logical unit 0.
pub open spec fn cbw_bytes(tag: u32, transfer_len: u32, direction_in: bool, command: Seq<u8>) -> Seq<
    u8,
> {
    le_bytes(CBW_SIGNATURE) + le_bytes(tag) + le_bytes(transfer_len) + seq![
        if direction_in {
            0x80u8
        } else {
            0
        },
        0,
        command.len() as u8,
    ] + command + Seq::new((16 - command.len()) as nat, |i: int| 0u8)
}

fn put_le(bytes: &mut [u8; 31], at: usize, n: u32)
    requires
        at <= 27,
    ensures
        final(bytes)@ == old(bytes)@.take(at as int) + le_bytes(n) + old(bytes)@.skip(at + 4),
{
    bytes[at] = (n % 0x100) as u8;
    bytes[at + 1] = (n / 0x100 % 0x100) as u8;
    bytes[at + 2] = (n / 0x1_0000 % 0x100) as u8;
    bytes[at + 3] = (n / 0x100_0000) as u8;
    assert(bytes@ =~= old(bytes)@.take(at as int) + le_bytes(n) + old(bytes)@.skip(at + 4));
}

/// Builds a Command Block Wrapper.
pub fn build_cbw(tag: u32, transfer_len: u32, direction_in: bool, cbwcb: &[u8]) -> (cbw: [u8; 31])
    requires
        0 < cbwcb@.len() <= 16,
    ensures
        cbw@ == cbw_bytes(tag, transfer_len, direction_in, cbwcb@),
{
    let mut cbw = [0u8;31];
    put_le(&mut cbw, 0, CBW_SIGNATURE);
    put_le(&mut cbw, 4, tag);
    put_le(&mut cbw, 8, transfer_len);
    cbw[12] = if direction_in {
        0x80
    } else {
        0x00
    };
    cbw[14] = cbwcb.len() as u8;
    let ghost head = cbw@.take(15);
    assert(head =~= le_bytes(CBW_SIGNATURE) + le_bytes(tag) + le_bytes(transfer_len) + seq![
        if direction_in {
            0x80u8
        } else {
            0
        },
        0,
        cbwcb@.len() as u8,
    ]);
    let mut i: usize = 0;
    while i < cbwcb.len()
        invariant
            cbwcb@.len() <= 16,
            i <= cbwcb@.len(),
            head.len() == 15,
            cbw@ =~= head + cbwcb@.take(i as int) + Seq::new((16 - i) as nat, |j: int| 0u8),
        decreases cbwcb@.len() - i,
    {
        cbw[15 + i] = cbwcb[i];
        i += 1;
    }
    assert(cbw@ =~= cbw_bytes(tag, transfer_len, direction_in, cbwcb@));
    cbw
}

/// A Command Block Wrapper says exactly one thing: from its bytes the tag, the length, the
/// direction and the command block can be told.
pub proof fn law_cbw_is_unambiguous(
    tag1: u32,
    len1: u32,
    in1: bool,
    command1: Seq<u8>,
    tag2: u32,
    len2: u32,
    in2: bool,
    command2: Seq<u8>,
)
    requires
        0 < command1.len() <= 16,
        0 < command2.len() <= 16,
        cbw_bytes(tag1, len1, in1, command1) == cbw_bytes(tag2, len2, in2, command2),
    ensures
        tag1 == tag2,
        len1 == len2,
        in1 == in2,
        command1 == command2,
{
    lemma_cbw_parts(tag1, len1, in1, command1);
    lemma_cbw_parts(tag2, len2, in2, command2);
    lemma_le_round_trip(tag1);
    lemma_le_round_trip(tag2);
    lemma_le_round_trip(len1);
    lemma_le_round_trip(len2);
    let a = cbw_bytes(tag1, len1, in1, command1);
    assert(a.subrange(15, 15 + command1.len() as int) =~= command1);
    assert(a.subrange(15, 15 + command1.len() as int) =~= command2);
}

proof fn lemma_cbw_parts(tag: u32, len: u32, direction_in: bool, command: Seq<u8>)
    requires
        0 < command.len() <= 16,
    ensures
        ({
            let bytes = cbw_bytes(tag, len, direction_in, command);
            &&& bytes.len() == 31
            &&& bytes[4] == le_bytes(tag)[0]
            &&& bytes[5] == le_bytes(tag)[1]
            &&& bytes[6] == le_bytes(tag)[2]
            &&& bytes[7] == le_bytes(tag)[3]
            &&& bytes[8] == le_bytes(len)[0]
            &&& bytes[9] == le_bytes(len)[1]
            &&& bytes[10] == le_bytes(len)[2]
            &&& bytes[11] == le_bytes(len)[3]
            &&& bytes[12] == (if direction_in {
                0x80u8
            } else {
                0
            })
            &&& bytes[14] == command.len()
            &&& forall|i: int| 0 <= i < command.len() ==> bytes[15 + i] == #[trigger] command[i]
        }),
{
}

/// What the bytes of a Command Block Wrapper are: `USBC`, then the tag and the length of the data,
/// lowest byte first, then 0x80 where the data comes in and 0 where it goes out, the logical unit 0,
/// the length of the command block, and the command block filled up with zeros.
pub proof fn law_cbw_layout(tag: u32, transfer_len: u32, direction_in: bool, command: Seq<u8>)
    requires
        0 < command.len() <= 16,
    ensures
        ({
            let cbw = cbw_bytes(tag, transfer_len, direction_in, command);
            &&& cbw.len() == 31
            &&& cbw[0] == 0x55 && cbw[1] == 0x53 && cbw[2] == 0x42 && cbw[3] == 0x43
            &&& cbw[4] + 0x100 * cbw[5] + 0x1_0000 * cbw[6] + 0x100_0000 * cbw[7] == tag
            &&& cbw[8] + 0x100 * cbw[9] + 0x1_0000 * cbw[10] + 0x100_0000 * cbw[11] == transfer_len
            &&& cbw[12] == 0x80 <==> direction_in
            &&& cbw[12] == 0 <==> !direction_in
            &&& cbw[13] == 0
            &&& cbw[14] == command.len()
            &&& cbw.subrange(15, 15 + command.len() as int) == command
            &&& forall|i: int| 15 + command.len() <= i < 31 ==> #[trigger] cbw[i] == 0
        }),
{
    let cbw = cbw_bytes(tag, transfer_len, direction_in, command);
    lemma_cbw_parts(tag, transfer_len, direction_in, command);
    assert(cbw[0] == le_bytes(CBW_SIGNATURE)[0] && cbw[1] == le_bytes(CBW_SIGNATURE)[1] && cbw[2]
        == le_bytes(CBW_SIGNATURE)[2] && cbw[3] == le_bytes(CBW_SIGNATURE)[3]);
    assert(cbw.subrange(15, 15 + command.len() as int) =~= command);
}

/// Every Command Block Wrapper has 31 bytes.
pub proof fn law_cbw_length(tag: u32, transfer_len: u32, direction_in: bool, command: Seq<u8>)
    requires
        0 < command.len() <= 16,
    ensures
        cbw_bytes(tag, transfer_len, direction_in, command).len() == 31,
{
}

// ---------------------------------------------------------------------------
// Command Status Wrapper
// ---------------------------------------------------------------------------

/// Why a Command Status Wrapper is not an all-clear for the command it should answer.
#[derive(Debug, Clone, Copy, PartialEq, Eq, Structural)]
pub enum CswError {
    /// Fewer than 13 bytes.
    TooShort { len: usize },
    /// The signature is not `USBS`.
    Signature { got: u32 },
    /// It answers another command.
    Tag { got: u32, expected: u32 },
    /// The device reports that the command failed.
    Failed { status: u8 },
}

/// What a Command Status Wrapper says about the command with tag `expected_tag`.
pub open spec fn csw_verdict(csw: Seq<u8>, expected_tag: u32) -> Result<(), CswError> {
    let signature = le_value(csw[0], csw[1], csw[2], csw[3]);
    let tag = le_value(csw[4], csw[5], csw[6], csw[7]);
    if csw.len() < 13 {
        Err(CswError::TooShort { len: csw.len() as usize })
    } else if signature != CSW_SIGNATURE {
        Err(CswError::Signature { got: signature })
    } else if tag != expected_tag {
        Err(CswError::Tag { got: tag, expected: expected_tag })
    } else if csw[12] != 0 {
        Err(CswError::Failed { status: csw[12] })
    } else {
        Ok(())
    }
}

/// Validates a Command Status Wrapper.
pub fn validate_csw(csw_bytes: &[u8], expected_tag: u32) -> (result: Result<(), CswError>)
    ensures
        result == csw_verdict(csw_bytes@, expected_tag),
{
    if csw_bytes.len() < 13 {
        return Err(CswError::TooShort { len: csw_bytes.len() });
    }
    let signature = read_le(csw_bytes[0], csw_bytes[1], csw_bytes[2], csw_bytes[3]);
    if signature != CSW_SIGNATURE {
        return Err(CswError::Signature { got: signature });
    }
    let tag = read_le(csw_bytes[4], csw_bytes[5], csw_bytes[6], csw_bytes[7]);
    if tag != expected_tag {
        return Err(CswError::Tag { got: tag, expected: expected_tag });
    }
    if csw_bytes[12] != 0 {
        return Err(CswError::Failed { status: csw_bytes[12] });
    }
    Ok(())
}

/// What the bytes of a Command Status Wrapper mean: `USBS`, then the tag, lowest byte first, then
/// four bytes that do not matter, then the status. Each thing that can be wrong with it is reported
/// where everything before it is in order.
pub proof fn law_csw_layout(csw: Seq<u8>, tag: u32)
    ensures
        ({
            let signed = csw.len() >= 13 && csw.take(4) == seq![0x55u8, 0x53, 0x42, 0x53];
            let answered = csw[4] + 0x100 * csw[5] + 0x1_0000 * csw[6] + 0x100_0000 * csw[7];
            match csw_verdict(csw, tag) {
                Ok(_) => signed && answered == tag && csw[12] == 0,
                Err(CswError::TooShort { len }) => csw.len() < 13 && len == csw.len() as usize,
                Err(CswError::Signature { got }) => csw.len() >= 13 && !signed && got == csw[0]
                    + 0x100 * csw[1] + 0x1_0000 * csw[2] + 0x100_0000 * csw[3],
                Err(CswError::Tag { got, expected }) => signed && answered != tag && got
                    == answered && expected == tag,
                Err(CswError::Failed { status }) => signed && answered == tag && csw[12] != 0
                    && status == csw[12],
            }
        }),
{
    if csw.len() >= 13 {
        let usbs = seq![0x55u8, 0x53, 0x42, 0x53];
        assert(csw.take(4) == usbs <==> csw[0] == 0x55 && csw[1] == 0x53 && csw[2] == 0x42
            && csw[3] == 0x53) by {
            if csw[0] == 0x55 && csw[1] == 0x53 && csw[2] == 0x42 && csw[3] == 0x53 {
                assert(csw.take(4) =~= usbs);
            }
            if csw.take(4) == usbs {
                assert(csw.take(4)[0] == csw[0] && csw.take(4)[1] == csw[1] && csw.take(4)[2]
                    == csw[2] && csw.take(4)[3] == csw[3]);
                assert(usbs[0] == 0x55 && usbs[1] == 0x53 && usbs[2] == 0x42 && usbs[3] == 0x53);
            }
        }
    }
}

/// A Command Status Wrapper is an all-clear for at most one command.
pub proof fn law_csw_answers_one_tag(csw: Seq<u8>, tag1: u32, tag2: u32)
    requires
        csw_verdict(csw, tag1) is Ok,
        csw_verdict(csw, tag2) is Ok,
    ensures
        tag1 == tag2,
{
}

/// The status wrapper of a device that carried out the command with this tag is accepted.
pub proof fn law_csw_good_status_accepted(tag: u32, residue: Seq<u8>)
    requires
        residue.len() == 4,
    ensures
        csw_verdict(le_bytes(CSW_SIGNATURE) + le_bytes(tag) + residue + seq![0u8], tag) is Ok,
{
    lemma_le_round_trip(CSW_SIGNATURE);
    lemma_le_round_trip(tag);
    let csw = le_bytes(CSW_SIGNATURE) + le_bytes(tag) + residue + seq![0u8];
    assert forall|i: int| 0 <= i < 4 implies csw[i] == le_bytes(CSW_SIGNATURE)[i] && csw[4 + i]
        == le_bytes(tag)[i] by {}
    assert(csw[12] == 0);
}

// ---------------------------------------------------------------------------
// Tags
// ---------------------------------------------------------------------------

/// The tag that comes `n` commands after `tag`.
pub open spec fn tag_after(tag: u32, n: nat) -> u32 {
    ((tag + n) % 0x1_0000_0000) as u32
}

/// The next tag is one more, and 0 after the last.
pub proof fn law_tags_count_up(tag: u32, n: nat)
    ensures
        tag_after(tag, 0) == tag,
        tag_after(tag, n) < u32::MAX ==> tag_after(tag, n + 1) == tag_after(tag, n) + 1,
        tag_after(tag, n) == u32::MAX ==> tag_after(tag, n + 1) == 0,
{
}

/// No two of any 2^32 successive commands have the same tag.
pub proof fn law_tags_do_not_repeat(tag: u32, m: nat, n: nat)
    requires
        m < n,
        n - m < 0x1_0000_0000,
    ensures
        tag_after(tag, m) != tag_after(tag, n),
{
}

/// Advances a tag counter and gives back the tag to use.
pub fn take_tag(counter: &mut u32) -> (tag: u32)
    ensures
        tag == *old(counter),
        *final(counter) == tag_after(*old(counter), 1),
{
    let tag = *counter;
    *counter = if tag == u32::MAX {
        0
    } else {
        tag + 1
    };
    tag
}

// ---------------------------------------------------------------------------
// The two transports
// ---------------------------------------------------------------------------

/// The state of a Bulk-Only Transport device that is reached through rusb.
#[derive(Debug, Clone, Copy, PartialEq, Eq, Structural)]
pub struct NativeTransport {
    pub bulk_in: u8,
    pub bulk_out: u8,
    pub tag: u32,
    pub interface_number: u8,
}

impl NativeTransport {
    /// The tag of the next command.
    pub fn next_tag(&mut self) -> (tag: u32)
        ensures
            tag == old(self).tag,
            *final(self) == (NativeTransport { tag: tag_after(old(self).tag, 1), ..*old(self) }),
    {
        take_tag(&mut self.tag)
    }
}

/// The state of a Bulk-Only Transport device that is reached through the `component:usb` interface.
#[derive(Debug, Clone, Copy, PartialEq, Eq, Structural)]
pub struct WasmTransport {
    pub bulk_in: u8,
    pub bulk_out: u8,
    pub tag: u32,
    pub interface_number: u8,
}

impl WasmTransport {
    /// The tag of the next command.
    pub fn next_tag(&mut self) -> (tag: u32)
        ensures
            tag == old(self).tag,
            *final(self) == (WasmTransport { tag: tag_after(old(self).tag, 1), ..*old(self) }),
    {
        take_tag(&mut self.tag)
    }

    /// Transfers to `endpoint`, with ten seconds to finish.
    pub open spec fn options_for(endpoint: u8) -> TransferOptions {
        TransferOptions { endpoint, timeout_ms: 10_000, stream_id: 0, iso_packets: 0 }
    }

    /// How to send to the device.
    pub fn bulk_out_opts(&self) -> (opts: TransferOptions)
        ensures
            opts == Self::options_for(self.bulk_out),
    {
        TransferOptions { endpoint: self.bulk_out, timeout_ms: 10_000, stream_id: 0, iso_packets: 0 }
    }

    /// How to receive from the device.
    pub fn bulk_in_opts(&self) -> (opts: TransferOptions)
        ensures
            opts == Self::options_for(self.bulk_in),
    {
        TransferOptions { endpoint: self.bulk_in, timeout_ms: 10_000, stream_id: 0, iso_packets: 0 }
    }

    /// The setup of a transfer that has none.
    pub fn empty_setup() -> (setup: TransferSetup)
        ensures
            setup == (TransferSetup { bm_request_type: 0, b_request: 0, w_value: 0, w_index: 0 }),
    {
        TransferSetup { bm_request_type: 0, b_request: 0, w_value: 0, w_index: 0 }
    }

    /// Builds a Command Block Wrapper.
    pub fn build_cbw(tag: u32, transfer_len: u32, direction_in: bool, cbwcb: &[u8]) -> (cbw: [u8;
        31])
        requires
            0 < cbwcb@.len() <= 16,
        ensures
            cbw@ == cbw_bytes(tag, transfer_len, direction_in, cbwcb@),
    {
        build_cbw(tag, transfer_len, direction_in, cbwcb)
    }

    /// Validates a Command Status Wrapper.
    pub fn validate_csw(csw_bytes: &[u8], expected_tag: u32) -> (result: Result<(), CswError>)
        ensures
            result == csw_verdict(csw_bytes@, expected_tag),
    {
        validate_csw(csw_bytes, expected_tag)
    }
}

/// Transfers in each direction go to the endpoint of that direction, with ten seconds to finish.
pub proof fn law_each_direction_has_its_endpoint(
    transport: WasmTransport,
    receiving: TransferOptions,
    sending: TransferOptions,
)
    requires
        call_ensures(WasmTransport::bulk_in_opts, (&transport,), receiving),
        call_ensures(WasmTransport::bulk_out_opts, (&transport,), sending),
    ensures
        receiving.endpoint == transport.bulk_in,
        sending.endpoint == transport.bulk_out,
        receiving.timeout_ms == 10_000,
        sending.timeout_ms == 10_000,
        receiving.stream_id == 0,
        sending.stream_id == 0,
        receiving.iso_packets == 0,
        sending.iso_packets == 0,
{
}

} // verus!
