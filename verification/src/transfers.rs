//! USB transfers: how a request is laid out for libusb, what a guest may submit, and what a
//! finished transfer means.

use vstd::prelude::*;

use crate::types::{
    IsoPacket, IsoPacketStatus, LibusbError, TransferOptions, TransferResult, TransferSetup,
    TransferType,
};
#[allow(unused_imports)]
use crate::types;

verus! {

/// `LIBUSB_TRANSFER_TYPE_CONTROL`.
pub const TYPE_CONTROL: u8 = 0;

/// `LIBUSB_TRANSFER_TYPE_ISOCHRONOUS`.
pub const TYPE_ISOCHRONOUS: u8 = 1;

/// `LIBUSB_TRANSFER_TYPE_BULK`.
pub const TYPE_BULK: u8 = 2;

/// `LIBUSB_TRANSFER_TYPE_INTERRUPT`.
pub const TYPE_INTERRUPT: u8 = 3;

/// `LIBUSB_TRANSFER_COMPLETED`.
pub const STATUS_COMPLETED: i32 = 0;

/// `LIBUSB_TRANSFER_ERROR`.
pub const STATUS_ERROR: i32 = 1;

/// `LIBUSB_TRANSFER_TIMED_OUT`.
pub const STATUS_TIMED_OUT: i32 = 2;

/// `LIBUSB_TRANSFER_CANCELLED`.
pub const STATUS_CANCELLED: i32 = 3;

/// `LIBUSB_TRANSFER_STALL`.
pub const STATUS_STALL: i32 = 4;

/// `LIBUSB_TRANSFER_NO_DEVICE`.
pub const STATUS_NO_DEVICE: i32 = 5;

/// `LIBUSB_TRANSFER_OVERFLOW`.
pub const STATUS_OVERFLOW: i32 = 6;

// ---------------------------------------------------------------------------
// Laying out a new transfer
// ---------------------------------------------------------------------------

/// libusb's number for a transfer type.
pub open spec fn type_code(kind: TransferType) -> u8 {
    match kind {
        TransferType::Control => TYPE_CONTROL,
        TransferType::Isochronous => TYPE_ISOCHRONOUS,
        TransferType::Bulk => TYPE_BULK,
        TransferType::Interrupt => TYPE_INTERRUPT,
    }
}

/// A 32-bit count as the signed number with the same bits.
pub open spec fn signed_bits(x: u32) -> int {
    if x <= i32::MAX {
        x as int
    } else {
        x - 0x1_0000_0000
    }
}

/// `count` zero bytes.
pub open spec fn zero_bytes(count: nat) -> Seq<u8> {
    Seq::new(count, |i: int| 0u8)
}

/// The eight bytes that open the buffer of a control transfer: the request, then the low sixteen
/// bits of the data length, all numbers little-endian.
pub open spec fn setup_packet(setup: TransferSetup, data_len: u32) -> Seq<u8> {
    seq![
        setup.bm_request_type,
        setup.b_request,
        (setup.w_value % 256) as u8,
        (setup.w_value / 256) as u8,
        (setup.w_index % 256) as u8,
        (setup.w_index / 256) as u8,
        (data_len % 256) as u8,
        ((data_len / 256) % 256) as u8,
    ]
}

/// The buffer of a new transfer.
pub open spec fn new_buffer(kind: TransferType, setup: TransferSetup, buf_size: u32) -> Seq<u8> {
    if kind == TransferType::Control {
        setup_packet(setup, buf_size) + zero_bytes(buf_size as nat)
    } else {
        zero_bytes(buf_size as nat)
    }
}

/// How many isochronous packets a new transfer asks libusb for.
pub open spec fn packet_request(kind: TransferType, opts: TransferOptions) -> int {
    if kind == TransferType::Isochronous {
        signed_bits(opts.iso_packets)
    } else {
        0
    }
}

/// The length of packet `i` when `size` bytes are spread over `count` packets: equal shares, the
/// last packet also taking what is left over.
pub open spec fn packet_length(size: int, count: int, i: int) -> int {
    if i == count - 1 {
        size / count + size % count
    } else {
        size / count
    }
}

/// The lengths of all `count` packets.
pub open spec fn packet_lengths(size: int, count: int) -> Seq<int> {
    Seq::new(
        if count > 0 {
            count as nat
        } else {
            0
        },
        |i: int| packet_length(size, count, i),
    )
}

/// The sum of a sequence of numbers.
pub open spec fn total(lengths: Seq<int>) -> int
    decreases lengths.len(),
{
    if lengths.len() == 0 {
        0
    } else {
        total(lengths.drop_last()) + lengths.last()
    }
}

/// Everything libusb is told about a new transfer.
#[derive(Debug)]
pub struct TransferPlan {
    /// The packet count to allocate the transfer with.
    pub iso_packets: i32,
    pub endpoint: u8,
    pub transfer_type: u8,
    pub timeout: u32,
    /// The bulk stream to use, where one is asked for.
    pub stream_id: Option<u32>,
    pub buffer: Vec<u8>,
    pub length: i32,
    /// The length of each isochronous packet.
    pub packet_lengths: Vec<u32>,
    /// The data length that the guest asked for.
    pub buf_len: u32,
    pub setup: TransferSetup,
}

impl TransferPlan {
    /// The buffer has room for exactly the data and, for a control transfer, the setup packet.
    pub open spec fn wf(&self) -> bool {
        self.buffer@.len() == self.buf_len + (if self.transfer_type == TYPE_CONTROL {
            8int
        } else {
            0
        })
    }

    /// This plan carries out the given request.
    pub open spec fn realises(
        self,
        kind: TransferType,
        setup: TransferSetup,
        buf_size: u32,
        opts: TransferOptions,
    ) -> bool {
        &&& self.iso_packets == packet_request(kind, opts)
        &&& self.endpoint == opts.endpoint
        &&& self.transfer_type == type_code(kind)
        &&& self.timeout == opts.timeout_ms
        &&& self.stream_id == (if opts.stream_id != 0 {
            Some(opts.stream_id)
        } else {
            None
        })
        &&& self.buffer@ == new_buffer(kind, setup, buf_size)
        &&& self.length == signed_bits(new_buffer(kind, setup, buf_size).len() as u32)
        &&& self.packet_lengths@.map_values(|n: u32| n as int) == packet_lengths(
            buf_size as int,
            packet_request(kind, opts),
        )
        &&& self.buf_len == buf_size
        &&& self.setup == setup
    }
}

fn to_signed_bits(x: u32) -> (n: i32)
    ensures
        n == signed_bits(x),
{
    if x <= 0x7fff_ffff {
        x as i32
    } else {
        (x as i64 - 0x1_0000_0000) as i32
    }
}

fn transfer_type_code(kind: TransferType) -> (code: u8)
    ensures
        code == type_code(kind),
{
    match kind {
        TransferType::Control => TYPE_CONTROL,
        TransferType::Isochronous => TYPE_ISOCHRONOUS,
        TransferType::Bulk => TYPE_BULK,
        TransferType::Interrupt => TYPE_INTERRUPT,
    }
}

/// `count` zero bytes, as a buffer.
pub fn zeroed(count: usize) -> (bytes: Vec<u8>)
    ensures
        bytes@ == zero_bytes(count as nat),
{
    let bytes = vec![0u8; count];
    assert(bytes@ =~= zero_bytes(count as nat));
    bytes
}

fn lay_out_buffer(kind: TransferType, setup: TransferSetup, buf_size: u32) -> (buffer: Vec<u8>)
    requires
        kind == TransferType::Control ==> buf_size <= u32::MAX - 8,
    ensures
        buffer@ == new_buffer(kind, setup, buf_size),
{
    let total_len: u32 = if kind == TransferType::Control {
        8 + buf_size
    } else {
        buf_size
    };
    let mut buffer = zeroed(total_len as usize);
    if kind == TransferType::Control {
        let w_value: u16 = setup.w_value;
        let w_index: u16 = setup.w_index;
        assert((w_value & 0xff) as u8 == (w_value % 256) as u8 && (w_value >> 8) as u8 == (w_value
            / 256) as u8) by (bit_vector);
        assert((w_index & 0xff) as u8 == (w_index % 256) as u8 && (w_index >> 8) as u8 == (w_index
            / 256) as u8) by (bit_vector);
        assert((buf_size & 0xff) as u8 == (buf_size % 256) as u8 && ((buf_size >> 8) & 0xff) as u8
            == ((buf_size / 256) % 256) as u8) by (bit_vector);
        buffer.set(0, setup.bm_request_type);
        buffer.set(1, setup.b_request);
        buffer.set(2, (w_value & 0xff) as u8);
        buffer.set(3, (w_value >> 8) as u8);
        buffer.set(4, (w_index & 0xff) as u8);
        buffer.set(5, (w_index >> 8) as u8);
        buffer.set(6, (buf_size & 0xff) as u8);
        buffer.set(7, ((buf_size >> 8) & 0xff) as u8);
        assert(buffer@ =~= setup_packet(setup, buf_size) + zero_bytes(buf_size as nat));
    }
    buffer
}

fn lay_out_packets(size: u32, count: i32) -> (lengths: Vec<u32>)
    ensures
        lengths@.map_values(|n: u32| n as int) == packet_lengths(size as int, count as int),
{
    let mut lengths: Vec<u32> = Vec::new();
    if count > 0 {
        let packets = count as u32;
        let base: u32 = size / packets;
        let rem: u32 = size % packets;
        assert(base + rem <= size) by (nonlinear_arith)
            requires
                base == size / packets,
                rem == size % packets,
                packets > 0,
        ;
        let mut i: u32 = 0;
        while i < packets
            invariant
                packets == count,
                count > 0,
                base == size as int / count as int,
                rem == size as int % count as int,
                base + rem <= u32::MAX,
                i <= packets,
                lengths@.len() == i,
                forall|j: int|
                    0 <= j < i ==> lengths@[j] == packet_length(size as int, count as int, j),
            decreases packets - i,
        {
            let len: u32 = if i == packets - 1 {
                base + rem
            } else {
                base
            };
            lengths.push(len);
            i += 1;
        }
    }
    assert(lengths@.map_values(|n: u32| n as int) =~= packet_lengths(size as int, count as int));
    lengths
}

/// Works out what to tell libusb about a transfer of `buf_size` data bytes.
///
/// A control transfer carries its setup packet in front of the data; an isochronous one is cut
/// into packets; a stream is named only where its number is not zero.
pub fn plan_transfer(
    kind: TransferType,
    setup: TransferSetup,
    buf_size: u32,
    opts: TransferOptions,
) -> (plan: TransferPlan)
    requires
        kind == TransferType::Control ==> buf_size <= u32::MAX - 8,
    ensures
        plan.realises(kind, setup, buf_size, opts),
        plan.wf(),
{
    let iso_packets: i32 = if kind == TransferType::Isochronous {
        to_signed_bits(opts.iso_packets)
    } else {
        0
    };
    let buffer = lay_out_buffer(kind, setup, buf_size);
    let length = to_signed_bits(buffer.len() as u32);
    let packet_lengths = lay_out_packets(buf_size, iso_packets);
    TransferPlan {
        iso_packets,
        endpoint: opts.endpoint,
        transfer_type: transfer_type_code(kind),
        timeout: opts.timeout_ms,
        stream_id: if opts.stream_id != 0 {
            Some(opts.stream_id)
        } else {
            None
        },
        buffer,
        length,
        packet_lengths,
        buf_len: buf_size,
        setup,
    }
}

/// From a setup packet the request and the low sixteen bits of the data length can be told.
pub proof fn law_setup_packet_reads_back(setup: TransferSetup, data_len: u32)
    ensures
        ({
            let packet = setup_packet(setup, data_len);
            &&& packet.len() == 8
            &&& packet[0] == setup.bm_request_type
            &&& packet[1] == setup.b_request
            &&& packet[2] + 256 * packet[3] == setup.w_value
            &&& packet[4] + 256 * packet[5] == setup.w_index
            &&& packet[6] + 256 * packet[7] == data_len % 0x1_0000
        }),
{
}

/// The packets of an isochronous transfer together cover its buffer exactly.
pub proof fn law_packets_cover_buffer(size: int, count: int)
    requires
        0 <= size,
        0 < count,
    ensures
        total(packet_lengths(size, count)) == size,
        forall|i: int| 0 <= i < count ==> 0 <= #[trigger] packet_lengths(size, count)[i] <= size,
{
    let lengths = packet_lengths(size, count);
    let front = lengths.drop_last();
    let share = size / count;
    assert forall|i: int| 0 <= i < front.len() implies front[i] == share by {}
    lemma_equal_shares(front, share);
    assert(size == count * share + size % count) by {
        vstd::arithmetic::div_mod::lemma_fundamental_div_mod(size, count);
    }
    assert(0 <= share <= size && 0 <= size % count) by (nonlinear_arith)
        requires
            share == size / count,
            0 <= size,
            0 < count,
    ;
    assert((count - 1) * share + share == count * share) by (nonlinear_arith);
    assert(share + size % count <= size) by (nonlinear_arith)
        requires
            size == count * share + size % count,
            0 < count,
            0 <= share,
    ;
}

proof fn lemma_equal_shares(lengths: Seq<int>, share: int)
    requires
        forall|i: int| 0 <= i < lengths.len() ==> lengths[i] == share,
    ensures
        total(lengths) == lengths.len() * share,
    decreases lengths.len(),
{
    if lengths.len() > 0 {
        lemma_equal_shares(lengths.drop_last(), share);
        assert((lengths.len() - 1) * share + share == lengths.len() * share) by (nonlinear_arith);
    } else {
        assert(0 * share == 0) by (nonlinear_arith);
    }
}

// ---------------------------------------------------------------------------
// Submitting
// ---------------------------------------------------------------------------

/// A transfer between its creation and the moment the guest lets go of it.
///
/// The completion flag and the result channel are shared with libusb's event thread; whether the
/// flag is set is handed to each operation as it is observed.
#[derive(Debug)]
pub struct UsbTransfer {
    /// The address of libusb's transfer.
    pub transfer: usize,
    pub transfer_type: u8,
    pub endpoint: u8,
    /// The buffer, until it is handed over with the submission.
    pub buffer: Option<Vec<u8>>,
    /// The data length, without a setup packet.
    pub buf_len: u32,
    /// A result channel is waiting: the transfer was submitted and not yet awaited.
    pub receiver: bool,
    pub control_setup: Option<TransferSetup>,
}

impl UsbTransfer {
    /// How many buffer bytes stand in front of the data.
    pub open spec fn data_offset(&self) -> nat {
        if self.transfer_type == TYPE_CONTROL {
            8
        } else {
            0
        }
    }

    /// A transfer as `from_plan` makes it and the other operations keep it: it knows its control
    /// setup, and a buffer that is still there has room for exactly the data.
    pub open spec fn wf(&self) -> bool {
        &&& self.control_setup is Some
        &&& match self.buffer {
            Some(buffer) => buffer@.len() == self.data_offset() + self.buf_len,
            None => true,
        }
    }

    /// Data flows from the device to the host: the setup says so for a control transfer, the
    /// endpoint for any other.
    pub open spec fn is_in(&self) -> bool {
        if self.transfer_type == TYPE_CONTROL {
            self.control_setup->0.bm_request_type >= 0x80
        } else {
            self.endpoint >= 0x80
        }
    }

    /// Why a submission of `data_len` bytes is turned down before libusb sees it.
    pub open spec fn rejection(&self, completed: bool, data_len: nat) -> Option<LibusbError> {
        if completed {
            Some(LibusbError::Busy)
        } else if !self.is_in() && data_len != self.buf_len {
            Some(LibusbError::InvalidParam)
        } else {
            None
        }
    }

    /// The buffer that goes to libusb: the data of an outgoing transfer is put in place, an
    /// incoming transfer's buffer stays as it is.
    pub open spec fn submission(&self, data: Seq<u8>) -> Seq<u8> {
        if self.is_in() {
            self.buffer->0@
        } else {
            self.buffer->0@.take(self.data_offset() as int) + data
        }
    }

    /// The same transfer without its buffer.
    pub open spec fn handed_over(self) -> Self {
        UsbTransfer { buffer: None, ..self }
    }

    /// The same transfer, with or without a waiting result channel.
    pub open spec fn with_receiver(self, receiver: bool) -> Self {
        UsbTransfer { receiver, ..self }
    }

    /// The transfer that libusb allocated at address `transfer` for `plan`.
    pub fn from_plan(plan: TransferPlan, transfer: usize) -> (made: Self)
        ensures
            made.transfer == transfer,
            made.transfer_type == plan.transfer_type,
            made.endpoint == plan.endpoint,
            made.buffer == Some(plan.buffer),
            made.buf_len == plan.buf_len,
            made.receiver == false,
            made.control_setup == Some(plan.setup),
            plan.wf() ==> made.wf(),
    {
        UsbTransfer {
            transfer,
            transfer_type: plan.transfer_type,
            endpoint: plan.endpoint,
            buffer: Some(plan.buffer),
            buf_len: plan.buf_len,
            receiver: false,
            control_setup: Some(plan.setup),
        }
    }

    fn direction_in(&self) -> (yes: bool)
        requires
            self.control_setup is Some,
        ensures
            yes == self.is_in(),
    {
        let bits: u8 = if self.transfer_type == TYPE_CONTROL {
            self.control_setup.unwrap().bm_request_type
        } else {
            self.endpoint
        };
        assert((bits & 0x80 != 0) == (bits >= 0x80)) by (bit_vector);
        bits & 0x80 != 0
    }

    /// Why a submission of `data_len` bytes is turned down, if it is.
    pub fn reject(&self, completed: bool, data_len: usize) -> (reason: Option<LibusbError>)
        requires
            self.wf(),
        ensures
            reason == self.rejection(completed, data_len as nat),
    {
        if completed {
            Some(LibusbError::Busy)
        } else if !self.direction_in() && data_len as u64 != self.buf_len as u64 {
            Some(LibusbError::InvalidParam)
        } else {
            None
        }
    }

    /// Checks a submission and hands over the filled buffer.
    ///
    /// A transfer that already completed is `Busy`; outgoing data must have exactly the length
    /// the transfer was made for.
    pub fn submit(&mut self, completed: bool, data: &[u8]) -> (result: Result<Vec<u8>, LibusbError>)
        requires
            old(self).wf(),
            old(self).rejection(completed, data@.len()) is None ==> old(self).buffer is Some,
        ensures
            final(self).wf(),
            match old(self).rejection(completed, data@.len()) {
                Some(error) => result == Err::<Vec<u8>, LibusbError>(error) && *final(self)
                    == *old(self),
                None => result is Ok && result->Ok_0@ == old(self).submission(data@) && *final(self)
                    == old(self).handed_over(),
            },
            !completed && (if old(self).transfer_type == 0 {
                old(self).control_setup->0.bm_request_type >= 0x80
            } else {
                old(self).endpoint >= 0x80
            }) ==> result is Ok && result->Ok_0@ == old(self).buffer->0@,
    {
        if let Some(error) = self.reject(completed, data.len()) {
            return Err(error);
        }
        let incoming = self.direction_in();
        let mut buffer = self.buffer.take().unwrap();
        if !incoming {
            let offset: usize = if self.transfer_type == TYPE_CONTROL {
                8
            } else {
                0
            };
            let ghost filled = buffer@;
            buffer.truncate(offset);
            buffer.extend_from_slice(data);
            assert(buffer@ =~= filled.take(offset as int) + data@);
        }
        Ok(buffer)
    }

    /// Takes libusb's answer to a submission: on success a result channel waits.
    pub fn submitted(&mut self, rc: i32) -> (result: Result<(), LibusbError>)
        ensures
            rc < 0 ==> result == Err::<(), LibusbError>(types::error_of(rc as int)) && *final(self)
                == *old(self),
            rc >= 0 ==> result == Ok::<(), LibusbError>(()) && *final(self) == old(
                self,
            ).with_receiver(true),
    {
        if rc < 0 {
            Err(LibusbError::from_raw(rc))
        } else {
            self.receiver = true;
            Ok(())
        }
    }

    /// Claims the waiting result channel; without one there is nothing to await.
    pub fn begin_await(&mut self) -> (result: Result<(), LibusbError>)
        ensures
            old(self).receiver ==> result == Ok::<(), LibusbError>(()),
            !old(self).receiver ==> result == Err::<(), LibusbError>(LibusbError::NotFound),
            *final(self) == old(self).with_receiver(false),
    {
        if self.receiver {
            self.receiver = false;
            Ok(())
        } else {
            Err(LibusbError::NotFound)
        }
    }

    /// What has to happen to libusb's transfer when the guest drops it.
    pub fn drop_action(&self, completed: bool) -> (action: DropAction)
        ensures
            action == drop_action_of(completed, self.receiver),
    {
        if completed {
            DropAction::Nothing
        } else if self.receiver {
            DropAction::Cancel
        } else {
            DropAction::Free
        }
    }
}

/// A transfer that brings data in takes any submission, one without data too, and hands its buffer
/// over unchanged. Bulk, interrupt and isochronous transfers bring data in on the endpoints from 0x80
/// on, control transfers where the request type is 0x80 or more.
pub proof fn law_incoming_transfer_takes_any_data(transfer: UsbTransfer, data: Seq<u8>)
    requires
        transfer.buffer is Some,
        transfer.control_setup is Some,
        ({
            let code = transfer.transfer_type;
            ||| code == 0 && transfer.control_setup->0.bm_request_type >= 0x80
            ||| code == 1 && transfer.endpoint >= 0x80
            ||| code == 2 && transfer.endpoint >= 0x80
            ||| code == 3 && transfer.endpoint >= 0x80
        }),
    ensures
        transfer.rejection(false, data.len()) is None,
        transfer.submission(data) == transfer.buffer->0@,
{
}

/// A transfer that sends data out takes exactly as many bytes as it was made for, and puts them
/// where the zeros stood: behind the eight bytes of the setup packet for a control transfer, else
/// from the start on. Bulk, interrupt and isochronous transfers send on the endpoints below 0x80,
/// control transfers where the request type is below 0x80.
pub proof fn law_outgoing_transfer_takes_its_length(transfer: UsbTransfer, data: Seq<u8>)
    requires
        transfer.wf(),
        transfer.buffer is Some,
        ({
            let code = transfer.transfer_type;
            ||| code == 0 && transfer.control_setup->0.bm_request_type < 0x80
            ||| code == 1 && transfer.endpoint < 0x80
            ||| code == 2 && transfer.endpoint < 0x80
            ||| code == 3 && transfer.endpoint < 0x80
        }),
    ensures
        data.len() != transfer.buf_len ==> transfer.rejection(false, data.len()) == Some(
            LibusbError::InvalidParam,
        ),
        data.len() == transfer.buf_len ==> {
            let front = if transfer.transfer_type == 0 {
                8int
            } else {
                0
            };
            let buffer = transfer.buffer->0@;
            let sent = transfer.submission(data);
            &&& transfer.rejection(false, data.len()) is None
            &&& sent.len() == buffer.len()
            &&& forall|i: int| 0 <= i < front ==> #[trigger] sent[i] == buffer[i]
            &&& forall|i: int| 0 <= i < data.len() ==> sent[front + i] == #[trigger] data[i]
        },
{
}

/// Handing the buffer over takes the buffer and nothing else; a result channel that waits, or no
/// longer waits, makes no other difference to its transfer.
pub proof fn law_transfer_stays_what_it_is(transfer: UsbTransfer, receiver: bool)
    ensures
        ({
            let handed = transfer.handed_over();
            let waits = transfer.with_receiver(receiver);
            &&& handed.buffer is None
            &&& handed.receiver == transfer.receiver
            &&& waits.receiver == receiver
            &&& waits.buffer == transfer.buffer
            &&& forall|t: UsbTransfer|
                t == handed || t == waits ==> (#[trigger] t.transfer) == transfer.transfer
                    && t.transfer_type == transfer.transfer_type && t.endpoint == transfer.endpoint
                    && t.buf_len == transfer.buf_len && t.control_setup == transfer.control_setup
        }),
{
}

/// A transfer that has completed takes nothing, whichever way its data goes.
pub proof fn law_completed_transfer_is_busy(transfer: UsbTransfer, data_len: nat)
    ensures
        transfer.rejection(true, data_len) == Some(LibusbError::Busy),
{
}

/// A plan tells libusb what the guest asked for: the type by its number (control 0, isochronous 1,
/// bulk 2, interrupt 3), the endpoint and the time limit as they are, a stream only where its
/// number is not zero, and packets only for an isochronous transfer. The buffer is all zeros but for
/// the setup packet that opens that of a control transfer.
pub proof fn law_plan_is_what_was_asked_for(
    plan: TransferPlan,
    kind: TransferType,
    setup: TransferSetup,
    buf_size: u32,
    opts: TransferOptions,
)
    requires
        plan.realises(kind, setup, buf_size, opts),
        kind == TransferType::Control ==> buf_size <= u32::MAX - 8,
    ensures
        plan.transfer_type == 0 <==> kind == TransferType::Control,
        plan.transfer_type == 1 <==> kind == TransferType::Isochronous,
        plan.transfer_type == 2 <==> kind == TransferType::Bulk,
        plan.transfer_type == 3 <==> kind == TransferType::Interrupt,
        plan.endpoint == opts.endpoint,
        plan.timeout == opts.timeout_ms,
        opts.stream_id == 0 ==> plan.stream_id is None,
        opts.stream_id != 0 ==> plan.stream_id == Some(opts.stream_id),
        kind != TransferType::Isochronous ==> plan.iso_packets == 0,
        kind == TransferType::Isochronous && opts.iso_packets <= i32::MAX ==> plan.iso_packets
            == opts.iso_packets,
        kind == TransferType::Isochronous && opts.iso_packets > i32::MAX ==> plan.iso_packets
            == opts.iso_packets - 0x1_0000_0000,
        plan.iso_packets <= 0 ==> plan.packet_lengths@.len() == 0,
        plan.buf_len == buf_size,
        plan.setup == setup,
        plan.buffer@.len() <= i32::MAX ==> plan.length == plan.buffer@.len(),
        plan.buffer@.len() > i32::MAX ==> plan.length == plan.buffer@.len() - 0x1_0000_0000,
        ({
            let front = if kind == TransferType::Control {
                8int
            } else {
                0
            };
            let buffer = plan.buffer@;
            &&& buffer.len() == front + buf_size
            &&& forall|i: int| front <= i < buffer.len() ==> #[trigger] buffer[i] == 0
            &&& front > 0 ==> {
                &&& buffer[0] == setup.bm_request_type
                &&& buffer[1] == setup.b_request
                &&& buffer[2] + 256 * buffer[3] == setup.w_value
                &&& buffer[4] + 256 * buffer[5] == setup.w_index
                &&& buffer[6] + 256 * buffer[7] == buf_size % 0x1_0000
            }
        }),
{
    law_setup_packet_reads_back(setup, buf_size);
    let lengths = plan.packet_lengths@.map_values(|n: u32| n as int);
    assert(lengths.len() == plan.packet_lengths@.len());
    let packet = setup_packet(setup, buf_size);
    if kind == TransferType::Control {
        assert forall|i: int| 0 <= i < 8 implies plan.buffer@[i] == packet[i] by {}
        assert(plan.buffer@[0] == packet[0] && plan.buffer@[1] == packet[1] && plan.buffer@[2]
            == packet[2] && plan.buffer@[3] == packet[3] && plan.buffer@[4] == packet[4]
            && plan.buffer@[5] == packet[5] && plan.buffer@[6] == packet[6] && plan.buffer@[7]
            == packet[7]);
    }
}

/// An isochronous plan cuts its buffer into as many packets as the guest asked for. All but the last
/// are equally long, the last is the longest by less than the number of packets, and together they
/// are the buffer.
pub proof fn law_planned_packets(
    plan: TransferPlan,
    setup: TransferSetup,
    buf_size: u32,
    opts: TransferOptions,
)
    requires
        plan.realises(TransferType::Isochronous, setup, buf_size, opts),
        0 < opts.iso_packets <= i32::MAX,
    ensures
        ({
            let lengths = plan.packet_lengths@;
            let last = lengths.len() - 1;
            &&& lengths.len() == opts.iso_packets
            &&& forall|i: int| 0 <= i < last ==> #[trigger] lengths[i] == lengths[0]
            &&& lengths[0] <= lengths[last] < lengths[0] + opts.iso_packets
            &&& total(lengths.map_values(|n: u32| n as int)) == buf_size
        }),
{
    let count = opts.iso_packets as int;
    let size = buf_size as int;
    let lengths = plan.packet_lengths@.map_values(|n: u32| n as int);
    law_packets_cover_buffer(size, count);
    assert(lengths == packet_lengths(size, count));
    assert forall|i: int| 0 <= i < count implies plan.packet_lengths@[i] == #[trigger] packet_length(
        size,
        count,
        i,
    ) by {
        assert(lengths[i] == packet_lengths(size, count)[i]);
    }
    assert(plan.packet_lengths@[0] == packet_length(size, count, 0));
    assert(plan.packet_lengths@[count - 1] == packet_length(size, count, count - 1));
    assert forall|i: int| 0 <= i < count - 1 implies #[trigger] plan.packet_lengths@[i]
        == plan.packet_lengths@[0] by {
        assert(plan.packet_lengths@[i] == packet_length(size, count, i));
    }
    assert(0 <= size % count < count) by (nonlinear_arith)
        requires
            0 < count,
    ;
    if count == 1 {
        assert(size % 1 == 0);
    }
}

/// What goes over the wire when a guest makes a transfer and submits outgoing data to it: the data
/// alone, or behind the setup packet for a control transfer.
pub proof fn law_submitted_data_goes_out(
    kind: TransferType,
    setup: TransferSetup,
    buf_size: u32,
    opts: TransferOptions,
    plan: TransferPlan,
    transfer: UsbTransfer,
    data: Seq<u8>,
)
    requires
        plan.realises(kind, setup, buf_size, opts),
        transfer.transfer_type == plan.transfer_type,
        transfer.endpoint == plan.endpoint,
        transfer.buffer == Some(plan.buffer),
        transfer.buf_len == plan.buf_len,
        transfer.control_setup == Some(plan.setup),
        !transfer.is_in(),
        transfer.rejection(false, data.len()) is None,
    ensures
        kind == TransferType::Control ==> transfer.submission(data) == setup_packet(setup, buf_size)
            + data,
        kind != TransferType::Control ==> transfer.submission(data) == data,
        data.len() == buf_size,
{
    if kind == TransferType::Control {
        assert(new_buffer(kind, setup, buf_size).take(8) =~= setup_packet(setup, buf_size));
    } else {
        assert(transfer.submission(data) =~= data);
    }
}

/// What dropping a transfer asks of libusb.
#[derive(Debug, Clone, Copy, PartialEq, Eq, Structural)]
pub enum DropAction {
    /// The completion callback has freed it already.
    Nothing,
    /// It is in flight: cancel it, the completion callback will free it.
    Cancel,
    /// It was never submitted: free it.
    Free,
}

/// Completed transfers need nothing, those in flight are cancelled, others are freed.
pub open spec fn drop_action_of(completed: bool, receiver: bool) -> DropAction {
    if completed {
        DropAction::Nothing
    } else if receiver {
        DropAction::Cancel
    } else {
        DropAction::Free
    }
}

// ---------------------------------------------------------------------------
// Completion
// ---------------------------------------------------------------------------

/// The state of libusb's transfer when its completion callback runs.
#[derive(Debug)]
pub struct Completion<'a> {
    pub status: i32,
    pub transfer_type: u8,
    pub endpoint: u8,
    /// The length of the whole buffer.
    pub length: i32,
    pub actual_length: i32,
    /// The buffer, where the transfer has one.
    pub buffer: Option<&'a [u8]>,
    /// Actual length and status of each isochronous packet.
    pub packets: Vec<(u32, i32)>,
}

/// The error that an unsuccessful transfer status stands for.
pub open spec fn status_error(status: i32) -> LibusbError {
    if status == STATUS_TIMED_OUT {
        LibusbError::Timeout
    } else if status == STATUS_CANCELLED {
        LibusbError::Interrupted
    } else if status == STATUS_STALL {
        LibusbError::Pipe
    } else if status == STATUS_NO_DEVICE {
        LibusbError::NoDevice
    } else if status == STATUS_OVERFLOW {
        LibusbError::Overflow
    } else if status == STATUS_ERROR {
        LibusbError::Io
    } else {
        LibusbError::Other
    }
}

/// What became of a transfer, by libusb's number: 2 is a time-out, 3 a cancellation, which counts as
/// an interruption, 4 a stall, which is a broken pipe, 5 a device that is gone, 6 too much data, and
/// 1 any other failure of the transfer. Other numbers have no meaning of their own.
pub proof fn law_status_codes(status: i32)
    ensures
        status_error(status) == LibusbError::Io <==> status == 1,
        status_error(status) == LibusbError::Timeout <==> status == 2,
        status_error(status) == LibusbError::Interrupted <==> status == 3,
        status_error(status) == LibusbError::Pipe <==> status == 4,
        status_error(status) == LibusbError::NoDevice <==> status == 5,
        status_error(status) == LibusbError::Overflow <==> status == 6,
        status_error(status) == LibusbError::Other <==> !(1 <= status <= 6),
        STATUS_COMPLETED == 0,
{
}

impl<'a> Completion<'a> {
    /// The lengths that libusb reports lie within the buffer.
    pub open spec fn wf(&self) -> bool {
        if self.packets@.len() > 0 {
            &&& 0 <= self.length
            &&& self.buffer is Some ==> self.length <= self.buffer->0@.len()
        } else if self.transfer_type == TYPE_CONTROL {
            &&& 0 <= self.actual_length
            &&& self.buffer is Some ==> 8 + self.actual_length <= self.buffer->0@.len()
        } else {
            &&& 0 <= self.actual_length
            &&& self.buffer is Some && self.endpoint >= 0x80 ==> self.actual_length
                <= self.buffer->0@.len()
        }
    }

    /// The data that a successful transfer hands back.
    ///
    /// Isochronous packets keep their places, so the whole buffer goes back. A control transfer
    /// returns what came in behind the setup packet, a bulk or interrupt one what came in; for
    /// outgoing bulk and interrupt data as many zeros come back as bytes went out.
    pub open spec fn payload(&self) -> Seq<u8> {
        if self.packets@.len() > 0 {
            match self.buffer {
                Some(buffer) => buffer@.take(self.length as int),
                None => Seq::empty(),
            }
        } else if self.transfer_type == TYPE_CONTROL {
            match self.buffer {
                Some(buffer) => if buffer@[0] >= 0x80 {
                    buffer@.subrange(8, 8 + self.actual_length)
                } else {
                    Seq::empty()
                },
                None => Seq::empty(),
            }
        } else if self.endpoint >= 0x80 {
            match self.buffer {
                Some(buffer) => buffer@.take(self.actual_length as int),
                None => Seq::empty(),
            }
        } else {
            zero_bytes(self.actual_length as nat)
        }
    }

    /// The packet results that are left for the waiting guest.
    pub open spec fn packets_left(&self) -> Option<Vec<(u32, i32)>> {
        if self.status == STATUS_COMPLETED && self.packets@.len() > 0 {
            Some(self.packets)
        } else {
            None
        }
    }

    /// The result that the completion callback sends to the waiting guest.
    pub fn result(&self) -> (result: Result<Vec<u8>, LibusbError>)
        requires
            self.status == STATUS_COMPLETED ==> self.wf(),
        ensures
            self.status == STATUS_COMPLETED ==> result is Ok && result->Ok_0@ == self.payload(),
            self.status != STATUS_COMPLETED ==> result == Err::<Vec<u8>, LibusbError>(
                status_error(self.status),
            ),
    {
        if self.status != STATUS_COMPLETED {
            return Err(error_of_status(self.status));
        }
        let mut data: Vec<u8> = Vec::new();
        if self.packets.len() > 0 {
            if let Some(buffer) = self.buffer {
                data.extend_from_slice(
                    vstd::slice::slice_subrange(buffer, 0, self.length as usize),
                );
            }
        } else if self.transfer_type == TYPE_CONTROL {
            if let Some(buffer) = self.buffer {
                let request: u8 = buffer[0];
                assert((request & 0x80 != 0) == (request >= 0x80)) by (bit_vector);
                if request & 0x80 != 0 {
                    data.extend_from_slice(
                        vstd::slice::slice_subrange(buffer, 8, 8 + self.actual_length as usize),
                    );
                }
            }
        } else {
            let endpoint: u8 = self.endpoint;
            assert((endpoint & 0x80 != 0) == (endpoint >= 0x80)) by (bit_vector);
            if endpoint & 0x80 != 0 {
                if let Some(buffer) = self.buffer {
                    data.extend_from_slice(
                        vstd::slice::slice_subrange(buffer, 0, self.actual_length as usize),
                    );
                }
            } else {
                data = zeroed(self.actual_length as usize);
            }
        }
        assert(data@ =~= self.payload());
        Ok(data)
    }

    /// The packet results that the completion callback leaves for the waiting guest: only a
    /// successful isochronous transfer has any.
    pub fn packet_results(self) -> (results: Option<Vec<(u32, i32)>>)
        ensures
            results == self.packets_left(),
    {
        if self.status == STATUS_COMPLETED && self.packets.len() > 0 {
            Some(self.packets)
        } else {
            None
        }
    }
}

/// A guest gets exactly what came in: when a submitted incoming transfer completes, the data that it
/// hands back are the bytes that the device put behind the setup packet of a control transfer, or
/// at the start of the buffer of any other, as many as it reports.
pub proof fn law_guest_gets_what_came_in(transfer: UsbTransfer, completion: Completion<'_>)
    requires
        transfer.wf(),
        transfer.is_in(),
        completion.transfer_type == transfer.transfer_type,
        completion.endpoint == transfer.endpoint,
        completion.packets@.len() == 0,
        completion.buffer is Some,
        completion.buffer->0@.len() == transfer.data_offset() + transfer.buf_len,
        transfer.transfer_type == TYPE_CONTROL ==> completion.buffer->0@[0]
            == transfer.control_setup->0.bm_request_type,
        0 <= completion.actual_length <= transfer.buf_len,
    ensures
        completion.wf(),
        completion.payload() == completion.buffer->0@.subrange(
            transfer.data_offset() as int,
            transfer.data_offset() + completion.actual_length,
        ),
{
    assert(completion.payload() =~= completion.buffer->0@.subrange(
        transfer.data_offset() as int,
        transfer.data_offset() + completion.actual_length,
    ));
}

/// Packet results are left for the guest exactly where the transfer succeeded and has packets; they are
/// then libusb's.
pub proof fn law_packets_are_left_on_success(completion: Completion<'_>)
    ensures
        completion.packets_left() is Some <==> completion.status == 0 && completion.packets@.len()
            > 0,
        completion.packets_left() matches Some(left) ==> left@ == completion.packets@,
{
}

/// A transfer without a buffer hands back nothing, but for bulk and interrupt data that went out, which
/// is still counted in zeros.
pub proof fn law_payload_without_buffer(completion: Completion<'_>)
    requires
        completion.wf(),
        completion.buffer is None,
    ensures
        ({
            let payload = completion.payload();
            if completion.packets@.len() == 0 && completion.transfer_type != 0
                && completion.endpoint < 0x80 {
                &&& payload.len() == completion.actual_length
                &&& forall|i: int| 0 <= i < payload.len() ==> #[trigger] payload[i] == 0
            } else {
                payload.len() == 0
            }
        }),
{
}

/// What a successful transfer hands back, by its type and direction. With packets, the buffer as far
/// as libusb's length goes. From a control transfer whose request type is 0x80 or more, the bytes
/// behind the setup packet; from any other transfer on an endpoint from 0x80 on, the first bytes of
/// the buffer; in both as many as came in. For data that went out, nothing from a control transfer
/// and else a zero for each byte.
pub proof fn law_payload_by_direction(completion: Completion<'_>)
    requires
        completion.wf(),
        completion.buffer is Some,
    ensures
        ({
            let buffer = completion.buffer->0@;
            let came = completion.actual_length as int;
            let payload = completion.payload();
            if completion.packets@.len() > 0 {
                &&& payload.len() == completion.length
                &&& forall|i: int| 0 <= i < payload.len() ==> #[trigger] payload[i] == buffer[i]
            } else if completion.transfer_type == 0 && buffer[0] >= 0x80 {
                &&& payload.len() == came
                &&& forall|i: int| 0 <= i < came ==> #[trigger] payload[i] == buffer[8 + i]
            } else if completion.transfer_type == 0 {
                payload.len() == 0
            } else if completion.endpoint >= 0x80 {
                &&& payload.len() == came
                &&& forall|i: int| 0 <= i < came ==> #[trigger] payload[i] == buffer[i]
            } else {
                &&& payload.len() == came
                &&& forall|i: int| 0 <= i < came ==> #[trigger] payload[i] == 0
            }
        }),
{
}

fn error_of_status(status: i32) -> (error: LibusbError)
    ensures
        error == status_error(status),
{
    if status == STATUS_TIMED_OUT {
        LibusbError::Timeout
    } else if status == STATUS_CANCELLED {
        LibusbError::Interrupted
    } else if status == STATUS_STALL {
        LibusbError::Pipe
    } else if status == STATUS_NO_DEVICE {
        LibusbError::NoDevice
    } else if status == STATUS_OVERFLOW {
        LibusbError::Overflow
    } else if status == STATUS_ERROR {
        LibusbError::Io
    } else {
        LibusbError::Other
    }
}

// ---------------------------------------------------------------------------
// Awaiting
// ---------------------------------------------------------------------------

/// The meaning of an isochronous packet's status code.
pub open spec fn packet_status(code: i32) -> IsoPacketStatus {
    if code == STATUS_COMPLETED {
        IsoPacketStatus::Success
    } else if code == STATUS_TIMED_OUT {
        IsoPacketStatus::TimedOut
    } else if code == STATUS_CANCELLED {
        IsoPacketStatus::Cancelled
    } else if code == STATUS_STALL {
        IsoPacketStatus::Stall
    } else if code == STATUS_NO_DEVICE {
        IsoPacketStatus::NoDevice
    } else if code == STATUS_OVERFLOW {
        IsoPacketStatus::Overflow
    } else {
        IsoPacketStatus::Error
    }
}

/// What became of a packet, by libusb's number: 0 is success, 2 to 6 are a time-out, a cancellation,
/// a stall, a device that is gone and too much data, and any other number is an error.
pub proof fn law_packet_status_codes(code: i32)
    ensures
        packet_status(code) == IsoPacketStatus::Success <==> code == 0,
        packet_status(code) == IsoPacketStatus::TimedOut <==> code == 2,
        packet_status(code) == IsoPacketStatus::Cancelled <==> code == 3,
        packet_status(code) == IsoPacketStatus::Stall <==> code == 4,
        packet_status(code) == IsoPacketStatus::NoDevice <==> code == 5,
        packet_status(code) == IsoPacketStatus::Overflow <==> code == 6,
        packet_status(code) == IsoPacketStatus::Error <==> code == 1 || code < 0 || code > 6,
{
}

/// Packet results as the guest sees them.
pub open spec fn iso_packets(raw: Seq<(u32, i32)>) -> Seq<IsoPacket> {
    raw.map_values(|p: (u32, i32)| IsoPacket { actual_length: p.0, status: packet_status(p.1) })
}

fn status_of_packet(code: i32) -> (status: IsoPacketStatus)
    ensures
        status == packet_status(code),
{
    if code == STATUS_COMPLETED {
        IsoPacketStatus::Success
    } else if code == STATUS_TIMED_OUT {
        IsoPacketStatus::TimedOut
    } else if code == STATUS_CANCELLED {
        IsoPacketStatus::Cancelled
    } else if code == STATUS_STALL {
        IsoPacketStatus::Stall
    } else if code == STATUS_NO_DEVICE {
        IsoPacketStatus::NoDevice
    } else if code == STATUS_OVERFLOW {
        IsoPacketStatus::Overflow
    } else {
        IsoPacketStatus::Error
    }
}

fn decode_packets(raw: &[(u32, i32)]) -> (packets: Vec<IsoPacket>)
    ensures
        packets@ == iso_packets(raw@),
{
    let mut packets: Vec<IsoPacket> = Vec::new();
    let mut i: usize = 0;
    while i < raw.len()
        invariant
            i <= raw@.len(),
            packets@ == iso_packets(raw@.take(i as int)),
        decreases raw@.len() - i,
    {
        let (actual_length, code) = raw[i];
        packets.push(IsoPacket { actual_length, status: status_of_packet(code) });
        i += 1;
        assert(packets@ =~= iso_packets(raw@.take(i as int)));
    }
    assert(raw@.take(i as int) =~= raw@);
    packets
}

/// `result` is what an await hands the guest: the channel's outcome (`None` where it was closed
/// without one) together with the packet results.
pub open spec fn concludes(
    outcome: Option<Result<Vec<u8>, LibusbError>>,
    packets: Option<Vec<(u32, i32)>>,
    result: Result<TransferResult, LibusbError>,
) -> bool {
    match outcome {
        Some(Ok(data)) => {
            &&& result is Ok
            &&& result->Ok_0.data == data
            &&& result->Ok_0.packets@ == iso_packets(
                match packets {
                    Some(raw) => raw@,
                    None => Seq::empty(),
                },
            )
        },
        Some(Err(error)) => result == Err::<TransferResult, LibusbError>(error),
        None => result == Err::<TransferResult, LibusbError>(LibusbError::Interrupted),
    }
}

/// Turns the outcome of the result channel and the packet results into the guest's result.
pub fn conclude(
    outcome: Option<Result<Vec<u8>, LibusbError>>,
    packets: Option<Vec<(u32, i32)>>,
) -> (result: Result<TransferResult, LibusbError>)
    ensures
        concludes(outcome, packets, result),
{
    match outcome {
        Some(Ok(data)) => {
            let packets = match packets {
                Some(raw) => decode_packets(raw.as_slice()),
                None => Vec::new(),
            };
            assert(iso_packets(Seq::empty()) =~= Seq::empty());
            Ok(TransferResult { data, packets })
        },
        Some(Err(error)) => Err(error),
        None => Err(LibusbError::Interrupted),
    }
}

/// An await hands on what the channel brought: the data with a result for each packet, in order and
/// with the length that came in, or the error as it is. A channel that closed brings an
/// interruption.
pub proof fn law_await_hands_on_the_outcome(
    outcome: Option<Result<Vec<u8>, LibusbError>>,
    packets: Option<Vec<(u32, i32)>>,
    result: Result<TransferResult, LibusbError>,
)
    requires
        concludes(outcome, packets, result),
    ensures
        match result {
            Ok(got) => {
                &&& outcome == Some(Ok::<Vec<u8>, LibusbError>(got.data))
                &&& packets is None ==> got.packets@.len() == 0
                &&& packets matches Some(raw) ==> {
                    &&& got.packets@.len() == raw@.len()
                    &&& forall|i: int|
                        0 <= i < raw@.len() ==> (#[trigger] got.packets@[i]).actual_length
                            == raw@[i].0 && (got.packets@[i].status == IsoPacketStatus::Success
                            <==> raw@[i].1 == 0)
                }
            },
            Err(error) => {
                ||| outcome == Some(Err::<Vec<u8>, LibusbError>(error))
                ||| outcome is None && error == LibusbError::Interrupted
            },
        },
{
}

/// Of a transfer that succeeded the guest gets the data that came in and one result for each packet,
/// in order; a transfer without packets, which any but an isochronous one is, reports none.
pub proof fn law_one_result_for_each_packet(
    completion: Completion<'_>,
    data: Vec<u8>,
    result: Result<TransferResult, LibusbError>,
)
    requires
        completion.status == STATUS_COMPLETED,
        data@ == completion.payload(),
        concludes(Some(Ok(data)), completion.packets_left(), result),
    ensures
        result is Ok,
        result->Ok_0.data@ == completion.payload(),
        result->Ok_0.packets@.len() == completion.packets@.len(),
        forall|i: int|
            0 <= i < completion.packets@.len() ==> (
            #[trigger] result->Ok_0.packets@[i]).actual_length == completion.packets@[i].0
                && result->Ok_0.packets@[i].status == packet_status(completion.packets@[i].1),
{
}

// ---------------------------------------------------------------------------
// The life of a transfer
// ---------------------------------------------------------------------------

/// A transfer over its whole life: its table entry while it has one, the completion flag, whether
/// libusb is working on it, and how often libusb's transfer has been freed.
pub struct Lifecycle {
    pub entry: Option<UsbTransfer>,
    pub completed: bool,
    pub in_flight: bool,
    pub frees: nat,
}

/// What can happen to a transfer.
pub enum LifeEvent {
    /// The guest submits `data_len` bytes and libusb, if asked, answers `rc`.
    Submit { data_len: nat, rc: i32 },
    /// libusb runs the completion callback, which frees libusb's transfer.
    Callback,
    /// The guest awaits the transfer, and is given its data or an error.
    Await { ok: bool },
    /// The guest drops the transfer.
    Drop,
}

impl Lifecycle {
    /// A transfer that has just been made.
    pub open spec fn created(transfer: UsbTransfer) -> Self {
        Lifecycle { entry: Some(transfer), completed: false, in_flight: false, frees: 0 }
    }

    /// The event can happen now. A submission needs its buffer, the callback runs only for
    /// transfers that libusb works on, and an await comes back only after the callback.
    pub open spec fn possible(self, event: LifeEvent) -> bool {
        match event {
            LifeEvent::Submit { data_len, rc } => match self.entry {
                Some(t) => t.rejection(self.completed, data_len) is None ==> t.buffer is Some,
                None => false,
            },
            LifeEvent::Callback => self.in_flight,
            LifeEvent::Await { ok } => match self.entry {
                Some(t) => t.receiver ==> !self.in_flight,
                None => false,
            },
            LifeEvent::Drop => true,
        }
    }

    /// The transfer after the event.
    pub open spec fn after(self, event: LifeEvent) -> Self {
        match event {
            LifeEvent::Submit { data_len, rc } => {
                let t = self.entry->0;
                if t.rejection(self.completed, data_len) is Some {
                    self
                } else if rc < 0 {
                    Lifecycle { entry: Some(t.handed_over()), ..self }
                } else {
                    Lifecycle {
                        entry: Some(t.handed_over().with_receiver(true)),
                        in_flight: true,
                        ..self
                    }
                }
            },
            LifeEvent::Callback => Lifecycle {
                completed: true,
                in_flight: false,
                frees: self.frees + 1,
                ..self
            },
            LifeEvent::Await { ok } => {
                let t = self.entry->0;
                Lifecycle {
                    entry: if t.receiver && ok {
                        None
                    } else {
                        Some(t.with_receiver(false))
                    },
                    ..self
                }
            },
            LifeEvent::Drop => match self.entry {
                None => self,
                Some(t) => Lifecycle {
                    entry: None,
                    frees: if drop_action_of(self.completed, t.receiver) == DropAction::Free {
                        self.frees + 1
                    } else {
                        self.frees
                    },
                    ..self
                },
            },
        }
    }

    /// All events can happen, one after the other.
    pub open spec fn all_possible(self, events: Seq<LifeEvent>) -> bool
        decreases events.len(),
    {
        events.len() > 0 ==> self.all_possible(events.drop_last()) && self.after_all(
            events.drop_last(),
        ).possible(events.last())
    }

    /// The transfer after all events.
    pub open spec fn after_all(self, events: Seq<LifeEvent>) -> Self
        decreases events.len(),
    {
        if events.len() == 0 {
            self
        } else {
            self.after_all(events.drop_last()).after(events.last())
        }
    }

    /// What holds at every moment of a transfer's life.
    pub open spec fn sound(self) -> bool {
        &&& self.completed ==> self.frees == 1 && !self.in_flight
        &&& self.in_flight ==> self.frees == 0 && (self.entry is Some ==> self.entry->0.receiver
            && self.entry->0.buffer is None)
        &&& !self.completed && !self.in_flight && self.entry is Some ==> self.frees == 0
            && !self.entry->0.receiver
        &&& self.entry is None && !self.in_flight ==> self.frees == 1
    }
}

/// Whatever happens to a transfer, libusb's transfer is freed at most once and never while libusb
/// works on it; and when the guest has let go of it and libusb is done with it, it has been freed.
pub proof fn law_freed_exactly_once(transfer: UsbTransfer, events: Seq<LifeEvent>)
    requires
        !transfer.receiver,
        Lifecycle::created(transfer).all_possible(events),
    ensures
        ({
            let end = Lifecycle::created(transfer).after_all(events);
            &&& end.frees <= 1
            &&& end.in_flight ==> end.frees == 0
            &&& end.entry is None && !end.in_flight ==> end.frees == 1
        }),
{
    lemma_life_is_sound(transfer, events);
}

/// Dropping a transfer does what is left to do for libusb's transfer, whatever happened before: it
/// cancels the transfer exactly where libusb works on it, frees it exactly where nothing else has
/// or will, and leaves it alone exactly where it has been freed.
pub proof fn law_drop_does_what_is_left(transfer: UsbTransfer, events: Seq<LifeEvent>)
    requires
        !transfer.receiver,
        Lifecycle::created(transfer).all_possible(events),
        Lifecycle::created(transfer).after_all(events).entry is Some,
    ensures
        ({
            let now = Lifecycle::created(transfer).after_all(events);
            let action = drop_action_of(now.completed, now.entry->0.receiver);
            &&& action == DropAction::Cancel <==> now.in_flight
            &&& action == DropAction::Nothing <==> now.frees == 1
            &&& action == DropAction::Free <==> now.frees == 0 && !now.in_flight
        }),
{
    lemma_life_is_sound(transfer, events);
}

proof fn lemma_life_is_sound(transfer: UsbTransfer, events: Seq<LifeEvent>)
    requires
        !transfer.receiver,
        Lifecycle::created(transfer).all_possible(events),
    ensures
        Lifecycle::created(transfer).after_all(events).sound(),
    decreases events.len(),
{
    if events.len() > 0 {
        lemma_life_is_sound(transfer, events.drop_last());
    }
}

/// A transfer is what its plan says, at the address where libusb allocated it: not yet submitted,
/// with the whole buffer.
pub proof fn law_transfer_follows_its_plan(plan: TransferPlan, address: usize, made: UsbTransfer)
    requires
        call_ensures(UsbTransfer::from_plan, (plan, address), made),
    ensures
        made.transfer == address,
        made.transfer_type == plan.transfer_type,
        made.endpoint == plan.endpoint,
        made.buffer == Some(plan.buffer),
        made.buf_len == plan.buf_len,
        made.control_setup == Some(plan.setup),
        !made.receiver,
{
}

/// Whatever a guest makes and submits reaches the device as the guest meant it, for every type and
/// direction: what goes out is handed to libusb byte for byte, behind the setup packet for a control
/// transfer; for what comes in libusb is handed zeros to fill, behind the same setup packet.
pub proof fn law_made_and_submitted(
    kind: TransferType,
    setup: TransferSetup,
    buf_size: u32,
    opts: TransferOptions,
    plan: TransferPlan,
    address: usize,
    made: UsbTransfer,
    data: Seq<u8>,
)
    requires
        kind == TransferType::Control ==> buf_size <= u32::MAX - 8,
        call_ensures(plan_transfer, (kind, setup, buf_size, opts), plan),
        call_ensures(UsbTransfer::from_plan, (plan, address), made),
    ensures
        ({
            let incoming = if kind == TransferType::Control {
                setup.bm_request_type >= 0x80
            } else {
                opts.endpoint >= 0x80
            };
            let front = if kind == TransferType::Control {
                8int
            } else {
                0
            };
            let sent = made.submission(data);
            &&& made.rejection(false, data.len()) is None <==> incoming || data.len() == buf_size
            &&& incoming || data.len() == buf_size ==> {
                &&& sent.len() == front + buf_size
                &&& front > 0 ==> {
                    &&& sent[0] == setup.bm_request_type
                    &&& sent[1] == setup.b_request
                    &&& sent[2] + 256 * sent[3] == setup.w_value
                    &&& sent[4] + 256 * sent[5] == setup.w_index
                    &&& sent[6] + 256 * sent[7] == buf_size % 0x1_0000
                }
                &&& forall|i: int|
                    0 <= i < buf_size ==> #[trigger] sent[front + i] == (if incoming {
                        0
                    } else {
                        data[i]
                    })
            }
        }),
{
    law_plan_is_what_was_asked_for(plan, kind, setup, buf_size, opts);
    let buffer = plan.buffer@;
    let sent = made.submission(data);
    if kind == TransferType::Control {
        assert(sent.len() >= 8 ==> sent[0] == buffer[0] && sent[1] == buffer[1] && sent[2]
            == buffer[2] && sent[3] == buffer[3] && sent[4] == buffer[4] && sent[5] == buffer[5]
            && sent[6] == buffer[6] && sent[7] == buffer[7]);
    }
}

/// Submitting to a transfer that brings data in succeeds with any data, none included, as long as the
/// transfer has not completed and has its buffer, and hands the buffer over as it is: for bulk,
/// interrupt and isochronous transfers on the endpoints from 0x80 on, and for control transfers with
/// a request type from 0x80 on.
pub proof fn law_submitting_to_incoming_transfers(
    transfer: &mut UsbTransfer,
    data: &[u8],
    result: Result<Vec<u8>, LibusbError>,
)
    requires
        old(transfer).wf(),
        old(transfer).buffer is Some,
        ({
            let code = old(transfer).transfer_type;
            ||| code == 0 && old(transfer).control_setup->0.bm_request_type >= 0x80
            ||| code == 1 && old(transfer).endpoint >= 0x80
            ||| code == 2 && old(transfer).endpoint >= 0x80
            ||| code == 3 && old(transfer).endpoint >= 0x80
        }),
        call_ensures(UsbTransfer::submit, (transfer, false, data), result),
    ensures
        result is Ok,
        result->Ok_0@ == old(transfer).buffer->0@,
        final(transfer).buffer is None,
{
    law_incoming_transfer_takes_any_data(*old(transfer), data@);
}

/// Submitting to a transfer that sends data out succeeds exactly where the data has the length that
/// the transfer was made for, and hands over that data, behind the setup packet of a control
/// transfer. Where it is turned down, or the transfer has completed, the transfer stays as it was.
pub proof fn law_submitting_to_outgoing_transfers(
    transfer: &mut UsbTransfer,
    completed: bool,
    data: &[u8],
    result: Result<Vec<u8>, LibusbError>,
)
    requires
        old(transfer).wf(),
        old(transfer).buffer is Some,
        ({
            let code = old(transfer).transfer_type;
            ||| code == 0 && old(transfer).control_setup->0.bm_request_type < 0x80
            ||| code == 1 && old(transfer).endpoint < 0x80
            ||| code == 2 && old(transfer).endpoint < 0x80
            ||| code == 3 && old(transfer).endpoint < 0x80
        }),
        call_ensures(UsbTransfer::submit, (transfer, completed, data), result),
    ensures
        completed ==> result == Err::<Vec<u8>, LibusbError>(LibusbError::Busy),
        !completed && data@.len() != old(transfer).buf_len ==> result == Err::<
            Vec<u8>,
            LibusbError,
        >(LibusbError::InvalidParam),
        !completed && data@.len() == old(transfer).buf_len ==> result is Ok && result->Ok_0@ == (
        if old(transfer).transfer_type == 0 {
            old(transfer).buffer->0@.take(8) + data@
        } else {
            data@
        }),
        result is Err ==> *final(transfer) == *old(transfer),
{
    law_completed_transfer_is_busy(*old(transfer), data@.len());
    law_outgoing_transfer_takes_its_length(*old(transfer), data@);
    if !completed && data@.len() == old(transfer).buf_len && old(transfer).transfer_type != 0 {
        assert(old(transfer).submission(data@) =~= data@);
    }
}

/// A result can be awaited once for each submission that libusb took, and not without one.
pub proof fn law_one_await_for_each_submission(
    transfer: &mut UsbTransfer,
    rc: i32,
    submitted: Result<(), LibusbError>,
    waiting: &mut UsbTransfer,
    awaited: Result<(), LibusbError>,
)
    requires
        call_ensures(UsbTransfer::submitted, (transfer, rc), submitted),
        call_ensures(UsbTransfer::begin_await, (waiting,), awaited),
    ensures
        submitted is Ok <==> rc >= 0,
        submitted matches Err(error) ==> error == types::error_of(rc as int),
        rc >= 0 ==> final(transfer).receiver,
        rc < 0 ==> *final(transfer) == *old(transfer),
        awaited is Ok <==> old(waiting).receiver,
        awaited matches Err(error) ==> error == LibusbError::NotFound,
        !final(waiting).receiver,
{
}

/// A completed transfer hands the waiting guest its data where libusb's status is 0, and else the error
/// for the status.
pub proof fn law_completion_reports_its_status(
    completion: Completion<'_>,
    result: Result<Vec<u8>, LibusbError>,
)
    requires
        call_ensures(Completion::result, (&completion,), result),
    ensures
        completion.status == 0 ==> result is Ok && result->Ok_0@ == completion.payload(),
        completion.status != 0 ==> result == Err::<Vec<u8>, LibusbError>(
            status_error(completion.status),
        ),
{
}

} // verus!
