//! One command over Bulk-Only Transport, step by step: the command wrapper goes out, the data moves,
//! the status wrapper comes back. Each step says what to do next; the caller does it and reports.

use vstd::prelude::*;

#[allow(unused_imports)]
use crate::bulk_only;
use crate::bulk_only::{build_cbw, validate_csw, CswError, NativeTransport, WasmTransport};
use crate::types::TransferOptions;

verus! {

/// The steps of a command.
#[derive(Debug, Clone, Copy, PartialEq, Eq, Structural)]
pub enum Stage {
    Command,
    DataIn,
    DataOut,
    Status,
    Done,
}

/// Why a command failed.
#[derive(Debug, Clone, Copy, PartialEq, Eq, Structural)]
pub enum BotError {
    /// The device could not be reached in this step.
    Transport { stage: Stage },
    /// The command wrapper went out incompletely.
    ShortCommand { sent: usize },
    /// The device took no more data.
    Stalled,
    /// The device sent no status wrapper.
    NoStatus,
    /// The status wrapper is no all-clear for this command.
    Status(CswError),
}

/// What a command came to once its status wrapper is there.
pub open spec fn final_word(status: Seq<u8>, tag: u32) -> Result<(), BotError> {
    match bulk_only::csw_verdict(status, tag) {
        Ok(_) => Ok(()),
        Err(error) => Err(BotError::Status(error)),
    }
}

/// A command succeeds where its status wrapper is an all-clear for its tag; else the error is what is
/// wrong with the wrapper.
pub proof fn law_status_decides(status: Seq<u8>, tag: u32)
    ensures
        final_word(status, tag) is Ok <==> bulk_only::csw_verdict(status, tag) is Ok,
        bulk_only::csw_verdict(status, tag) matches Err(error) ==> final_word(status, tag) == Err::<
            (),
            BotError,
        >(BotError::Status(error)),
{
}

fn judge(status: &[u8], tag: u32) -> (result: Result<(), BotError>)
    ensures
        result == final_word(status@, tag),
{
    match validate_csw(status, tag) {
        Ok(_) => Ok(()),
        Err(error) => Err(BotError::Status(error)),
    }
}

/// The low 32 bits of a length.
pub open spec fn low_bits(len: nat) -> u32 {
    (len % 0x1_0000_0000) as u32
}

/// A length on the wire is the length itself where it fits into 32 bits, and else differs from it by
/// a multiple of 2^32.
pub proof fn law_wire_length(len: nat)
    ensures
        len <= u32::MAX ==> low_bits(len) == len,
        (len - low_bits(len)) % 0x1_0000_0000 == 0,
{
}

fn wire_length(len: usize) -> (n: u32)
    ensures
        n == low_bits(len as nat),
{
    (len as u64 % 0x1_0000_0000) as u32
}

// ---------------------------------------------------------------------------
// Through rusb: reads and writes may move less than asked
// ---------------------------------------------------------------------------

/// What to do next.
#[derive(Debug)]
pub enum NativeAction {
    /// Write the data from `offset` on to the outgoing endpoint.
    SendData { offset: usize },
    /// Read at most `max` bytes of data from the incoming endpoint.
    ReceiveData { max: usize },
    /// Read at most `max` bytes of the status wrapper from the incoming endpoint.
    ReceiveStatus { max: usize },
    /// The command is over.
    Finish(Result<(), BotError>),
}

/// What came of the last read or write.
#[derive(Debug)]
pub enum NativeReply {
    Failed,
    /// So many bytes were written.
    Sent(usize),
    /// These bytes were read.
    Received(Vec<u8>),
}

/// How far a command has come.
#[derive(Debug)]
pub struct NativeExchange {
    pub tag: u32,
    pub incoming: bool,
    /// How many bytes of data are to move.
    pub want: usize,
    pub stage: Stage,
    /// How many bytes of data went out.
    pub moved: usize,
    /// The data that came in.
    pub data: Vec<u8>,
    /// The status wrapper, as far as it came in.
    pub status: Vec<u8>,
}

/// How far a command has come, in mathematical terms.
#[verifier::ext_equal]
pub struct NativeProgress {
    pub tag: u32,
    pub incoming: bool,
    pub want: nat,
    pub stage: Stage,
    pub moved: nat,
    pub data: Seq<u8>,
    pub status: Seq<u8>,
}

impl View for NativeExchange {
    type V = NativeProgress;

    open spec fn view(&self) -> NativeProgress {
        NativeProgress {
            tag: self.tag,
            incoming: self.incoming,
            want: self.want as nat,
            stage: self.stage,
            moved: self.moved as nat,
            data: self.data@,
            status: self.status@,
        }
    }
}

impl NativeProgress {
    /// A command about which nothing has been done but sending its wrapper.
    pub open spec fn started(tag: u32, incoming: bool, want: nat) -> Self {
        NativeProgress {
            tag,
            incoming,
            want,
            stage: Stage::Command,
            moved: 0,
            data: Seq::empty(),
            status: Seq::empty(),
        }
    }

    /// The stage fits the direction, nothing moved more than it should, and the status wrapper
    /// comes last.
    pub open spec fn wf(self) -> bool {
        &&& self.want <= usize::MAX
        &&& self.data.len() <= self.want
        &&& self.moved <= self.want
        &&& self.status.len() <= 13
        &&& self.incoming ==> self.moved == 0
        &&& !self.incoming ==> self.data.len() == 0
        &&& match self.stage {
            Stage::Command => self.moved == 0 && self.data.len() == 0 && self.status.len() == 0,
            Stage::DataIn => self.incoming && self.data.len() < self.want && self.status.len()
                == 0,
            Stage::DataOut => !self.incoming && self.moved < self.want && self.status.len() == 0,
            Stage::Status => self.status.len() < 13 && (!self.incoming ==> self.moved
                == self.want),
            Stage::Done => true,
        }
    }

    /// The reply answers what was to be done: a write reports at most what was handed to it, a
    /// read delivers at most what it was asked for.
    pub open spec fn fits(self, reply: NativeReply) -> bool {
        match (self.stage, reply) {
            (Stage::Done, _) => false,
            (_, NativeReply::Failed) => true,
            (Stage::Command, NativeReply::Sent(_)) => true,
            (Stage::DataOut, NativeReply::Sent(n)) => n <= self.want - self.moved,
            (Stage::DataIn, NativeReply::Received(bytes)) => bytes@.len() <= self.want
                - self.data.len(),
            (Stage::Status, NativeReply::Received(bytes)) => bytes@.len() <= 13
                - self.status.len(),
            _ => false,
        }
    }

    /// The command ends here.
    pub open spec fn ended(self, result: Result<(), BotError>) -> (Self, NativeAction) {
        (NativeProgress { stage: Stage::Done, ..self }, NativeAction::Finish(result))
    }

    /// On to the data that is still to move, or else to the status wrapper.
    pub open spec fn onward(self) -> (Self, NativeAction) {
        if self.incoming && self.data.len() < self.want {
            (
                NativeProgress { stage: Stage::DataIn, ..self },
                NativeAction::ReceiveData { max: (self.want - self.data.len()) as usize },
            )
        } else if !self.incoming && self.moved < self.want {
            (
                NativeProgress { stage: Stage::DataOut, ..self },
                NativeAction::SendData { offset: self.moved as usize },
            )
        } else {
            self.to_status()
        }
    }

    /// On to the status wrapper.
    pub open spec fn to_status(self) -> (Self, NativeAction) {
        (
            NativeProgress { stage: Stage::Status, ..self },
            NativeAction::ReceiveStatus { max: (13 - self.status.len()) as usize },
        )
    }

    /// What a reply leads to.
    ///
    /// A device that sends nothing more when data is due has finished early; one that takes no
    /// more data, or sends no status, has failed.
    pub open spec fn next(self, reply: NativeReply) -> (Self, NativeAction) {
        match (self.stage, reply) {
            (stage, NativeReply::Failed) => self.ended(Err(BotError::Transport { stage })),
            (Stage::Command, NativeReply::Sent(n)) => if n == 31 {
                self.onward()
            } else {
                self.ended(Err(BotError::ShortCommand { sent: n }))
            },
            (Stage::DataOut, NativeReply::Sent(n)) => if n == 0 {
                self.ended(Err(BotError::Stalled))
            } else {
                NativeProgress { moved: self.moved + n as nat, ..self }.onward()
            },
            (Stage::DataIn, NativeReply::Received(bytes)) => if bytes@.len() == 0 {
                self.to_status()
            } else {
                NativeProgress { data: self.data + bytes@, ..self }.onward()
            },
            (Stage::Status, NativeReply::Received(bytes)) => {
                let got = NativeProgress { status: self.status + bytes@, ..self };
                if bytes@.len() == 0 {
                    self.ended(Err(BotError::NoStatus))
                } else if got.status.len() < 13 {
                    got.to_status()
                } else {
                    got.ended(final_word(got.status, self.tag))
                }
            },
            _ => self.ended(Err(BotError::Stalled)),
        }
    }

    /// Where a run of replies leads.
    pub open spec fn after(self, replies: Seq<NativeReply>) -> Self
        decreases replies.len(),
    {
        if replies.len() == 0 {
            self
        } else {
            self.after(replies.drop_last()).next(replies.last()).0
        }
    }

    /// Each reply of the run answers what was to be done.
    pub open spec fn all_fit(self, replies: Seq<NativeReply>) -> bool
        decreases replies.len(),
    {
        replies.len() > 0 ==> self.all_fit(replies.drop_last()) && self.after(
            replies.drop_last(),
        ).fits(replies.last())
    }
}

impl NativeTransport {
    /// Starts a command that receives `transfer_len` bytes: the exchange and the command wrapper to
    /// write to the outgoing endpoint.
    pub fn begin_in(&mut self, cbwcb: &[u8], transfer_len: u32) -> (started: (
        NativeExchange,
        [u8; 31],
    ))
        requires
            0 < cbwcb@.len() <= 16,
        ensures
            *final(self) == (NativeTransport {
                tag: bulk_only::tag_after(old(self).tag, 1),
                ..*old(self)
            }),
            started.0@ == NativeProgress::started(old(self).tag, true, transfer_len as nat),
            started.0@.wf(),
            started.1@ == bulk_only::cbw_bytes(old(self).tag, transfer_len, true, cbwcb@),
    {
        let tag = self.next_tag();
        let cbw = build_cbw(tag, transfer_len, true, cbwcb);
        let exchange = NativeExchange {
            tag,
            incoming: true,
            want: transfer_len as usize,
            stage: Stage::Command,
            moved: 0,
            data: Vec::new(),
            status: Vec::new(),
        };
        assert(exchange@ =~= NativeProgress::started(tag, true, transfer_len as nat));
        (exchange, cbw)
    }

    /// Starts a command that sends `data_len` bytes, or none.
    pub fn begin_out(&mut self, cbwcb: &[u8], data_len: usize) -> (started: (
        NativeExchange,
        [u8; 31],
    ))
        requires
            0 < cbwcb@.len() <= 16,
        ensures
            *final(self) == (NativeTransport {
                tag: bulk_only::tag_after(old(self).tag, 1),
                ..*old(self)
            }),
            started.0@ == NativeProgress::started(old(self).tag, false, data_len as nat),
            started.0@.wf(),
            started.1@ == bulk_only::cbw_bytes(
                old(self).tag,
                low_bits(data_len as nat),
                false,
                cbwcb@,
            ),
    {
        let tag = self.next_tag();
        let cbw = build_cbw(tag, wire_length(data_len), false, cbwcb);
        let exchange = NativeExchange {
            tag,
            incoming: false,
            want: data_len,
            stage: Stage::Command,
            moved: 0,
            data: Vec::new(),
            status: Vec::new(),
        };
        assert(exchange@ =~= NativeProgress::started(tag, false, data_len as nat));
        (exchange, cbw)
    }
}

impl NativeExchange {
    fn end(&mut self, result: Result<(), BotError>) -> (action: NativeAction)
        ensures
            (final(self)@, action) == old(self)@.ended(result),
    {
        self.stage = Stage::Done;
        NativeAction::Finish(result)
    }

    fn await_status(&mut self) -> (action: NativeAction)
        requires
            old(self)@.status.len() < 13,
        ensures
            (final(self)@, action) == old(self)@.to_status(),
    {
        self.stage = Stage::Status;
        NativeAction::ReceiveStatus { max: 13 - self.status.len() }
    }

    fn go_on(&mut self) -> (action: NativeAction)
        requires
            old(self)@.status.len() == 0,
        ensures
            (final(self)@, action) == old(self)@.onward(),
    {
        if self.incoming && self.data.len() < self.want {
            self.stage = Stage::DataIn;
            NativeAction::ReceiveData { max: self.want - self.data.len() }
        } else if !self.incoming && self.moved < self.want {
            self.stage = Stage::DataOut;
            NativeAction::SendData { offset: self.moved }
        } else {
            self.await_status()
        }
    }

    /// Takes the reply to the last step and says what to do next.
    pub fn resume(&mut self, reply: NativeReply) -> (action: NativeAction)
        requires
            old(self)@.wf(),
            old(self)@.fits(reply),
        ensures
            (final(self)@, action) == old(self)@.next(reply),
            final(self)@.wf(),
    {
        match reply {
            NativeReply::Failed => {
                let stage = self.stage;
                self.end(Err(BotError::Transport { stage }))
            },
            NativeReply::Sent(n) => {
                if self.stage == Stage::Command {
                    if n == 31 {
                        self.go_on()
                    } else {
                        self.end(Err(BotError::ShortCommand { sent: n }))
                    }
                } else if n == 0 {
                    self.end(Err(BotError::Stalled))
                } else {
                    self.moved = self.moved + n;
                    self.go_on()
                }
            },
            NativeReply::Received(bytes) => {
                let mut bytes = bytes;
                let empty = bytes.len() == 0;
                if self.stage == Stage::DataIn {
                    if empty {
                        self.await_status()
                    } else {
                        self.data.append(&mut bytes);
                        self.go_on()
                    }
                } else if empty {
                    self.end(Err(BotError::NoStatus))
                } else {
                    self.status.append(&mut bytes);
                    if self.status.len() < 13 {
                        self.await_status()
                    } else {
                        let result = judge(self.status.as_slice(), self.tag);
                        self.end(result)
                    }
                }
            },
        }
    }

    /// The data that came in.
    pub fn into_data(self) -> (data: Vec<u8>)
        ensures
            data@ == self@.data,
    {
        self.data
    }
}

/// All bytes that a run of replies delivered, in order.
pub open spec fn received(replies: Seq<NativeReply>) -> Seq<u8>
    decreases replies.len(),
{
    if replies.len() == 0 {
        Seq::empty()
    } else {
        let before = received(replies.drop_last());
        match replies.last() {
            NativeReply::Received(bytes) => before + bytes@,
            _ => before,
        }
    }
}

/// How many bytes a run of replies reports as written.
pub open spec fn sent(replies: Seq<NativeReply>) -> nat
    decreases replies.len(),
{
    if replies.len() == 0 {
        0
    } else {
        let before = sent(replies.drop_last());
        match replies.last() {
            NativeReply::Sent(n) => before + n as nat,
            _ => before,
        }
    }
}

/// Nothing is lost or reordered: at every moment of a command the bytes that the device sent are
/// the data followed by the status wrapper, and no more data came in than was asked for.
pub proof fn law_received_is_data_and_status(
    tag: u32,
    incoming: bool,
    want: nat,
    replies: Seq<NativeReply>,
)
    requires
        want <= usize::MAX,
        NativeProgress::started(tag, incoming, want).all_fit(replies),
    ensures
        ({
            let end = NativeProgress::started(tag, incoming, want).after(replies);
            &&& end.wf()
            &&& received(replies) == end.data + end.status
            &&& end.data.len() <= want
            &&& end.tag == tag && end.incoming == incoming && end.want == want
        }),
    decreases replies.len(),
{
    let start = NativeProgress::started(tag, incoming, want);
    if replies.len() == 0 {
        assert(received(replies) =~= start.data + start.status);
    } else {
        let front = replies.drop_last();
        law_received_is_data_and_status(tag, incoming, want, front);
        let mid = start.after(front);
        let end = mid.next(replies.last()).0;
        match replies.last() {
            NativeReply::Received(bytes) => {
                if mid.stage == Stage::DataIn {
                    assert(mid.status =~= Seq::<u8>::empty());
                    assert(received(replies) =~= end.data + end.status);
                } else {
                    assert(received(replies) =~= end.data + end.status);
                }
            },
            _ => {},
        }
    }
}

/// Each read and write asks for what is missing, no less and no more: data comes in while the
/// command receives and some is missing, data goes out from the first byte that was not taken, and
/// the status wrapper is read up to its thirteenth byte.
pub proof fn law_each_step_asks_for_the_rest(progress: NativeProgress, reply: NativeReply)
    requires
        progress.wf(),
        progress.fits(reply),
    ensures
        ({
            let (after, action) = progress.next(reply);
            match action {
                NativeAction::ReceiveData { max } => {
                    &&& after.stage == Stage::DataIn
                    &&& progress.incoming
                    &&& max > 0
                    &&& after.data.len() + max == progress.want
                },
                NativeAction::SendData { offset } => {
                    &&& after.stage == Stage::DataOut
                    &&& !progress.incoming
                    &&& offset == after.moved
                    &&& offset < progress.want
                },
                NativeAction::ReceiveStatus { max } => {
                    &&& after.stage == Stage::Status
                    &&& max > 0
                    &&& after.status.len() + max == 13
                    &&& !progress.incoming ==> after.moved == progress.want
                },
                NativeAction::Finish(_) => after.stage == Stage::Done,
            }
        }),
{
}

/// What each reply adds and when the command is given up: a failed read or write ends it in its
/// step, a wrapper that went out in part or data that is not taken ends it, a device that has no
/// more data goes on to its status, and one that sends no status fails.
pub proof fn law_each_reply_counts(progress: NativeProgress, reply: NativeReply)
    requires
        progress.wf(),
        progress.fits(reply),
    ensures
        ({
            let (after, action) = progress.next(reply);
            &&& after.tag == progress.tag
            &&& after.incoming == progress.incoming
            &&& after.want == progress.want
            &&& match reply {
                NativeReply::Failed => action == NativeAction::Finish(
                    Err(BotError::Transport { stage: progress.stage }),
                ),
                NativeReply::Sent(n) => {
                    &&& after.data == progress.data
                    &&& after.status == progress.status
                    &&& progress.stage == Stage::Command ==> {
                        &&& after.moved == 0
                        &&& n != 31 ==> action == NativeAction::Finish(
                            Err(BotError::ShortCommand { sent: n }),
                        )
                        &&& n == 31 ==> !(action is Finish)
                        &&& n == 31 && progress.want > 0 ==> !(action is ReceiveStatus)
                    }
                    &&& progress.stage == Stage::DataOut ==> {
                        &&& after.moved == progress.moved + n
                        &&& n == 0 ==> action == NativeAction::Finish(Err(BotError::Stalled))
                        &&& n > 0 ==> !(action is Finish)
                        &&& n > 0 && after.moved < progress.want ==> action is SendData
                    }
                },
                NativeReply::Received(bytes) => {
                    &&& after.moved == progress.moved
                    &&& progress.stage == Stage::DataIn ==> {
                        &&& after.data == progress.data + bytes@
                        &&& after.status == progress.status
                        &&& action is ReceiveStatus <==> bytes@.len() == 0 || after.data.len()
                            == progress.want
                        &&& !(action is Finish)
                    }
                    &&& progress.stage == Stage::Status ==> {
                        &&& after.data == progress.data
                        &&& after.status == progress.status + bytes@
                        &&& bytes@.len() == 0 ==> action == NativeAction::Finish(
                            Err(BotError::NoStatus),
                        )
                        &&& action is ReceiveStatus <==> bytes@.len() > 0 && after.status.len() < 13
                        &&& after.status.len() == 13 ==> action == NativeAction::Finish(
                            final_word(after.status, progress.tag),
                        )
                    }
                },
            }
        }),
{
    if let NativeReply::Received(bytes) = reply {
        if bytes@.len() == 0 {
            assert(progress.data + bytes@ =~= progress.data);
            assert(progress.status + bytes@ =~= progress.status);
        }
    }
}

/// Data goes out in order and without gaps: each write starts behind the bytes that the device took
/// since the 31 of the wrapper.
pub proof fn law_data_goes_out_in_order(
    tag: u32,
    incoming: bool,
    want: nat,
    replies: Seq<NativeReply>,
)
    requires
        want <= usize::MAX,
        replies.len() > 0,
        NativeProgress::started(tag, incoming, want).all_fit(replies),
    ensures
        NativeProgress::started(tag, incoming, want).after(replies.drop_last()).next(
            replies.last(),
        ).1 matches NativeAction::SendData { offset } ==> sent(replies) == 31 + offset && offset
            < want,
{
    let before = NativeProgress::started(tag, incoming, want).after(replies.drop_last());
    law_received_is_data_and_status(tag, incoming, want, replies.drop_last());
    law_each_step_asks_for_the_rest(before, replies.last());
    lemma_command_first(tag, incoming, want, replies);
}

/// A command succeeds only after its wrapper went out whole, all outgoing data was taken, and a
/// status wrapper came back that is an all-clear for this command's tag.
pub proof fn law_success_is_earned(
    tag: u32,
    incoming: bool,
    want: nat,
    replies: Seq<NativeReply>,
    last: NativeReply,
)
    requires
        want <= usize::MAX,
        NativeProgress::started(tag, incoming, want).all_fit(replies.push(last)),
        NativeProgress::started(tag, incoming, want).after(replies).next(last).1
            == NativeAction::Finish(Ok(())),
    ensures
        ({
            let end = NativeProgress::started(tag, incoming, want).after(replies.push(last));
            &&& bulk_only::csw_verdict(end.status, tag) is Ok
            &&& end.status.len() == 13
            &&& replies.len() > 0
            &&& replies[0] == NativeReply::Sent(31)
            &&& !incoming ==> sent(replies) == 31 + want
        }),
{
    let start = NativeProgress::started(tag, incoming, want);
    assert(replies.push(last).drop_last() =~= replies);
    law_received_is_data_and_status(tag, incoming, want, replies);
    law_received_is_data_and_status(tag, incoming, want, replies.push(last));
    lemma_command_first(tag, incoming, want, replies);
}

/// Once the command wrapper is behind, it went out whole and everything written since is data.
proof fn lemma_command_first(tag: u32, incoming: bool, want: nat, replies: Seq<NativeReply>)
    requires
        want <= usize::MAX,
        NativeProgress::started(tag, incoming, want).all_fit(replies),
    ensures
        ({
            let end = NativeProgress::started(tag, incoming, want).after(replies);
            &&& end.stage == Stage::Command ==> replies.len() == 0
            &&& end.stage != Stage::Command && end.stage != Stage::Done ==> {
                &&& replies.len() > 0
                &&& replies[0] == NativeReply::Sent(31)
                &&& sent(replies) == 31 + end.moved
            }
        }),
    decreases replies.len(),
{
    if replies.len() > 0 {
        let front = replies.drop_last();
        lemma_command_first(tag, incoming, want, front);
        law_received_is_data_and_status(tag, incoming, want, front);
        if front.len() == 0 {
            assert(sent(front) == 0);
        } else {
            assert(replies[0] == front[0]);
        }
    }
}

/// Pieces of bytes put together.
pub open spec fn joined(pieces: Seq<Vec<u8>>) -> Seq<u8>
    decreases pieces.len(),
{
    if pieces.len() == 0 {
        Seq::empty()
    } else {
        joined(pieces.drop_last()) + pieces.last()@
    }
}

/// A device that takes the wrapper and then sends these pieces.
pub open spec fn talking(pieces: Seq<Vec<u8>>) -> Seq<NativeReply> {
    seq![NativeReply::Sent(31)] + pieces.map_values(|bytes: Vec<u8>| NativeReply::Received(bytes))
}

/// None of the pieces is empty.
pub open spec fn solid(pieces: Seq<Vec<u8>>) -> bool {
    forall|i: int| 0 <= i < pieces.len() ==> (#[trigger] pieces[i])@.len() > 0
}

/// A device that takes the wrapper, sends all the data that was asked for and then an all-clear, in
/// as many pieces as it likes, ends the command with success and exactly that data.
pub proof fn law_talking_device_succeeds(
    tag: u32,
    want: nat,
    data: Seq<Vec<u8>>,
    status: Seq<Vec<u8>>,
)
    requires
        want <= usize::MAX,
        solid(data),
        solid(status),
        joined(data).len() == want,
        joined(status).len() == 13,
        bulk_only::csw_verdict(joined(status), tag) is Ok,
    ensures
        ({
            let start = NativeProgress::started(tag, true, want);
            let replies = talking(data + status);
            let before = start.after(replies.drop_last());
            &&& start.all_fit(replies)
            &&& before.next(replies.last()).1 == NativeAction::Finish(Ok(()))
            &&& start.after(replies).data == joined(data)
        }),
{
    assert(status.len() > 0);
    lemma_status_phase(tag, want, data, status);
    let replies = talking(data + status);
    assert(replies.last() == NativeReply::Received(status.last()));
    assert(replies.drop_last() =~= talking(data + status.drop_last()));
    lemma_status_phase(tag, want, data, status.drop_last());
}

/// Where a device that talks in pieces has brought a command while it sends data.
proof fn lemma_data_phase(tag: u32, want: nat, data: Seq<Vec<u8>>)
    requires
        want <= usize::MAX,
        solid(data),
        joined(data).len() <= want,
    ensures
        ({
            let start = NativeProgress::started(tag, true, want);
            let here = start.after(talking(data));
            &&& start.all_fit(talking(data))
            &&& here == (NativeProgress {
                stage: if joined(data).len() < want {
                    Stage::DataIn
                } else {
                    Stage::Status
                },
                data: joined(data),
                ..start
            })
        }),
    decreases data.len(),
{
    let start = NativeProgress::started(tag, true, want);
    if data.len() == 0 {
        let none = talking(data).drop_last();
        assert(none =~= Seq::<NativeReply>::empty());
        reveal_with_fuel(NativeProgress::after, 2);
        reveal_with_fuel(NativeProgress::all_fit, 2);
        assert(talking(data).last() == NativeReply::Sent(31));
    } else {
        let front = data.drop_last();
        lemma_solid_front(data);
        lemma_data_phase(tag, want, front);
        assert(talking(data).drop_last() =~= talking(front));
        assert(talking(data).last() == NativeReply::Received(data.last()));
    }
}

/// Where a device that talks in pieces has brought a command while it sends the status wrapper.
proof fn lemma_status_phase(tag: u32, want: nat, data: Seq<Vec<u8>>, status: Seq<Vec<u8>>)
    requires
        want <= usize::MAX,
        solid(data),
        solid(status),
        joined(data).len() == want,
        joined(status).len() <= 13,
    ensures
        ({
            let start = NativeProgress::started(tag, true, want);
            let here = start.after(talking(data + status));
            &&& start.all_fit(talking(data + status))
            &&& here == (NativeProgress {
                stage: if joined(status).len() < 13 {
                    Stage::Status
                } else {
                    Stage::Done
                },
                data: joined(data),
                status: joined(status),
                ..start
            })
        }),
    decreases status.len(),
{
    let start = NativeProgress::started(tag, true, want);
    if status.len() == 0 {
        assert(data + status =~= data);
        lemma_data_phase(tag, want, data);
    } else {
        let front = status.drop_last();
        lemma_solid_front(status);
        lemma_status_phase(tag, want, data, front);
        assert(talking(data + status).drop_last() =~= talking(data + front));
        assert(talking(data + status).last() == NativeReply::Received(status.last()));
    }
}

// ---------------------------------------------------------------------------
// Through `component:usb`: each step is one whole transfer
// ---------------------------------------------------------------------------

/// What a transfer sends.
#[derive(Debug, Clone, Copy)]
pub enum Payload {
    /// The command wrapper.
    Command([u8; 31]),
    /// The caller's data.
    Data,
    /// Nothing.
    Nothing,
}

/// What to do next.
#[derive(Debug)]
pub enum WasmAction {
    /// Make a bulk transfer of this size, submit the payload and await the result.
    Transfer { size: u32, options: TransferOptions, payload: Payload },
    /// The command is over.
    Finish(Result<(), BotError>),
}

/// What came of the last transfer.
#[derive(Debug)]
pub enum WasmReply {
    /// The transfer could not be made, submitted or completed.
    Failed,
    /// It completed with this data.
    Completed(Vec<u8>),
}

/// How far a command has come.
#[derive(Debug)]
pub struct WasmExchange {
    /// The transport with the tag that the command uses.
    pub transport: WasmTransport,
    pub incoming: bool,
    /// There is a data step.
    pub has_data: bool,
    /// The size of the data step.
    pub size: u32,
    pub stage: Stage,
    /// The data that came in.
    pub data: Vec<u8>,
}

impl WasmExchange {
    /// The data step of this command.
    pub open spec fn data_step(&self) -> WasmAction {
        if self.incoming {
            WasmAction::Transfer {
                size: self.size,
                options: WasmTransport::options_for(self.transport.bulk_in),
                payload: Payload::Nothing,
            }
        } else {
            WasmAction::Transfer {
                size: self.size,
                options: WasmTransport::options_for(self.transport.bulk_out),
                payload: Payload::Data,
            }
        }
    }

    /// The status step of this command.
    pub open spec fn status_step(&self) -> WasmAction {
        WasmAction::Transfer {
            size: 13,
            options: WasmTransport::options_for(self.transport.bulk_in),
            payload: Payload::Nothing,
        }
    }

    /// The same command at another stage.
    pub open spec fn at(self, stage: Stage) -> Self {
        WasmExchange { stage, ..self }
    }

    /// What the result of a transfer leads to.
    ///
    /// After the command wrapper comes the data, where there is any, then the status wrapper; any
    /// failed transfer ends the command.
    pub open spec fn next(self, reply: WasmReply) -> (Self, WasmAction) {
        match (self.stage, reply) {
            (stage, WasmReply::Failed) => (
                self.at(Stage::Done),
                WasmAction::Finish(Err(BotError::Transport { stage })),
            ),
            (Stage::Command, WasmReply::Completed(_)) => if !self.has_data {
                (self.at(Stage::Status), self.status_step())
            } else if self.incoming {
                (self.at(Stage::DataIn), self.data_step())
            } else {
                (self.at(Stage::DataOut), self.data_step())
            },
            (Stage::DataIn, WasmReply::Completed(data)) => (
                WasmExchange { data, ..self.at(Stage::Status) },
                self.status_step(),
            ),
            (Stage::DataOut, WasmReply::Completed(_)) => (
                self.at(Stage::Status),
                self.status_step(),
            ),
            (_, WasmReply::Completed(bytes)) => (
                self.at(Stage::Done),
                WasmAction::Finish(final_word(bytes@, self.transport.tag)),
            ),
        }
    }

    /// Takes the result of the last transfer and says what to do next.
    pub fn resume(&mut self, reply: WasmReply) -> (action: WasmAction)
        requires
            old(self).stage != Stage::Done,
        ensures
            (*final(self), action) == old(self).next(reply),
            reply is Completed && old(self).stage != Stage::Status ==> action is Transfer,
            match action {
                WasmAction::Transfer { size, options, payload } => {
                    &&& final(self).stage == Stage::Status ==> {
                        &&& size == 13
                        &&& options.endpoint == old(self).transport.bulk_in
                        &&& payload is Nothing
                    }
                    &&& final(self).stage != Stage::Status ==> {
                        &&& size == old(self).size
                        &&& options.endpoint == (if old(self).incoming {
                            old(self).transport.bulk_in
                        } else {
                            old(self).transport.bulk_out
                        })
                        &&& payload is Data == !old(self).incoming
                        &&& payload is Nothing == old(self).incoming
                    }
                },
                WasmAction::Finish(_) => final(self).stage == Stage::Done,
            },
    {
        match reply {
            WasmReply::Failed => {
                let stage = self.stage;
                self.stage = Stage::Done;
                WasmAction::Finish(Err(BotError::Transport { stage }))
            },
            WasmReply::Completed(bytes) => {
                if self.stage == Stage::Command && self.has_data {
                    if self.incoming {
                        self.stage = Stage::DataIn;
                        WasmAction::Transfer {
                            size: self.size,
                            options: self.transport.bulk_in_opts(),
                            payload: Payload::Nothing,
                        }
                    } else {
                        self.stage = Stage::DataOut;
                        WasmAction::Transfer {
                            size: self.size,
                            options: self.transport.bulk_out_opts(),
                            payload: Payload::Data,
                        }
                    }
                } else if self.stage == Stage::Status {
                    self.stage = Stage::Done;
                    WasmAction::Finish(judge(bytes.as_slice(), self.transport.tag))
                } else {
                    if self.stage == Stage::DataIn {
                        self.data = bytes;
                    }
                    self.stage = Stage::Status;
                    WasmAction::Transfer {
                        size: 13,
                        options: self.transport.bulk_in_opts(),
                        payload: Payload::Nothing,
                    }
                }
            },
        }
    }

    /// The data that came in.
    pub fn into_data(self) -> (data: Vec<u8>)
        ensures
            data == self.data,
    {
        self.data
    }
}

impl WasmTransport {
    /// Starts a command that receives `transfer_len` bytes. There is a data step unless that is
    /// none.
    pub fn begin_in(&mut self, cbwcb: &[u8], transfer_len: u32) -> (started: (
        WasmExchange,
        WasmAction,
    ))
        requires
            0 < cbwcb@.len() <= 16,
        ensures
            *final(self) == (WasmTransport {
                tag: bulk_only::tag_after(old(self).tag, 1),
                ..*old(self)
            }),
            started.0.transport == *old(self),
            started.0.incoming,
            started.0.has_data == (transfer_len > 0),
            started.0.size == transfer_len,
            started.0.stage == Stage::Command,
            started.0.data@ == Seq::<u8>::empty(),
            command_step(
                started.1,
                *old(self),
                bulk_only::cbw_bytes(old(self).tag, transfer_len, true, cbwcb@),
            ),
    {
        let transport = *self;
        let tag = self.next_tag();
        let cbw = build_cbw(tag, transfer_len, true, cbwcb);
        let exchange = WasmExchange {
            transport,
            incoming: true,
            has_data: transfer_len > 0,
            size: transfer_len,
            stage: Stage::Command,
            data: Vec::new(),
        };
        let action = WasmAction::Transfer {
            size: 31,
            options: transport.bulk_out_opts(),
            payload: Payload::Command(cbw),
        };
        (exchange, action)
    }

    /// Starts a command that sends data of this length, or has no data step.
    pub fn begin_out(&mut self, cbwcb: &[u8], data_len: Option<usize>) -> (started: (
        WasmExchange,
        WasmAction,
    ))
        requires
            0 < cbwcb@.len() <= 16,
        ensures
            *final(self) == (WasmTransport {
                tag: bulk_only::tag_after(old(self).tag, 1),
                ..*old(self)
            }),
            started.0.transport == *old(self),
            !started.0.incoming,
            started.0.has_data == data_len is Some,
            started.0.size == (match data_len {
                Some(len) => low_bits(len as nat),
                None => 0,
            }),
            data_len is Some && data_len->0 <= u32::MAX ==> started.0.size == data_len->0,
            started.0.stage == Stage::Command,
            started.0.data@ == Seq::<u8>::empty(),
            command_step(
                started.1,
                *old(self),
                bulk_only::cbw_bytes(old(self).tag, started.0.size, false, cbwcb@),
            ),
    {
        let transport = *self;
        let tag = self.next_tag();
        let size: u32 = match data_len {
            Some(len) => wire_length(len),
            None => 0,
        };
        let cbw = build_cbw(tag, size, false, cbwcb);
        let exchange = WasmExchange {
            transport,
            incoming: false,
            has_data: data_len.is_some(),
            size,
            stage: Stage::Command,
            data: Vec::new(),
        };
        let action = WasmAction::Transfer {
            size: 31,
            options: transport.bulk_out_opts(),
            payload: Payload::Command(cbw),
        };
        (exchange, action)
    }
}

/// Each transfer goes where its bytes belong. The status wrapper is always 13 bytes that the device
/// sends on its incoming endpoint, whatever the command is about. The data is as long as the command
/// says; it comes in on the incoming endpoint exactly where the command receives, and else goes out,
/// as the caller gave it, on the outgoing one. Each transfer has ten seconds.
pub proof fn law_transfers_go_to_their_endpoints(exchange: WasmExchange, reply: WasmReply)
    requires
        exchange.stage != Stage::Done,
    ensures
        ({
            let (after, action) = exchange.next(reply);
            &&& action is Transfer == (after.stage != Stage::Done)
            &&& action matches WasmAction::Transfer { size, options, payload } ==> {
                &&& options.timeout_ms == 10_000
                &&& options.stream_id == 0
                &&& options.iso_packets == 0
                &&& match after.stage {
                    Stage::Status => {
                        &&& size == 13
                        &&& options.endpoint == exchange.transport.bulk_in
                        &&& payload is Nothing
                    },
                    Stage::DataIn => {
                        &&& exchange.incoming
                        &&& size == exchange.size
                        &&& options.endpoint == exchange.transport.bulk_in
                        &&& payload is Nothing
                    },
                    Stage::DataOut => {
                        &&& !exchange.incoming
                        &&& size == exchange.size
                        &&& options.endpoint == exchange.transport.bulk_out
                        &&& payload is Data
                    },
                    _ => false,
                }
            }
        }),
{
}

/// Data moves after the command wrapper, where the command has any, and the status wrapper comes
/// after both. A transfer that failed ends the command, and the error names its step. What a data
/// transfer delivers is kept; no other transfer adds to it. What the command is stays as it was.
pub proof fn law_transfers_come_in_order(exchange: WasmExchange, reply: WasmReply)
    requires
        exchange.stage != Stage::Done,
    ensures
        ({
            let (after, action) = exchange.next(reply);
            &&& after.transport == exchange.transport
            &&& after.incoming == exchange.incoming
            &&& after.has_data == exchange.has_data
            &&& after.size == exchange.size
            &&& match reply {
                WasmReply::Failed => {
                    &&& after.stage == Stage::Done
                    &&& after.data == exchange.data
                    &&& action == WasmAction::Finish(
                        Err(BotError::Transport { stage: exchange.stage }),
                    )
                },
                WasmReply::Completed(bytes) => match exchange.stage {
                    Stage::Command => {
                        &&& after.data == exchange.data
                        &&& after.stage == Stage::Status <==> !exchange.has_data
                        &&& after.stage == Stage::DataIn <==> exchange.has_data
                            && exchange.incoming
                        &&& after.stage == Stage::DataOut <==> exchange.has_data
                            && !exchange.incoming
                    },
                    Stage::DataIn => after.stage == Stage::Status && after.data == bytes,
                    Stage::DataOut => after.stage == Stage::Status && after.data == exchange.data,
                    _ => {
                        &&& after.stage == Stage::Done
                        &&& after.data == exchange.data
                        &&& action == WasmAction::Finish(Ok(())) <==> {
                            &&& bytes@.len() >= 13
                            &&& bytes@.take(4) == seq![0x55u8, 0x53, 0x42, 0x53]
                            &&& bytes@[4] + 0x100 * bytes@[5] + 0x1_0000 * bytes@[6] + 0x100_0000
                                * bytes@[7] == exchange.transport.tag
                            &&& bytes@[12] == 0
                        }
                    },
                },
            }
        }),
{
    if exchange.stage == Stage::Status {
        if let WasmReply::Completed(bytes) = reply {
            bulk_only::law_csw_layout(bytes@, exchange.transport.tag);
        }
    }
}

/// The command wrapper is 31 bytes that go out on the outgoing endpoint, also where the command
/// receives.
pub proof fn law_command_goes_out(action: WasmAction, transport: WasmTransport, cbw: Seq<u8>)
    requires
        command_step(action, transport, cbw),
    ensures
        action matches WasmAction::Transfer { size, options, payload: Payload::Command(bytes) }
            && size == 31 && options.endpoint == transport.bulk_out && options.timeout_ms == 10_000
            && options.stream_id == 0 && options.iso_packets == 0 && bytes@ == cbw,
{
}

/// It makes no difference to a command that receives how the device is reached. Where the device
/// sends all the data that was asked for, if any was, and then its status wrapper, a command through
/// rusb, whatever pieces the bytes come in, and one through the component interface end alike: with
/// the same verdict and the same data.
pub proof fn law_both_transports_agree(
    exchange: WasmExchange,
    data: Seq<Vec<u8>>,
    status: Seq<Vec<u8>>,
    command_result: Vec<u8>,
    whole_data: Vec<u8>,
    whole_status: Vec<u8>,
)
    requires
        exchange.stage == Stage::Command,
        exchange.incoming,
        exchange.has_data == (exchange.size > 0),
        exchange.data@.len() == 0,
        solid(data),
        solid(status),
        joined(data) == whole_data@,
        joined(status) == whole_status@,
        whole_data@.len() == exchange.size,
        whole_status@.len() == 13,
    ensures
        ({
            let native = NativeProgress::started(
                exchange.transport.tag,
                true,
                exchange.size as nat,
            );
            let replies = talking(data + status);
            let native_end = native.after(replies.drop_last()).next(replies.last());
            let w1 = exchange.next(WasmReply::Completed(command_result)).0;
            let w2 = if exchange.has_data {
                w1.next(WasmReply::Completed(whole_data)).0
            } else {
                w1
            };
            let wasm_end = w2.next(WasmReply::Completed(whole_status));
            let verdict = final_word(whole_status@, exchange.transport.tag);
            &&& native.all_fit(replies)
            &&& native_end.1 == NativeAction::Finish(verdict)
            &&& wasm_end.1 == WasmAction::Finish(verdict)
            &&& native_end.0.data == wasm_end.0.data@
            &&& native_end.0.data == whole_data@
        }),
{
    let tag = exchange.transport.tag;
    let want = exchange.size as nat;
    let replies = talking(data + status);
    assert(status.len() > 0);
    lemma_status_phase(tag, want, data, status);
    assert(replies.last() == NativeReply::Received(status.last()));
    assert(replies.drop_last() =~= talking(data + status.drop_last()));
    lemma_solid_front(status);
    lemma_status_phase(tag, want, data, status.drop_last());
    if !exchange.has_data {
        assert(exchange.data@ =~= whole_data@);
    }
}

/// Nor does it make a difference to a command that sends, or that moves no data. Where the device
/// takes the wrapper and all the data, if there is any, and then sends its status wrapper, both end
/// with the same verdict.
pub proof fn law_both_transports_agree_on_sending(
    exchange: WasmExchange,
    want: nat,
    sends: Seq<usize>,
    status: Seq<Vec<u8>>,
    command_result: Vec<u8>,
    data_result: Vec<u8>,
    whole_status: Vec<u8>,
)
    requires
        want <= usize::MAX,
        exchange.stage == Stage::Command,
        !exchange.incoming,
        exchange.size == low_bits(want),
        !exchange.has_data ==> want == 0,
        all_positive(sends),
        summed(sends) == want,
        solid(status),
        joined(status) == whole_status@,
        whole_status@.len() == 13,
    ensures
        ({
            let native = NativeProgress::started(exchange.transport.tag, false, want);
            let replies = taking(sends, status);
            let native_end = native.after(replies.drop_last()).next(replies.last());
            let w1 = exchange.next(WasmReply::Completed(command_result)).0;
            let w2 = if exchange.has_data {
                w1.next(WasmReply::Completed(data_result)).0
            } else {
                w1
            };
            let wasm_end = w2.next(WasmReply::Completed(whole_status));
            let verdict = final_word(whole_status@, exchange.transport.tag);
            &&& native.all_fit(replies)
            &&& native_end.0.moved == want
            &&& native_end.1 == NativeAction::Finish(verdict)
            &&& wasm_end.1 == WasmAction::Finish(verdict)
        }),
{
    let tag = exchange.transport.tag;
    let replies = taking(sends, status);
    assert(status.len() > 0);
    lemma_answer_phase(tag, want, sends, status);
    assert(replies.last() == NativeReply::Received(status.last()));
    assert(replies.drop_last() =~= taking(sends, status.drop_last()));
    lemma_solid_front(status);
    lemma_answer_phase(tag, want, sends, status.drop_last());
}

/// A device that takes the wrapper, then the data in portions of these lengths, and then sends its
/// status wrapper in these pieces.
pub open spec fn taking(sends: Seq<usize>, status: Seq<Vec<u8>>) -> Seq<NativeReply> {
    seq![NativeReply::Sent(31)] + sends.map_values(|n: usize| NativeReply::Sent(n))
        + status.map_values(|bytes: Vec<u8>| NativeReply::Received(bytes))
}

/// The sum of some lengths.
pub open spec fn summed(lengths: Seq<usize>) -> nat
    decreases lengths.len(),
{
    if lengths.len() == 0 {
        0
    } else {
        summed(lengths.drop_last()) + lengths.last() as nat
    }
}

/// None of the lengths is zero.
pub open spec fn all_positive(lengths: Seq<usize>) -> bool {
    forall|i: int| 0 <= i < lengths.len() ==> #[trigger] lengths[i] > 0
}

proof fn lemma_solid_front(pieces: Seq<Vec<u8>>)
    requires
        solid(pieces),
        pieces.len() > 0,
    ensures
        solid(pieces.drop_last()),
        pieces.last()@.len() > 0,
{
    let front = pieces.drop_last();
    assert forall|i: int| 0 <= i < front.len() implies (#[trigger] front[i])@.len() > 0 by {
        assert(front[i] == pieces[i]);
    }
    assert(pieces[pieces.len() - 1]@.len() > 0);
}

/// Where a device that takes data in portions has brought a command.
proof fn lemma_take_phase(tag: u32, want: nat, sends: Seq<usize>)
    requires
        want <= usize::MAX,
        all_positive(sends),
        summed(sends) <= want,
    ensures
        ({
            let start = NativeProgress::started(tag, false, want);
            let replies = taking(sends, Seq::empty());
            &&& start.all_fit(replies)
            &&& start.after(replies) == (NativeProgress {
                stage: if summed(sends) < want {
                    Stage::DataOut
                } else {
                    Stage::Status
                },
                moved: summed(sends),
                ..start
            })
        }),
    decreases sends.len(),
{
    let start = NativeProgress::started(tag, false, want);
    let none = Seq::<Vec<u8>>::empty();
    let replies = taking(sends, none);
    if sends.len() == 0 {
        assert(replies.drop_last() =~= Seq::<NativeReply>::empty());
        reveal_with_fuel(NativeProgress::after, 2);
        reveal_with_fuel(NativeProgress::all_fit, 2);
        assert(replies.last() == NativeReply::Sent(31));
    } else {
        let front = sends.drop_last();
        assert forall|i: int| 0 <= i < front.len() implies #[trigger] front[i] > 0 by {
            assert(front[i] == sends[i]);
        }
        assert(sends[sends.len() - 1] > 0);
        lemma_take_phase(tag, want, front);
        assert(replies.drop_last() =~= taking(front, none));
        assert(replies.last() == NativeReply::Sent(sends.last()));
    }
}

/// Where it has brought the command while it sends the status wrapper.
proof fn lemma_answer_phase(tag: u32, want: nat, sends: Seq<usize>, status: Seq<Vec<u8>>)
    requires
        want <= usize::MAX,
        all_positive(sends),
        summed(sends) == want,
        solid(status),
        joined(status).len() <= 13,
    ensures
        ({
            let start = NativeProgress::started(tag, false, want);
            let replies = taking(sends, status);
            &&& start.all_fit(replies)
            &&& start.after(replies) == (NativeProgress {
                stage: if joined(status).len() < 13 {
                    Stage::Status
                } else {
                    Stage::Done
                },
                moved: want,
                status: joined(status),
                ..start
            })
        }),
    decreases status.len(),
{
    let replies = taking(sends, status);
    if status.len() == 0 {
        assert(status =~= Seq::<Vec<u8>>::empty());
        lemma_take_phase(tag, want, sends);
    } else {
        lemma_solid_front(status);
        lemma_answer_phase(tag, want, sends, status.drop_last());
        assert(replies.drop_last() =~= taking(sends, status.drop_last()));
        assert(replies.last() == NativeReply::Received(status.last()));
    }
}

/// The action sends this command wrapper to the device.
pub open spec fn command_step(action: WasmAction, transport: WasmTransport, cbw: Seq<u8>) -> bool {
    action matches WasmAction::Transfer { size, options, payload: Payload::Command(bytes) } && size
        == 31 && options == WasmTransport::options_for(transport.bulk_out) && bytes@ == cbw
}

/// A command starts by sending its wrapper to the outgoing endpoint, whichever way its data goes. One
/// that receives has a data step exactly where it asks for data; one that sends has one exactly where
/// it is given data. Each command takes the next tag.
pub proof fn law_command_starts(
    transport: &mut WasmTransport,
    sender: &mut WasmTransport,
    command: &[u8],
    transfer_len: u32,
    data_len: Option<usize>,
    receiving: (WasmExchange, WasmAction),
    sending: (WasmExchange, WasmAction),
)
    requires
        0 < command@.len() <= 16,
        call_ensures(
            WasmTransport::begin_in,
            (transport, command, transfer_len),
            receiving,
        ),
        call_ensures(WasmTransport::begin_out, (sender, command, data_len), sending),
    ensures
        receiving.0.incoming,
        receiving.0.has_data <==> transfer_len > 0,
        receiving.0.size == transfer_len,
        receiving.0.transport == *old(transport),
        receiving.0.stage == Stage::Command,
        !sending.0.incoming,
        sending.0.has_data <==> data_len is Some,
        data_len is None ==> sending.0.size == 0,
        data_len is Some && data_len->0 <= u32::MAX ==> sending.0.size == data_len->0,
        sending.0.transport == *old(sender),
        sending.0.stage == Stage::Command,
        receiving.1 matches WasmAction::Transfer { size, options, payload: Payload::Command(bytes) }
            && size == 31 && options.endpoint == old(transport).bulk_out && bytes@[12] == 0x80,
        sending.1 matches WasmAction::Transfer { size, options, payload: Payload::Command(bytes) }
            && size == 31 && options.endpoint == old(sender).bulk_out && bytes@[12] == 0,
        old(transport).tag < u32::MAX ==> final(transport).tag == old(transport).tag + 1,
        final(transport).bulk_in == old(transport).bulk_in,
        final(transport).bulk_out == old(transport).bulk_out,
        old(sender).tag < u32::MAX ==> final(sender).tag == old(sender).tag + 1,
        final(sender).bulk_in == old(sender).bulk_in,
        final(sender).bulk_out == old(sender).bulk_out,
{
    bulk_only::law_cbw_layout(old(transport).tag, transfer_len, true, command@);
    bulk_only::law_cbw_layout(old(sender).tag, sending.0.size, false, command@);
}

/// What `resume` asks for, on every reply: the transfer that leads to the status wrapper is 13 bytes
/// from the incoming endpoint and sends nothing; the data transfer has the size of the data and goes
/// to the incoming endpoint exactly where the command receives, else to the outgoing one.
pub proof fn law_resumed_transfers(
    exchange: &mut WasmExchange,
    reply: WasmReply,
    action: WasmAction,
)
    requires
        old(exchange).stage != Stage::Done,
        call_ensures(WasmExchange::resume, (exchange, reply), action),
    ensures
        final(exchange).stage == Stage::Status ==> {
            &&& action matches WasmAction::Transfer { size, options, payload }
            &&& size == 13
            &&& options.endpoint == old(exchange).transport.bulk_in
            &&& payload is Nothing
        },
        final(exchange).stage == Stage::DataIn || final(exchange).stage == Stage::DataOut ==> {
            &&& action matches WasmAction::Transfer { size, options, payload }
            &&& size == old(exchange).size
            &&& old(exchange).incoming ==> options.endpoint == old(exchange).transport.bulk_in
                && payload is Nothing
            &&& !old(exchange).incoming ==> options.endpoint == old(exchange).transport.bulk_out
                && payload is Data
        },
        reply is Completed && old(exchange).stage == Stage::Command ==> (final(exchange).stage
            == Stage::Status <==> !old(exchange).has_data),
        reply is Completed && (old(exchange).stage == Stage::DataIn || old(exchange).stage
            == Stage::DataOut) ==> final(exchange).stage == Stage::Status,
        reply is Failed || old(exchange).stage == Stage::Status ==> final(exchange).stage
            == Stage::Done && action is Finish,
{
    law_transfers_go_to_their_endpoints(*old(exchange), reply);
    law_transfers_come_in_order(*old(exchange), reply);
}

/// Natively, too, a command starts with its wrapper, which says the direction and the length of the
/// data, under the next tag; so much data is then to be moved in that direction.
pub proof fn law_native_command_starts(
    transport: &mut NativeTransport,
    sender: &mut NativeTransport,
    command: &[u8],
    transfer_len: u32,
    data_len: usize,
    receiving: (NativeExchange, [u8; 31]),
    sending: (NativeExchange, [u8; 31]),
)
    requires
        0 < command@.len() <= 16,
        call_ensures(
            NativeTransport::begin_in,
            (transport, command, transfer_len),
            receiving,
        ),
        call_ensures(NativeTransport::begin_out, (sender, command, data_len), sending),
    ensures
        receiving.0.incoming,
        receiving.0.want == transfer_len,
        receiving.0.tag == old(transport).tag,
        receiving.0.stage == Stage::Command,
        receiving.1@[12] == 0x80,
        receiving.1@[8] + 0x100 * receiving.1@[9] + 0x1_0000 * receiving.1@[10] + 0x100_0000
            * receiving.1@[11] == transfer_len,
        receiving.1@[4] + 0x100 * receiving.1@[5] + 0x1_0000 * receiving.1@[6] + 0x100_0000
            * receiving.1@[7] == old(transport).tag,
        !sending.0.incoming,
        sending.0.want == data_len,
        sending.0.tag == old(sender).tag,
        sending.0.stage == Stage::Command,
        sending.1@[12] == 0,
        data_len <= u32::MAX ==> sending.1@[8] + 0x100 * sending.1@[9] + 0x1_0000 * sending.1@[10]
            + 0x100_0000 * sending.1@[11] == data_len,
        sending.1@[4] + 0x100 * sending.1@[5] + 0x1_0000 * sending.1@[6] + 0x100_0000
            * sending.1@[7] == old(sender).tag,
        old(transport).tag < u32::MAX ==> final(transport).tag == old(transport).tag + 1,
        old(sender).tag < u32::MAX ==> final(sender).tag == old(sender).tag + 1,
{
    assert(receiving.0.want == receiving.0@.want && receiving.0.tag == receiving.0@.tag);
    assert(sending.0.want == sending.0@.want && sending.0.tag == sending.0@.tag);
    bulk_only::law_cbw_layout(old(transport).tag, transfer_len, true, command@);
    bulk_only::law_cbw_layout(old(sender).tag, low_bits(data_len as nat), false, command@);
}

} // verus!
