//! Call tracing: how long a host call took, how often the process lost the processor meanwhile, and
//! what the call was about, on one line.

use std::time::Instant;

use vstd::prelude::*;

use crate::text;
#[allow(unused_imports)]
use crate::transfers;
use crate::types::TransferType;

verus! {

// ---------------------------------------------------------------------------
// Context switches
// ---------------------------------------------------------------------------

/// How often a process gave up the processor, and how often it was taken from it.
#[derive(Debug, Clone, Copy, PartialEq, Eq, Structural)]
pub struct CtxSwitches {
    pub voluntary: u64,
    pub nonvoluntary: u64,
}

/// The lines of a text.
pub open spec fn lines_of(s: Seq<char>) -> Seq<Seq<char>>
    decreases s.len(),
{
    let end = text::first_at(s, '\n');
    if 0 <= end < s.len() {
        seq![s.take(end)] + lines_of(s.skip(end + 1))
    } else {
        seq![s]
    }
}

/// `line` begins with `prefix`.
pub open spec fn begins_with(line: Seq<char>, prefix: Seq<char>) -> bool {
    prefix.len() <= line.len() && line.take(prefix.len() as int) == prefix
}

/// The number behind a prefix, where the line has the prefix and a number behind it.
pub open spec fn line_value(line: Seq<char>, prefix: Seq<char>) -> Option<u64> {
    if begins_with(line, prefix) {
        match text::unsigned_value(
            text::trimmed(line.skip(prefix.len() as int)),
            10,
            u64::MAX as nat,
        ) {
            Ok(n) => Some(n as u64),
            Err(_) => None,
        }
    } else {
        None
    }
}

/// The number on the first line that has the prefix and a number behind it.
pub open spec fn first_value(lines: Seq<Seq<char>>, prefix: Seq<char>) -> Option<u64>
    decreases lines.len(),
{
    if lines.len() == 0 {
        None
    } else if line_value(lines[0], prefix) is Some {
        line_value(lines[0], prefix)
    } else {
        first_value(lines.skip(1), prefix)
    }
}

fn has_prefix(line: &[char], prefix: &[char]) -> (yes: bool)
    ensures
        yes == begins_with(line@, prefix@),
{
    if prefix.len() > line.len() {
        return false;
    }
    let mut i: usize = 0;
    while i < prefix.len()
        invariant
            prefix@.len() <= line@.len(),
            i <= prefix@.len(),
            forall|j: int| 0 <= j < i ==> line@[j] == prefix@[j],
        decreases prefix@.len() - i,
    {
        if line[i] != prefix[i] {
            assert(line@.take(prefix@.len() as int)[i as int] != prefix@[i as int]);
            return false;
        }
        i += 1;
    }
    assert(line@.take(prefix@.len() as int) =~= prefix@);
    true
}

fn read_line(line: &[char], prefix: &[char]) -> (value: Option<u64>)
    ensures
        value == line_value(line@, prefix@),
{
    if !has_prefix(line, prefix) {
        return None;
    }
    let rest = vstd::slice::slice_subrange(line, prefix.len(), line.len());
    assert(rest@ =~= line@.skip(prefix@.len() as int));
    match text::parse_unsigned(text::trim(rest), 10, u64::MAX) {
        Ok(n) => Some(n),
        Err(_) => None,
    }
}

fn find_value(all: &[char], prefix: &[char], from: usize) -> (value: Option<u64>)
    requires
        from <= all@.len(),
    ensures
        value == first_value(lines_of(all@.skip(from as int)), prefix@),
    decreases all@.len() - from,
{
    let end = text::find_char(all, '\n', from);
    let line = vstd::slice::slice_subrange(all, from, end);
    let ghost rest = all@.skip(from as int);
    assert(line@ =~= rest.take(end - from));
    proof {
        reveal_with_fuel(first_value, 2);
        if end == all@.len() {
            assert(rest.take(end - from) =~= rest);
            assert(lines_of(rest).skip(1) =~= Seq::<Seq<char>>::empty());
        } else {
            assert(rest.skip(end - from + 1) =~= all@.skip(end + 1));
            assert(lines_of(rest).skip(1) =~= lines_of(all@.skip(end + 1)));
        }
        assert(lines_of(rest)[0] == line@);
    }
    match read_line(line, prefix) {
        Some(value) => Some(value),
        None => if end == all.len() {
            None
        } else {
            find_value(all, prefix, end + 1)
        },
    }
}

impl CtxSwitches {
    /// The counts that a process status reports; `None` unless both are there.
    pub open spec fn reported(status: Seq<char>) -> Option<CtxSwitches> {
        let lines = lines_of(status);
        match (
            first_value(lines, "voluntary_ctxt_switches:"@),
            first_value(lines, "nonvoluntary_ctxt_switches:"@),
        ) {
            (Some(voluntary), Some(nonvoluntary)) => Some(CtxSwitches { voluntary, nonvoluntary }),
            _ => None,
        }
    }

    /// Reads the counts from the text of a process status.
    pub fn parse(status: &str) -> (counts: Option<Self>)
        ensures
            counts == Self::reported(status@),
    {
        let chars = text::chars_of(status);
        let all = chars.as_slice();
        assert(all@.skip(0) =~= all@);
        let voluntary_prefix = text::chars_of("voluntary_ctxt_switches:");
        let nonvoluntary_prefix = text::chars_of("nonvoluntary_ctxt_switches:");
        let voluntary = find_value(all, voluntary_prefix.as_slice(), 0);
        let nonvoluntary = find_value(all, nonvoluntary_prefix.as_slice(), 0);
        match (voluntary, nonvoluntary) {
            (Some(voluntary), Some(nonvoluntary)) => Some(CtxSwitches { voluntary, nonvoluntary }),
            _ => None,
        }
    }
}

/// A text is its lines with line ends between them, and no line holds one.
pub proof fn law_lines_make_the_text(s: Seq<char>)
    ensures
        lines_of(s).len() > 0,
        forall|i: int| 0 <= i < lines_of(s).len() ==> !(#[trigger] lines_of(s)[i]).contains('\n'),
        rejoined(lines_of(s)) == s,
    decreases s.len(),
{
    let end = text::first_at(s, '\n');
    text::law_first_at_misses(s, '\n');
    lemma_before_first(s, '\n');
    if end < s.len() {
        let rest = s.skip(end + 1);
        law_lines_make_the_text(rest);
        let all = lines_of(s);
        assert(all[0] == s.take(end));
        assert(all.skip(1) =~= lines_of(rest));
        assert forall|i: int| 0 <= i < all.len() implies !(#[trigger] all[i]).contains('\n') by {
            if i > 0 {
                assert(all[i] == lines_of(rest)[i - 1]);
            }
        }
        assert(rejoined(all) =~= s.take(end).push('\n') + rest);
        assert(rejoined(all) =~= s);
    } else {
        assert(lines_of(s) =~= seq![s]);
        assert(rejoined(lines_of(s)) =~= s);
    }
}

/// Lines with line ends between them.
pub open spec fn rejoined(lines: Seq<Seq<char>>) -> Seq<char>
    decreases lines.len(),
{
    if lines.len() == 0 {
        Seq::empty()
    } else if lines.len() == 1 {
        lines[0]
    } else {
        lines[0].push('\n') + rejoined(lines.skip(1))
    }
}

proof fn lemma_before_first(s: Seq<char>, c: char)
    ensures
        !s.take(text::first_at(s, c)).contains(c),
        text::first_at(s, c) < s.len() ==> s[text::first_at(s, c)] == c,
    decreases s.len(),
{
    text::law_first_at_misses(s, c);
    if s.len() > 0 && s[0] != c {
        let rest = s.skip(1);
        lemma_before_first(rest, c);
        text::law_first_at_misses(rest, c);
        let end = text::first_at(s, c);
        let front = s.take(end);
        if front.contains(c) {
            let i = choose|i: int| 0 <= i < front.len() && front[i] == c;
            assert(rest.take(end - 1)[i - 1] == c);
        }
    }
}

/// A count is read from the first line that has its name in front and a number behind it, white space
/// aside; lines before that do not matter. Both counts have to be there.
pub proof fn law_counts_come_from_their_lines(status: Seq<char>, i: int, j: int, v: u64, n: u64)
    requires
        ({
            let lines = lines_of(status);
            &&& 0 <= i < lines.len()
            &&& 0 <= j < lines.len()
            &&& counts(lines[i], "voluntary_ctxt_switches:"@, v)
            &&& counts(lines[j], "nonvoluntary_ctxt_switches:"@, n)
            &&& forall|k: int, x: u64|
                0 <= k < i ==> !#[trigger] counts(lines[k], "voluntary_ctxt_switches:"@, x)
            &&& forall|k: int, x: u64|
                0 <= k < j ==> !#[trigger] counts(lines[k], "nonvoluntary_ctxt_switches:"@, x)
        }),
    ensures
        CtxSwitches::reported(status) matches Some(found) && found.voluntary == v
            && found.nonvoluntary == n,
{
    lemma_first_count(lines_of(status), "voluntary_ctxt_switches:"@, i, v);
    lemma_first_count(lines_of(status), "nonvoluntary_ctxt_switches:"@, j, n);
}

/// A process status where one of the two counts is on no line reports neither.
pub proof fn law_both_counts_have_to_be_there(status: Seq<char>)
    requires
        ({
            let lines = lines_of(status);
            ||| forall|k: int, x: u64|
                0 <= k < lines.len() ==> !#[trigger] counts(
                    lines[k],
                    "voluntary_ctxt_switches:"@,
                    x,
                )
            ||| forall|k: int, x: u64|
                0 <= k < lines.len() ==> !#[trigger] counts(
                    lines[k],
                    "nonvoluntary_ctxt_switches:"@,
                    x,
                )
        }),
    ensures
        CtxSwitches::reported(status) is None,
{
    lemma_some_count(lines_of(status), "voluntary_ctxt_switches:"@);
    lemma_some_count(lines_of(status), "nonvoluntary_ctxt_switches:"@);
}

proof fn lemma_some_count(lines: Seq<Seq<char>>, prefix: Seq<char>)
    ensures
        first_value(lines, prefix) is Some ==> exists|k: int, x: u64|
            0 <= k < lines.len() && #[trigger] counts(lines[k], prefix, x),
    decreases lines.len(),
{
    if lines.len() > 0 {
        if let Some(x) = line_value(lines[0], prefix) {
            lemma_line_counts(lines[0], prefix, x);
            assert(counts(lines[0], prefix, x));
        } else if first_value(lines, prefix) is Some {
            let rest = lines.skip(1);
            lemma_some_count(rest, prefix);
            let (k, x) = choose|k: int, x: u64|
                0 <= k < rest.len() && #[trigger] counts(rest[k], prefix, x);
            assert(counts(lines[k + 1], prefix, x));
        }
    }
}

/// The line is this prefix with this number behind it, white space aside.
pub open spec fn counts(line: Seq<char>, prefix: Seq<char>, n: u64) -> bool {
    exists|rest: Seq<char>|
        line == #[trigger] (prefix + rest) && text::unsigned_value(
            text::trimmed(rest),
            10,
            u64::MAX as nat,
        ) == Ok::<nat, text::ParseFailure>(n as nat)
}

proof fn lemma_line_counts(line: Seq<char>, prefix: Seq<char>, n: u64)
    ensures
        counts(line, prefix, n) <==> line_value(line, prefix) == Some(n),
{
    let rest = line.skip(prefix.len() as int);
    if begins_with(line, prefix) {
        assert(line =~= prefix + rest);
        text::lemma_unsigned_fits(text::trimmed(rest), 10, u64::MAX as nat);
    }
    if counts(line, prefix, n) {
        let r = choose|r: Seq<char>|
            line == #[trigger] (prefix + r) && text::unsigned_value(
                text::trimmed(r),
                10,
                u64::MAX as nat,
            ) == Ok::<nat, text::ParseFailure>(n as nat);
        assert(line.take(prefix.len() as int) =~= prefix);
        assert(rest =~= r);
    }
}

proof fn lemma_first_count(lines: Seq<Seq<char>>, prefix: Seq<char>, i: int, n: u64)
    requires
        0 <= i < lines.len(),
        counts(lines[i], prefix, n),
        forall|k: int, x: u64| 0 <= k < i ==> !#[trigger] counts(lines[k], prefix, x),
    ensures
        first_value(lines, prefix) == Some(n),
    decreases lines.len(),
{
    if i == 0 {
        lemma_line_counts(lines[0], prefix, n);
    } else {
        if let Some(x) = line_value(lines[0], prefix) {
            lemma_line_counts(lines[0], prefix, x);
            assert(!counts(lines[0], prefix, x));
        }
        let rest = lines.skip(1);
        assert forall|k: int, x: u64| 0 <= k < i - 1 implies !#[trigger] counts(
            rest[k],
            prefix,
            x,
        ) by {
            assert(!counts(lines[k + 1], prefix, x));
        }
        lemma_first_count(rest, prefix, i - 1, n);
    }
}

// ---------------------------------------------------------------------------
// Traces
// ---------------------------------------------------------------------------

/// A call that is being traced.
pub struct CallTrace {
    pub op: &'static str,
    /// When the call began.
    pub started: Instant,
    /// What the call is about.
    pub detail: String,
    /// The context switches when the call began, where they are known.
    pub ctx_start: Option<CtxSwitches>,
}

/// `end - start`, never below zero.
pub open spec fn grown(start: u64, end: u64) -> nat {
    if end >= start {
        (end - start) as nat
    } else {
        0
    }
}

/// The line of a traced call. Context switches are on it where they are known at both ends.
pub open spec fn trace_line(
    op: Seq<char>,
    dur_us: nat,
    start: Option<CtxSwitches>,
    end: Option<CtxSwitches>,
    detail: Seq<char>,
) -> Seq<char> {
    let head = "op="@ + op + " dur_us="@ + text::decimal(dur_us);
    match (start, end) {
        (Some(s), Some(e)) => head + " ctx_vol_delta="@ + text::decimal(
            grown(s.voluntary, e.voluntary),
        ) + " ctx_nvol_delta="@ + text::decimal(grown(s.nonvoluntary, e.nonvoluntary)) + " "@
            + detail,
        _ => head + " "@ + detail,
    }
}

/// A trace line names the operation, then its duration, then, where the counts are known at both ends,
/// by how much the voluntary and the other context switches grew, then the details. Counts that went
/// back grew by nothing.
pub proof fn law_trace_line(
    op: Seq<char>,
    dur_us: nat,
    start: CtxSwitches,
    end: CtxSwitches,
    detail: Seq<char>,
)
    ensures
        trace_line(op, dur_us, None, None, detail) == "op="@ + op + " dur_us="@ + text::decimal(
            dur_us,
        ) + " "@ + detail,
        trace_line(op, dur_us, Some(start), None, detail) == trace_line(
            op,
            dur_us,
            None,
            None,
            detail,
        ),
        trace_line(op, dur_us, None, Some(end), detail) == trace_line(
            op,
            dur_us,
            None,
            None,
            detail,
        ),
        end.voluntary >= start.voluntary && end.nonvoluntary >= start.nonvoluntary ==> trace_line(
            op,
            dur_us,
            Some(start),
            Some(end),
            detail,
        ) == "op="@ + op + " dur_us="@ + text::decimal(dur_us) + " ctx_vol_delta="@ + text::decimal(
            (end.voluntary - start.voluntary) as nat,
        ) + " ctx_nvol_delta="@ + text::decimal((end.nonvoluntary - start.nonvoluntary) as nat)
            + " "@ + detail,
        end.voluntary < start.voluntary ==> grown(start.voluntary, end.voluntary) == 0,
{
}

impl CallTrace {
    /// Starts to trace a call, with the context switches so far where they are known.
    pub fn enter(op: &'static str, ctx_start: Option<CtxSwitches>) -> (trace: Self)
        ensures
            trace.op@ == op@,
            trace.detail@ == Seq::<char>::empty(),
            trace.ctx_start == ctx_start,
            call_ensures(Instant::now, (), trace.started),
    {
        CallTrace { op, started: Instant::now(), detail: String::new(), ctx_start }
    }

    /// Adds to what the call is about, with a space in between.
    pub fn detail(self, kv: &str) -> (trace: Self)
        ensures
            trace.op == self.op,
            trace.started == self.started,
            trace.ctx_start == self.ctx_start,
            trace.detail@ == (if self.detail@.len() == 0 {
                kv@
            } else {
                self.detail@.push(' ') + kv@
            }),
    {
        let mut trace = self;
        let so_far = text::chars_of(trace.detail.as_str());
        if so_far.len() > 0 {
            trace.detail.push(' ');
        }
        text::push_text(&mut trace.detail, kv);
        assert(trace.detail@ =~= if self.detail@.len() == 0 {
            kv@
        } else {
            self.detail@.push(' ') + kv@
        });
        trace
    }

    /// The line for this call after so many microseconds, with the context switches at its end
    /// where they are known.
    pub fn line(&self, dur_us: u128, ctx_end: Option<CtxSwitches>) -> (line: String)
        ensures
            line@ == trace_line(self.op@, dur_us as nat, self.ctx_start, ctx_end, self.detail@),
    {
        let mut line = String::new();
        text::push_text(&mut line, "op=");
        text::push_text(&mut line, self.op);
        text::push_text(&mut line, " dur_us=");
        text::push_decimal(&mut line, dur_us);
        if let (Some(start), Some(end)) = (self.ctx_start, ctx_end) {
            text::push_text(&mut line, " ctx_vol_delta=");
            text::push_decimal(&mut line, end.voluntary.saturating_sub(start.voluntary) as u128);
            text::push_text(&mut line, " ctx_nvol_delta=");
            text::push_decimal(
                &mut line,
                end.nonvoluntary.saturating_sub(start.nonvoluntary) as u128,
            );
        }
        text::push_text(&mut line, " ");
        text::push_text(&mut line, self.detail.as_str());
        assert(line@ =~= trace_line(
            self.op@,
            dur_us as nat,
            self.ctx_start,
            ctx_end,
            self.detail@,
        ));
        line
    }
}

// ---------------------------------------------------------------------------
// What calls are about
// ---------------------------------------------------------------------------

/// The name of a transfer type.
pub open spec fn kind_name(kind: TransferType) -> Seq<char> {
    match kind {
        TransferType::Control => "Control"@,
        TransferType::Isochronous => "Isochronous"@,
        TransferType::Bulk => "Bulk"@,
        TransferType::Interrupt => "Interrupt"@,
    }
}

fn name_of_kind(kind: TransferType) -> (name: &'static str)
    ensures
        name@ == kind_name(kind),
{
    match kind {
        TransferType::Control => "Control",
        TransferType::Isochronous => "Isochronous",
        TransferType::Bulk => "Bulk",
        TransferType::Interrupt => "Interrupt",
    }
}

/// The name of libusb's number for a transfer type.
pub open spec fn code_name(code: u8) -> Seq<char> {
    if code == 0 {
        "Control"@
    } else if code == 1 {
        "Isochronous"@
    } else if code == 2 {
        "Bulk"@
    } else if code == 3 {
        "Interrupt"@
    } else {
        "Unknown"@
    }
}

/// A transfer type has one name, whether it is told by itself or by libusb's number for it.
pub proof fn law_names_agree(kind: TransferType)
    ensures
        code_name(transfers::type_code(kind)) == kind_name(kind),
        kind_name(kind) == (match kind {
            TransferType::Control => "Control"@,
            TransferType::Isochronous => "Isochronous"@,
            TransferType::Bulk => "Bulk"@,
            TransferType::Interrupt => "Interrupt"@,
        }),
{
}

/// Any other number has no name.
pub proof fn law_other_codes_are_unknown(code: u8)
    requires
        code > 3,
    ensures
        code_name(code) == "Unknown"@,
{
}

fn name_of_code(code: u8) -> (name: &'static str)
    ensures
        name@ == code_name(code),
{
    match code {
        0 => "Control",
        1 => "Isochronous",
        2 => "Bulk",
        3 => "Interrupt",
        _ => "Unknown",
    }
}

/// What a new transfer is about.
pub fn new_transfer_detail(
    kind: TransferType,
    buf_size: u32,
    endpoint: u8,
    iso_packets: u32,
) -> (detail: String)
    ensures
        detail@ == "xfer_type="@ + kind_name(kind) + " buf_size="@ + text::decimal(buf_size as nat)
            + " ep=0x"@ + text::hex_byte(endpoint) + " iso_pkts="@ + text::decimal(
            iso_packets as nat,
        ),
{
    let mut detail = String::new();
    text::push_text(&mut detail, "xfer_type=");
    text::push_text(&mut detail, name_of_kind(kind));
    text::push_text(&mut detail, " buf_size=");
    text::push_decimal(&mut detail, buf_size as u128);
    text::push_text(&mut detail, " ep=0x");
    text::push_hex_byte(&mut detail, endpoint);
    text::push_text(&mut detail, " iso_pkts=");
    text::push_decimal(&mut detail, iso_packets as u128);
    assert(detail@ =~= "xfer_type="@ + kind_name(kind) + " buf_size="@ + text::decimal(
        buf_size as nat,
    ) + " ep=0x"@ + text::hex_byte(endpoint) + " iso_pkts="@ + text::decimal(iso_packets as nat));
    detail
}

/// What a submission is about.
pub fn submit_detail(type_code: u8, buf_len: u32, endpoint: u8) -> (detail: String)
    ensures
        detail@ == "xfer_type="@ + code_name(type_code) + " len="@ + text::decimal(buf_len as nat)
            + " dir="@ + (if endpoint >= 0x80 {
            "In"@
        } else {
            "Out"@
        }),
{
    let mut detail = String::new();
    text::push_text(&mut detail, "xfer_type=");
    text::push_text(&mut detail, name_of_code(type_code));
    text::push_text(&mut detail, " len=");
    text::push_decimal(&mut detail, buf_len as u128);
    text::push_text(&mut detail, " dir=");
    text::push_text(
        &mut detail,
        if endpoint >= 0x80 {
            "In"
        } else {
            "Out"
        },
    );
    assert(detail@ =~= "xfer_type="@ + code_name(type_code) + " len="@ + text::decimal(
        buf_len as nat,
    ) + " dir="@ + (if endpoint >= 0x80 {
        "In"@
    } else {
        "Out"@
    }));
    detail
}

/// What claiming an interface is about.
pub fn claim_detail(iface: u8) -> (detail: String)
    ensures
        detail@ == "iface="@ + text::decimal(iface as nat),
{
    let mut detail = String::new();
    text::push_text(&mut detail, "iface=");
    text::push_decimal(&mut detail, iface as u128);
    assert(detail@ =~= "iface="@ + text::decimal(iface as nat));
    detail
}

} // verus!
