//! The benchmark CSV: rows, quoting, timestamps and resource usage.

use std::borrow::Cow;
use std::time::{Duration, Instant, SystemTime, SystemTimeError};

use vstd::prelude::*;

#[allow(unused_imports)]
use crate::calendar;
use crate::calendar::epoch_days_to_ymd;
use crate::text;

verus! {

// ---------------------------------------------------------------------------
// Quoting
// ---------------------------------------------------------------------------

/// A character that a bare field cannot hold.
pub open spec fn is_special(c: char) -> bool {
    c == ',' || c == '"' || c == '\n' || c == '\r'
}

/// The field holds a character that a bare field cannot hold.
pub open spec fn needs_quotes(s: Seq<char>) -> bool {
    exists|i: int| 0 <= i < s.len() && is_special(#[trigger] s[i])
}

/// `s` with every quotation mark doubled.
pub open spec fn doubled(s: Seq<char>) -> Seq<char>
    decreases s.len(),
{
    if s.len() == 0 {
        s
    } else if s.last() == '"' {
        doubled(s.drop_last()).push('"').push('"')
    } else {
        doubled(s.drop_last()).push(s.last())
    }
}

/// The field as it stands in a record.
pub open spec fn escaped(s: Seq<char>) -> Seq<char> {
    if needs_quotes(s) {
        seq!['"'] + doubled(s) + seq!['"']
    } else {
        s
    }
}

/// A field is quoted exactly where it holds a comma, a quotation mark or a line end of either kind,
/// and else stands as it is. The quotation marks are around it.
pub proof fn law_quoted_where_needed(s: Seq<char>)
    ensures
        ({
            let special = s.contains(',') || s.contains('"') || s.contains('\n') || s.contains('\r');
            let field = escaped(s);
            &&& !special ==> field == s
            &&& special ==> {
                &&& field.len() >= s.len() + 2
                &&& field[0] == '"'
                &&& field.last() == '"'
                &&& field.subrange(1, field.len() - 1) == doubled(s)
            }
        }),
{
    let special = s.contains(',') || s.contains('"') || s.contains('\n') || s.contains('\r');
    assert(needs_quotes(s) == special) by {
        if needs_quotes(s) {
            let i = choose|i: int| 0 <= i < s.len() && is_special(#[trigger] s[i]);
            assert(s.contains(s[i]));
        }
        if special {
            let c = if s.contains(',') {
                ','
            } else if s.contains('"') {
                '"'
            } else if s.contains('\n') {
                '\n'
            } else {
                '\r'
            };
            let i = choose|i: int| 0 <= i < s.len() && s[i] == c;
            assert(is_special(s[i]));
        }
    }
    lemma_doubled_length(s);
    if special {
        assert(escaped(s).subrange(1, escaped(s).len() - 1) =~= doubled(s));
    }
}

/// Doubling leaves each character in its place but for quotation marks, of which it makes two.
pub proof fn law_doubling(a: Seq<char>, b: Seq<char>, c: char)
    ensures
        doubled(a + b) == doubled(a) + doubled(b),
        doubled(seq!['"']) == seq!['"', '"'],
        c != '"' ==> doubled(seq![c]) == seq![c],
    decreases b.len(),
{
    reveal_with_fuel(doubled, 2);
    assert(seq!['"'].drop_last() =~= Seq::<char>::empty());
    assert(seq![c].drop_last() =~= Seq::<char>::empty());
    assert(doubled(seq!['"']) =~= seq!['"', '"']);
    assert(c != '"' ==> doubled(seq![c]) =~= seq![c]);
    if b.len() == 0 {
        assert(a + b =~= a);
        assert(doubled(a) + doubled(b) =~= doubled(a));
    } else {
        law_doubling(a, b.drop_last(), c);
        assert((a + b).drop_last() =~= a + b.drop_last());
        assert((a + b).last() == b.last());
        assert(doubled(a + b) =~= doubled(a) + doubled(b));
    }
}

proof fn lemma_doubled_length(s: Seq<char>)
    ensures
        doubled(s).len() >= s.len(),
    decreases s.len(),
{
    if s.len() > 0 {
        lemma_doubled_length(s.drop_last());
    }
}

fn has_special(chars: &[char]) -> (found: bool)
    ensures
        found == needs_quotes(chars@),
{
    let mut i: usize = 0;
    while i < chars.len()
        invariant
            i <= chars@.len(),
            forall|j: int| 0 <= j < i ==> !is_special(#[trigger] chars@[j]),
        decreases chars@.len() - i,
    {
        let c = chars[i];
        if c == ',' || c == '"' || c == '\n' || c == '\r' {
            assert(is_special(chars@[i as int]));
            return true;
        }
        i += 1;
    }
    false
}

/// Quotes a field where it needs quotes, doubling the quotation marks in it.
pub fn csv_escape(s: &str) -> (field: Cow<'_, str>)
    ensures
        field@ == escaped(s@),
        field is Borrowed <==> !needs_quotes(s@),
{
    let chars = text::chars_of(s);
    if !has_special(chars.as_slice()) {
        return Cow::Borrowed(s);
    }
    let mut out = String::new();
    out.push('"');
    let mut i: usize = 0;
    assert(s@.take(0) =~= Seq::<char>::empty());
    while i < chars.len()
        invariant
            chars@ == s@,
            i <= chars@.len(),
            out@ == seq!['"'] + doubled(s@.take(i as int)),
        decreases chars@.len() - i,
    {
        let c = chars[i];
        assert(s@.take(i + 1).drop_last() =~= s@.take(i as int));
        if c == '"' {
            out.push('"');
        }
        out.push(c);
        i += 1;
        assert(out@ =~= seq!['"'] + doubled(s@.take(i as int)));
    }
    assert(s@.take(i as int) =~= s@);
    out.push('"');
    assert(out@ =~= escaped(s@));
    Cow::Owned(out)
}

// ---------------------------------------------------------------------------
// Records
// ---------------------------------------------------------------------------

/// Fields as a record: each escaped, commas between them.
pub open spec fn record(fields: Seq<Seq<char>>) -> Seq<char>
    decreases fields.len(),
{
    if fields.len() == 0 {
        Seq::empty()
    } else if fields.len() == 1 {
        escaped(fields[0])
    } else {
        record(fields.drop_last()).push(',') + escaped(fields.last())
    }
}

/// Where a reader stands within a field.
pub enum Mode {
    /// At its start.
    Start,
    /// In a bare field.
    Bare,
    /// Inside quotation marks.
    Quoted,
    /// Behind a quotation mark that ends the field, or is the first of two.
    AfterQuote,
}

/// A reader of records: the fields read, the field at hand, and where it stands in it.
pub struct Reader {
    pub fields: Seq<Seq<char>>,
    pub field: Seq<char>,
    pub mode: Mode,
}

impl Reader {
    /// A reader that has read nothing.
    pub open spec fn fresh() -> Self {
        Reader { fields: Seq::empty(), field: Seq::empty(), mode: Mode::Start }
    }

    /// The reader after one more character.
    pub open spec fn read(self, c: char) -> Self {
        let closed = Reader {
            fields: self.fields.push(self.field),
            field: Seq::empty(),
            mode: Mode::Start,
        };
        let kept = self.field.push(c);
        match self.mode {
            Mode::Start => if c == '"' {
                Reader { mode: Mode::Quoted, ..self }
            } else if c == ',' {
                closed
            } else {
                Reader { field: kept, mode: Mode::Bare, ..self }
            },
            Mode::Bare => if c == ',' {
                closed
            } else {
                Reader { field: kept, ..self }
            },
            Mode::Quoted => if c == '"' {
                Reader { mode: Mode::AfterQuote, ..self }
            } else {
                Reader { field: kept, ..self }
            },
            Mode::AfterQuote => if c == ',' {
                closed
            } else {
                Reader { field: kept, mode: Mode::Quoted, ..self }
            },
        }
    }

    /// The reader after more characters.
    pub open spec fn read_all(self, s: Seq<char>) -> Self
        decreases s.len(),
    {
        if s.len() == 0 {
            self
        } else {
            self.read_all(s.drop_last()).read(s.last())
        }
    }
}

/// No line end in `s` stands outside quotation marks.
pub open spec fn unbroken(reader: Reader, s: Seq<char>) -> bool
    decreases s.len(),
{
    s.len() > 0 ==> {
        &&& unbroken(reader, s.drop_last())
        &&& s.last() == '\n' ==> reader.read_all(s.drop_last()).mode is Quoted
    }
}

/// The fields of a record, as a reader of comma-separated values finds them.
pub open spec fn fields_of(record: Seq<char>) -> Seq<Seq<char>> {
    let end = Reader::fresh().read_all(record);
    end.fields.push(end.field)
}

/// Whatever the fields hold, a reader gets them back from the record, each as it was.
pub proof fn law_record_reads_back(fields: Seq<Seq<char>>)
    requires
        fields.len() > 0,
    ensures
        fields_of(record(fields)) == fields,
{
    lemma_record(fields);
    assert(fields.drop_last().push(fields.last()) =~= fields);
}

proof fn lemma_record(fields: Seq<Seq<char>>)
    requires
        fields.len() > 0,
    ensures
        ({
            let end = Reader::fresh().read_all(record(fields));
            &&& end.fields == fields.drop_last()
            &&& end.field == fields.last()
            &&& end.mode !is Quoted
            &&& unbroken(Reader::fresh(), record(fields))
        }),
    decreases fields.len(),
{
    let last = fields.last();
    if fields.len() == 1 {
        lemma_escaped(Reader::fresh(), last);
        assert(fields.drop_last() =~= Seq::<Seq<char>>::empty());
    } else {
        let front = fields.drop_last();
        lemma_record(front);
        let before = Reader::fresh().read_all(record(front));
        let s = record(front).push(',');
        assert(s.drop_last() =~= record(front));
        let at = Reader::fresh().read_all(s);
        assert(front.drop_last().push(front.last()) =~= front);
        assert(at == Reader { fields: front, field: Seq::empty(), mode: Mode::Start });
        lemma_escaped(at, last);
        lemma_read_all_parts(Reader::fresh(), s, escaped(last));
        lemma_unbroken_parts(Reader::fresh(), s, escaped(last));
    }
}

proof fn lemma_unbroken_parts(reader: Reader, a: Seq<char>, b: Seq<char>)
    requires
        unbroken(reader, a),
        unbroken(reader.read_all(a), b),
    ensures
        unbroken(reader, a + b),
    decreases b.len(),
{
    if b.len() == 0 {
        assert(a + b =~= a);
    } else {
        lemma_unbroken_parts(reader, a, b.drop_last());
        lemma_read_all_parts(reader, a, b.drop_last());
        assert((a + b).drop_last() =~= a + b.drop_last());
    }
}

proof fn lemma_read_all_parts(reader: Reader, a: Seq<char>, b: Seq<char>)
    ensures
        reader.read_all(a + b) == reader.read_all(a).read_all(b),
    decreases b.len(),
{
    if b.len() == 0 {
        assert(a + b =~= a);
    } else {
        lemma_read_all_parts(reader, a, b.drop_last());
        assert((a + b).drop_last() =~= a + b.drop_last());
    }
}

proof fn lemma_escaped(reader: Reader, s: Seq<char>)
    requires
        reader.mode is Start,
        reader.field == Seq::<char>::empty(),
    ensures
        ({
            let end = reader.read_all(escaped(s));
            &&& end.fields == reader.fields
            &&& end.field == s
            &&& end.mode !is Quoted
            &&& unbroken(reader, escaped(s))
        }),
{
    if needs_quotes(s) {
        let open = seq!['"'];
        assert(open.drop_last() =~= Seq::<char>::empty());
        let quoted = Reader { mode: Mode::Quoted, ..reader };
        reveal_with_fuel(Reader::read_all, 2);
        assert(reader.read_all(open) == quoted);
        lemma_doubled(quoted, s);
        lemma_read_all_parts(reader, open, doubled(s));
        assert(unbroken(reader, open.drop_last()));
        lemma_unbroken_parts(reader, open, doubled(s));
        let whole = open + doubled(s) + seq!['"'];
        assert(whole.drop_last() =~= open + doubled(s));
    } else {
        lemma_bare(reader, s);
    }
}

proof fn lemma_doubled(reader: Reader, s: Seq<char>)
    requires
        reader.mode is Quoted,
        reader.field == Seq::<char>::empty(),
    ensures
        reader.read_all(doubled(s)) == (Reader { field: s, ..reader }),
        unbroken(reader, doubled(s)),
    decreases s.len(),
{
    if s.len() == 0 {
        assert(s =~= Seq::<char>::empty());
    } else {
        let front = s.drop_last();
        lemma_doubled(reader, front);
        assert(front.push(s.last()) =~= s);
        if s.last() == '"' {
            let one = doubled(front).push('"');
            assert(one.drop_last() =~= doubled(front));
            assert(reader.read_all(one) == Reader {
                field: front,
                mode: Mode::AfterQuote,
                ..reader
            });
            assert(doubled(s).drop_last() =~= one);
            assert(unbroken(reader, one));
        } else {
            assert(doubled(s).drop_last() =~= doubled(front));
        }
    }
}

proof fn lemma_bare(reader: Reader, s: Seq<char>)
    requires
        reader.mode is Start,
        reader.field == Seq::<char>::empty(),
        !needs_quotes(s),
    ensures
        ({
            let end = reader.read_all(s);
            &&& end.fields == reader.fields
            &&& end.field == s
            &&& end.mode is Start || end.mode is Bare
            &&& s.len() == 0 ==> end.mode is Start
            &&& unbroken(reader, s)
        }),
    decreases s.len(),
{
    if s.len() == 0 {
        assert(s =~= Seq::<char>::empty());
    } else {
        let front = s.drop_last();
        assert forall|i: int| 0 <= i < front.len() implies !is_special(#[trigger] front[i]) by {
            assert(front[i] == s[i]);
        }
        lemma_bare(reader, front);
        assert(front.push(s.last()) =~= s);
        assert(!is_special(s[s.len() - 1]));
    }
}

// ---------------------------------------------------------------------------
// Files
// ---------------------------------------------------------------------------

/// Records as a file: one after the other, each with its line end.
pub open spec fn lines(records: Seq<Seq<Seq<char>>>) -> Seq<char>
    decreases records.len(),
{
    if records.len() == 0 {
        Seq::empty()
    } else {
        lines(records.drop_last()) + record(records.last()).push('\n')
    }
}

/// A reader of files: the records read, and the reader of the record at hand.
pub struct FileReader {
    pub records: Seq<Seq<Seq<char>>>,
    pub row: Reader,
}

impl FileReader {
    /// A reader that has read nothing.
    pub open spec fn fresh() -> Self {
        FileReader { records: Seq::empty(), row: Reader::fresh() }
    }

    /// The reader after one more character. A line end outside quotation marks ends the record.
    pub open spec fn read(self, c: char) -> Self {
        if c == '\n' && self.row.mode !is Quoted {
            FileReader {
                records: self.records.push(self.row.fields.push(self.row.field)),
                row: Reader::fresh(),
            }
        } else {
            FileReader { row: self.row.read(c), ..self }
        }
    }

    /// The reader after more characters.
    pub open spec fn read_all(self, s: Seq<char>) -> Self
        decreases s.len(),
    {
        if s.len() == 0 {
            self
        } else {
            self.read_all(s.drop_last()).read(s.last())
        }
    }
}

/// The records of a file, as a reader of comma-separated values finds them.
pub open spec fn records_of(file: Seq<char>) -> Seq<Seq<Seq<char>>> {
    FileReader::fresh().read_all(file).records
}

/// Whatever the fields hold, line ends among them, a reader gets all records of a file back, in
/// their order, each field as it was.
pub proof fn law_file_reads_back(records: Seq<Seq<Seq<char>>>)
    requires
        forall|i: int| 0 <= i < records.len() ==> (#[trigger] records[i]).len() > 0,
    ensures
        records_of(lines(records)) == records,
{
    lemma_file(records);
}

proof fn lemma_file(records: Seq<Seq<Seq<char>>>)
    requires
        forall|i: int| 0 <= i < records.len() ==> (#[trigger] records[i]).len() > 0,
    ensures
        FileReader::fresh().read_all(lines(records)) == (FileReader {
            records,
            row: Reader::fresh(),
        }),
    decreases records.len(),
{
    if records.len() == 0 {
        assert(records =~= Seq::<Seq<Seq<char>>>::empty());
    } else {
        let front = records.drop_last();
        let last = records[records.len() - 1];
        assert forall|i: int| 0 <= i < front.len() implies (#[trigger] front[i]).len() > 0 by {
            assert(front[i] == records[i]);
        }
        lemma_file(front);
        lemma_record(last);
        let at = FileReader::fresh().read_all(lines(front));
        lemma_within_record(at, record(last));
        lemma_file_parts(FileReader::fresh(), lines(front), record(last));
        let whole = lines(records);
        assert(whole.drop_last() =~= lines(front) + record(last));
        assert(last.drop_last().push(last.last()) =~= last);
        assert(front.push(last) =~= records);
    }
}

proof fn lemma_within_record(reader: FileReader, s: Seq<char>)
    requires
        unbroken(reader.row, s),
    ensures
        reader.read_all(s) == (FileReader { row: reader.row.read_all(s), ..reader }),
    decreases s.len(),
{
    if s.len() > 0 {
        lemma_within_record(reader, s.drop_last());
    }
}

proof fn lemma_file_parts(reader: FileReader, a: Seq<char>, b: Seq<char>)
    ensures
        reader.read_all(a + b) == reader.read_all(a).read_all(b),
    decreases b.len(),
{
    if b.len() == 0 {
        assert(a + b =~= a);
    } else {
        lemma_file_parts(reader, a, b.drop_last());
        assert((a + b).drop_last() =~= a + b.drop_last());
    }
}

// ---------------------------------------------------------------------------
// Rows
// ---------------------------------------------------------------------------

/// One row of the benchmark CSV.
#[derive(Debug)]
pub struct Row {
    pub condition: String,
    pub workload: String,
    pub iteration: u32,
    pub bytes: u64,
    pub duration_ns: u64,
    pub user_cpu_us: u64,
    pub sys_cpu_us: u64,
    pub rss_peak_kb: u64,
    /// `None` for native runs: the column stays empty.
    pub guest_mem_bytes: Option<u64>,
    pub checksum_hex: Option<String>,
    pub notes: Option<String>,
}

/// A text column, empty where there is nothing to say.
pub open spec fn text_or_empty(column: Option<String>) -> Seq<char> {
    match column {
        Some(s) => s@,
        None => Seq::empty(),
    }
}

impl Row {
    /// The twelve columns of the row, with the timestamp in front.
    pub open spec fn columns(self, timestamp: Seq<char>) -> Seq<Seq<char>> {
        seq![
            timestamp,
            self.condition@,
            self.workload@,
            text::decimal(self.iteration as nat),
            text::decimal(self.bytes as nat),
            text::decimal(self.duration_ns as nat),
            text::decimal(self.user_cpu_us as nat),
            text::decimal(self.sys_cpu_us as nat),
            text::decimal(self.rss_peak_kb as nat),
            match self.guest_mem_bytes {
                Some(bytes) => text::decimal(bytes as nat),
                None => Seq::empty(),
            },
            text_or_empty(self.checksum_hex),
            text_or_empty(self.notes),
        ]
    }

    /// A row with nothing measured yet.
    pub fn new(condition: &str, workload: &str) -> (row: Self)
        ensures
            row.condition@ == condition@,
            row.workload@ == workload@,
            row.iteration == 0,
            row.bytes == 0,
            row.duration_ns == 0,
            row.user_cpu_us == 0,
            row.sys_cpu_us == 0,
            row.rss_peak_kb == 0,
            row.guest_mem_bytes is None,
            row.checksum_hex is None,
            row.notes is None,
    {
        Row {
            condition: condition.to_owned(),
            workload: workload.to_owned(),
            iteration: 0,
            bytes: 0,
            duration_ns: 0,
            user_cpu_us: 0,
            sys_cpu_us: 0,
            rss_peak_kb: 0,
            guest_mem_bytes: None,
            checksum_hex: None,
            notes: None,
        }
    }

    /// This row, whatever its notes, is about one measured iteration: the times are those used in it,
    /// the peak memory is the high-water mark after it.
    pub open spec fn measures(
        self,
        condition: Seq<char>,
        workload: Seq<char>,
        iteration: u32,
        bytes: u64,
        duration_ns: u64,
        before: Rusage,
        after: Rusage,
        guest_mem: Option<u64>,
        checksum: Option<Seq<char>>,
    ) -> bool {
        let used = after.since(before);
        &&& self.condition@ == condition
        &&& self.workload@ == workload
        &&& self.iteration == iteration
        &&& self.bytes == bytes
        &&& self.duration_ns == duration_ns
        &&& self.user_cpu_us == used.user_us
        &&& self.sys_cpu_us == used.sys_us
        &&& self.rss_peak_kb == after.rss_peak_kb
        &&& self.guest_mem_bytes == guest_mem
        &&& self.checksum_hex is Some == checksum is Some
        &&& checksum is Some ==> self.checksum_hex->0@ == checksum->0
    }

    /// The row of a measured iteration, without notes.
    pub fn measured(
        condition: &str,
        workload: &str,
        iteration: u32,
        bytes: u64,
        duration_ns: u64,
        before: &Rusage,
        after: &Rusage,
        guest_mem: Option<u64>,
        checksum: Option<String>,
    ) -> (row: Self)
        ensures
            row.measures(
                condition@,
                workload@,
                iteration,
                bytes,
                duration_ns,
                *before,
                *after,
                guest_mem,
                match checksum {
                    Some(digits) => Some(digits@),
                    None => None,
                },
            ),
            row.notes is None,
    {
        let used = after.delta(before);
        let mut row = Row::new(condition, workload);
        row.iteration = iteration;
        row.bytes = bytes;
        row.duration_ns = duration_ns;
        row.user_cpu_us = used.user_us;
        row.sys_cpu_us = used.sys_us;
        row.rss_peak_kb = after.rss_peak_kb;
        row.guest_mem_bytes = guest_mem;
        row.checksum_hex = checksum;
        row
    }

    /// The line for this row, with its line end.
    pub fn line(&self, timestamp: &str) -> (line: String)
        ensures
            line@ == record(self.columns(timestamp@)).push('\n'),
    {
        let ghost all = self.columns(timestamp@);
        let mut out = String::new();
        let field = csv_escape(timestamp);
        push_cow(&mut out, &field);
        assert(out@ =~= record(all.take(1)));
        push_field(&mut out, self.condition.as_str(), Ghost(all), Ghost(1));
        push_field(&mut out, self.workload.as_str(), Ghost(all), Ghost(2));
        push_number(&mut out, self.iteration as u64, Ghost(all), Ghost(3));
        push_number(&mut out, self.bytes, Ghost(all), Ghost(4));
        push_number(&mut out, self.duration_ns, Ghost(all), Ghost(5));
        push_number(&mut out, self.user_cpu_us, Ghost(all), Ghost(6));
        push_number(&mut out, self.sys_cpu_us, Ghost(all), Ghost(7));
        push_number(&mut out, self.rss_peak_kb, Ghost(all), Ghost(8));
        match self.guest_mem_bytes {
            Some(bytes) => push_number(&mut out, bytes, Ghost(all), Ghost(9)),
            None => push_nothing(&mut out, Ghost(all), Ghost(9)),
        }
        match &self.checksum_hex {
            Some(checksum) => push_field(&mut out, checksum.as_str(), Ghost(all), Ghost(10)),
            None => push_nothing(&mut out, Ghost(all), Ghost(10)),
        }
        match &self.notes {
            Some(notes) => push_field(&mut out, notes.as_str(), Ghost(all), Ghost(11)),
            None => push_nothing(&mut out, Ghost(all), Ghost(11)),
        }
        assert(all.take(12) =~= all);
        out.push('\n');
        out
    }
}

fn push_cow(out: &mut String, field: &Cow<'_, str>)
    ensures
        final(out)@ == old(out)@ + field@,
{
    match field {
        Cow::Borrowed(s) => text::push_text(out, s),
        Cow::Owned(s) => text::push_text(out, s.as_str()),
    }
}

proof fn lemma_one_more_field(all: Seq<Seq<char>>, k: int)
    requires
        0 < k < all.len(),
    ensures
        record(all.take(k + 1)) == record(all.take(k)).push(',') + escaped(all[k]),
{
    assert(all.take(k + 1).drop_last() =~= all.take(k));
}

fn push_field(out: &mut String, s: &str, Ghost(all): Ghost<Seq<Seq<char>>>, Ghost(k): Ghost<int>)
    requires
        0 < k < all.len(),
        old(out)@ == record(all.take(k)),
        s@ == all[k],
    ensures
        final(out)@ == record(all.take(k + 1)),
{
    out.push(',');
    let field = csv_escape(s);
    push_cow(out, &field);
    proof {
        lemma_one_more_field(all, k);
    }
}

fn push_number(out: &mut String, n: u64, Ghost(all): Ghost<Seq<Seq<char>>>, Ghost(k): Ghost<int>)
    requires
        0 < k < all.len(),
        old(out)@ == record(all.take(k)),
        text::decimal(n as nat) == all[k],
    ensures
        final(out)@ == record(all.take(k + 1)),
{
    out.push(',');
    text::push_decimal(out, n as u128);
    proof {
        lemma_one_more_field(all, k);
        lemma_number_is_bare(n as nat);
    }
}

fn push_nothing(out: &mut String, Ghost(all): Ghost<Seq<Seq<char>>>, Ghost(k): Ghost<int>)
    requires
        0 < k < all.len(),
        old(out)@ == record(all.take(k)),
        all[k] == Seq::<char>::empty(),
    ensures
        final(out)@ == record(all.take(k + 1)),
{
    out.push(',');
    proof {
        lemma_one_more_field(all, k);
        assert(out@ =~= record(all.take(k + 1)));
    }
}

proof fn lemma_number_is_bare(n: nat)
    ensures
        !needs_quotes(text::decimal(n)),
    decreases n,
{
    if n >= 10 {
        lemma_number_is_bare(n / 10);
    }
    let s = text::decimal(n);
    assert forall|i: int| 0 <= i < s.len() implies !is_special(#[trigger] s[i]) by {
        if n >= 10 && i < s.len() - 1 {
            assert(s[i] == text::decimal(n / 10)[i]);
        }
    }
}

/// `column` reads as the number `n`.
pub open spec fn says(column: Seq<char>, n: nat, max: nat) -> bool {
    text::unsigned_value(column, 10, max) == Ok::<nat, text::ParseFailure>(n)
}

/// A reader gets the twelve columns back from a row's line (without its line end), and the numbers
/// among them read as what was measured.
pub proof fn law_row_reads_back(row: Row, timestamp: Seq<char>)
    ensures
        ({
            let columns = row.columns(timestamp);
            let max = u64::MAX as nat;
            &&& fields_of(record(columns)) == columns
            &&& columns.len() == 12
            &&& columns[0] == timestamp
            &&& columns[1] == row.condition@
            &&& columns[2] == row.workload@
            &&& says(columns[3], row.iteration as nat, max)
            &&& says(columns[4], row.bytes as nat, max)
            &&& says(columns[5], row.duration_ns as nat, max)
            &&& says(columns[6], row.user_cpu_us as nat, max)
            &&& says(columns[7], row.sys_cpu_us as nat, max)
            &&& says(columns[8], row.rss_peak_kb as nat, max)
            &&& row.guest_mem_bytes is Some ==> says(
                columns[9],
                row.guest_mem_bytes->0 as nat,
                max,
            )
            &&& row.guest_mem_bytes is None ==> columns[9] == Seq::<char>::empty()
            &&& columns[10] == text_or_empty(row.checksum_hex)
            &&& columns[11] == text_or_empty(row.notes)
            &&& row.checksum_hex is None ==> columns[10] == Seq::<char>::empty()
            &&& row.checksum_hex is Some ==> columns[10] == row.checksum_hex->0@
            &&& row.notes is None ==> columns[11] == Seq::<char>::empty()
            &&& row.notes is Some ==> columns[11] == row.notes->0@
        }),
{
    let max = u64::MAX as nat;
    law_record_reads_back(row.columns(timestamp));
    text::law_decimal_reads_back(row.iteration as nat, max);
    text::law_decimal_reads_back(row.bytes as nat, max);
    text::law_decimal_reads_back(row.duration_ns as nat, max);
    text::law_decimal_reads_back(row.user_cpu_us as nat, max);
    text::law_decimal_reads_back(row.sys_cpu_us as nat, max);
    text::law_decimal_reads_back(row.rss_peak_kb as nat, max);
    if let Some(bytes) = row.guest_mem_bytes {
        text::law_decimal_reads_back(bytes as nat, max);
    }
}

/// The names of the columns, as a line.
pub open spec fn header() -> Seq<char> {
    "timestamp_iso,condition,workload,iteration,bytes,duration_ns,user_cpu_us,sys_cpu_us,rss_peak_kb,guest_mem_bytes,checksum_hex,notes\n"@
}

/// The names of the columns, one by one.
pub open spec fn column_names() -> Seq<Seq<char>> {
    seq![
        "timestamp_iso"@,
        "condition"@,
        "workload"@,
        "iteration"@,
        "bytes"@,
        "duration_ns"@,
        "user_cpu_us"@,
        "sys_cpu_us"@,
        "rss_peak_kb"@,
        "guest_mem_bytes"@,
        "checksum_hex"@,
        "notes"@,
    ]
}

/// The columns of logged rows, each with the timestamp under which it was written.
pub open spec fn logged(rows: Seq<(Row, Seq<char>)>) -> Seq<Seq<Seq<char>>> {
    rows.map_values(|entry: (Row, Seq<char>)| entry.0.columns(entry.1))
}

/// A log that was opened on an empty file and then written row by row reads back as the names of
/// the columns and then the columns of each row, in the order of writing, whatever the texts hold.
pub proof fn law_log_reads_back(rows: Seq<(Row, Seq<char>)>)
    ensures
        records_of(header() + lines(logged(rows))) == seq![column_names()] + logged(rows),
        forall|i: int| 0 <= i < rows.len() ==> (#[trigger] logged(rows)[i]).len() == 12,
{
    lemma_header();
    let records = seq![column_names()] + logged(rows);
    lemma_lines_after(column_names(), logged(rows));
    assert(header() + lines(logged(rows)) == lines(records));
    law_file_reads_back(records);
}

proof fn lemma_lines_after(first: Seq<Seq<char>>, rest: Seq<Seq<Seq<char>>>)
    ensures
        lines(seq![first] + rest) == record(first).push('\n') + lines(rest),
    decreases rest.len(),
{
    let all = seq![first] + rest;
    if rest.len() == 0 {
        assert(all.drop_last() =~= Seq::<Seq<Seq<char>>>::empty());
        assert(lines(all.drop_last()) =~= Seq::<char>::empty());
        assert(lines(all) =~= record(first).push('\n') + lines(rest));
    } else {
        lemma_lines_after(first, rest.drop_last());
        assert(all.drop_last() =~= seq![first] + rest.drop_last());
        assert(lines(all) =~= record(first).push('\n') + lines(rest));
    }
}

proof fn lemma_header()
    ensures
        header() == record(column_names()).push('\n'),
{
    reveal_strlit(
        "timestamp_iso,condition,workload,iteration,bytes,duration_ns,user_cpu_us,sys_cpu_us,rss_peak_kb,guest_mem_bytes,checksum_hex,notes\n",
    );
    reveal_strlit("timestamp_iso");
    reveal_strlit("condition");
    reveal_strlit("workload");
    reveal_strlit("iteration");
    reveal_strlit("bytes");
    reveal_strlit("duration_ns");
    reveal_strlit("user_cpu_us");
    reveal_strlit("sys_cpu_us");
    reveal_strlit("rss_peak_kb");
    reveal_strlit("guest_mem_bytes");
    reveal_strlit("checksum_hex");
    reveal_strlit("notes");
    let names = column_names();
    assert forall|k: int| 0 <= k < 12 implies !needs_quotes(#[trigger] names[k]) by {}
    assert(record(names.take(1)) =~= names[0]);
    lemma_one_more_field(names, 1);
    lemma_one_more_field(names, 2);
    lemma_one_more_field(names, 3);
    lemma_one_more_field(names, 4);
    lemma_one_more_field(names, 5);
    lemma_one_more_field(names, 6);
    lemma_one_more_field(names, 7);
    lemma_one_more_field(names, 8);
    lemma_one_more_field(names, 9);
    lemma_one_more_field(names, 10);
    lemma_one_more_field(names, 11);
    assert(names.take(12) =~= names);
    assert(header() =~= record(names).push('\n'));
}

/// What opening the log writes: the column names where the file is new or empty, otherwise nothing.
/// `len` is the length of the file, `None` where there is none.
pub fn opening_text(len: Option<u64>) -> (written: String)
    ensures
        written@ == (if len is None || len == Some(0u64) {
            header()
        } else {
            Seq::empty()
        }),
{
    let needs_header = match len {
        Some(n) => n == 0,
        None => true,
    };
    if needs_header {
        "timestamp_iso,condition,workload,iteration,bytes,duration_ns,user_cpu_us,sys_cpu_us,rss_peak_kb,guest_mem_bytes,checksum_hex,notes\n".to_owned()
    } else {
        String::new()
    }
}

// ---------------------------------------------------------------------------
// Time
// ---------------------------------------------------------------------------

/// std's wall-clock time.
#[verifier::external_type_specification]
#[verifier::external_body]
pub struct ExSystemTime(std::time::SystemTime);

/// std's report that a time lies before another.
#[verifier::external_type_specification]
#[verifier::external_body]
pub struct ExSystemTimeError(std::time::SystemTimeError);

/// std's monotonic clock reading.
#[verifier::external_type_specification]
#[verifier::external_body]
pub struct ExInstant(std::time::Instant);

/// `SystemTime::now`: some wall-clock time.
pub assume_specification[ SystemTime::now ]() -> (time: SystemTime)
;

/// `SystemTime::duration_since`: the time between two wall-clock times, or an error where the
/// second is later; nothing is said here about how long it is.
pub assume_specification[ SystemTime::duration_since ](
    time: &SystemTime,
    earlier: SystemTime,
) -> (result: Result<Duration, SystemTimeError>)
;

/// `Duration::as_secs`: the whole seconds of a duration; nothing is said here about their number.
pub assume_specification[ Duration::as_secs ](duration: &Duration) -> (secs: u64)
;

/// `Instant::now`: some reading of the monotonic clock.
pub assume_specification[ Instant::now ]() -> (instant: Instant)
;

/// `UNIX_EPOCH`: the start of 1970, as a wall-clock time.
#[verifier::external_body]
fn unix_epoch() -> SystemTime {
    std::time::UNIX_EPOCH
}

/// Year, month and day of a date.
pub open spec fn date_text(year: nat, month: nat, day: nat) -> Seq<char> {
    text::padded(year, 4) + seq!['-'] + text::padded(month, 2) + seq!['-'] + text::padded(day, 2)
}

/// Hour, minute and second of a moment of the day.
pub open spec fn clock_text(secs: nat) -> Seq<char> {
    text::padded(secs / 3600, 2) + seq![':'] + text::padded(secs % 3600 / 60, 2) + seq![':']
        + text::padded(secs % 60, 2)
}

/// `stamp` is the ISO 8601 form of a moment: date and time of day in universal time, `secs` seconds
/// after the start of 1970.
pub open spec fn is_timestamp(stamp: Seq<char>, secs: u64, year: int, month: int, day: int) -> bool {
    &&& calendar::is_date(year, month, day)
    &&& year >= 1970
    &&& calendar::day_number(year, month, day) == secs / 86400
    &&& stamp == date_text(year as nat, month as nat, day as nat) + seq!['T'] + clock_text(
        (secs % 86400) as nat,
    ) + seq!['Z']
}

fn push_date(out: &mut String, year: u64, month: u32, day: u32)
    ensures
        final(out)@ == old(out)@ + date_text(year as nat, month as nat, day as nat),
{
    text::push_padded(out, year as u128, 4);
    out.push('-');
    text::push_padded(out, month as u128, 2);
    out.push('-');
    text::push_padded(out, day as u128, 2);
    assert(out@ =~= old(out)@ + date_text(year as nat, month as nat, day as nat));
}

fn push_clock(out: &mut String, secs: u64)
    ensures
        final(out)@ == old(out)@ + clock_text(secs as nat),
{
    text::push_padded(out, (secs / 3600) as u128, 2);
    out.push(':');
    text::push_padded(out, ((secs % 3600) / 60) as u128, 2);
    out.push(':');
    text::push_padded(out, (secs % 60) as u128, 2);
    assert(out@ =~= old(out)@ + clock_text(secs as nat));
}

/// The ISO 8601 form of the moment `secs` seconds after the start of 1970.
pub fn format_timestamp(secs: u64) -> (stamp: String)
    ensures
        exists|year: int, month: int, day: int| is_timestamp(stamp@, secs, year, month, day),
{
    let (year, month, day) = epoch_days_to_ymd((secs / 86400) as i64);
    proof {
        calendar::lemma_after_epoch(year as int, month as int, day as int);
    }
    let mut out = String::new();
    push_date(&mut out, year as u64, month, day);
    out.push('T');
    push_clock(&mut out, secs % 86400);
    out.push('Z');
    assert(out@ =~= date_text(year as nat, month as nat, day as nat) + seq!['T'] + clock_text(
        (secs % 86400) as nat,
    ) + seq!['Z']);
    assert(is_timestamp(out@, secs, year as int, month as int, day as int));
    out
}

/// `secs` is a reading of the system clock in whole seconds since the start of 1970; a clock before
/// that reads 0.
pub closed spec fn is_clock_reading(secs: u64) -> bool {
    exists|time: SystemTime, epoch: SystemTime, since: Result<Duration, SystemTimeError>|
        {
            &&& call_ensures(SystemTime::now, (), time)
            &&& call_ensures(unix_epoch, (), epoch)
            &&& #[trigger] call_ensures(SystemTime::duration_since, (&time, epoch), since)
            &&& match since {
                Ok(duration) => call_ensures(Duration::as_secs, (&duration,), secs),
                Err(_) => secs == 0,
            }
        }
}

/// The ISO 8601 form of the present moment. A clock before 1970 counts as the start of 1970.
pub fn iso_timestamp() -> (stamp: String)
    ensures
        exists|secs: u64, year: int, month: int, day: int|
            is_clock_reading(secs) && #[trigger] is_timestamp(stamp@, secs, year, month, day),
{
    let time = SystemTime::now();
    let epoch = unix_epoch();
    let since = time.duration_since(epoch);
    let secs: u64 = match &since {
        Ok(duration) => duration.as_secs(),
        Err(_) => 0,
    };
    assert(call_ensures(SystemTime::duration_since, (&time, epoch), since));
    assert(is_clock_reading(secs));
    format_timestamp(secs)
}

/// Until the year 9999 a timestamp has the shape `YYYY-MM-DDTHH:MM:SSZ`.
pub proof fn law_timestamp_shape(stamp: Seq<char>, secs: u64, year: int, month: int, day: int)
    requires
        is_timestamp(stamp, secs, year, month, day),
        year <= 9999,
    ensures
        stamp.len() == 20,
        stamp[4] == '-',
        stamp[7] == '-',
        stamp[10] == 'T',
        stamp[13] == ':',
        stamp[16] == ':',
        stamp[19] == 'Z',
{
    let clock = (secs % 86400) as nat;
    text::lemma_padded_width(year as nat, 4);
    text::lemma_padded_width(month as nat, 2);
    text::lemma_padded_width(day as nat, 2);
    text::lemma_padded_width(clock / 3600, 2);
    text::lemma_padded_width(clock % 3600 / 60, 2);
    text::lemma_padded_width(clock % 60, 2);
    let date = date_text(year as nat, month as nat, day as nat);
    let time = clock_text(clock);
    assert(date.len() == 10 && date[4] == '-' && date[7] == '-');
    assert(time.len() == 8 && time[2] == ':' && time[5] == ':');
}

/// Until the year 9999 the digits of a timestamp say the date and the time of day: year, month and
/// day in this order, then hours, minutes and seconds, which together are the seconds of the day.
pub proof fn law_timestamp_reads_back(stamp: Seq<char>, secs: u64, year: int, month: int, day: int)
    requires
        is_timestamp(stamp, secs, year, month, day),
        year <= 9999,
    ensures
        stamp.len() == 20,
        ({
            let digit = |i: int| stamp[i] as int - '0' as int;
            let hours = digit(11) * 10 + digit(12);
            let minutes = digit(14) * 10 + digit(15);
            let seconds = digit(17) * 10 + digit(18);
            &&& digit(0) * 1000 + digit(1) * 100 + digit(2) * 10 + digit(3) == year
            &&& digit(5) * 10 + digit(6) == month
            &&& digit(8) * 10 + digit(9) == day
            &&& hours <= 23 && minutes <= 59 && seconds <= 59
            &&& hours * 3600 + minutes * 60 + seconds == secs % 86400
        }),
        calendar::is_date(year, month, day),
        calendar::day_number(year, month, day) == secs / 86400,
{
    law_timestamp_shape(stamp, secs, year, month, day);
    let clock = (secs % 86400) as nat;
    let y = text::padded(year as nat, 4);
    let m = text::padded(month as nat, 2);
    let d = text::padded(day as nat, 2);
    let hh = text::padded(clock / 3600, 2);
    let mm = text::padded(clock % 3600 / 60, 2);
    let ss = text::padded(clock % 60, 2);
    text::lemma_padded_digits(year as nat);
    text::lemma_padded_digits(month as nat);
    text::lemma_padded_digits(day as nat);
    text::lemma_padded_digits(clock / 3600);
    text::lemma_padded_digits(clock % 3600 / 60);
    text::lemma_padded_digits(clock % 60);
    let date = date_text(year as nat, month as nat, day as nat);
    let time = clock_text(clock);
    assert(date.len() == 10 && time.len() == 8);
    assert(stamp.subrange(0, 10) =~= date);
    assert(stamp.subrange(11, 19) =~= time);
    assert(date.subrange(0, 4) =~= y);
    assert(date.subrange(5, 7) =~= m);
    assert(date.subrange(8, 10) =~= d);
    assert(time.subrange(0, 2) =~= hh);
    assert(time.subrange(3, 5) =~= mm);
    assert(time.subrange(6, 8) =~= ss);
    assert(stamp[0] == y[0] && stamp[1] == y[1] && stamp[2] == y[2] && stamp[3] == y[3]);
    assert(stamp[5] == m[0] && stamp[6] == m[1] && stamp[8] == d[0] && stamp[9] == d[1]);
    assert(stamp[11] == time[0] && stamp[12] == time[1] && stamp[14] == time[3] && stamp[15]
        == time[4] && stamp[17] == time[6] && stamp[18] == time[7]);
    assert(stamp[11] == hh[0] && stamp[12] == hh[1] && stamp[14] == mm[0] && stamp[15] == mm[1]
        && stamp[17] == ss[0] && stamp[18] == ss[1]);
}

/// One moment has one timestamp.
pub proof fn law_timestamp_is_unique(
    secs: u64,
    stamp1: Seq<char>,
    year1: int,
    month1: int,
    day1: int,
    stamp2: Seq<char>,
    year2: int,
    month2: int,
    day2: int,
)
    requires
        is_timestamp(stamp1, secs, year1, month1, day1),
        is_timestamp(stamp2, secs, year2, month2, day2),
    ensures
        stamp1 == stamp2,
{
    calendar::law_day_number_is_unique(year1, month1, day1, year2, month2, day2);
}

/// A reading of the monotonic clock, to measure elapsed time with.
pub fn now() -> (moment: Instant)
    ensures
        call_ensures(Instant::now, (), moment),
{
    Instant::now()
}

// ---------------------------------------------------------------------------
// Resource usage
// ---------------------------------------------------------------------------

/// What a process has used so far.
#[derive(Debug, Clone, Copy, PartialEq, Eq, Structural)]
pub struct Rusage {
    pub user_us: u64,
    pub sys_us: u64,
    pub rss_peak_kb: u64,
}

/// The counters that the system keeps for a process.
#[derive(Debug, Clone, Copy, PartialEq, Eq, Structural)]
pub struct RawUsage {
    pub user_sec: u64,
    pub user_usec: u64,
    pub sys_sec: u64,
    pub sys_usec: u64,
    pub max_rss: u64,
}

impl RawUsage {
    /// The times fit into 64 bits when counted in microseconds.
    pub open spec fn wf(&self) -> bool {
        &&& self.user_sec * 1_000_000 + self.user_usec <= u64::MAX
        &&& self.sys_sec * 1_000_000 + self.sys_usec <= u64::MAX
    }
}

impl Default for Rusage {
    fn default() -> (usage: Self)
        ensures
            usage == (Rusage { user_us: 0, sys_us: 0, rss_peak_kb: 0 }),
    {
        Rusage { user_us: 0, sys_us: 0, rss_peak_kb: 0 }
    }
}

impl Rusage {
    /// The usage that a reading of the counters shows; zeros where there is no reading.
    pub fn snapshot(reading: Option<RawUsage>) -> (usage: Self)
        requires
            reading is Some ==> reading->0.wf(),
        ensures
            usage == (match reading {
                Some(raw) => Rusage {
                    user_us: (raw.user_sec * 1_000_000 + raw.user_usec) as u64,
                    sys_us: (raw.sys_sec * 1_000_000 + raw.sys_usec) as u64,
                    rss_peak_kb: raw.max_rss,
                },
                None => Rusage { user_us: 0, sys_us: 0, rss_peak_kb: 0 },
            }),
    {
        match reading {
            Some(raw) => Rusage {
                user_us: raw.user_sec * 1_000_000 + raw.user_usec,
                sys_us: raw.sys_sec * 1_000_000 + raw.sys_usec,
                rss_peak_kb: raw.max_rss,
            },
            None => Rusage::default(),
        }
    }

    /// What was used since `earlier`: the differences, never below zero.
    pub open spec fn since(self, earlier: Rusage) -> Rusage {
        Rusage {
            user_us: if self.user_us >= earlier.user_us {
                (self.user_us - earlier.user_us) as u64
            } else {
                0
            },
            sys_us: if self.sys_us >= earlier.sys_us {
                (self.sys_us - earlier.sys_us) as u64
            } else {
                0
            },
            rss_peak_kb: if self.rss_peak_kb >= earlier.rss_peak_kb {
                (self.rss_peak_kb - earlier.rss_peak_kb) as u64
            } else {
                0
            },
        }
    }

    /// What was used since `earlier`.
    pub fn delta(&self, earlier: &Rusage) -> (used: Rusage)
        ensures
            used == self.since(*earlier),
    {
        Rusage {
            user_us: self.user_us.saturating_sub(earlier.user_us),
            sys_us: self.sys_us.saturating_sub(earlier.sys_us),
            rss_peak_kb: self.rss_peak_kb.saturating_sub(earlier.rss_peak_kb),
        }
    }
}

/// What was used and what had been used before make up what has been used, for each of the three; a
/// counter that went back counts as nothing used.
pub proof fn law_usage_adds_up(earlier: Rusage, later: Rusage)
    ensures
        ({
            let used = later.since(earlier);
            &&& later.user_us >= earlier.user_us ==> earlier.user_us + used.user_us == later.user_us
            &&& later.user_us < earlier.user_us ==> used.user_us == 0
            &&& later.sys_us >= earlier.sys_us ==> earlier.sys_us + used.sys_us == later.sys_us
            &&& later.sys_us < earlier.sys_us ==> used.sys_us == 0
            &&& later.rss_peak_kb >= earlier.rss_peak_kb ==> earlier.rss_peak_kb + used.rss_peak_kb
                == later.rss_peak_kb
            &&& later.rss_peak_kb < earlier.rss_peak_kb ==> used.rss_peak_kb == 0
        }),
{
}

/// A measured row holds what was measured, each value in its own column: the processor times are
/// those of the iteration, user time apart from system time, and the peak memory is the one after
/// it.
pub proof fn law_row_holds_what_was_measured(
    row: Row,
    condition: Seq<char>,
    workload: Seq<char>,
    iteration: u32,
    bytes: u64,
    duration_ns: u64,
    before: Rusage,
    after: Rusage,
    guest_mem: Option<u64>,
    checksum: Option<Seq<char>>,
)
    requires
        row.measures(
            condition,
            workload,
            iteration,
            bytes,
            duration_ns,
            before,
            after,
            guest_mem,
            checksum,
        ),
    ensures
        row.condition@ == condition,
        row.workload@ == workload,
        row.iteration == iteration,
        row.bytes == bytes,
        row.duration_ns == duration_ns,
        after.user_us >= before.user_us ==> row.user_cpu_us == after.user_us - before.user_us,
        after.user_us < before.user_us ==> row.user_cpu_us == 0,
        after.sys_us >= before.sys_us ==> row.sys_cpu_us == after.sys_us - before.sys_us,
        after.sys_us < before.sys_us ==> row.sys_cpu_us == 0,
        row.rss_peak_kb == after.rss_peak_kb,
        row.guest_mem_bytes == guest_mem,
        checksum is None ==> row.checksum_hex is None,
        checksum matches Some(digits) ==> row.checksum_hex is Some && row.checksum_hex->0@
            == digits,
{
}

/// The size of a guest's linear memory of so many 64 KiB pages; a native process has none.
pub fn guest_mem_bytes(pages: Option<u64>) -> (bytes: Option<u64>)
    requires
        pages is Some ==> pages->0 * 65536 <= u64::MAX,
    ensures
        bytes == (match pages {
            Some(n) => Some((n * 65536) as u64),
            None => None,
        }),
{
    match pages {
        Some(n) => Some(n * 65536),
        None => None,
    }
}

/// The names of the columns are written exactly where the file is new or empty.
pub proof fn law_header_comes_once(len: Option<u64>, written: String)
    requires
        call_ensures(opening_text, (len,), written),
    ensures
        len is None ==> written@ == header(),
        len matches Some(n) ==> (n == 0 ==> written@ == header()) && (n > 0 ==> written@
            == Seq::<char>::empty()),
{
}

/// Processor times are microseconds, a million to the second, and the peak memory is as it was read.
/// Without a reading everything is zero.
pub proof fn law_snapshot_counts_microseconds(raw: RawUsage, usage: Rusage, none: Rusage)
    requires
        raw.wf(),
        call_ensures(Rusage::snapshot, (Some(raw),), usage),
        call_ensures(Rusage::snapshot, (None,), none),
    ensures
        usage.user_us == raw.user_sec * 1_000_000 + raw.user_usec,
        usage.sys_us == raw.sys_sec * 1_000_000 + raw.sys_usec,
        usage.rss_peak_kb == raw.max_rss,
        none.user_us == 0,
        none.sys_us == 0,
        none.rss_peak_kb == 0,
{
}

/// A page is 64 KiB; a native process, which has no pages, has no such memory.
pub proof fn law_pages_are_64_kib(pages: Option<u64>, bytes: Option<u64>)
    requires
        pages is Some ==> pages->0 * 65536 <= u64::MAX,
        call_ensures(guest_mem_bytes, (pages,), bytes),
    ensures
        bytes is Some <==> pages is Some,
        pages matches Some(n) ==> bytes->0 == n * 0x1_0000,
{
}

/// The line of a row, without its line end, is read back as twelve columns in their order: timestamp,
/// condition, workload, iteration, bytes, duration, user time, system time, peak memory, guest
/// memory, checksum and notes.
pub proof fn law_line_reads_back(row: Row, timestamp: &str, line: String)
    requires
        call_ensures(Row::line, (&row, timestamp), line),
    ensures
        line@.len() > 0,
        line@.last() == '\n',
        ({
            let columns = fields_of(line@.drop_last());
            let max = u64::MAX as nat;
            &&& columns.len() == 12
            &&& columns[0] == timestamp@
            &&& columns[1] == row.condition@
            &&& columns[2] == row.workload@
            &&& says(columns[3], row.iteration as nat, max)
            &&& says(columns[4], row.bytes as nat, max)
            &&& says(columns[5], row.duration_ns as nat, max)
            &&& says(columns[6], row.user_cpu_us as nat, max)
            &&& says(columns[7], row.sys_cpu_us as nat, max)
            &&& says(columns[8], row.rss_peak_kb as nat, max)
        }),
{
    law_row_reads_back(row, timestamp@);
    assert(line@.drop_last() =~= record(row.columns(timestamp@)));
}

} // verus!
