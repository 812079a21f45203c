//! The event writer: it gathers events and writes them out in batches.
//!
//! The writer decides; whoever runs it carries out what it decides, and tells it how that went.
use crate::event::ProxyEvent;
use crate::number::{
    decimal, decimal_text, is_digit, is_digits, padded_decimal, padded_signed, padded_signed_text,
    signed_decimal, signed_text, zero_filled,
};
use crate::text::{chars_of, joined};
use vstd::prelude::*;

verus! {

/// What the writer counts: events that found its queue full, and batches that could not be
/// written. The counters wrap around.
#[derive(Debug, Clone, Copy, PartialEq, Eq, Structural)]
pub struct ParquetWriterHandle {
    dropped: u64,
    failures: u64,
}

/// The number after another, from the largest on to zero.
pub open spec fn next_count(n: u64) -> u64 {
    if n == u64::MAX {
        0
    } else {
        (n + 1) as u64
    }
}

/// The number after another, from the largest on to zero.
fn count_on(n: u64) -> (next: u64)
    ensures
        next == next_count(n),
{
    if n == u64::MAX {
        0
    } else {
        n + 1
    }
}

impl ParquetWriterHandle {
    /// The events that found the queue full.
    pub closed spec fn dropped_count(self) -> u64 {
        self.dropped
    }

    /// The batches that could not be written.
    pub closed spec fn failure_count(self) -> u64 {
        self.failures
    }

    /// Nothing dropped, nothing failed.
    pub fn new() -> (handle: ParquetWriterHandle)
        ensures
            handle.dropped_count() == 0,
            handle.failure_count() == 0,
    {
        ParquetWriterHandle { dropped: 0, failures: 0 }
    }

    /// Takes note of an event that was offered to the queue: one that the queue did not take
    /// counts as dropped.
    pub fn try_send(&mut self, taken: bool)
        ensures
            final(self).failure_count() == old(self).failure_count(),
            final(self).dropped_count() == if taken {
                old(self).dropped_count()
            } else {
                next_count(old(self).dropped_count())
            },
    {
        if !taken {
            self.dropped = count_on(self.dropped);
        }
    }

    /// Takes note of a batch that could not be written.
    pub fn note_failure(&mut self)
        ensures
            final(self).dropped_count() == old(self).dropped_count(),
            final(self).failure_count() == next_count(old(self).failure_count()),
    {
        self.failures = count_on(self.failures);
    }

    /// The events that found the queue full.
    pub fn dropped_events(&self) -> (count: u64)
        ensures
            count == self.dropped_count(),
    {
        self.dropped
    }

    /// The batches that could not be written.
    pub fn write_failures(&self) -> (count: u64)
        ensures
            count == self.failure_count(),
    {
        self.failures
    }
}

/// What the writer is told: an event came, the writer is to stop, there will be no more events,
/// or it is time to write.
#[derive(Debug)]
pub enum WriterMessage {
    Event(ProxyEvent),
    Shutdown,
    Closed,
    Tick,
}

/// What is to be done next: take in what still waits in the queue, write the batch, stop.
#[derive(Debug, Clone, Copy, PartialEq, Eq, Structural)]
pub struct WriterStep {
    pub drain: bool,
    pub flush: bool,
    pub stop: bool,
}

/// The events that wait to be written, and how many batches were written before.
#[derive(Debug)]
pub struct WriterState {
    pub parquet_dir: String,
    pub flush_rows: usize,
    pub buffer: Vec<ProxyEvent>,
    pub sequence: u64,
}

/// A point in time as file names show it.
#[derive(Debug, Clone, Copy, PartialEq, Eq, Structural)]
pub struct OutputTime {
    pub year: i32,
    pub month: u8,
    pub day: u8,
    pub hour: u8,
    pub unix_seconds: i64,
}

/// `OffsetDateTime::now_utc` reads the clock. Which time it is no one can say beforehand, only
/// that the month, the day and the hour are those of a calendar.
#[verifier::external_body]
fn output_time() -> (at: OutputTime)
    ensures
        1 <= at.month <= 12,
        1 <= at.day <= 31,
        at.hour <= 23,
{
    let now = time::OffsetDateTime::now_utc();
    OutputTime {
        year: now.year(),
        month: u8::from(now.month()),
        day: now.day(),
        hour: now.hour(),
        unix_seconds: now.unix_timestamp(),
    }
}

/// A path with one more part behind it.
pub open spec fn path_join(dir: Seq<char>, part: Seq<char>) -> Seq<char> {
    if dir.len() == 0 || dir.last() == '/' {
        dir + part
    } else {
        dir + "/"@ + part
    }
}

/// A path with one more part behind it.
fn join_path(dir: &str, part: &str) -> (path: String)
    ensures
        path@ == path_join(dir@, part@),
{
    let chars = chars_of(dir);
    if chars.len() == 0 || chars[chars.len() - 1] == '/' {
        joined(dir, part)
    } else {
        joined(joined(dir, "/").as_str(), part)
    }
}

/// The directory for the batches of an hour: year, month, day and hour below the directory for
/// all of them.
pub open spec fn partition_dir(dir: Seq<char>, at: OutputTime) -> Seq<char> {
    path_join(
        path_join(
            path_join(
                path_join(dir, padded_signed_text(at.year as int, 4)),
                zero_filled(decimal_text(at.month as nat), 2),
            ),
            zero_filled(decimal_text(at.day as nat), 2),
        ),
        zero_filled(decimal_text(at.hour as nat), 2),
    )
}

/// The name of the file for a batch: the time, the process and the batch's number.
pub open spec fn output_name(at: OutputTime, process_id: u32, sequence: u64) -> Seq<char> {
    signed_text(at.unix_seconds as int) + "-"@ + decimal_text(process_id as nat) + "-"@
        + decimal_text(sequence as nat) + ".parquet"@
}

/// What waits to be written after the writer was told something.
pub open spec fn after_message(waiting: Seq<ProxyEvent>, message: WriterMessage) -> Seq<
    ProxyEvent,
> {
    match message {
        WriterMessage::Event(event) => waiting.push(event),
        _ => waiting,
    }
}

/// What still waits after an attempt to write what waits.
pub open spec fn after_flush(waiting: Seq<ProxyEvent>, written: bool) -> Seq<ProxyEvent> {
    if written {
        Seq::empty()
    } else {
        waiting
    }
}

impl WriterState {
    /// A writer without events.
    pub fn new(parquet_dir: &str, flush_rows: usize) -> (state: WriterState)
        ensures
            state.parquet_dir@ == parquet_dir@,
            state.flush_rows == flush_rows,
            state.buffer@ == Seq::<ProxyEvent>::empty(),
            state.sequence == 0,
    {
        WriterState {
            parquet_dir: parquet_dir.to_owned(),
            flush_rows,
            buffer: Vec::new(),
            sequence: 0,
        }
    }

    /// Whether only the events that wait may differ between two writers.
    pub open spec fn same_but_buffer(self, other: WriterState) -> bool {
        self.parquet_dir == other.parquet_dir && self.flush_rows == other.flush_rows
            && self.sequence == other.sequence
    }

    /// Takes in what the writer is told and decides what is to be done: an event is gathered, and
    /// written with the others once there are enough; time to write and the end of the queue write
    /// what there is; a request to stop first takes in what still waits in the queue.
    pub fn run(&mut self, message: WriterMessage) -> (step: WriterStep)
        ensures
            final(self).same_but_buffer(*old(self)),
            final(self).buffer@ == after_message(old(self).buffer@, message),
            step == (match message {
                WriterMessage::Event(_) => WriterStep {
                    drain: false,
                    flush: final(self).buffer@.len() >= old(self).flush_rows,
                    stop: false,
                },
                WriterMessage::Shutdown => WriterStep { drain: true, flush: true, stop: true },
                WriterMessage::Closed => WriterStep { drain: false, flush: true, stop: true },
                WriterMessage::Tick => WriterStep { drain: false, flush: true, stop: false },
            }),
    {
        match message {
            WriterMessage::Event(event) => {
                self.buffer.push(event);
                WriterStep {
                    drain: false,
                    flush: self.buffer.len() >= self.flush_rows,
                    stop: false,
                }
            },
            WriterMessage::Shutdown => WriterStep { drain: true, flush: true, stop: true },
            WriterMessage::Closed => WriterStep { drain: false, flush: true, stop: true },
            WriterMessage::Tick => WriterStep { drain: false, flush: true, stop: false },
        }
    }

    /// Takes in what still waits in the queue when the writer stops, and says whether someone else
    /// who asked it to stop is to be answered.
    pub fn drain_pending_events(&mut self, message: WriterMessage) -> (answer: bool)
        ensures
            final(self).same_but_buffer(*old(self)),
            final(self).buffer@ == after_message(old(self).buffer@, message),
            answer == (message is Shutdown),
    {
        match message {
            WriterMessage::Event(event) => {
                self.buffer.push(event);
                false
            },
            WriterMessage::Shutdown => true,
            _ => false,
        }
    }

    /// Whether there is anything to write.
    pub fn has_rows(&self) -> (result: bool)
        ensures
            result == (self.buffer@.len() > 0),
    {
        self.buffer.len() > 0
    }

    /// Takes note of how writing what waits went: what was written is gone from the buffer and
    /// counts as one more batch; what could not be written stays and counts as a failure. Where
    /// there was nothing to write, nothing changes.
    pub fn try_flush(&mut self, handle: &mut ParquetWriterHandle, written: bool)
        requires
            old(self).sequence < u64::MAX,
        ensures
            final(self).parquet_dir == old(self).parquet_dir,
            final(self).flush_rows == old(self).flush_rows,
            final(self).buffer@ == after_flush(old(self).buffer@, written),
            old(self).buffer@.len() == 0 ==> *final(self) == *old(self) && *final(handle) == *old(
                handle,
            ),
            old(self).buffer@.len() > 0 && written ==> {
                &&& final(self).sequence == old(self).sequence + 1
                &&& *final(handle) == *old(handle)
            },
            old(self).buffer@.len() > 0 && !written ==> {
                &&& final(self).sequence == old(self).sequence
                &&& final(handle).failure_count() == next_count(old(handle).failure_count())
                &&& final(handle).dropped_count() == old(handle).dropped_count()
            },
    {
        if self.buffer.len() == 0 {
            return;
        }
        if written {
            self.buffer.clear();
            self.sequence += 1;
        } else {
            handle.note_failure();
        }
    }

    /// The directory for a batch that is written at a time.
    pub fn output_dir_at(&self, at: OutputTime) -> (dir: String)
        ensures
            dir@ == partition_dir(self.parquet_dir@, at),
    {
        let year = padded_signed(at.year, 4);
        let month = padded_decimal(at.month as u64, 2);
        let day = padded_decimal(at.day as u64, 2);
        let hour = padded_decimal(at.hour as u64, 2);
        let dir = join_path(self.parquet_dir.as_str(), year.as_str());
        let dir = join_path(dir.as_str(), month.as_str());
        let dir = join_path(dir.as_str(), day.as_str());
        join_path(dir.as_str(), hour.as_str())
    }

    /// The file for the next batch, where it is written at a time.
    pub fn output_path_at(&self, at: OutputTime, process_id: u32) -> (path: String)
        ensures
            path@ == path_join(
                partition_dir(self.parquet_dir@, at),
                output_name(at, process_id, self.sequence),
            ),
    {
        let dir = self.output_dir_at(at);
        let name = joined(signed_decimal(at.unix_seconds).as_str(), "-");
        let name = joined(name.as_str(), decimal(process_id as u64).as_str());
        let name = joined(name.as_str(), "-");
        let name = joined(name.as_str(), decimal(self.sequence).as_str());
        let name = joined(name.as_str(), ".parquet");
        join_path(dir.as_str(), name.as_str())
    }

    /// The file for the next batch, where it is written now.
    pub fn next_output_path(&self, process_id: u32) -> (path: String)
        ensures
            exists|at: OutputTime|
                1 <= at.month <= 12 && 1 <= at.day <= 31 && at.hour <= 23 && path@ == path_join(
                    #[trigger] partition_dir(self.parquet_dir@, at),
                    output_name(at, process_id, self.sequence),
                ),
    {
        let at = output_time();
        let path = self.output_path_at(at, process_id);
        assert(path@ == path_join(
            partition_dir(self.parquet_dir@, at),
            output_name(at, process_id, self.sequence),
        ));
        path
    }
}

// ---------------------------------------------------------------------------
// Laws
// ---------------------------------------------------------------------------

/// What happens to a writer: it is told something, or it tries to write what waits.
pub ghost enum WriterMove {
    Tell(WriterMessage),
    Flush { written: bool },
}

/// The events that wait after moves, and those that were written, in the order of writing.
pub open spec fn after_moves(moves: Seq<WriterMove>) -> (Seq<ProxyEvent>, Seq<ProxyEvent>)
    decreases moves.len(),
{
    if moves.len() == 0 {
        (Seq::empty(), Seq::empty())
    } else {
        let (waiting, written) = after_moves(moves.drop_last());
        match moves.last() {
            WriterMove::Tell(message) => (after_message(waiting, message), written),
            WriterMove::Flush { written: success } => (
                after_flush(waiting, success),
                if success {
                    written + waiting
                } else {
                    written
                },
            ),
        }
    }
}

/// The events among moves, in the order in which they came.
pub open spec fn events_received(moves: Seq<WriterMove>) -> Seq<ProxyEvent>
    decreases moves.len(),
{
    if moves.len() == 0 {
        Seq::empty()
    } else {
        let front = events_received(moves.drop_last());
        match moves.last() {
            WriterMove::Tell(WriterMessage::Event(event)) => front.push(event),
            _ => front,
        }
    }
}

/// An event that the writer has taken in is neither lost, nor written twice, nor written out of
/// turn, whichever batches fail: what was written and what waits are what came, in its order.
pub proof fn no_event_is_lost(moves: Seq<WriterMove>)
    ensures
        after_moves(moves).1 + after_moves(moves).0 == events_received(moves),
    decreases moves.len(),
{
    if moves.len() > 0 {
        no_event_is_lost(moves.drop_last());
        let (waiting, written) = after_moves(moves.drop_last());
        match moves.last() {
            WriterMove::Tell(WriterMessage::Event(event)) => {
                assert(written + waiting.push(event) =~= (written + waiting).push(event));
            },
            WriterMove::Flush { written: true } => {
                assert((written + waiting) + Seq::<ProxyEvent>::empty() =~= written + waiting);
            },
            _ => {},
        }
    } else {
        assert(after_moves(moves).1 + after_moves(moves).0 =~= events_received(moves));
    }
}

/// Two texts that end in a mark and digits behind it are the same only where the digits are.
proof fn lemma_same_digits(a: Seq<char>, b: Seq<char>, x: Seq<char>, y: Seq<char>)
    requires
        a + "-"@ + x == b + "-"@ + y,
        is_digits(x),
        is_digits(y),
    ensures
        x == y,
{
    reveal_strlit("-");
    let left = a + "-"@ + x;
    let right = b + "-"@ + y;
    assert("-"@.len() == 1 && "-"@[0] == '-');
    assert(left.len() == right.len());
    assert(left[a.len() as int] == '-');
    assert(right[b.len() as int] == '-');
    if a.len() < b.len() {
        let i = b.len() - a.len() - 1;
        assert(left[b.len() as int] == x[i]);
        assert(is_digit(x[i]));
    } else if b.len() < a.len() {
        let i = a.len() - b.len() - 1;
        assert(right[a.len() as int] == y[i]);
        assert(is_digit(y[i]));
    } else {
        assert(x =~= left.skip(a.len() as int + 1));
        assert(y =~= right.skip(b.len() as int + 1));
    }
}

/// Two batches of a process never have the same file name, whenever they are written.
pub proof fn batches_have_distinct_names(
    first: OutputTime,
    second: OutputTime,
    process_id: u32,
    a: u64,
    b: u64,
)
    requires
        output_name(first, process_id, a) == output_name(second, process_id, b),
    ensures
        a == b,
{
    reveal_strlit(".parquet");
    let left = signed_text(first.unix_seconds as int) + "-"@ + decimal_text(process_id as nat);
    let right = signed_text(second.unix_seconds as int) + "-"@ + decimal_text(process_id as nat);
    let x = decimal_text(a as nat);
    let y = decimal_text(b as nat);
    let front = left + "-"@ + x;
    let back = right + "-"@ + y;
    let name = output_name(first, process_id, a);
    assert(name == front + ".parquet"@);
    assert(name == back + ".parquet"@);
    assert(front =~= name.take(name.len() - 8));
    assert(back =~= name.take(name.len() - 8));
    crate::number::decimal_text_reads_back(a as nat);
    crate::number::decimal_text_reads_back(b as nat);
    lemma_same_digits(left, right, x, y);
}

/// An event that the writer is told of waits behind those that wait already; nothing else that the
/// writer is told changes what waits.
pub proof fn events_wait_in_their_order(waiting: Seq<ProxyEvent>, message: WriterMessage)
    ensures
        message matches WriterMessage::Event(event) ==> after_message(waiting, message)
            == waiting.push(event),
        !(message is Event) ==> after_message(waiting, message) == waiting,
{
}

/// What was written does not wait any more; what could not be written still does, all of it.
pub proof fn writing_empties_what_waits(waiting: Seq<ProxyEvent>)
    ensures
        after_flush(waiting, true).len() == 0,
        after_flush(waiting, false) == waiting,
{
}

/// Counting goes up by one, from the largest number on to zero.
pub proof fn counting_goes_up_by_one(n: u64)
    ensures
        n < u64::MAX ==> next_count(n) == n + 1,
        next_count(u64::MAX) == 0,
{
}

/// A batch goes below its directory under the year, the month, the day and the hour.
pub proof fn batches_are_kept_by_the_hour(dir: Seq<char>, at: OutputTime)
    requires
        dir.len() > 0,
        dir.last() != '/',
    ensures
        ({
            let year = padded_signed_text(at.year as int, 4);
            let month = zero_filled(decimal_text(at.month as nat), 2);
            let day = zero_filled(decimal_text(at.day as nat), 2);
            let hour = zero_filled(decimal_text(at.hour as nat), 2);
            partition_dir(dir, at) == dir + seq!['/'] + year + seq!['/'] + month + seq!['/'] + day
                + seq!['/'] + hour
        }),
{
    let year = padded_signed_text(at.year as int, 4);
    let month = zero_filled(decimal_text(at.month as nat), 2);
    let day = zero_filled(decimal_text(at.day as nat), 2);
    let hour = zero_filled(decimal_text(at.hour as nat), 2);
    reveal_strlit("/");
    assert("/"@ =~= seq!['/']);
    lemma_padded_ends_in_digit(at.year as int, 4);
    lemma_filled_ends_in_digit(at.month as nat, 2);
    lemma_filled_ends_in_digit(at.day as nat, 2);
    let a = dir + seq!['/'] + year;
    assert(a.last() == year.last());
    let b = a + seq!['/'] + month;
    assert(b.last() == month.last());
    let c = b + seq!['/'] + day;
    assert(c.last() == day.last());
}

/// A number that is filled up with zeros ends in a digit.
proof fn lemma_filled_ends_in_digit(n: nat, width: nat)
    ensures
        zero_filled(decimal_text(n), width).len() > 0,
        is_digit(zero_filled(decimal_text(n), width).last()),
{
    let text = decimal_text(n);
    crate::number::decimal_text_reads_back(n);
    crate::number::filling_up_puts_zeros_in_front(text, width);
    assert(is_digit(text[text.len() - 1]));
    let filled = zero_filled(text, width);
    if text.len() < width {
        assert(filled.skip(width - text.len())[text.len() - 1] == filled.last());
    }
}

/// An integer that is filled up with zeros ends in a digit.
proof fn lemma_padded_ends_in_digit(n: int, width: nat)
    requires
        width > 0,
    ensures
        padded_signed_text(n, width).len() > 0,
        is_digit(padded_signed_text(n, width).last()),
{
    if n < 0 {
        lemma_filled_ends_in_digit((-n) as nat, (width - 1) as nat);
    } else {
        lemma_filled_ends_in_digit(n as nat, width);
    }
}

/// The file of a batch is named by the time, the process and the number of the batch.
pub proof fn batches_are_named_by_time_and_number(at: OutputTime, process_id: u32, sequence: u64)
    ensures
        output_name(at, process_id, sequence) == signed_text(at.unix_seconds as int) + seq!['-']
            + decimal_text(process_id as nat) + seq!['-'] + decimal_text(sequence as nat)
            + ".parquet"@,
{
    reveal_strlit("-");
    assert("-"@ =~= seq!['-']);
}

/// A part is put behind a directory with one slash between them.
pub proof fn parts_are_joined_with_one_slash(dir: Seq<char>, part: Seq<char>)
    ensures
        dir.len() == 0 ==> path_join(dir, part) == part,
        dir.len() > 0 && dir.last() == '/' ==> path_join(dir, part) == dir + part,
        dir.len() > 0 && dir.last() != '/' ==> path_join(dir, part) == dir + seq!['/'] + part,
{
    reveal_strlit("/");
    assert("/"@ =~= seq!['/']);
    if dir.len() == 0 {
        assert(dir + part =~= part);
    }
}

} // verus!
