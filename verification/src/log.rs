//! The log that the operator sees: the latest messages, numbered.

use std::collections::VecDeque;
use vstd::prelude::*;

use crate::model::views;

verus! {

/// `std::time::Instant`, carried through without a look inside.
#[verifier::external_type_specification]
#[verifier::external_body]
pub struct ExInstant(std::time::Instant);

/// `Instant::now`. Nothing is claimed of the reading.
#[verifier::external_body]
fn now() -> (instant: std::time::Instant) {
    std::time::Instant::now()
}

/// A time that has passed: whole seconds, and the nanoseconds beyond them.
#[derive(Debug, Clone, Copy, PartialEq, Eq, Structural)]
pub struct Elapsed {
    pub secs: u64,
    pub nanos: u32,
}

impl Elapsed {
    /// The nanoseconds are less than a second.
    pub open spec fn well_formed(self) -> bool {
        self.nanos < 1_000_000_000
    }

    /// The whole seconds.
    pub fn as_secs(&self) -> (secs: u64)
        ensures
            secs == self.secs,
    {
        self.secs
    }
}

/// `Instant::elapsed`, as the seconds and the nanoseconds of its duration, of which the latter are
/// less than a second. Nothing else is claimed of the time that has passed.
#[verifier::external_body]
fn elapsed_since(start: &std::time::Instant) -> (elapsed: Elapsed)
    ensures
        elapsed.well_formed(),
{
    let duration = start.elapsed();
    Elapsed { secs: duration.as_secs(), nanos: duration.subsec_nanos() }
}

#[derive(Debug, Clone, Copy, PartialEq, Eq, Structural)]
pub enum LogLevel {
    Info,
    Warning,
    Error,
}

impl LogLevel {
    pub fn to_text(self) -> (text: String)
        ensures
            text@ == match self {
                LogLevel::Info => "INFO"@,
                LogLevel::Warning => "WARN"@,
                LogLevel::Error => "ERROR"@,
            },
    {
        match self {
            LogLevel::Info => "INFO".to_string(),
            LogLevel::Warning => "WARN".to_string(),
            LogLevel::Error => "ERROR".to_string(),
        }
    }
}

/// A message with its number, and the time since the log was started.
#[derive(Debug, PartialEq, Eq)]
pub struct LogEntry {
    pub sequence: u64,
    pub elapsed: Elapsed,
    pub level: LogLevel,
    pub message: String,
}

/// The contents of a [`LogEntry`], its time left aside.
#[verifier::ext_equal]
pub struct LogEntryView {
    pub sequence: u64,
    pub level: LogLevel,
    pub message: Seq<char>,
}

impl View for LogEntry {
    type V = LogEntryView;

    open spec fn view(&self) -> LogEntryView {
        LogEntryView { sequence: self.sequence, level: self.level, message: self.message@ }
    }
}

impl Clone for LogEntry {
    fn clone(&self) -> (result: Self)
        ensures
            result == *self,
    {
        LogEntry {
            sequence: self.sequence,
            elapsed: self.elapsed,
            level: self.level,
            message: self.message.clone(),
        }
    }
}

/// The latest messages, up to a capacity.
pub struct LogBuffer {
    entries: VecDeque<LogEntry>,
    next_sequence: u64,
    started_at: std::time::Instant,
    capacity: usize,
}

/// The contents of a [`LogBuffer`].
#[verifier::ext_equal]
pub struct LogBufferView {
    pub entries: Seq<LogEntryView>,
    pub next_sequence: u64,
    pub capacity: usize,
}

impl View for LogBuffer {
    type V = LogBufferView;

    closed spec fn view(&self) -> LogBufferView {
        LogBufferView {
            entries: views(self.entries@),
            next_sequence: self.next_sequence,
            capacity: self.capacity,
        }
    }
}

/// When messages were written.
pub open spec fn times_of(entries: Seq<LogEntry>) -> Seq<Elapsed> {
    Seq::new(entries.len(), |i: int| entries[i].elapsed)
}

/// The times of a log after one more message: where it was full, the oldest has gone.
pub open spec fn timed(times: Seq<Elapsed>, capacity: usize, elapsed: Elapsed) -> Seq<Elapsed> {
    if times.len() >= capacity && times.len() > 0 {
        times.skip(1).push(elapsed)
    } else {
        times.push(elapsed)
    }
}

/// Whether a log's times follow from those before one step: they stay where the log does, go where
/// it was cleared, and are those before and one more where a message was written.
#[verifier::opaque]
pub open spec fn times_follow(before: LogBuffer, after: LogBuffer) -> bool {
    if after@ == before@ {
        after.times() == before.times()
    } else if after@.next_sequence == before@.next_sequence {
        after.times() == Seq::<Elapsed>::empty()
    } else {
        exists|elapsed: Elapsed|
            elapsed.well_formed() && after.times() == #[trigger] timed(
                before.times(),
                before@.capacity,
                elapsed,
            )
    }
}

/// The times of a log that stays as it is.
pub proof fn lemma_times_stay(log: LogBuffer)
    ensures
        times_follow(log, log),
{
    reveal(times_follow);
}

/// The times of a log that was cleared.
pub proof fn lemma_times_cleared(before: LogBuffer, after: LogBuffer)
    requires
        after@ == (LogBufferView { entries: Seq::empty(), ..before@ }),
        after.times() == Seq::<Elapsed>::empty(),
    ensures
        times_follow(before, after),
{
    reveal(times_follow);
    law_every_message_has_its_time(before);
    if after@ == before@ {
        assert(before.times() =~= Seq::<Elapsed>::empty());
    }
}

/// The times of a log that a message was written to.
pub proof fn lemma_times_written(
    before: LogBuffer,
    after: LogBuffer,
    level: LogLevel,
    message: Seq<char>,
)
    requires
        after@ == logged(before@, level, message),
        exists|elapsed: Elapsed|
            elapsed.well_formed() && after.times() == #[trigger] timed(
                before.times(),
                before@.capacity,
                elapsed,
            ),
    ensures
        times_follow(before, after),
{
    reveal(times_follow);
}

/// Every message of a log has its time.
pub proof fn law_every_message_has_its_time(log: LogBuffer)
    ensures
        log.times().len() == log@.entries.len(),
{
    assert(views(log.entries@).len() == log.entries@.len());
}

/// The number that follows a number; the greatest is followed by zero.
pub open spec fn next_number(number: u64) -> u64 {
    if number == u64::MAX {
        0
    } else {
        (number + 1) as u64
    }
}

/// A log after one more message: where it was full, the oldest has gone.
pub open spec fn logged(log: LogBufferView, level: LogLevel, message: Seq<char>) -> LogBufferView {
    let kept = if log.entries.len() >= log.capacity && log.entries.len() > 0 {
        log.entries.skip(1)
    } else {
        log.entries
    };
    LogBufferView {
        entries: kept.push(LogEntryView { sequence: log.next_sequence, level, message }),
        next_sequence: next_number(log.next_sequence),
        capacity: log.capacity,
    }
}

/// A log that nothing was written to.
pub open spec fn empty_log(capacity: usize) -> LogBufferView {
    LogBufferView { entries: Seq::empty(), next_sequence: 1, capacity }
}

impl LogBuffer {
    /// When the messages were written, as the time since the log was started.
    pub closed spec fn times(&self) -> Seq<Elapsed> {
        times_of(self.entries@)
    }

    pub fn new(capacity: usize) -> (log: Self)
        ensures
            log@ == empty_log(capacity),
            log.times() == Seq::<Elapsed>::empty(),
    {
        let room: usize = if capacity < 1024 {
            capacity
        } else {
            1024
        };
        let log = LogBuffer {
            entries: VecDeque::with_capacity(room),
            next_sequence: 1,
            started_at: now(),
            capacity,
        };
        assert(log@ =~= empty_log(capacity));
        log
    }

    pub fn push(&mut self, level: LogLevel, message: &str)
        ensures
            final(self)@ == logged(old(self)@, level, message@),
            exists|elapsed: Elapsed|
                elapsed.well_formed() && final(self).times() == #[trigger] timed(
                    old(self).times(),
                    old(self)@.capacity,
                    elapsed,
                ),
    {
        let ghost before = self.entries@;
        if self.entries.len() >= self.capacity {
            let _ = self.entries.pop_front();
        }
        let ghost kept = self.entries@;
        let entry = LogEntry {
            sequence: self.next_sequence,
            elapsed: elapsed_since(&self.started_at),
            level,
            message: message.to_string(),
        };
        self.entries.push_back(entry);
        self.next_sequence = self.next_sequence.wrapping_add(1);
        proof {
            assert(views(self.entries@) =~= views(kept).push(entry@));
            if before.len() >= self.capacity && before.len() > 0 {
                assert(kept =~= before.skip(1));
                assert(views(kept) =~= views(before).skip(1));
            }
            assert(old(self).times() =~= times_of(before));
            assert(self.times() =~= timed(
                old(self).times(),
                old(self)@.capacity,
                entry.elapsed,
            ));
            assert(self@ =~= logged(old(self)@, level, message@));
        }
    }

    pub fn clear(&mut self)
        ensures
            final(self)@ == (LogBufferView { entries: Seq::empty(), ..old(self)@ }),
            final(self).times() == Seq::<Elapsed>::empty(),
    {
        self.entries.clear();
        assert(self@.entries =~= Seq::<LogEntryView>::empty());
    }

    pub fn entries(&self) -> (entries: &VecDeque<LogEntry>)
        ensures
            views(entries@) == self@.entries,
            times_of(entries@) == self.times(),
    {
        &self.entries
    }
}

/// What holds of every log: it never holds more than its capacity, or one message where that is
/// zero, and its messages are numbered one after the other, up to the one before the next number.
pub open spec fn log_invariant(log: LogBufferView) -> bool {
    &&& log.entries.len() <= log.capacity || log.entries.len() <= 1
    &&& forall|i: int|
        #![trigger log.entries[i]]
        0 <= i < log.entries.len() ==> log.entries[i].sequence as int == (log.next_sequence
            - log.entries.len() + i) % 0x1_0000_0000_0000_0000
}

/// A new log satisfies the invariant, and writing to a log and clearing it keep it.
pub proof fn law_log_invariant(
    log: LogBufferView,
    capacity: usize,
    level: LogLevel,
    message: Seq<char>,
)
    requires
        log_invariant(log),
    ensures
        log_invariant(empty_log(capacity)),
        log_invariant(logged(log, level, message)),
        log_invariant(LogBufferView { entries: Seq::empty(), ..log }),
{
    let after = logged(log, level, message);
    let dropped: int = if log.entries.len() >= log.capacity && log.entries.len() > 0 {
        1
    } else {
        0
    };
    assert forall|i: int| #![trigger after.entries[i]] 0 <= i < after.entries.len() implies
        after.entries[i].sequence as int == (after.next_sequence - after.entries.len() + i)
        % 0x1_0000_0000_0000_0000 by {
        if i < after.entries.len() - 1 {
            assert(after.entries[i] == log.entries[i + dropped]);
        }
    }
}

/// The latest message is the last entry, and the messages before it stay as they were.
pub proof fn law_latest_message_is_last(log: LogBufferView, level: LogLevel, message: Seq<char>)
    ensures
        logged(log, level, message).entries.len() > 0,
        logged(log, level, message).entries.last() == (LogEntryView {
            sequence: log.next_sequence,
            level,
            message,
        }),
        logged(log, level, message).entries.drop_last() == log.entries
            || logged(log, level, message).entries.drop_last() == log.entries.skip(1),
{
    let after = logged(log, level, message).entries;
    if log.entries.len() >= log.capacity && log.entries.len() > 0 {
        assert(after.drop_last() =~= log.entries.skip(1));
    } else {
        assert(after.drop_last() =~= log.entries);
    }
}

} // verus!
