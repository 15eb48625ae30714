//! The in-memory log shown on the Logs screen: the latest 1000 entries.
use vstd::prelude::*;
use vstd::string::*;
use crate::db::LogEntry;
use crate::text::{char_run_end, char_run_end_exec, char_run_start, char_run_start_exec, chars_of, string_of_range};

verus! {

/// The most entries kept.
pub const LOG_CAPACITY: usize = 1000;

/// The captured log, oldest first, never longer than [`LOG_CAPACITY`].
pub struct LogBuffer {
    entries: Vec<LogEntry>,
}

/// The log after adding `e` to `log`: the entry is appended and, when that
/// makes the log longer than the capacity, the oldest entry is dropped.
pub open spec fn log_after_push(log: Seq<LogEntry>, e: LogEntry) -> Seq<LogEntry> {
    if log.len() + 1 > LOG_CAPACITY { log.push(e).drop_first() } else { log.push(e) }
}

impl LogBuffer {
    /// The entries, oldest first.
    pub closed spec fn entries(&self) -> Seq<LogEntry> {
        self.entries@
    }

    #[verifier::type_invariant]
    spec fn bounded(self) -> bool {
        self.entries@.len() <= LOG_CAPACITY
    }

    /// An empty log.
    pub fn new() -> (r: LogBuffer)
        ensures
            r.entries() == Seq::<LogEntry>::empty(),
    {
        LogBuffer { entries: Vec::new() }
    }

    /// Adds an entry, dropping the oldest one when the log is full.
    pub fn push(&mut self, e: LogEntry)
        ensures
            final(self).entries() == log_after_push(old(self).entries(), e),
            final(self).entries().len() <= LOG_CAPACITY,
    {
        proof {
            use_type_invariant(&*self);
        }
        let mut v = Vec::new();
        std::mem::swap(&mut v, &mut self.entries);
        let ghost old_v = v@;
        v.push(e);
        if v.len() > LOG_CAPACITY {
            v.remove(0);
            assert(v@ =~= old_v.push(e).drop_first());
        }
        self.entries = v;
    }

    /// Removes every entry.
    pub fn clear(&mut self)
        ensures
            final(self).entries() == Seq::<LogEntry>::empty(),
    {
        self.entries = Vec::new();
    }

    /// How many entries are kept.
    pub fn len(&self) -> (r: usize)
        ensures
            r == self.entries().len(),
            r <= LOG_CAPACITY,
    {
        proof {
            use_type_invariant(self);
        }
        self.entries.len()
    }
}

/// A copy of a log entry.
pub fn copy_entry(e: &LogEntry) -> (r: LogEntry)
    ensures
        r == *e,
{
    LogEntry {
        timestamp: e.timestamp.clone(),
        level: e.level.clone(),
        topic: e.topic.clone(),
        message: e.message.clone(),
    }
}

/// The captured entries, oldest first.
pub fn read_logs(buffer: &LogBuffer) -> (r: Vec<LogEntry>)
    ensures
        r@ == buffer.entries(),
{
    let mut r: Vec<LogEntry> = Vec::new();
    let mut i: usize = 0;
    while i < buffer.entries.len()
        invariant
            i <= buffer.entries@.len(),
            r@ == buffer.entries@.take(i as int),
        decreases buffer.entries@.len() - i,
    {
        r.push(copy_entry(&buffer.entries[i]));
        assert(r@ =~= buffer.entries@.take(i + 1));
        i += 1;
    }
    assert(buffer.entries@.take(buffer.entries@.len() as int) =~= buffer.entries@);
    r
}

/// A log entry for an event: its topic field, or the event's target when
/// the topic field is empty.
pub fn make_log_entry(timestamp: String, level: String, topic: String, target: &str, message: String) -> (r: LogEntry)
    ensures
        r.timestamp == timestamp,
        r.level == level,
        r.message == message,
        topic@.len() > 0 ==> r.topic == topic,
        topic@.len() == 0 ==> r.topic@ == target@,
{
    let topic = if topic.as_str().is_empty() { String::from_str(target) } else { topic };
    LogEntry { timestamp, level, topic, message }
}

/// A field's `Debug` text without the surrounding quotes
/// (`str::trim_matches('"')`).
pub open spec fn unquoted(s: Seq<char>) -> Seq<char> {
    let a = char_run_end(s, '"', 0);
    let b = char_run_start(s, '"', s.len() as int);
    if a < b { s.subrange(a, b) } else { Seq::empty() }
}

/// Removes the quotes around a field's `Debug` text.
pub fn unquote_field(s: &str) -> (r: String)
    ensures
        r@ == unquoted(s@),
{
    let v = chars_of(s);
    let a = char_run_end_exec(v.as_slice(), '"');
    let b = char_run_start_exec(v.as_slice(), '"');
    if a < b {
        string_of_range(v.as_slice(), a, b)
    } else {
        String::new()
    }
}

/// One exported log line: `[timestamp] [level] [topic] message`.
pub open spec fn export_line(e: LogEntry) -> Seq<char> {
    "["@ + e.timestamp@ + "] ["@ + e.level@ + "] ["@ + e.topic@ + "] "@ + e.message@ + "\n"@
}

/// The exported lines of entries, in order.
pub open spec fn export_lines(es: Seq<LogEntry>) -> Seq<char>
    decreases es.len(),
{
    if es.len() == 0 {
        Seq::empty()
    } else {
        export_lines(es.drop_last()) + export_line(es.last())
    }
}

/// The text of a log export; an empty log cannot be exported.
pub fn export_log_text(entries: &Vec<LogEntry>) -> (r: Result<String, String>)
    ensures
        entries@.len() == 0 ==> (r matches Err(m) && m@ == "No logs to export"@),
        entries@.len() > 0 ==> (r matches Ok(t) && t@ == export_lines(entries@)),
{
    if entries.len() == 0 {
        return Err(String::from_str("No logs to export"));
    }
    let mut t = String::new();
    let mut i: usize = 0;
    while i < entries.len()
        invariant
            i <= entries@.len(),
            t@ == export_lines(entries@.take(i as int)),
        decreases entries@.len() - i,
    {
        assert(entries@.take(i + 1).drop_last() =~= entries@.take(i as int));
        let e = &entries[i];
        t.append("[");
        t.append(e.timestamp.as_str());
        t.append("] [");
        t.append(e.level.as_str());
        t.append("] [");
        t.append(e.topic.as_str());
        t.append("] ");
        t.append(e.message.as_str());
        t.append("\n");
        i += 1;
    }
    assert(entries@.take(entries@.len() as int) =~= entries@);
    Ok(t)
}

} // verus!
