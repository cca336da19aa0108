//! The application log: a bounded list of the most recent entries, each with
//! its time, source and level, and its rendering as one line of text.
use vstd::prelude::*;
use std::collections::VecDeque;
use crate::naming::{format_timestamp, format_timestamp_spec};
use crate::text::{owned, push_char, push_str};

verus! {

/// Where a log entry comes from.
#[derive(Clone, Copy, PartialEq, Eq, Structural, Debug, Hash)]
pub enum LogSource {
    App,
    Sidecar,
    Python,
}

/// The short label of a source.
pub open spec fn source_label(s: LogSource) -> Seq<char> {
    match s {
        LogSource::App => "app"@,
        LogSource::Sidecar => "sidecar"@,
        LogSource::Python => "py"@,
    }
}

impl LogSource {
    /// The short label of the source.
    pub fn short(self) -> (r: &'static str)
        ensures
            r@ == source_label(self),
    {
        match self {
            LogSource::App => "app",
            LogSource::Sidecar => "sidecar",
            LogSource::Python => "py",
        }
    }
}

/// How serious a log entry is.
#[derive(Clone, Copy, PartialEq, Eq, Structural, Debug, Hash)]
pub enum LogLevel {
    Info,
    Warn,
    Error,
}

/// The short label of a level.
pub open spec fn level_label(l: LogLevel) -> Seq<char> {
    match l {
        LogLevel::Info => "info"@,
        LogLevel::Warn => "warn"@,
        LogLevel::Error => "err"@,
    }
}

impl LogLevel {
    /// The short label of the level.
    pub fn short(self) -> (r: &'static str)
        ensures
            r@ == level_label(self),
    {
        match self {
            LogLevel::Info => "info",
            LogLevel::Warn => "warn",
            LogLevel::Error => "err",
        }
    }
}

/// One log entry; `ts` is the time in whole seconds since the Unix epoch.
pub struct LogEntry {
    pub ts: u64,
    pub source: LogSource,
    pub level: LogLevel,
    pub message: String,
}

/// What a log entry holds, as plain values.
pub open spec fn entry_view(e: LogEntry) -> (u64, LogSource, LogLevel, Seq<char>) {
    (e.ts, e.source, e.level, e.message@)
}

/// The views of a list of entries.
pub open spec fn entries_view(s: Seq<LogEntry>) -> Seq<(u64, LogSource, LogLevel, Seq<char>)> {
    Seq::new(s.len(), |i: int| entry_view(s[i]))
}

/// A copy of an entry.
pub fn copy_entry(e: &LogEntry) -> (r: LogEntry)
    ensures
        entry_view(r) == entry_view(*e),
{
    LogEntry { ts: e.ts, source: e.source, level: e.level, message: owned(e.message.as_str()) }
}

/// The entries kept of `s` by a log that holds at most `max`: the last `max`.
pub open spec fn keep_last<T>(s: Seq<T>, max: nat) -> Seq<T> {
    if s.len() > max {
        s.skip(s.len() - max)
    } else {
        s
    }
}

broadcast use vstd::std_specs::vecdeque::group_vec_dequeue_axioms;

/// The capacity of the application's shared log.
pub const DEFAULT_CAPACITY: usize = 2000;

/// A log that keeps the `max` most recent entries, oldest first.
pub struct AppLog {
    entries: VecDeque<LogEntry>,
    max: usize,
}

impl AppLog {
    /// The entries held, oldest first.
    pub closed spec fn entries(&self) -> Seq<LogEntry> {
        self.entries@
    }

    /// The most entries the log keeps.
    pub closed spec fn max(&self) -> nat {
        self.max as nat
    }

    /// The log holds no more than it may keep.
    pub closed spec fn wf(&self) -> bool {
        self.entries@.len() <= self.max
    }

    /// An empty log that keeps at most `max` entries.
    pub fn new(max: usize) -> (r: Self)
        ensures
            r.wf(),
            r.entries() == Seq::<LogEntry>::empty(),
            r.max() == max,
    {
        AppLog { entries: VecDeque::new(), max }
    }

    /// Adds an entry, dropping the oldest ones so that at most `max` are kept.
    /// A log that may keep no entry at all is not written to.
    pub fn push(&mut self, entry: LogEntry)
        requires
            old(self).wf(),
            old(self).max() > 0,
        ensures
            final(self).wf(),
            final(self).max() == old(self).max(),
            final(self).entries() == keep_last(old(self).entries().push(entry), old(self).max()),
    {
        let ghost start = self.entries@;
        while self.entries.len() >= self.max
            invariant
                self.max == old(self).max,
                self.max > 0,
                start == old(self).entries@,
                start.len() <= self.max,
                self.entries@.len() <= start.len(),
                self.entries@.len() + 1 >= start.len(),
                self.entries@.len() < start.len() ==> self.entries@.len() + 1 == self.max,
                self.entries@ == start.skip(start.len() - self.entries@.len()),
            decreases self.entries@.len(),
        {
            let ghost before = self.entries@;
            self.entries.pop_front();
            assert(self.entries@ =~= start.skip(start.len() - self.entries@.len()));
        }
        self.entries.push_back(entry);
        let ghost s = start.push(entry);
        assert(start.skip(0) =~= start);
        assert(self.entries@ =~= keep_last(s, self.max as nat));
    }

    /// A copy of the entries, oldest first.
    pub fn snapshot(&self) -> (r: Vec<LogEntry>)
        ensures
            entries_view(r@) == entries_view(self.entries()),
    {
        let mut out: Vec<LogEntry> = Vec::new();
        let mut i: usize = 0;
        while i < self.entries.len()
            invariant
                i <= self.entries@.len(),
                out@.len() == i,
                entries_view(out@) == entries_view(self.entries@.take(i as int)),
            decreases self.entries@.len() - i,
        {
            let e = copy_entry(&self.entries[i]);
            assert(entry_view(e) == entry_view(self.entries@[i as int]));
            let ghost before = out@;
            out.push(e);
            assert(out@ == before.push(e));
            assert forall|k: int| 0 <= k < i + 1 implies #[trigger] entries_view(out@)[k] == entries_view(
                self.entries@.take(i + 1),
            )[k] by {
                if k < i {
                    assert(out@[k] == before[k]);
                    assert(entries_view(before)[k] == entries_view(self.entries@.take(i as int))[k]);
                }
            }
            assert(entries_view(out@) =~= entries_view(self.entries@.take(i + 1)));
            i = i + 1;
        }
        assert(self.entries@.take(i as int) =~= self.entries@);
        out
    }

    /// Removes every entry.
    pub fn clear(&mut self)
        requires
            old(self).wf(),
        ensures
            final(self).wf(),
            final(self).max() == old(self).max(),
            final(self).entries() == Seq::<LogEntry>::empty(),
    {
        self.entries.clear();
    }

    /// The number of entries held.
    pub fn len(&self) -> (n: usize)
        ensures
            n == self.entries().len(),
    {
        self.entries.len()
    }
}

/// Pushing entry after entry onto a log that keeps `max` leaves the last `max`
/// of all that it held and all that was pushed, whatever the number of pushes.
pub proof fn lemma_log_keeps_last<T>(held: Seq<T>, pushed: Seq<T>, max: nat)
    requires
        max > 0,
    ensures
        pushed.fold_left(keep_last(held, max), |acc: Seq<T>, e: T| keep_last(acc.push(e), max)) == keep_last(
            held + pushed,
            max,
        ),
    decreases pushed.len(),
{
    let f = |acc: Seq<T>, e: T| keep_last(acc.push(e), max);
    if pushed.len() == 0 {
        assert(held + pushed =~= held);
        assert(keep_last(keep_last(held, max), max) =~= keep_last(held, max));
    } else {
        let front = pushed.drop_last();
        let e = pushed.last();
        lemma_log_keeps_last(held, front, max);
        assert(pushed.fold_left(keep_last(held, max), f) == f(front.fold_left(keep_last(held, max), f), e));
        let whole = held + front;
        assert(held + pushed =~= whole.push(e));
        assert(keep_last(keep_last(whole, max).push(e), max) =~= keep_last(whole.push(e), max));
    }
}

// ---------------------------------------------------------------------------
// Rendering
// ---------------------------------------------------------------------------

/// `s` padded on the right with spaces to `width` characters (`{:width}`).
pub open spec fn pad_right(s: Seq<char>, width: nat) -> Seq<char> {
    if s.len() < width {
        s + Seq::new((width - s.len()) as nat, |i: int| ' ')
    } else {
        s
    }
}

fn push_padded(out: &mut String, s: &str, width: usize)
    ensures
        final(out)@ == old(out)@ + pad_right(s@, width as nat),
{
    let v = crate::text::chars_of(s);
    push_str(out, s);
    if v.len() < width {
        let mut k: usize = v.len();
        while k < width
            invariant
                v@.len() <= k <= width,
                out@ == old(out)@ + s@ + Seq::new((k - v@.len()) as nat, |i: int| ' '),
            decreases width - k,
        {
            push_char(out, ' ');
            k = k + 1;
            assert(out@ =~= old(out)@ + s@ + Seq::new((k - v@.len()) as nat, |i: int| ' '));
        }
        assert(old(out)@ + s@ + Seq::new((k - v@.len()) as nat, |i: int| ' ') =~= old(out)@ + pad_right(s@, width as nat));
    } else {
        assert(old(out)@ + s@ =~= old(out)@ + pad_right(s@, width as nat));
    }
}

/// The line shown for an entry: its clock time, two spaces, the source and
/// level padded to 7 and 5 characters in brackets, a space and the message.
pub open spec fn log_line_spec(e: LogEntry) -> Seq<char> {
    format_timestamp_spec(e.ts as nat) + "  ["@ + pad_right(source_label(e.source), 7) + "/"@ + pad_right(
        level_label(e.level),
        5,
    ) + "] "@ + e.message@
}

/// The line shown for an entry, as `log_line_spec` describes it.
pub fn format_log_line(e: &LogEntry) -> (r: String)
    ensures
        r@ == log_line_spec(*e),
{
    let mut r = format_timestamp(e.ts);
    push_str(&mut r, "  [");
    push_padded(&mut r, e.source.short(), 7);
    push_str(&mut r, "/");
    push_padded(&mut r, e.level.short(), 5);
    push_str(&mut r, "] ");
    push_str(&mut r, e.message.as_str());
    r
}

// ---------------------------------------------------------------------------
// The logs page
// ---------------------------------------------------------------------------

/// An entry is listed on the logs page: of the source chosen (any when none
/// is), of the level chosen (any when none is), and holding the query (in
/// lower case, against the message in lower case) when there is one.
pub open spec fn log_shown(e: LogEntry, source: Option<LogSource>, level: Option<LogLevel>, query_lower: Seq<char>) -> bool {
    (source matches Some(s) ==> e.source == s) && (level matches Some(l) ==> e.level == l) && (query_lower.len() == 0
        || crate::text::contains(crate::text::lowercase(e.message@), query_lower))
}

/// The positions of the entries listed, in order.
pub open spec fn shown_entries(es: Seq<LogEntry>, source: Option<LogSource>, level: Option<LogLevel>, q: Seq<char>) -> Seq<usize>
    decreases es.len(),
{
    if es.len() == 0 {
        Seq::empty()
    } else {
        let rest = shown_entries(es.drop_last(), source, level, q);
        if log_shown(es.last(), source, level, q) {
            rest.push((es.len() - 1) as usize)
        } else {
            rest
        }
    }
}

/// The positions of the entries listed on the logs page, as `shown_entries`
/// gives them.
pub fn filter_entries(
    entries: &Vec<LogEntry>,
    source: Option<LogSource>,
    level: Option<LogLevel>,
    query_lower: &str,
) -> (r: Vec<usize>)
    ensures
        r@ == shown_entries(entries@, source, level, query_lower@),
{
    let mut r: Vec<usize> = Vec::new();
    let mut i: usize = 0;
    while i < entries.len()
        invariant
            i <= entries@.len(),
            r@ == shown_entries(entries@.take(i as int), source, level, query_lower@),
        decreases entries@.len() - i,
    {
        assert(entries@.take(i as int + 1).drop_last() =~= entries@.take(i as int));
        let e = &entries[i];
        let src_ok = match source {
            Some(s) => e.source == s,
            None => true,
        };
        let lvl_ok = match level {
            Some(l) => e.level == l,
            None => true,
        };
        let q_ok = query_lower.is_empty() || {
            let m = crate::text::to_lowercase(e.message.as_str());
            crate::text::str_contains(m.as_str(), query_lower)
        };
        if src_ok && lvl_ok && q_ok {
            r.push(i);
        }
        i = i + 1;
    }
    assert(entries@.take(i as int) =~= entries@);
    r
}

/// The text copied from the logs page: every entry formatted, one per line.
pub open spec fn copied_text(es: Seq<LogEntry>) -> Seq<char>
    decreases es.len(),
{
    if es.len() == 0 {
        Seq::empty()
    } else if es.len() == 1 {
        log_line_spec(es[0])
    } else {
        copied_text(es.drop_last()) + "\n"@ + log_line_spec(es.last())
    }
}

/// The text copied from the logs page, as `copied_text` writes it.
pub fn copy_text(entries: &Vec<LogEntry>) -> (r: String)
    ensures
        r@ == copied_text(entries@),
{
    let mut r = String::new();
    let mut i: usize = 0;
    while i < entries.len()
        invariant
            i <= entries@.len(),
            r@ == copied_text(entries@.take(i as int)),
        decreases entries@.len() - i,
    {
        let ghost pre = entries@.take(i as int + 1);
        assert(pre.drop_last() =~= entries@.take(i as int));
        assert(pre.last() == entries@[i as int]);
        if i > 0 {
            push_str(&mut r, "\n");
        } else {
            assert(pre =~= seq![entries@[0]]);
        }
        let line = format_log_line(&entries[i]);
        push_str(&mut r, line.as_str());
        i = i + 1;
    }
    assert(entries@.take(i as int) =~= entries@);
    r
}

} // verus!
