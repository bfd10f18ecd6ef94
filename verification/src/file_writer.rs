//! The durable sink unit: buffers each published line, newline-terminated,
//! and hands the buffered bytes out on a fixed flush timer. A failed flush
//! keeps the buffered bytes, surfaces an error event, and reschedules the
//! next flush; it is never fatal to the unit.

use crate::messages::{PublishError, PublishTick};
use vstd::prelude::*;
use vstd::utf8::encode_utf8;

verus! {

/// The buffered bytes after one line is appended: the line's UTF-8 bytes,
/// newline-terminated.
pub open spec fn spec_buffer_line(pending: Seq<u8>, line: Seq<char>) -> Seq<u8> {
    pending + encode_utf8(line) + seq![10u8]
}

/// The buffered bytes after one flush attempt: drained on success, kept in
/// full on failure.
pub open spec fn spec_after_flush(pending: Seq<u8>, ok: bool) -> Seq<u8> {
    if ok {
        Seq::empty()
    } else {
        pending
    }
}

/// What the sink decides after a flush attempt: the error event to publish,
/// if any, and the delay until the next flush.
pub struct FlushStep {
    pub error: Option<PublishError>,
    pub next_flush_secs: u64,
}

/// A unit subscribed to tick events that appends each line to a write
/// buffer and flushes it on a fixed timer.
pub struct FileWriter {
    pending: Vec<u8>,
    flush_seconds: u64,
}

/// Construct a writer that flushes every `flush_seconds`; the host opens the
/// backing store and performs the writes it is handed.
pub fn new_file_writer(flush_seconds: u64) -> (r: FileWriter)
    ensures
        r.pending_bytes() == Seq::<u8>::empty(),
        r.flush_interval() == flush_seconds,
{
    FileWriter { pending: Vec::new(), flush_seconds }
}

impl FileWriter {
    /// The bytes buffered and not yet flushed.
    pub closed spec fn pending_bytes(&self) -> Seq<u8> {
        self.pending@
    }

    /// The fixed delay between flushes.
    pub closed spec fn flush_interval(&self) -> u64 {
        self.flush_seconds
    }

    /// The delay until the first flush, read off for the scheduler.
    pub fn first_flush_secs(&self) -> (r: u64)
        ensures
            r == self.flush_interval(),
    {
        self.flush_seconds
    }

    /// The kinds this unit subscribes to on start; it also schedules its
    /// first flush after `flush_interval` seconds.
    pub fn subscriptions(&self) -> (r: Vec<crate::bus::EventKind>)
        ensures
            r@ == seq![crate::bus::EventKind::Tick],
    {
        let mut r: Vec<crate::bus::EventKind> = Vec::new();
        r.push(crate::bus::EventKind::Tick);
        proof {
            assert(r@ =~= seq![crate::bus::EventKind::Tick]);
        }
        r
    }

    /// Append a published line, newline-terminated, to the write buffer.
    pub fn handle_tick(&mut self, msg: &PublishTick)
        ensures
            final(self).pending_bytes() == spec_buffer_line(old(self).pending_bytes(), msg.0@),
            final(self).flush_interval() == old(self).flush_interval(),
    {
        let bytes = msg.0.as_str().as_bytes();
        let ghost line_bytes = encode_utf8(msg.0@);
        let mut j: usize = 0;
        while j < bytes.len()
            invariant
                0 <= j <= bytes@.len(),
                bytes@ == line_bytes,
                self.pending@ == old(self).pending_bytes() + line_bytes.take(j as int),
                self.flush_seconds == old(self).flush_interval(),
            decreases bytes@.len() - j,
        {
            self.pending.push(bytes[j]);
            proof {
                assert(old(self).pending_bytes() + line_bytes.take(j + 1) =~= (old(
                    self,
                ).pending_bytes() + line_bytes.take(j as int)).push(line_bytes[j as int]));
            }
            j += 1;
        }
        self.pending.push(10u8);
        proof {
            assert(line_bytes.take(line_bytes.len() as int) =~= line_bytes);
            assert(final(self).pending_bytes() =~= spec_buffer_line(
                old(self).pending_bytes(),
                msg.0@,
            ));
        }
    }

    /// A copy of the buffered bytes, for the host to write on a flush.
    pub fn pending_copy(&self) -> (r: Vec<u8>)
        ensures
            r@ == self.pending_bytes(),
    {
        let mut out: Vec<u8> = Vec::new();
        let mut j: usize = 0;
        while j < self.pending.len()
            invariant
                0 <= j <= self.pending@.len(),
                out@ == self.pending@.take(j as int),
            decreases self.pending@.len() - j,
        {
            out.push(self.pending[j]);
            proof {
                assert(self.pending@.take(j + 1) =~= self.pending@.take(j as int).push(
                    self.pending@[j as int],
                ));
            }
            j += 1;
        }
        proof {
            assert(self.pending@.take(self.pending@.len() as int) =~= self.pending@);
        }
        out
    }

    /// Record the outcome of a flush attempt: on success the buffer is
    /// drained; on failure it is kept for the next attempt and an error
    /// event is produced. Either way the next flush is scheduled at the
    /// regular interval.
    pub fn on_flush_result(&mut self, ok: bool) -> (r: FlushStep)
        ensures
            final(self).pending_bytes() == spec_after_flush(old(self).pending_bytes(), ok),
            final(self).flush_interval() == old(self).flush_interval(),
            r.next_flush_secs == old(self).flush_interval(),
            ok ==> r.error matches None,
            !ok ==> (r.error matches Some(e) && e.0@ == "Unable to write to file."@),
    {
        proof {
            reveal_strlit("Unable to write to file.");
        }
        if ok {
            self.pending.clear();
            FlushStep { error: None, next_flush_secs: self.flush_seconds }
        } else {
            FlushStep {
                error: Some(PublishError(String::from_str("Unable to write to file."))),
                next_flush_secs: self.flush_seconds,
            }
        }
    }
}

/// One interaction with the sink: a line to buffer, or the outcome of an
/// attempted flush.
pub enum SinkEvent {
    Line(Seq<char>),
    Flush(bool),
}

/// The observable history of a sink: its buffer, everything successfully
/// flushed to the backing store, and how many flushes were attempted and
/// how many failed.
pub struct SinkState {
    pub pending: Seq<u8>,
    pub written: Seq<u8>,
    pub attempts: nat,
    pub failures: nat,
}

/// How one event changes the sink.
pub open spec fn sink_step(st: SinkState, ev: SinkEvent) -> SinkState {
    match ev {
        SinkEvent::Line(line) => SinkState {
            pending: spec_buffer_line(st.pending, line),
            ..st
        },
        SinkEvent::Flush(ok) => SinkState {
            pending: spec_after_flush(st.pending, ok),
            written: if ok {
                st.written + st.pending
            } else {
                st.written
            },
            attempts: st.attempts + 1,
            failures: if ok {
                st.failures
            } else {
                st.failures + 1
            },
        },
    }
}

/// The sink after a sequence of events, starting empty.
pub open spec fn sink_run(evs: Seq<SinkEvent>) -> SinkState
    decreases evs.len(),
{
    if evs.len() == 0 {
        SinkState { pending: Seq::empty(), written: Seq::empty(), attempts: 0, failures: 0 }
    } else {
        sink_step(sink_run(evs.drop_last()), evs.last())
    }
}

/// How many of the events are flush attempts.
pub open spec fn count_flushes(evs: Seq<SinkEvent>) -> nat
    decreases evs.len(),
{
    if evs.len() == 0 {
        0
    } else {
        count_flushes(evs.drop_last()) + (if evs.last() is Flush {
            1nat
        } else {
            0nat
        })
    }
}

/// The newline-terminated bytes of every line event, in order.
pub open spec fn all_line_bytes(evs: Seq<SinkEvent>) -> Seq<u8>
    decreases evs.len(),
{
    if evs.len() == 0 {
        Seq::empty()
    } else {
        all_line_bytes(evs.drop_last()) + (match evs.last() {
            SinkEvent::Line(line) => encode_utf8(line) + seq![10u8],
            SinkEvent::Flush(_) => Seq::empty(),
        })
    }
}

/// A flush failure is never fatal: over any history, every flush event is
/// attempted, and every buffered line ends up flushed or still pending —
/// failed flushes lose nothing and stop neither later buffering nor later
/// attempts.
pub proof fn lemma_flush_failure_not_fatal(evs: Seq<SinkEvent>)
    ensures
        sink_run(evs).attempts == count_flushes(evs),
        sink_run(evs).written + sink_run(evs).pending == all_line_bytes(evs),
    decreases evs.len(),
{
    if evs.len() == 0 {
        assert(sink_run(evs).written + sink_run(evs).pending =~= all_line_bytes(evs));
    } else {
        lemma_flush_failure_not_fatal(evs.drop_last());
        let prev = sink_run(evs.drop_last());
        match evs.last() {
            SinkEvent::Line(line) => {
                assert(prev.written + spec_buffer_line(prev.pending, line) =~= (prev.written
                    + prev.pending) + (encode_utf8(line) + seq![10u8]));
            },
            SinkEvent::Flush(ok) => {
                if ok {
                    assert((prev.written + prev.pending) + Seq::<u8>::empty() =~= prev.written
                        + prev.pending);
                    assert(all_line_bytes(evs) =~= all_line_bytes(evs.drop_last()));
                } else {
                    assert(all_line_bytes(evs) =~= all_line_bytes(evs.drop_last()));
                }
            },
        }
    }
}

} // verus!
