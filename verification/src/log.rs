//! In-app log buffer: a bounded list of entries for display in a logs
//! panel. The buffer keeps at most the newest [`MAX_LOGS`] entries,
//! dropping the oldest as new ones arrive.
//!
//! The process-wide handle around one buffer (and the clock that stamps
//! entries) lives outside the library; every operation here is a pure state
//! transition.

use vstd::prelude::*;

verus! {

/// The most entries the buffer retains.
pub const MAX_LOGS: usize = 2000;

/// One log line: a time stamp, a severity label, and the message.
#[derive(Debug, Clone, PartialEq)]
pub struct LogEntry {
    pub time: String,
    pub level: String,
    pub message: String,
}

/// A bounded in-memory log: at most [`MAX_LOGS`] entries, oldest first.
#[derive(Debug)]
pub struct LogBuffer {
    entries: Vec<LogEntry>,
}

impl LogBuffer {
    /// The retained entries, oldest first.
    pub closed spec fn entries_seq(&self) -> Seq<LogEntry> {
        self.entries@
    }

    /// The buffer never holds more than [`MAX_LOGS`] entries.
    pub open spec fn wf(&self) -> bool {
        self.entries_seq().len() <= MAX_LOGS
    }

    /// An empty buffer.
    pub fn new() -> (r: Self)
        ensures
            r.wf(),
            r.entries_seq().len() == 0,
    {
        LogBuffer { entries: Vec::new() }
    }

    /// Append a log line; when the buffer is full, the oldest entry falls
    /// out so the newest [`MAX_LOGS`] remain.
    pub fn app_log(&mut self, time: String, level: String, message: String)
        requires
            old(self).wf(),
        ensures
            final(self).wf(),
            ({
                let pushed = old(self).entries_seq().push(
                    LogEntry { time, level, message },
                );
                final(self).entries_seq() == if pushed.len() > MAX_LOGS {
                    pushed.skip(pushed.len() - MAX_LOGS)
                } else {
                    pushed
                }
            }),
    {
        self.entries.push(LogEntry { time, level, message });
        if self.entries.len() > MAX_LOGS {
            self.entries.remove(0);
            proof {
                let pushed = old(self).entries_seq().push(
                    LogEntry { time, level, message },
                );
                assert(self.entries@ =~= pushed.skip(pushed.len() - MAX_LOGS));
            }
        }
    }

    /// Take a snapshot of the current entries for display, oldest first.
    pub fn app_logs_snapshot(&self) -> (r: Vec<LogEntry>)
        ensures
            r@ == self.entries_seq(),
    {
        let mut out: Vec<LogEntry> = Vec::new();
        let mut i: usize = 0;
        while i < self.entries.len()
            invariant
                i <= self.entries@.len(),
                out@ == self.entries@.take(i as int),
            decreases self.entries@.len() - i,
        {
            let e = &self.entries[i];
            out.push(
                LogEntry {
                    time: e.time.clone(),
                    level: e.level.clone(),
                    message: e.message.clone(),
                },
            );
            proof {
                assert(out@ =~= self.entries@.take(i + 1 as int));
            }
            i = i + 1;
        }
        proof {
            assert(self.entries@.take(self.entries@.len() as int) =~= self.entries@);
        }
        out
    }
}

} // verus!
