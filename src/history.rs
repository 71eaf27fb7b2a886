//! The user's recent commands, kept up to a fixed number.
use vstd::prelude::*;

verus! {

/// One command as it ran: when (milliseconds on the caller's clock), whether
/// it succeeded, and how long it took in milliseconds.
pub struct TimestampedCommand {
    pub command: String,
    pub timestamp_ms: u64,
    pub success: bool,
    pub execution_time_ms: u64,
}

/// The most recent commands, oldest first, at most `max_history_size` of them.
pub struct HistoryAnalyzer {
    pub command_history: Vec<TimestampedCommand>,
    pub max_history_size: usize,
}

/// How many entries of `h` ran `cmd`.
pub open spec fn occurrences(h: Seq<TimestampedCommand>, cmd: Seq<char>) -> nat
    decreases h.len(),
{
    if h.len() == 0 {
        0
    } else {
        occurrences(h.drop_last(), cmd) + if h.last().command@ == cmd {
            1nat
        } else {
            0nat
        }
    }
}

impl HistoryAnalyzer {
    /// An empty history that keeps at most `max_history_size` commands.
    pub fn new(max_history_size: usize) -> (r: HistoryAnalyzer)
        ensures
            r.command_history@.len() == 0,
            r.max_history_size == max_history_size,
    {
        HistoryAnalyzer { command_history: Vec::new(), max_history_size }
    }

    /// Records a command; when the history grows past its bound the oldest
    /// entry leaves.
    pub fn add_command(&mut self, command: String, success: bool, timestamp_ms: u64, execution_time_ms: u64)
        requires
            old(self).command_history@.len() <= old(self).max_history_size,
        ensures
            final(self).max_history_size == old(self).max_history_size,
            final(self).command_history@.len() <= final(self).max_history_size,
            exists|e: TimestampedCommand| {
                &&& e.command@ == command@
                &&& e.success == success
                &&& e.timestamp_ms == timestamp_ms
                &&& e.execution_time_ms == execution_time_ms
                &&& final(self).command_history@ == if old(self).command_history@.len() + 1 > old(self).max_history_size {
                    old(self).command_history@.push(e).drop_first()
                } else {
                    old(self).command_history@.push(e)
                }
            },
    {
        let ghost before = self.command_history@;
        let entry = TimestampedCommand { command, timestamp_ms, success, execution_time_ms };
        let ghost e = entry;
        self.command_history.push(entry);
        if self.command_history.len() > self.max_history_size {
            self.command_history.remove(0);
            proof {
                assert(self.command_history@ =~= before.push(e).drop_first());
            }
        }
        assert(e.command@ == command@);
        assert(self.command_history@ == if before.len() + 1 > self.max_history_size {
            before.push(e).drop_first()
        } else {
            before.push(e)
        });
    }

    /// How often `cmd` appears in the history.
    pub fn frequency(&self, cmd: &str) -> (r: usize)
        ensures
            r == occurrences(self.command_history@, cmd@),
    {
        let mut n: usize = 0;
        let mut i: usize = 0;
        while i < self.command_history.len()
            invariant
                i <= self.command_history@.len(),
                n == occurrences(self.command_history@.subrange(0, i as int), cmd@),
                n <= i,
            decreases self.command_history@.len() - i,
        {
            proof {
                let p = self.command_history@.subrange(0, i + 1);
                assert(p.drop_last() =~= self.command_history@.subrange(0, i as int));
                assert(p.last() == self.command_history@[i as int]);
            }
            if crate::text::str_eq(self.command_history[i].command.as_str(), cmd) {
                n = n + 1;
            }
            i = i + 1;
        }
        assert(self.command_history@.subrange(0, self.command_history@.len() as int) =~= self.command_history@);
        n
    }
}

} // verus!
