use vstd::prelude::*;

verus! {

// Status reporting is injected: the pipeline's driver owns a Log, writes
// every status line into it, and decides what to do with the lines. A
// detached log (hook off) records nothing.

#[derive(Clone, Copy, Debug, PartialEq, Eq, Structural)]
pub enum LogLevel {
    Info,
    Success,
    Warning,
}

/// One human-readable status line.
#[derive(Debug, Clone)]
pub struct LogLine {
    pub level: LogLevel,
    pub text: Vec<u8>,
}

/// The collected status lines of a run, with a switch that stands in for
/// attaching or detaching a consumer.
#[derive(Debug)]
pub struct Log {
    pub hooked: bool,
    pub lines: Vec<LogLine>,
}

impl Log {
    /// A fresh, attached log.
    pub fn new() -> (r: Log)
        ensures
            r.hooked == true,
            r.lines@.len() == 0,
    {
        Log { hooked: true, lines: Vec::new() }
    }

    /// Attach or detach the consumer. Already-collected lines stay.
    pub fn set_log_hook(&mut self, enabled: bool)
        ensures
            final(self).hooked == enabled,
            final(self).lines == old(self).lines,
    {
        self.hooked = enabled;
    }

    fn push_line(&mut self, level: LogLevel, text: Vec<u8>)
        ensures
            final(self).hooked == old(self).hooked,
            old(self).hooked ==> final(self).lines@ == old(self).lines@.push(
                LogLine { level, text },
            ),
            !old(self).hooked ==> final(self).lines == old(self).lines,
    {
        if self.hooked {
            self.lines.push(LogLine { level, text });
        }
    }

    /// An informational status line.
    pub fn logi(&mut self, text: Vec<u8>)
        ensures
            final(self).hooked == old(self).hooked,
            old(self).hooked ==> final(self).lines@ == old(self).lines@.push(
                LogLine { level: LogLevel::Info, text },
            ),
            !old(self).hooked ==> final(self).lines == old(self).lines,
    {
        self.push_line(LogLevel::Info, text);
    }

    /// A success status line.
    pub fn logok(&mut self, text: Vec<u8>)
        ensures
            final(self).hooked == old(self).hooked,
            old(self).hooked ==> final(self).lines@ == old(self).lines@.push(
                LogLine { level: LogLevel::Success, text },
            ),
            !old(self).hooked ==> final(self).lines == old(self).lines,
    {
        self.push_line(LogLevel::Success, text);
    }

    /// A warning status line.
    pub fn logw(&mut self, text: Vec<u8>)
        ensures
            final(self).hooked == old(self).hooked,
            old(self).hooked ==> final(self).lines@ == old(self).lines@.push(
                LogLine { level: LogLevel::Warning, text },
            ),
            !old(self).hooked ==> final(self).lines == old(self).lines,
    {
        self.push_line(LogLevel::Warning, text);
    }
}

/// Attach or detach a log's consumer; the free-function form of
/// `Log::set_log_hook`.
pub fn set_log_hook(log: &mut Log, enabled: bool)
    ensures
        final(log).hooked == enabled,
        final(log).lines == old(log).lines,
{
    log.set_log_hook(enabled);
}

} // verus!
