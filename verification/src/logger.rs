//! A logging front end with the same bind-then-use lifecycle as the
//! allocator.
//!
//! The host exposes a log protocol that accepts already-formatted text at a
//! debug level. Until that protocol has been located and bound, every message
//! is discarded; afterwards each message is forwarded unchanged. [`LogSink`]
//! models the protocol as the sequence of writes it has received; locating
//! the protocol in the host is left to the surrounding program, which hands
//! the outcome to [`AdvancedLogger::init`].

use vstd::prelude::*;

verus! {

/// Standard debug level: initialization messages.
pub const DEBUG_INIT: usize = 0x00000001;

/// Standard debug level: warnings.
pub const DEBUG_WARN: usize = 0x00000002;

/// Standard debug level: informational messages.
pub const DEBUG_INFO: usize = 0x00000040;

/// Standard debug level: verbose output.
pub const DEBUG_VERBOSE: usize = 0x00400000;

/// Standard debug level: errors.
pub const DEBUG_ERROR: usize = 0x80000000;

/// Failure of a log write: no sink has been bound.
#[derive(Clone, Copy, PartialEq, Eq, Structural, Debug)]
pub enum LogError {
    Unavailable,
}

/// One write the host log protocol received: the level it was written at and
/// the text handed over.
pub struct LogEntry {
    pub level: usize,
    pub message: String,
}

/// Model of the host's log protocol: the writes it has received, in order.
pub struct LogSink {
    pub written: Vec<LogEntry>,
}

impl LogSink {
    /// A sink that has received nothing yet.
    pub fn new() -> (r: Self)
        ensures
            r.written@ == Seq::<LogEntry>::empty(),
    {
        let r = LogSink { written: Vec::new() };
        proof {
            assert(r.written@ =~= Seq::<LogEntry>::empty());
        }
        r
    }

    /// How many writes the sink has received.
    pub fn entry_count(&self) -> (r: usize)
        ensures
            r == self.written@.len(),
    {
        self.written.len()
    }
}

/// What one logging call does: the most recent level is remembered, and the
/// message is appended to the sink when one is bound, discarded when not.
pub open spec fn log_post(
    pre: AdvancedLogger,
    post: AdvancedLogger,
    level: usize,
    message: String,
) -> bool {
    &&& post.level == level
    &&& match pre.protocol {
        Option::None => post.protocol is None,
        Option::Some(s) => post.protocol is Some && post.protocol.unwrap().written@ == s.written@
            .push(LogEntry { level, message }),
    }
}

/// The logger: a possibly-bound sink and the level of the most recent write.
pub struct AdvancedLogger {
    pub protocol: Option<LogSink>,
    pub level: usize,
}

impl AdvancedLogger {
    /// A fresh logger: no protocol bound, level starts at [`DEBUG_INFO`].
    pub fn new() -> (r: Self)
        ensures
            r.protocol is None,
            r.level == DEBUG_INFO,
    {
        AdvancedLogger { protocol: None, level: DEBUG_INFO }
    }

    /// Bind the outcome of locating the host's log protocol: `Some` when the
    /// lookup succeeded, `None` when it failed. May be called again to
    /// re-bind.
    pub fn init(&mut self, protocol: Option<LogSink>)
        ensures
            final(self).protocol == protocol,
            final(self).level == old(self).level,
    {
        self.protocol = protocol;
    }

    /// Hand one string to the bound sink at the current level; reports
    /// [`LogError::Unavailable`] when no sink is bound.
    pub fn write_str(&mut self, s: String) -> (r: Result<(), LogError>)
        ensures
            r is Ok <==> old(self).protocol is Some,
            log_post(*old(self), *final(self), old(self).level, s),
    {
        match &mut self.protocol {
            None => Err(LogError::Unavailable),
            Some(sink) => {
                sink.written.push(LogEntry { level: self.level, message: s });
                Ok(())
            },
        }
    }

    /// Log one already-formatted message at `level`: the level is remembered
    /// and the message is forwarded to the sink, or discarded when none has
    /// been bound yet.
    pub fn log(&mut self, level: usize, message: String)
        ensures
            log_post(*old(self), *final(self), level, message),
    {
        self.level = level;
        let _ = self.write_str(message);
    }
}

/// Forward one already-formatted message to the given logger at the given
/// level; the front end every logging macro of the surrounding program
/// expands to.
pub fn _log(logger: &mut AdvancedLogger, level: usize, message: String)
    ensures
        log_post(*old(logger), *final(logger), level, message),
{
    logger.log(level, message);
}

} // verus!
