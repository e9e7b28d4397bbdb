//! Log entries: severity, timestamp and the bounded text fields.
use vstd::prelude::*;
use vstd::string::*;

verus! {

/// Maximum number of characters kept of a hostname.
pub const LOG_ENTRY_MAX_HOSTNAME_LENGTH: usize = 64;

/// Maximum number of characters kept of a module path.
pub const LOG_ENTRY_MAX_MODULE_LENGTH: usize = 64;

/// Maximum number of characters kept of a source file name.
pub const LOG_ENTRY_MAX_FILENAME_LENGTH: usize = 256;

/// Maximum number of characters kept of a message.
pub const LOG_ENTRY_MAX_MESSAGE_LENGTH: usize = 4096;

/// Severity of a log entry, from the most to the least severe.
#[derive(Clone, Copy, Debug, PartialEq, Eq, Structural)]
pub enum Level {
    Error,
    Warn,
    Info,
    Debug,
    Trace,
}

impl Level {
    /// Numeric level as stored: 1 for `Error` up to 5 for `Trace`.
    pub open spec fn rank(self) -> nat {
        match self {
            Level::Error => 1,
            Level::Warn => 2,
            Level::Info => 3,
            Level::Debug => 4,
            Level::Trace => 5,
        }
    }

    /// Returns the numeric level of `self`.
    pub fn as_u8(&self) -> (r: u8)
        ensures
            r as nat == self.rank(),
    {
        match self {
            Level::Error => 1,
            Level::Warn => 2,
            Level::Info => 3,
            Level::Debug => 4,
            Level::Trace => 5,
        }
    }
}

/// A point in time, as nanoseconds since the Unix epoch (UTC).
#[derive(Clone, Copy, Debug, PartialEq, Eq, Structural)]
pub struct Timestamp {
    pub unix_nanos: i128,
}

/// One log event.
#[derive(Clone, Debug)]
pub struct LogEntry {
    pub timestamp: Timestamp,
    pub hostname: String,
    pub level: Level,
    pub module: Option<String>,
    pub filename: Option<String>,
    pub line: Option<u32>,
    pub message: String,
}

/// The first `n` characters of `s`, or `s` itself when it is not longer.
pub open spec fn truncated(s: Seq<char>, n: nat) -> Seq<char> {
    if s.len() <= n {
        s
    } else {
        s.subrange(0, n as int)
    }
}

/// `truncated` lifted to optional strings.
pub open spec fn truncated_option(s: Option<String>, n: nat) -> Option<Seq<char>> {
    match s {
        Some(v) => Some(truncated(v@, n)),
        None => None,
    }
}

/// View of an optional string.
pub open spec fn option_view(s: Option<String>) -> Option<Seq<char>> {
    match s {
        Some(v) => Some(v@),
        None => None,
    }
}

impl LogEntry {
    /// True when every bounded field is within its maximum length.
    pub open spec fn within_limits(&self) -> bool {
        &&& self.hostname@.len() <= LOG_ENTRY_MAX_HOSTNAME_LENGTH
        &&& self.message@.len() <= LOG_ENTRY_MAX_MESSAGE_LENGTH
        &&& (self.module matches Some(m) ==> m@.len() <= LOG_ENTRY_MAX_MODULE_LENGTH)
        &&& (self.filename matches Some(f) ==> f@.len() <= LOG_ENTRY_MAX_FILENAME_LENGTH)
    }

    /// `t` is `self` with every bounded field truncated to its maximum length.
    pub open spec fn is_truncation_of(t: LogEntry, self_: LogEntry) -> bool {
        &&& t.timestamp == self_.timestamp
        &&& t.level == self_.level
        &&& t.line == self_.line
        &&& t.hostname@ == truncated(self_.hostname@, LOG_ENTRY_MAX_HOSTNAME_LENGTH as nat)
        &&& t.message@ == truncated(self_.message@, LOG_ENTRY_MAX_MESSAGE_LENGTH as nat)
        &&& option_view(t.module) == truncated_option(
            self_.module,
            LOG_ENTRY_MAX_MODULE_LENGTH as nat,
        )
        &&& option_view(t.filename) == truncated_option(
            self_.filename,
            LOG_ENTRY_MAX_FILENAME_LENGTH as nat,
        )
    }

    /// Returns `self` with every bounded field cut to its maximum length.
    pub fn truncate_fields(self) -> (r: LogEntry)
        ensures
            LogEntry::is_truncation_of(r, self),
            r.within_limits(),
    {
        LogEntry {
            timestamp: self.timestamp,
            hostname: truncate_str(self.hostname.as_str(), LOG_ENTRY_MAX_HOSTNAME_LENGTH),
            level: self.level,
            module: truncate_option_str(self.module, LOG_ENTRY_MAX_MODULE_LENGTH),
            filename: truncate_option_str(self.filename, LOG_ENTRY_MAX_FILENAME_LENGTH),
            line: self.line,
            message: truncate_str(self.message.as_str(), LOG_ENTRY_MAX_MESSAGE_LENGTH),
        }
    }
}

/// Returns the first `max` characters of `s`.
pub fn truncate_str(s: &str, max: usize) -> (r: String)
    ensures
        r@ == truncated(s@, max as nat),
{
    let len = s.unicode_len();
    if len <= max {
        s.to_owned()
    } else {
        s.substring_char(0, max).to_owned()
    }
}

/// Returns the first `max` characters of `s`, if there is a string.
pub fn truncate_option_str(s: Option<String>, max: usize) -> (r: Option<String>)
    ensures
        option_view(r) == truncated_option(s, max as nat),
{
    match s {
        Some(v) => Some(truncate_str(v.as_str(), max)),
        None => None,
    }
}

/// Truncation keeps exactly the first `n` characters of a longer string, and
/// truncating an already truncated string changes nothing.
pub proof fn lemma_truncation_idempotent(s: Seq<char>, n: nat)
    ensures
        s.len() > n ==> truncated(s, n) == s.subrange(0, n as int),
        s.len() > n ==> truncated(s, n).len() == n,
        s.len() <= n ==> truncated(s, n) == s,
        truncated(truncated(s, n), n) == truncated(s, n),
{
}

/// Truncating the fields of an entry twice stores the same values as
/// truncating them once.
pub proof fn lemma_entry_truncation_idempotent(e: LogEntry, t: LogEntry, u: LogEntry)
    requires
        LogEntry::is_truncation_of(t, e),
        LogEntry::is_truncation_of(u, t),
    ensures
        u.timestamp == t.timestamp,
        u.level == t.level,
        u.line == t.line,
        u.hostname@ == t.hostname@,
        u.message@ == t.message@,
        option_view(u.module) == option_view(t.module),
        option_view(u.filename) == option_view(t.filename),
{
    lemma_truncation_idempotent(e.hostname@, LOG_ENTRY_MAX_HOSTNAME_LENGTH as nat);
    lemma_truncation_idempotent(e.message@, LOG_ENTRY_MAX_MESSAGE_LENGTH as nat);
    match e.module {
        Some(m) => lemma_truncation_idempotent(m@, LOG_ENTRY_MAX_MODULE_LENGTH as nat),
        None => {},
    }
    match e.filename {
        Some(f) => lemma_truncation_idempotent(f@, LOG_ENTRY_MAX_FILENAME_LENGTH as nat),
        None => {},
    }
}

} // verus!
