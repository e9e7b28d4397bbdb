//! Recognition of records emitted by the storage layer itself, which must not
//! be fed back into the logger.
use crate::entry::Level;
use vstd::prelude::*;
use vstd::string::*;

verus! {

/// `p` is a prefix of `s`.
pub open spec fn has_prefix(s: Seq<char>, p: Seq<char>) -> bool {
    p.len() <= s.len() && s.subrange(0, p.len() as int) == p
}

/// A record from module `module` at `level` may come from the storage path:
/// it has no module, or it comes from the SQL client or the TLS layer, or it
/// is a trace record of the async runtime's I/O machinery.
pub open spec fn is_self_generated(module: Option<Seq<char>>, level: Level) -> bool {
    match module {
        None => true,
        Some(m) => {
            ||| has_prefix(m, "rustls::"@)
            ||| has_prefix(m, "sqlx::"@)
            ||| (level == Level::Trace && (has_prefix(m, "async_io::"@) || has_prefix(
                m,
                "async_std::"@,
            ) || has_prefix(m, "polling"@)))
        },
    }
}

/// What the logger does with one record.
#[derive(Clone, Copy, Debug, PartialEq, Eq, Structural)]
pub enum Disposition {
    /// The record becomes an entry and is sent to the recorder.
    Persist,
    /// The record is written as one line to the error stream only.
    Fallback,
    /// The record is dropped.
    Ignore,
}

/// The disposition of a record from `module` at `level`.
pub open spec fn disposition_of(module: Option<Seq<char>>, level: Level) -> Disposition {
    if !is_self_generated(module, level) {
        Disposition::Persist
    } else if level.rank() <= Level::Warn.rank() {
        Disposition::Fallback
    } else {
        Disposition::Ignore
    }
}

/// View of an optional string slice.
pub open spec fn option_str_view(s: Option<&str>) -> Option<Seq<char>> {
    match s {
        Some(v) => Some(v@),
        None => None,
    }
}

/// Returns whether `p` is a prefix of `s`.
pub fn starts_with(s: &str, p: &str) -> (r: bool)
    ensures
        r == has_prefix(s@, p@),
{
    let slen = s.unicode_len();
    let plen = p.unicode_len();
    if plen > slen {
        return false;
    }
    let mut i: usize = 0;
    while i < plen
        invariant
            plen == p@.len(),
            slen == s@.len(),
            plen <= slen,
            i <= plen,
            forall|j: int| 0 <= j < i ==> s@[j] == p@[j],
        decreases plen - i,
    {
        if s.get_char(i) != p.get_char(i) {
            assert(s@.subrange(0, plen as int)[i as int] != p@[i as int]);
            return false;
        }
        i = i + 1;
    }
    assert(s@.subrange(0, plen as int) =~= p@);
    true
}

/// Returns true if a record from `module` at `level` may have been emitted by
/// the code that persists entries, which would recurse if it were logged.
pub fn is_recorder_log(module: Option<&str>, level: Level) -> (r: bool)
    ensures
        r == is_self_generated(option_str_view(module), level),
{
    let m = match module {
        Some(m) => m,
        None => return true,
    };
    (starts_with(m, "rustls::") || starts_with(m, "sqlx::")) || (level == Level::Trace && (
    starts_with(m, "async_io::") || starts_with(m, "async_std::") || starts_with(m, "polling")))
}

/// Decides what the logger does with a record from `module` at `level`.
pub fn disposition(module: Option<&str>, level: Level) -> (r: Disposition)
    ensures
        r == disposition_of(option_str_view(module), level),
{
    if !is_recorder_log(module, level) {
        Disposition::Persist
    } else if level.as_u8() <= 2 {
        Disposition::Fallback
    } else {
        Disposition::Ignore
    }
}

/// A self-generated record is never persisted, whatever its level; at `Warn`
/// or above it gives exactly one fallback line, below that nothing.
pub proof fn lemma_self_generated_never_persisted(module: Option<Seq<char>>, level: Level)
    requires
        is_self_generated(module, level),
    ensures
        disposition_of(module, level) != Disposition::Persist,
        level.rank() <= Level::Warn.rank() <==> disposition_of(module, level)
            == Disposition::Fallback,
{
}

} // verus!
