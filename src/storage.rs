//! The storage side of the logger: how a batch of entries becomes the rows of
//! one insert statement, and how a stored row reads back as text.
use crate::entry::{option_view, truncated, truncated_option, LogEntry};
use crate::entry::{
    LOG_ENTRY_MAX_FILENAME_LENGTH, LOG_ENTRY_MAX_HOSTNAME_LENGTH, LOG_ENTRY_MAX_MESSAGE_LENGTH,
    LOG_ENTRY_MAX_MODULE_LENGTH,
};
use crate::timestamp::{fits_i64, rounded_to_micros, split_seconds, unpack_timestamp};
use vstd::prelude::*;
use vstd::string::*;

verus! {

/// Options to establish a connection to an SQLite database.
pub struct ConnectionOptions {
    /// URI of the database to connect to.
    pub uri: String,
}

impl Default for ConnectionOptions {
    fn default() -> (r: ConnectionOptions)
        ensures
            r.uri@ == Seq::<char>::empty(),
    {
        ConnectionOptions { uri: String::new() }
    }
}

/// The values of one stored row, in the order of the insert statement.
#[derive(Debug)]
pub struct Row {
    pub timestamp_secs: i64,
    pub timestamp_nsecs: i64,
    pub sequence: i64,
    pub hostname: String,
    pub level: u8,
    pub module: Option<String>,
    pub filename: Option<String>,
    pub line: Option<u32>,
    pub message: String,
}

/// `e` can be stored with sequence number `seq`: its seconds and the sequence
/// number fit the schema's integers.
pub open spec fn storable(e: LogEntry, seq: int) -> bool {
    &&& fits_i64(split_seconds(rounded_to_micros(e.timestamp.unix_nanos as int)).0)
    &&& seq <= i64::MAX
}

/// `row` stores `e` under sequence number `seq`, with its bounded fields
/// truncated.
pub open spec fn row_of(row: Row, e: LogEntry, seq: int) -> bool {
    &&& (row.timestamp_secs as int, row.timestamp_nsecs as int) == split_seconds(
        rounded_to_micros(e.timestamp.unix_nanos as int),
    )
    &&& row.sequence == seq
    &&& row.hostname@ == truncated(e.hostname@, LOG_ENTRY_MAX_HOSTNAME_LENGTH as nat)
    &&& row.level as nat == e.level.rank()
    &&& option_view(row.module) == truncated_option(e.module, LOG_ENTRY_MAX_MODULE_LENGTH as nat)
    &&& option_view(row.filename) == truncated_option(
        e.filename,
        LOG_ENTRY_MAX_FILENAME_LENGTH as nat,
    )
    &&& row.line == e.line
    &&& row.message@ == truncated(e.message@, LOG_ENTRY_MAX_MESSAGE_LENGTH as nat)
}

/// Turns a batch into rows numbered `first_sequence`, `first_sequence + 1`, ...
/// in batch order.  Fails when an entry's seconds or its sequence number do
/// not fit the schema.
pub fn prepare_rows(entries: Vec<LogEntry>, first_sequence: u64) -> (r: Result<Vec<Row>, String>)
    ensures
        r is Ok <==> forall|i: int|
            0 <= i < entries@.len() ==> storable(#[trigger] entries@[i], first_sequence + i),
        r matches Ok(rows) ==> rows@.len() == entries@.len() && forall|i: int|
            0 <= i < rows@.len() ==> row_of(#[trigger] rows@[i], entries@[i], first_sequence + i),
{
    let ghost orig = entries@;
    let mut rest = entries;
    let mut rows: Vec<Row> = Vec::new();
    let n = rest.len();
    let mut i: usize = 0;
    while i < n
        invariant
            orig == entries@,
            n == orig.len(),
            i <= n,
            rest@ == orig.subrange(i as int, n as int),
            rows@.len() == i,
            forall|j: int| 0 <= j < i ==> row_of(#[trigger] rows@[j], orig[j], first_sequence + j),
            forall|j: int| 0 <= j < i ==> storable(#[trigger] orig[j], first_sequence + j),
        decreases n - i,
    {
        let e = rest.remove(0);
        assert(e == orig[i as int]);
        let unpacked = unpack_timestamp(e.timestamp);
        let seq_opt = first_sequence.checked_add(i as u64);
        if unpacked.is_err() || seq_opt.is_none() || seq_opt.unwrap() > i64::MAX as u64 {
            assert(!storable(orig[i as int], first_sequence + i));
            assert(!(forall|j: int|
                0 <= j < orig.len() ==> storable(#[trigger] orig[j], first_sequence + j)));
            return match unpacked {
                Err(msg) => Err(msg),
                Ok(_) => Err("sequence out of range".to_owned()),
            };
        }
        let (secs, nsecs) = unpacked.unwrap();
        let seq = seq_opt.unwrap();
        let t = e.truncate_fields();
        let level = t.level.as_u8();
        rows.push(
            Row {
                timestamp_secs: secs,
                timestamp_nsecs: nsecs,
                sequence: seq as i64,
                hostname: t.hostname,
                level,
                module: t.module,
                filename: t.filename,
                line: t.line,
                message: t.message,
            },
        );
        assert(rest@ =~= orig.subrange(i + 1, n as int));
        i = i + 1;
    }
    Ok(rows)
}

/// `rows` store `batch` in order, numbered from `first`.
pub open spec fn rows_of(rows: Seq<Row>, batch: Seq<LogEntry>, first: int) -> bool {
    rows.len() == batch.len() && forall|i: int|
        0 <= i < rows.len() ==> row_of(#[trigger] rows[i], batch[i], first + i)
}

/// Two batches, the second numbered right after the first: together they
/// store both batches in order, their sequence numbers run from `first`
/// without gaps or repeats, and they strictly increase.
pub proof fn lemma_batches_numbered_without_gaps(
    r1: Seq<Row>,
    b1: Seq<LogEntry>,
    r2: Seq<Row>,
    b2: Seq<LogEntry>,
    first: int,
)
    requires
        rows_of(r1, b1, first),
        rows_of(r2, b2, first + b1.len()),
    ensures
        rows_of(r1 + r2, b1 + b2, first),
        forall|i: int, j: int|
            0 <= i < j < (r1 + r2).len() ==> (r1 + r2)[i].sequence < (r1 + r2)[j].sequence,
{
    let rs = r1 + r2;
    let bs = b1 + b2;
    assert forall|i: int| 0 <= i < rs.len() implies row_of(#[trigger] rs[i], bs[i], first + i) by {
        if i >= r1.len() {
            assert(rs[i] == r2[i - r1.len()]);
            assert(bs[i] == b2[i - b1.len()]);
        }
    }
    assert forall|i: int, j: int| 0 <= i < j < rs.len() implies rs[i].sequence < rs[j].sequence by {
        assert(row_of(rs[i], bs[i], first + i));
        assert(row_of(rs[j], bs[j], first + j));
    }
}

/// Start of the statement that inserts log rows.
pub open spec fn insert_prefix() -> Seq<char> {
    "INSERT INTO logs (timestamp_secs, timestamp_nsecs, sequence, hostname, level, module, filename, line, message) VALUES "@
}

/// Placeholders for the values of one row.
pub open spec fn row_placeholders() -> Seq<char> {
    "(?, ?, ?, ?, ?, ?, ?, ?, ?)"@
}

/// `s` repeated `k` times.
pub open spec fn repeated(s: Seq<char>, k: nat) -> Seq<char>
    decreases k,
{
    if k == 0 {
        Seq::empty()
    } else {
        repeated(s, (k - 1) as nat) + s
    }
}

/// The statement that inserts `n` rows at once.
pub open spec fn insert_statement(n: nat) -> Seq<char> {
    insert_prefix() + row_placeholders() + repeated(", "@ + row_placeholders(), (n - 1) as nat)
}

/// Returns the statement that inserts `n` rows, `n` at least one.
pub fn insert_query(n: usize) -> (r: String)
    requires
        n >= 1,
    ensures
        r@ == insert_statement(n as nat),
{
    proof {
        reveal_strlit(
            "INSERT INTO logs (timestamp_secs, timestamp_nsecs, sequence, hostname, level, module, filename, line, message) VALUES ",
        );
        reveal_strlit("(?, ?, ?, ?, ?, ?, ?, ?, ?)");
        reveal_strlit(", (?, ?, ?, ?, ?, ?, ?, ?, ?)");
        reveal_strlit(", ");
    }
    let mut q = String::from_str(
        "INSERT INTO logs (timestamp_secs, timestamp_nsecs, sequence, hostname, level, module, filename, line, message) VALUES ",
    );
    q.append("(?, ?, ?, ?, ?, ?, ?, ?, ?)");
    assert(", (?, ?, ?, ?, ?, ?, ?, ?, ?)"@ =~= ", "@ + row_placeholders());
    assert(q@ =~= insert_prefix() + row_placeholders() + repeated(
        ", "@ + row_placeholders(),
        0,
    ));
    let mut i: usize = 1;
    while i < n
        invariant
            1 <= i <= n,
            q@ == insert_prefix() + row_placeholders() + repeated(
                ", "@ + row_placeholders(),
                (i - 1) as nat,
            ),
        decreases n - i,
    {
        proof {
            reveal_strlit(", (?, ?, ?, ?, ?, ?, ?, ?, ?)");
            reveal_strlit(", ");
            reveal_strlit("(?, ?, ?, ?, ?, ?, ?, ?, ?)");
        }
        q.append(", (?, ?, ?, ?, ?, ?, ?, ?, ?)");
        assert(", (?, ?, ?, ?, ?, ?, ?, ?, ?)"@ =~= ", "@ + row_placeholders());
        assert(repeated(", "@ + row_placeholders(), i as nat) == repeated(
            ", "@ + row_placeholders(),
            (i - 1) as nat,
        ) + (", "@ + row_placeholders()));
        assert(q@ =~= insert_prefix() + row_placeholders() + repeated(
            ", "@ + row_placeholders(),
            i as nat,
        ));
        i = i + 1;
    }
    q
}

/// Checks that the insert created one row per entry.
pub fn check_rows_affected(affected: u64, expected: u64) -> (r: Result<(), String>)
    ensures
        r is Ok <==> affected == expected,
{
    if affected != expected {
        return Err("Log entries insertion created an unexpected number of rows".to_owned());
    }
    Ok(())
}

/// Decimal digits of `n`, most significant first, without leading zeros.
pub open spec fn decimal(n: nat) -> Seq<char>
    decreases n,
{
    if n < 10 {
        "0123456789"@.subrange(n as int, n + 1 as int)
    } else {
        decimal(n / 10) + "0123456789"@.subrange((n % 10) as int, (n % 10 + 1) as int)
    }
}

/// Decimal text of `v`, with a leading minus sign when it is negative.
pub open spec fn signed_decimal(v: int) -> Seq<char> {
    if v < 0 {
        "-"@ + decimal((-v) as nat)
    } else {
        decimal(v as nat)
    }
}

/// Returns the decimal digits of `n`.
pub fn decimal_string(n: u64) -> (r: String)
    ensures
        r@ == decimal(n as nat),
    decreases n,
{
    proof {
        reveal_strlit("0123456789");
    }
    if n < 10 {
        let d = n as usize;
        "0123456789".substring_char(d, d + 1).to_owned()
    } else {
        let mut s = decimal_string(n / 10);
        let d = (n % 10) as usize;
        s.append("0123456789".substring_char(d, d + 1));
        s
    }
}

/// Returns the decimal text of `v`.
pub fn signed_decimal_string(v: i64) -> (r: String)
    ensures
        r@ == signed_decimal(v as int),
{
    proof {
        reveal_strlit("-");
    }
    if v < 0 {
        let m: u64 = ((-(v + 1)) as u64) + 1;
        let s = String::from_str("-");
        s.concat(decimal_string(m).as_str())
    } else {
        decimal_string(v as u64)
    }
}

/// `s`, or `default` when there is none.
pub open spec fn or_default(s: Option<Seq<char>>, default: Seq<char>) -> Seq<char> {
    match s {
        Some(v) => v,
        None => default,
    }
}

/// Text of one stored row: `secs.nsecs hostname level module file:line
/// message`, where a missing module, file or line reads as `NO-MODULE`,
/// `NO-FILENAME` or `-1`.
pub open spec fn stored_text(
    secs: int,
    nsecs: int,
    hostname: Seq<char>,
    level: int,
    module: Option<Seq<char>>,
    filename: Option<Seq<char>>,
    line: Option<int>,
    message: Seq<char>,
) -> Seq<char> {
    signed_decimal(secs) + "."@ + signed_decimal(nsecs) + " "@ + hostname + " "@ + signed_decimal(
        level,
    ) + " "@ + or_default(module, "NO-MODULE"@) + " "@ + or_default(filename, "NO-FILENAME"@)
        + ":"@ + signed_decimal(
        match line {
            Some(l) => l,
            None => -1,
        },
    ) + " "@ + message
}

/// View of an optional string slice.
pub open spec fn opt_str(s: Option<&str>) -> Option<Seq<char>> {
    match s {
        Some(v) => Some(v@),
        None => None,
    }
}

/// Returns the text of one stored row.
pub fn format_stored_entry(
    secs: i64,
    nsecs: i64,
    hostname: &str,
    level: i64,
    module: Option<&str>,
    filename: Option<&str>,
    line: Option<i64>,
    message: &str,
) -> (r: String)
    ensures
        r@ == stored_text(
            secs as int,
            nsecs as int,
            hostname@,
            level as int,
            opt_str(module),
            opt_str(filename),
            match line {
                Some(l) => Some(l as int),
                None => None,
            },
            message@,
        ),
{
    proof {
        reveal_strlit(".");
        reveal_strlit(" ");
        reveal_strlit(":");
        reveal_strlit("NO-MODULE");
        reveal_strlit("NO-FILENAME");
    }
    let mut r = signed_decimal_string(secs);
    r.append(".");
    r.append(signed_decimal_string(nsecs).as_str());
    r.append(" ");
    r.append(hostname);
    r.append(" ");
    r.append(signed_decimal_string(level).as_str());
    r.append(" ");
    match module {
        Some(m) => r.append(m),
        None => r.append("NO-MODULE"),
    }
    r.append(" ");
    match filename {
        Some(f) => r.append(f),
        None => r.append("NO-FILENAME"),
    }
    r.append(":");
    let l: i64 = match line {
        Some(l) => l,
        None => -1,
    };
    r.append(signed_decimal_string(l).as_str());
    r.append(" ");
    r.append(message);
    r
}

} // verus!
