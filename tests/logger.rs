use db_logger::adapter::make_entry;
use db_logger::config::{hostname_or_placeholder, level_from_setting};
use db_logger::entry::{
    truncate_option_str, truncate_str, Level, LogEntry, Timestamp, LOG_ENTRY_MAX_MESSAGE_LENGTH,
};
use db_logger::filter::{disposition, is_recorder_log, starts_with, Disposition};
use db_logger::recorder::{Action, Effects, Event, Recorder, MAX_BATCH_SIZE};
use db_logger::storage::{
    check_rows_affected, decimal_string, format_stored_entry, insert_query, prepare_rows,
    signed_decimal_string, ConnectionOptions, Row,
};
use db_logger::timestamp::unpack_timestamp;

const NANOS: i128 = 1_000_000_000;

fn entry_at(secs: i128, level: Level, message: &str) -> LogEntry {
    make_entry(
        Timestamp { unix_nanos: secs * NANOS },
        "fake-hostname",
        level,
        Some("the-module"),
        Some("the-file"),
        Some(123),
        message,
    )
}

fn record(e: LogEntry) -> Event {
    Event::Received(Action::Record(e))
}

fn row_text(r: &Row) -> String {
    format_stored_entry(
        r.timestamp_secs,
        r.timestamp_nsecs,
        &r.hostname,
        r.level as i64,
        r.module.as_deref(),
        r.filename.as_deref(),
        r.line.map(|l| l as i64),
        &r.message,
    )
}

fn quiet(fx: &Effects) -> bool {
    fx.write.is_none() && !fx.await_writers && !fx.ack && !fx.stop
}

#[test]
fn test_all_log_levels() {
    let mut rec = Recorder::new();
    let levels = [
        (Level::Error, "An error message"),
        (Level::Warn, "A warning message"),
        (Level::Info, "An info message"),
        (Level::Debug, "A debug message"),
        (Level::Trace, "A trace message"),
    ];
    for (i, (level, message)) in levels.iter().enumerate() {
        let fx = rec.step(record(entry_at(1000 + i as i128, *level, message)));
        assert!(quiet(&fx));
    }
    let fx = rec.step(Event::Received(Action::Flush));
    assert!(fx.await_writers && fx.ack && !fx.stop);
    let batch = fx.write.expect("the flush writes the buffered entries");
    let rows = prepare_rows(batch, 0).unwrap();
    let seqs: Vec<i64> = rows.iter().map(|r| r.sequence).collect();
    assert_eq!(vec![0, 1, 2, 3, 4], seqs);
    let entries: Vec<String> = rows.iter().map(row_text).collect();
    assert_eq!(
        vec![
            "1000.0 fake-hostname 1 the-module the-file:123 An error message".to_owned(),
            "1001.0 fake-hostname 2 the-module the-file:123 A warning message".to_owned(),
            "1002.0 fake-hostname 3 the-module the-file:123 An info message".to_owned(),
            "1003.0 fake-hostname 4 the-module the-file:123 A debug message".to_owned(),
            "1004.0 fake-hostname 5 the-module the-file:123 A trace message".to_owned(),
        ],
        entries
    );
}

#[test]
fn full_batch_is_written_without_flush() {
    let mut rec = Recorder::new();
    let mut writes = vec![];
    for i in 0..MAX_BATCH_SIZE {
        let fx = rec.step(record(entry_at(i as i128, Level::Info, &format!("m{}", i))));
        assert!(!fx.ack && !fx.await_writers && !fx.stop);
        if let Some(b) = fx.write {
            writes.push(b);
        }
    }
    assert_eq!(1, writes.len());
    assert_eq!(MAX_BATCH_SIZE, writes[0].len());
    assert_eq!("m0", writes[0][0].message);
    assert_eq!("m127", writes[0][127].message);
    assert_eq!(0, rec.buffered());
}

#[test]
fn timeout_flushes_without_ack() {
    let mut rec = Recorder::new();
    for i in 0..3 {
        rec.step(record(entry_at(i, Level::Warn, "x")));
    }
    let fx = rec.step(Event::Timeout);
    assert_eq!(3, fx.write.as_ref().unwrap().len());
    assert!(fx.await_writers && !fx.ack && !fx.stop);
    let fx = rec.step(Event::Timeout);
    assert!(fx.write.is_none() && fx.await_writers && !fx.ack);
}

#[test]
fn flush_then_stop_drains_everything() {
    let mut rec = Recorder::new();
    for i in 0..4 {
        rec.step(record(entry_at(i, Level::Debug, "y")));
    }
    let fx = rec.step(Event::Received(Action::Flush));
    assert_eq!(4, fx.write.as_ref().unwrap().len());
    assert!(fx.await_writers && fx.ack && !fx.stop);
    let fx = rec.step(Event::Received(Action::Stop));
    assert!(fx.write.is_none() && fx.await_writers && fx.ack && fx.stop);
    assert!(rec.is_terminated());
    let fx = rec.step(Event::Received(Action::Flush));
    assert!(fx.write.is_none() && !fx.ack && fx.stop);
}

#[test]
fn stop_writes_what_is_buffered() {
    let mut rec = Recorder::new();
    rec.step(record(entry_at(1, Level::Error, "z")));
    let fx = rec.step(Event::Received(Action::Stop));
    assert_eq!(1, fx.write.as_ref().unwrap().len());
    assert!(fx.ack && fx.stop);
}

#[test]
fn disconnect_ends_without_draining() {
    let mut rec = Recorder::new();
    rec.step(record(entry_at(1, Level::Error, "z")));
    let fx = rec.step(Event::Disconnected);
    assert!(fx.write.is_none() && !fx.await_writers && fx.stop);
    assert!(rec.is_terminated());
}

#[test]
fn recorder_filter_matches_storage_modules() {
    assert!(is_recorder_log(None, Level::Error));
    assert!(is_recorder_log(Some("sqlx::query"), Level::Info));
    assert!(is_recorder_log(Some("rustls::conn"), Level::Error));
    assert!(is_recorder_log(Some("async_io::reactor"), Level::Trace));
    assert!(is_recorder_log(Some("polling"), Level::Trace));
    assert!(!is_recorder_log(Some("async_io::reactor"), Level::Debug));
    assert!(!is_recorder_log(Some("sqlx"), Level::Info));
    assert!(!is_recorder_log(Some("my_app::db"), Level::Trace));
    assert!(starts_with("abc", ""));
    assert!(!starts_with("ab", "abc"));
}

#[test]
fn self_generated_records_are_never_persisted() {
    assert_eq!(Disposition::Fallback, disposition(Some("sqlx::pool"), Level::Error));
    assert_eq!(Disposition::Fallback, disposition(Some("sqlx::pool"), Level::Warn));
    assert_eq!(Disposition::Ignore, disposition(Some("sqlx::pool"), Level::Info));
    assert_eq!(Disposition::Ignore, disposition(None, Level::Trace));
    assert_eq!(Disposition::Persist, disposition(Some("my_app"), Level::Trace));
}

#[test]
fn level_setting_parses_names() {
    assert_eq!((Level::Warn, false), level_from_setting(None));
    assert_eq!((Level::Debug, false), level_from_setting(Some("debug")));
    assert_eq!((Level::Trace, false), level_from_setting(Some("TrAcE")));
    assert_eq!((Level::Error, false), level_from_setting(Some("ERROR")));
    assert_eq!((Level::Warn, true), level_from_setting(Some("off")));
    assert_eq!((Level::Warn, true), level_from_setting(Some("verbose")));
}

#[test]
fn hostname_placeholder() {
    assert_eq!("box", hostname_or_placeholder(Some("box".to_owned())));
    assert_eq!("invalid-hostname", hostname_or_placeholder(None));
}

#[test]
fn long_message_is_truncated_idempotently() {
    let long = "é".repeat(LOG_ENTRY_MAX_MESSAGE_LENGTH + 10);
    let e = make_entry(Timestamp { unix_nanos: 0 }, "h", Level::Info, None, None, None, &long);
    assert_eq!(LOG_ENTRY_MAX_MESSAGE_LENGTH, e.message.chars().count());
    assert_eq!("é".repeat(LOG_ENTRY_MAX_MESSAGE_LENGTH), e.message);
    assert_eq!(e.message, truncate_str(&e.message, LOG_ENTRY_MAX_MESSAGE_LENGTH));
    assert_eq!(Some(""), e.module.as_deref());
    assert_eq!(Some(""), e.filename.as_deref());
    let again = e.clone().truncate_fields();
    assert_eq!(e.message, again.message);
    assert_eq!("abc", truncate_str("abcdef", 3));
    assert_eq!(Some("ab".to_owned()), truncate_option_str(Some("abc".to_owned()), 2));
    assert_eq!(None, truncate_option_str(None, 2));
}

#[test]
fn long_fields_are_truncated_in_rows() {
    let e = make_entry(
        Timestamp { unix_nanos: 0 },
        &"h".repeat(100),
        Level::Info,
        Some(&"m".repeat(100)),
        Some(&"f".repeat(300)),
        None,
        "msg",
    );
    let rows = prepare_rows(vec![e], 7).unwrap();
    assert_eq!(64, rows[0].hostname.len());
    assert_eq!(64, rows[0].module.as_ref().unwrap().len());
    assert_eq!(256, rows[0].filename.as_ref().unwrap().len());
    assert_eq!(7, rows[0].sequence);
}

#[test]
fn timestamps_round_up_to_micros() {
    assert_eq!(Ok((1000, 0)), unpack_timestamp(Timestamp { unix_nanos: 1000 * NANOS }));
    assert_eq!(Ok((1, 500_001_000)), unpack_timestamp(Timestamp { unix_nanos: 1_500_000_001 }));
    assert_eq!(Ok((2, 0)), unpack_timestamp(Timestamp { unix_nanos: 1_999_999_999 }));
    assert_eq!(Ok((0, -1000)), unpack_timestamp(Timestamp { unix_nanos: -1500 }));
    assert_eq!(Ok((-1, -1000)), unpack_timestamp(Timestamp { unix_nanos: -1_000_001_999 }));
    assert_eq!(
        Err("timestamp too large".to_owned()),
        unpack_timestamp(Timestamp { unix_nanos: i128::MAX })
    );
    assert!(unpack_timestamp(Timestamp { unix_nanos: i128::MIN }).is_err());
}

#[test]
fn rows_are_numbered_in_order() {
    let batch = vec![
        entry_at(5, Level::Info, "a"),
        entry_at(5, Level::Info, "b"),
        entry_at(4, Level::Info, "c"),
    ];
    let rows = prepare_rows(batch, 10).unwrap();
    let seqs: Vec<i64> = rows.iter().map(|r| r.sequence).collect();
    assert_eq!(vec![10, 11, 12], seqs);
    assert_eq!("c", rows[2].message);
    assert_eq!(3, rows[0].level);
}

#[test]
fn sequence_out_of_range_is_rejected() {
    let batch = vec![entry_at(1, Level::Info, "a"), entry_at(2, Level::Info, "b")];
    assert_eq!(
        "sequence out of range",
        prepare_rows(batch, i64::MAX as u64).unwrap_err()
    );
    let batch = vec![entry_at(1, Level::Info, "a")];
    assert_eq!(1, prepare_rows(batch, i64::MAX as u64).unwrap().len());
}

#[test]
fn insert_statement_text() {
    let prefix = "INSERT INTO logs (timestamp_secs, timestamp_nsecs, sequence, hostname, level, module, filename, line, message) VALUES ";
    assert_eq!(format!("{}(?, ?, ?, ?, ?, ?, ?, ?, ?)", prefix), insert_query(1));
    assert_eq!(
        format!("{}(?, ?, ?, ?, ?, ?, ?, ?, ?), (?, ?, ?, ?, ?, ?, ?, ?, ?)", prefix),
        insert_query(2)
    );
}

#[test]
fn row_count_check() {
    assert!(check_rows_affected(3, 3).is_ok());
    assert!(check_rows_affected(2, 3).is_err());
}

#[test]
fn stored_entry_text() {
    assert_eq!(
        "-5.-1000 h 2 NO-MODULE NO-FILENAME:-1 hello",
        format_stored_entry(-5, -1000, "h", 2, None, None, None, "hello")
    );
    assert_eq!("0", decimal_string(0));
    assert_eq!("18446744073709551615", decimal_string(u64::MAX));
    assert_eq!("-9223372036854775808", signed_decimal_string(i64::MIN));
}

#[test]
fn default_connection_options() {
    assert_eq!("", ConnectionOptions::default().uri);
}
