use rivet::job_log::{
    convert_entries, convert_entry, log_reader_login, order_by, query_after_ts, query_all, query_before_ts, query_ts_range, read_statement,
    LogQuery, LogRow, ReadError, ReadRequest,
};
use rivet::query::{BindValue, Statement};

fn request(query: Option<LogQuery>, order_asc: bool) -> ReadRequest {
    ReadRequest {
        run_id: Some(0x1234_5678_9abc_def0_1122_3344_5566_7788),
        task: "main".to_string(),
        stream_type: 1,
        count: 64,
        order_asc,
        query,
    }
}

fn check_common(st: &Statement, ts: &[i64]) {
    assert_eq!(st.binds.len(), 4 + ts.len());
    assert!(matches!(st.binds[0], BindValue::Uuid(0x1234_5678_9abc_def0_1122_3344_5566_7788)));
    assert!(matches!(&st.binds[1], BindValue::Text(t) if t == "main"));
    assert!(matches!(st.binds[2], BindValue::U8(1)));
    for (j, t) in ts.iter().enumerate() {
        assert!(matches!(st.binds[3 + j], BindValue::I64(v) if v == *t));
    }
    assert!(matches!(st.binds[3 + ts.len()], BindValue::U32(64)));
}

#[test]
fn order_keywords() {
    assert_eq!(order_by(true), "ASC");
    assert_eq!(order_by(false), "DESC");
}

#[test]
fn read_all() {
    let st = read_statement(&request(Some(LogQuery::All), true)).unwrap();
    assert_eq!(
        st.sql,
        "SELECT ts, message\nFROM run_logs\nWHERE run_id = ? AND task = ? AND stream_type = ?\nORDER BY ts ASC\nLIMIT ?\n"
    );
    check_common(&st, &[]);
}

#[test]
fn read_before_ts() {
    let st = read_statement(&request(Some(LogQuery::BeforeTs(1_700_000_000_000)), false)).unwrap();
    assert_eq!(
        st.sql,
        "SELECT ts, message\nFROM run_logs\nWHERE run_id = ? AND task = ? AND stream_type = ? AND ts <= fromUnixTimestamp64Milli(?)\nORDER BY ts DESC\nLIMIT ?\n"
    );
    check_common(&st, &[1_700_000_000_000]);
}

#[test]
fn read_after_ts() {
    let st = read_statement(&request(Some(LogQuery::AfterTs(5)), true)).unwrap();
    assert_eq!(
        st.sql,
        "SELECT ts, message\nFROM run_logs\nWHERE run_id = ? AND task = ? AND stream_type = ? AND ts >= fromUnixTimestamp64Milli(?)\nORDER BY ts ASC\nLIMIT ?\n"
    );
    check_common(&st, &[5]);
}

#[test]
fn read_ts_range() {
    let st = read_statement(&request(Some(LogQuery::TsRange { after_ts: 10, before_ts: 20 }), false)).unwrap();
    assert_eq!(
        st.sql,
        "SELECT ts, message\nFROM run_logs\nWHERE run_id = ? AND task = ? AND stream_type = ? AND ts > fromUnixTimestamp64Milli(?) AND ts < fromUnixTimestamp64Milli(?)\nORDER BY ts DESC\nLIMIT ?\n"
    );
    check_common(&st, &[10, 20]);
}

#[test]
fn query_functions_match_read_statement() {
    let req = request(None, true);
    let id = req.run_id.unwrap();
    assert_eq!(query_all(&req, id, "ASC").sql, read_statement(&request(Some(LogQuery::All), true)).unwrap().sql);
    assert_eq!(query_before_ts(&req, id, 3, "ASC").sql, read_statement(&request(Some(LogQuery::BeforeTs(3)), true)).unwrap().sql);
    assert_eq!(query_after_ts(&req, id, 3, "ASC").sql, read_statement(&request(Some(LogQuery::AfterTs(3)), true)).unwrap().sql);
    assert_eq!(
        query_ts_range(&req, id, 1, 2, "ASC").sql,
        read_statement(&request(Some(LogQuery::TsRange { after_ts: 1, before_ts: 2 }), true)).unwrap().sql
    );
}

#[test]
fn stream_type_is_truncated_to_a_byte() {
    let mut req = request(Some(LogQuery::All), true);
    req.stream_type = 258;
    let st = read_statement(&req).unwrap();
    assert!(matches!(st.binds[2], BindValue::U8(2)));
}

#[test]
fn missing_fields() {
    let mut req = request(Some(LogQuery::All), true);
    req.run_id = None;
    assert!(matches!(read_statement(&req), Err(ReadError::MissingRunId)));
    let req = request(None, true);
    assert!(matches!(read_statement(&req), Err(ReadError::MissingQuery)));
}

#[test]
fn entries_keep_order() {
    let e = convert_entry(LogRow { ts: 9, message: b"hi".to_vec() });
    assert_eq!((e.ts, e.message), (9, b"hi".to_vec()));
    let entries = convert_entries(vec![
        LogRow { ts: 1, message: b"a".to_vec() },
        LogRow { ts: 2, message: b"bc".to_vec() },
    ]);
    assert_eq!(entries.len(), 2);
    assert_eq!((entries[0].ts, entries[0].message.as_slice()), (1, &b"a"[..]));
    assert_eq!((entries[1].ts, entries[1].message.as_slice()), (2, &b"bc"[..]));
}

#[test]
fn reader_login() {
    let login = log_reader_login();
    assert_eq!(login.user, "chirp");
    assert_eq!(login.password_secret, vec!["clickhouse", "users", "chirp", "password"]);
    assert_eq!(login.database, "db_job_log");
}
