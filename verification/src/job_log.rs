//! Reading a job run's log entries from ClickHouse: which query a read
//! request runs, and the entries it returns.

use vstd::prelude::*;

use crate::query::{BindValue, Statement};
use crate::text::views;

verus! {

/// Which log entries to read, by timestamp in milliseconds.
#[derive(Clone, Copy, Debug, PartialEq, Eq, Structural)]
pub enum LogQuery {
    All,
    BeforeTs(i64),
    AfterTs(i64),
    TsRange { after_ts: i64, before_ts: i64 },
}

/// A request to read log entries of a run's task.
pub struct ReadRequest {
    pub run_id: Option<u128>,
    pub task: String,
    pub stream_type: i32,
    pub count: u32,
    pub order_asc: bool,
    pub query: Option<LogQuery>,
}

/// Why a read request is refused.
#[derive(Debug, PartialEq, Eq, Structural)]
pub enum ReadError {
    MissingRunId,
    MissingQuery,
}

/// A row of the `run_logs` table.
pub struct LogRow {
    pub ts: i64,
    pub message: Vec<u8>,
}

/// A log entry of a job run.
pub struct LogEntry {
    pub ts: i64,
    pub message: Vec<u8>,
}

/// How the log reader signs in to ClickHouse: its user, the path of its
/// password secret, and the database.
pub struct ClickHouseLogin {
    pub user: String,
    pub password_secret: Vec<String>,
    pub database: String,
}

/// The ClickHouse login of the log reader.
pub fn log_reader_login() -> (login: ClickHouseLogin)
    ensures
        login.user@ == "chirp"@,
        views(login.password_secret@) == seq!["clickhouse"@, "users"@, "chirp"@, "password"@],
        login.database@ == "db_job_log"@,
{
    let password_secret = vec![
        String::from_str("clickhouse"),
        String::from_str("users"),
        String::from_str("chirp"),
        String::from_str("password"),
    ];
    assert(views(password_secret@) =~= seq!["clickhouse"@, "users"@, "chirp"@, "password"@]);
    ClickHouseLogin { user: String::from_str("chirp"), password_secret, database: String::from_str("db_job_log") }
}

/// `ASC` or `DESC`.
pub open spec fn order_keyword(order_asc: bool) -> Seq<char> {
    if order_asc { "ASC"@ } else { "DESC"@ }
}

/// The condition on the timestamp that a query adds, if any.
pub open spec fn ts_condition(query: LogQuery) -> Seq<char> {
    match query {
        LogQuery::All => Seq::empty(),
        LogQuery::BeforeTs(_) => " AND ts <= fromUnixTimestamp64Milli(?)"@,
        LogQuery::AfterTs(_) => " AND ts >= fromUnixTimestamp64Milli(?)"@,
        LogQuery::TsRange { .. } => " AND ts > fromUnixTimestamp64Milli(?) AND ts < fromUnixTimestamp64Milli(?)"@,
    }
}

/// The query text of a read.
pub open spec fn read_sql(query: LogQuery, order_by: Seq<char>) -> Seq<char> {
    "SELECT ts, message\nFROM run_logs\nWHERE run_id = ? AND task = ? AND stream_type = ?"@ + ts_condition(query)
        + "\nORDER BY ts "@ + order_by + "\nLIMIT ?\n"@
}

/// The timestamps that a query binds, in order.
pub open spec fn ts_binds(query: LogQuery) -> Seq<i64> {
    match query {
        LogQuery::All => Seq::empty(),
        LogQuery::BeforeTs(ts) => seq![ts],
        LogQuery::AfterTs(ts) => seq![ts],
        LogQuery::TsRange { after_ts, before_ts } => seq![after_ts, before_ts],
    }
}

/// Whether the statement reads the entries of `query` for the request.
pub open spec fn reads(st: Statement, req: ReadRequest, run_id: u128, query: LogQuery, order_by: Seq<char>) -> bool {
    let ts = ts_binds(query);
    &&& st.sql@ == read_sql(query, order_by)
    &&& st.binds@.len() == 4 + ts.len()
    &&& st.binds@[0] == BindValue::Uuid(run_id)
    &&& st.binds@[1] matches BindValue::Text(t) && t@ == req.task@
    &&& st.binds@[2] == BindValue::U8(req.stream_type as u8)
    &&& forall|j: int| 0 <= j < ts.len() ==> #[trigger] st.binds@[3 + j] == BindValue::I64(ts[j])
    &&& st.binds@[3 + ts.len() as int] == BindValue::U32(req.count)
}

/// The binds after the stream type that a statement for `query` holds: the
/// query's timestamps exactly as given, then the count.
pub open spec fn binds_after_stream_type(st: Statement, query: LogQuery, count: u32) -> bool {
    match query {
        LogQuery::All => {
            &&& st.binds@.len() == 4
            &&& st.binds@[3] == BindValue::U32(count)
        },
        LogQuery::BeforeTs(ts) => {
            &&& st.binds@.len() == 5
            &&& st.binds@[3] == BindValue::I64(ts)
            &&& st.binds@[4] == BindValue::U32(count)
        },
        LogQuery::AfterTs(ts) => {
            &&& st.binds@.len() == 5
            &&& st.binds@[3] == BindValue::I64(ts)
            &&& st.binds@[4] == BindValue::U32(count)
        },
        LogQuery::TsRange { after_ts, before_ts } => {
            &&& st.binds@.len() == 6
            &&& st.binds@[3] == BindValue::I64(after_ts)
            &&& st.binds@[4] == BindValue::I64(before_ts)
            &&& st.binds@[5] == BindValue::U32(count)
        },
    }
}

/// Law: a statement that reads the entries of `query` binds the run id, the
/// task, the stream type, then the query's own timestamps unchanged (none,
/// one, or the lower and the upper bound) and last the count.
pub proof fn lemma_reads_binds_exact(st: Statement, req: ReadRequest, run_id: u128, query: LogQuery, order_by: Seq<char>)
    requires
        reads(st, req, run_id, query, order_by),
    ensures
        st.binds@[0] == BindValue::Uuid(run_id),
        st.binds@[1] matches BindValue::Text(t) && t@ == req.task@,
        st.binds@[2] == BindValue::U8(req.stream_type as u8),
        binds_after_stream_type(st, query, req.count),
{
    match query {
        LogQuery::All => {},
        LogQuery::BeforeTs(ts) => {
            assert(st.binds@[3 + 0int] == BindValue::I64(ts_binds(query)[0]));
        },
        LogQuery::AfterTs(ts) => {
            assert(st.binds@[3 + 0int] == BindValue::I64(ts_binds(query)[0]));
        },
        LogQuery::TsRange { after_ts, before_ts } => {
            assert(st.binds@[3 + 0int] == BindValue::I64(ts_binds(query)[0]));
            assert(st.binds@[3 + 1int] == BindValue::I64(ts_binds(query)[1]));
        },
    }
}

/// `ASC` or `DESC`.
pub fn order_by(order_asc: bool) -> (s: &'static str)
    ensures
        s@ == order_keyword(order_asc),
{
    if order_asc { "ASC" } else { "DESC" }
}

/// The statement of a read for `query`.
fn query_statement(req: &ReadRequest, run_id: u128, query: LogQuery, order_by: &str) -> (st: Statement)
    ensures
        reads(st, *req, run_id, query, order_by@),
        binds_after_stream_type(st, query, req.count),
{
    let mut sql = String::from_str("SELECT ts, message\nFROM run_logs\nWHERE run_id = ? AND task = ? AND stream_type = ?");
    let mut binds: Vec<BindValue> = Vec::new();
    binds.push(BindValue::Uuid(run_id));
    binds.push(BindValue::Text(req.task.clone()));
    binds.push(BindValue::U8(req.stream_type as u8));
    match query {
        LogQuery::All => {
            proof {
                reveal_strlit("");
            }
        },
        LogQuery::BeforeTs(ts) => {
            sql.append(" AND ts <= fromUnixTimestamp64Milli(?)");
            binds.push(BindValue::I64(ts));
        },
        LogQuery::AfterTs(ts) => {
            sql.append(" AND ts >= fromUnixTimestamp64Milli(?)");
            binds.push(BindValue::I64(ts));
        },
        LogQuery::TsRange { after_ts, before_ts } => {
            sql.append(" AND ts > fromUnixTimestamp64Milli(?) AND ts < fromUnixTimestamp64Milli(?)");
            binds.push(BindValue::I64(after_ts));
            binds.push(BindValue::I64(before_ts));
        },
    }
    binds.push(BindValue::U32(req.count));
    sql.append("\nORDER BY ts ");
    sql.append(order_by);
    sql.append("\nLIMIT ?\n");
    let st = Statement { sql, binds };
    assert(st.sql@ =~= read_sql(query, order_by@));
    st
}

/// The statement that reads all entries.
pub fn query_all(req: &ReadRequest, run_id: u128, order_by: &str) -> (st: Statement)
    ensures
        reads(st, *req, run_id, LogQuery::All, order_by@),
        binds_after_stream_type(st, LogQuery::All, req.count),
{
    query_statement(req, run_id, LogQuery::All, order_by)
}

/// The statement that reads the entries at or before `ts`.
pub fn query_before_ts(req: &ReadRequest, run_id: u128, ts: i64, order_by: &str) -> (st: Statement)
    ensures
        reads(st, *req, run_id, LogQuery::BeforeTs(ts), order_by@),
        binds_after_stream_type(st, LogQuery::BeforeTs(ts), req.count),
{
    query_statement(req, run_id, LogQuery::BeforeTs(ts), order_by)
}

/// The statement that reads the entries at or after `ts`.
pub fn query_after_ts(req: &ReadRequest, run_id: u128, ts: i64, order_by: &str) -> (st: Statement)
    ensures
        reads(st, *req, run_id, LogQuery::AfterTs(ts), order_by@),
        binds_after_stream_type(st, LogQuery::AfterTs(ts), req.count),
{
    query_statement(req, run_id, LogQuery::AfterTs(ts), order_by)
}

/// The statement that reads the entries strictly between `after_ts` and
/// `before_ts`.
pub fn query_ts_range(req: &ReadRequest, run_id: u128, after_ts: i64, before_ts: i64, order_by: &str) -> (st: Statement)
    ensures
        reads(st, *req, run_id, LogQuery::TsRange { after_ts, before_ts }, order_by@),
        binds_after_stream_type(st, (LogQuery::TsRange { after_ts, before_ts }), req.count),
{
    query_statement(req, run_id, LogQuery::TsRange { after_ts, before_ts }, order_by)
}

/// The statement that a read request runs; the request needs a run id and a
/// query.
pub fn read_statement(req: &ReadRequest) -> (res: Result<Statement, ReadError>)
    ensures
        req.run_id is None ==> res == Err::<Statement, ReadError>(ReadError::MissingRunId),
        req.run_id is Some && req.query is None ==> res == Err::<Statement, ReadError>(ReadError::MissingQuery),
        res matches Ok(st) ==> req.run_id is Some && req.query is Some
            && reads(st, *req, req.run_id->0, req.query->0, order_keyword(req.order_asc))
            && binds_after_stream_type(st, req.query->0, req.count),
        (req.run_id is Some && req.query is Some) ==> res is Ok,
{
    let run_id = match req.run_id {
        Some(id) => id,
        None => return Err(ReadError::MissingRunId),
    };
    let query = match req.query {
        Some(q) => q,
        None => return Err(ReadError::MissingQuery),
    };
    let order = order_by(req.order_asc);
    match query {
        LogQuery::All => Ok(query_all(req, run_id, order)),
        LogQuery::BeforeTs(ts) => Ok(query_before_ts(req, run_id, ts, order)),
        LogQuery::AfterTs(ts) => Ok(query_after_ts(req, run_id, ts, order)),
        LogQuery::TsRange { after_ts, before_ts } => Ok(query_ts_range(req, run_id, after_ts, before_ts, order)),
    }
}

/// A row as a log entry.
pub fn convert_entry(entry: LogRow) -> (e: LogEntry)
    ensures
        e.ts == entry.ts,
        e.message@ == entry.message@,
{
    LogEntry { ts: entry.ts, message: entry.message }
}

/// The rows, in order, as log entries.
pub fn convert_entries(rows: Vec<LogRow>) -> (entries: Vec<LogEntry>)
    ensures
        entries@.len() == rows@.len(),
        forall|j: int| 0 <= j < rows@.len() ==> {
            &&& (#[trigger] entries@[j]).ts == rows@[j].ts
            &&& entries@[j].message@ == rows@[j].message@
        },
{
    let ghost all = rows@;
    let mut entries: Vec<LogEntry> = Vec::new();
    for row in it: rows
        invariant
            it.seq() == all,
            entries@.len() == it.index(),
            forall|j: int| 0 <= j < it.index() ==> {
                &&& (#[trigger] entries@[j]).ts == all[j].ts
                &&& entries@[j].message@ == all[j].message@
            },
    {
        entries.push(convert_entry(row));
    }
    entries
}

} // verus!
