//! Making a user searchable.

use vstd::prelude::*;

use crate::query::{BindValue, Statement};

verus! {

/// The statement that marks a user searchable.
pub open spec fn search_update_sql() -> Seq<char> {
    "UPDATE users\nSET\n\tis_searchable = TRUE,\n\tupdate_ts = $1\nWHERE user_id = $2\n"@
}

/// The message carries no user id.
#[derive(Debug, PartialEq, Eq, Structural)]
pub struct MissingUserId;

/// The statement that marks the message's user searchable as of `ts`.
pub fn search_update(user_id: Option<u128>, ts: i64) -> (res: Result<Statement, MissingUserId>)
    ensures
        res is Err <==> user_id is None,
        res matches Ok(st) ==> {
            &&& st.sql@ == search_update_sql()
            &&& st.binds@ == seq![BindValue::I64(ts), BindValue::Uuid(user_id->0)]
        },
{
    let id = match user_id {
        Some(id) => id,
        None => return Err(MissingUserId),
    };
    let mut binds: Vec<BindValue> = Vec::new();
    binds.push(BindValue::I64(ts));
    binds.push(BindValue::Uuid(id));
    let st = Statement { sql: String::from_str("UPDATE users\nSET\n\tis_searchable = TRUE,\n\tupdate_ts = $1\nWHERE user_id = $2\n"), binds };
    assert(st.binds@ =~= seq![BindValue::I64(ts), BindValue::Uuid(id)]);
    Ok(st)
}

} // verus!
