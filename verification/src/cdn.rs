//! CDN namespaces: creating one and removing a user from its basic auth.

use vstd::prelude::*;

use crate::query::{BindValue, Statement};

verus! {

/// A request field that must be present is missing.
#[derive(Debug, PartialEq, Eq, Structural)]
pub enum MissingField {
    NamespaceId,
}

/// The statement that creates a CDN namespace.
pub open spec fn namespace_create_sql() -> Seq<char> {
    "INSERT INTO db_cdn.game_namespaces (namespace_id)\nVALUES ($1)\n"@
}

/// The statement that removes a user from a namespace's basic auth.
pub open spec fn auth_user_remove_sql() -> Seq<char> {
    "DELETE FROM db_cdn.game_namespace_auth_users WHERE namespace_id = $1 AND user_name = $2"@
}

/// The statement that creates the CDN namespace of a request.
pub fn namespace_create(namespace_id: Option<u128>) -> (res: Result<Statement, MissingField>)
    ensures
        res is Err <==> namespace_id is None,
        res matches Err(e) ==> e == MissingField::NamespaceId,
        res matches Ok(st) ==> {
            &&& st.sql@ == namespace_create_sql()
            &&& st.binds@ == seq![BindValue::Uuid(namespace_id->0)]
        },
{
    let id = match namespace_id {
        Some(id) => id,
        None => return Err(MissingField::NamespaceId),
    };
    let mut binds: Vec<BindValue> = Vec::new();
    binds.push(BindValue::Uuid(id));
    Ok(Statement { sql: String::from_str("INSERT INTO db_cdn.game_namespaces (namespace_id)\nVALUES ($1)\n"), binds })
}

/// What removing a user from a namespace's basic auth does: run the
/// statement, then announce a configuration update of the namespace.
pub struct AuthUserRemoval {
    pub statement: Statement,
    pub config_update_namespace_id: u128,
}

/// The removal of `user` from the basic auth of the request's namespace.
pub fn namespace_auth_user_remove(namespace_id: Option<u128>, user: &String) -> (res: Result<AuthUserRemoval, MissingField>)
    ensures
        res is Err <==> namespace_id is None,
        res matches Err(e) ==> e == MissingField::NamespaceId,
        res matches Ok(r) ==> {
            &&& r.statement.sql@ == auth_user_remove_sql()
            &&& r.statement.binds@.len() == 2
            &&& r.statement.binds@[0] == BindValue::Uuid(namespace_id->0)
            &&& r.statement.binds@[1] matches BindValue::Text(t) && t@ == user@
            &&& r.config_update_namespace_id == namespace_id->0
        },
{
    let id = match namespace_id {
        Some(id) => id,
        None => return Err(MissingField::NamespaceId),
    };
    let mut binds: Vec<BindValue> = Vec::new();
    binds.push(BindValue::Uuid(id));
    binds.push(BindValue::Text(user.clone()));
    Ok(AuthUserRemoval {
        statement: Statement {
            sql: String::from_str("DELETE FROM db_cdn.game_namespace_auth_users WHERE namespace_id = $1 AND user_name = $2"),
            binds,
        },
        config_update_namespace_id: id,
    })
}

} // verus!
