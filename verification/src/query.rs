//! Database statements: query text and the values bound to its parameters.

use vstd::prelude::*;

verus! {

/// A value bound to a query parameter.
#[derive(Debug)]
pub enum BindValue {
    /// A UUID, by its 128-bit value.
    Uuid(u128),
    /// A list of UUIDs.
    UuidList(Vec<u128>),
    Text(String),
    U8(u8),
    U32(u32),
    I64(i64),
}

/// A query and the values for its parameters, in order.
pub struct Statement {
    pub sql: String,
    pub binds: Vec<BindValue>,
}

} // verus!
