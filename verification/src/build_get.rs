//! Looking up builds by id.

use vstd::prelude::*;

use crate::query::{BindValue, Statement};

verus! {

/// A row of `db_build.builds`.
pub struct BuildRow {
    pub build_id: u128,
    pub game_id: u128,
    pub upload_id: u128,
    pub display_name: String,
    pub image_tag: String,
    pub create_ts: i64,
}

/// A build as the lookup returns it.
pub struct Build {
    pub build_id: Option<u128>,
    pub game_id: Option<u128>,
    pub upload_id: Option<u128>,
    pub display_name: String,
    pub image_tag: String,
    pub create_ts: i64,
}

/// The query text of the lookup.
pub open spec fn builds_sql() -> Seq<char> {
    "SELECT build_id, game_id, upload_id, display_name, image_tag, create_ts\nFROM db_build.builds\nWHERE build_id = ANY($1)\n"@
}

/// The statement that selects the builds with the given ids.
pub fn builds_statement(build_ids: Vec<u128>) -> (st: Statement)
    ensures
        st.sql@ == builds_sql(),
        st.binds@.len() == 1,
        st.binds@[0] matches BindValue::UuidList(ids) && ids@ == build_ids@,
{
    let mut binds: Vec<BindValue> = Vec::new();
    binds.push(BindValue::UuidList(build_ids));
    Statement {
        sql: String::from_str("SELECT build_id, game_id, upload_id, display_name, image_tag, create_ts\nFROM db_build.builds\nWHERE build_id = ANY($1)\n"),
        binds,
    }
}

/// Whether `b` is the build of row `r`.
pub open spec fn build_of(b: Build, r: BuildRow) -> bool {
    &&& b.build_id == Some(r.build_id)
    &&& b.game_id == Some(r.game_id)
    &&& b.upload_id == Some(r.upload_id)
    &&& b.display_name@ == r.display_name@
    &&& b.image_tag@ == r.image_tag@
    &&& b.create_ts == r.create_ts
}

/// Law: the build of a row carries each of the row's fields unchanged (the
/// ids wrapped in `Some`), so a build determines the row it came from.
pub proof fn lemma_build_of_keeps_fields(b: Build, r: BuildRow, r2: BuildRow)
    requires
        build_of(b, r),
    ensures
        b.build_id == Some(r.build_id),
        b.game_id == Some(r.game_id),
        b.upload_id == Some(r.upload_id),
        b.display_name@ == r.display_name@,
        b.image_tag@ == r.image_tag@,
        b.create_ts == r.create_ts,
        build_of(b, r2) ==> {
            &&& r2.build_id == r.build_id
            &&& r2.game_id == r.game_id
            &&& r2.upload_id == r.upload_id
            &&& r2.display_name@ == r.display_name@
            &&& r2.image_tag@ == r.image_tag@
            &&& r2.create_ts == r.create_ts
        },
{
}

/// The build of one row.
pub fn convert_build(row: BuildRow) -> (b: Build)
    ensures
        build_of(b, row),
        b.build_id == Some(row.build_id),
        b.game_id == Some(row.game_id),
        b.upload_id == Some(row.upload_id),
        b.display_name@ == row.display_name@,
        b.image_tag@ == row.image_tag@,
        b.create_ts == row.create_ts,
{
    Build {
        build_id: Some(row.build_id),
        game_id: Some(row.game_id),
        upload_id: Some(row.upload_id),
        display_name: row.display_name,
        image_tag: row.image_tag,
        create_ts: row.create_ts,
    }
}

/// The builds of the rows, in order.
pub fn builds_response(rows: Vec<BuildRow>) -> (builds: Vec<Build>)
    ensures
        builds@.len() == rows@.len(),
        forall|j: int| 0 <= j < rows@.len() ==> build_of(#[trigger] builds@[j], rows@[j]),
        forall|j: int| 0 <= j < rows@.len() ==> {
            &&& (#[trigger] builds@[j]).build_id == Some(rows@[j].build_id)
            &&& builds@[j].game_id == Some(rows@[j].game_id)
            &&& builds@[j].upload_id == Some(rows@[j].upload_id)
            &&& builds@[j].display_name@ == rows@[j].display_name@
            &&& builds@[j].image_tag@ == rows@[j].image_tag@
            &&& builds@[j].create_ts == rows@[j].create_ts
        },
{
    let ghost all = rows@;
    let mut builds: Vec<Build> = Vec::new();
    for row in it: rows
        invariant
            it.seq() == all,
            builds@.len() == it.index(),
            forall|j: int| 0 <= j < it.index() ==> build_of(#[trigger] builds@[j], all[j]),
            forall|j: int| 0 <= j < it.index() ==> {
                &&& (#[trigger] builds@[j]).build_id == Some(all[j].build_id)
                &&& builds@[j].game_id == Some(all[j].game_id)
                &&& builds@[j].upload_id == Some(all[j].upload_id)
                &&& builds@[j].display_name@ == all[j].display_name@
                &&& builds@[j].image_tag@ == all[j].image_tag@
                &&& builds@[j].create_ts == all[j].create_ts
            },
    {
        builds.push(convert_build(row));
    }
    builds
}

} // verus!
