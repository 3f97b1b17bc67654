//! Keeping the default builds current: which ones need an upload, the parts
//! their images are sent in, and the statements that record them.

use vstd::prelude::*;

use crate::query::{BindValue, Statement};
use crate::text::{replace_all, replaced, views};

verus! {

/// A default build: its kind, the tag of its image, and the bytes of the
/// image that needs to be uploaded.
pub struct DefaultBuildConfig {
    pub kind: String,
    pub tag: String,
    pub tar: Vec<u8>,
}

/// The kinds of the default builds, in the order they are kept current.
pub open spec fn default_build_kind_names() -> Seq<Seq<char>> {
    seq![
        "game-multiplayer"@,
        "test-fail-immediately"@,
        "test-hang-indefinitely"@,
        "test-mm-lobby-ready"@,
        "test-mm-lobby-echo"@,
        "test-mm-player-connect"@,
    ]
}

/// The kinds of the default builds.
pub fn default_build_kinds() -> (kinds: Vec<String>)
    ensures
        views(kinds@) == default_build_kind_names(),
{
    let kinds = vec![
        String::from_str("game-multiplayer"),
        String::from_str("test-fail-immediately"),
        String::from_str("test-hang-indefinitely"),
        String::from_str("test-mm-lobby-ready"),
        String::from_str("test-mm-lobby-echo"),
        String::from_str("test-mm-player-connect"),
    ];
    assert(views(kinds@) =~= default_build_kind_names());
    kinds
}

/// A part of an upload, as the upload service presigns it.
pub struct PresignedPart {
    pub url: String,
    pub part_number: u32,
    pub byte_offset: u64,
    pub content_length: u64,
}

/// The request that sends one part.
pub struct PartUpload {
    pub url: String,
    pub part_number: u32,
    pub body: Vec<u8>,
}

/// The bytes of a part: `content_length` bytes from `byte_offset` on.
pub open spec fn part_bytes(data: Seq<u8>, p: PresignedPart) -> Seq<u8> {
    data.subrange(p.byte_offset as int, p.byte_offset + p.content_length)
}

/// Whether the part lies within data of the given length.
pub open spec fn part_in_bounds(p: PresignedPart, len: nat) -> bool {
    p.byte_offset + p.content_length <= len
}

/// The end of the first `k` parts laid one after another.
pub open spec fn parts_end(parts: Seq<PresignedPart>, k: int) -> int
    decreases k,
{
    if k <= 0 {
        0
    } else {
        parts_end(parts, k - 1) + parts[k - 1].content_length
    }
}

/// Whether the parts lie one after another from offset 0 and together
/// cover exactly `len` bytes.
pub open spec fn parts_tile(parts: Seq<PresignedPart>, len: nat) -> bool {
    &&& forall|k: int| 0 <= k < parts.len() ==> (#[trigger] parts[k]).byte_offset == parts_end(parts, k)
    &&& parts_end(parts, parts.len() as int) == len
}

/// The first `k` byte strings, one after another.
pub open spec fn concat_upto(bodies: Seq<Seq<u8>>, k: int) -> Seq<u8>
    decreases k,
{
    if k <= 0 {
        Seq::empty()
    } else {
        concat_upto(bodies, k - 1) + bodies[k - 1]
    }
}

/// The bytes of one part of an upload.
pub fn upload_part(data: &Vec<u8>, byte_offset: u64, content_length: u64) -> (part: Vec<u8>)
    requires
        byte_offset + content_length <= data@.len(),
    ensures
        part@ == data@.subrange(byte_offset as int, byte_offset + content_length),
{
    assert(data@.len() == data.len());
    let start: usize = byte_offset as usize;
    let end: usize = (byte_offset + content_length) as usize;
    let mut part: Vec<u8> = Vec::new();
    let mut i: usize = start;
    while i < end
        invariant
            start == byte_offset,
            end == byte_offset + content_length,
            end <= data@.len(),
            start <= i <= end,
            part@ == data@.subrange(start as int, i as int),
        decreases end - i,
    {
        part.push(data[i]);
        i = i + 1;
        assert(part@ =~= data@.subrange(start as int, i as int));
    }
    part
}

/// The requests that upload the build's image in the presigned parts: each
/// sends its part of the image to its URL, reached inside the cluster.
pub fn upload_parts(build: &DefaultBuildConfig, parts: &Vec<PresignedPart>) -> (uploads: Vec<PartUpload>)
    requires
        forall|k: int| 0 <= k < parts@.len() ==> part_in_bounds(#[trigger] parts@[k], build.tar@.len()),
    ensures
        uploads@.len() == parts@.len(),
        forall|k: int| 0 <= k < parts@.len() ==> {
            &&& (#[trigger] uploads@[k]).url@ == replaced(parts@[k].url@, local_store_host(), cluster_store_host())
            &&& uploads@[k].part_number == parts@[k].part_number
            &&& uploads@[k].body@ == part_bytes(build.tar@, parts@[k])
        },
{
    let mut uploads: Vec<PartUpload> = Vec::new();
    let mut k: usize = 0;
    while k < parts.len()
        invariant
            k <= parts@.len(),
            uploads@.len() == k,
            forall|j: int| 0 <= j < parts@.len() ==> part_in_bounds(#[trigger] parts@[j], build.tar@.len()),
            forall|j: int| 0 <= j < k ==> {
                &&& (#[trigger] uploads@[j]).url@ == replaced(parts@[j].url@, local_store_host(), cluster_store_host())
                &&& uploads@[j].part_number == parts@[j].part_number
                &&& uploads@[j].body@ == part_bytes(build.tar@, parts@[j])
            },
        decreases parts@.len() - k,
    {
        let p = &parts[k];
        assert(part_in_bounds(parts@[k as int], build.tar@.len()));
        let body = upload_part(&build.tar, p.byte_offset, p.content_length);
        uploads.push(PartUpload { url: upload_url(p.url.as_str()), part_number: p.part_number, body });
        k = k + 1;
    }
    uploads
}

/// The end of the first parts never exceeds that of more parts.
proof fn lemma_parts_end_grows(parts: Seq<PresignedPart>, j: int, k: int)
    requires
        0 <= j <= k <= parts.len(),
    ensures
        parts_end(parts, j) <= parts_end(parts, k),
    decreases k - j,
{
    if j < k {
        lemma_parts_end_grows(parts, j, k - 1);
    }
}

/// The first `k` tiled parts hold the bytes of the data up to their end.
proof fn lemma_tiled_prefix(data: Seq<u8>, parts: Seq<PresignedPart>, k: int)
    requires
        parts_tile(parts, data.len()),
        0 <= k <= parts.len(),
    ensures
        parts_end(parts, k) <= data.len(),
        concat_upto(parts.map_values(|p: PresignedPart| part_bytes(data, p)), k) == data.subrange(0, parts_end(parts, k)),
    decreases k,
{
    lemma_parts_end_grows(parts, k, parts.len() as int);
    let bodies = parts.map_values(|p: PresignedPart| part_bytes(data, p));
    if k == 0 {
        assert(data.subrange(0, 0) =~= Seq::<u8>::empty());
    } else {
        lemma_tiled_prefix(data, parts, k - 1);
        lemma_parts_end_grows(parts, k - 1, k);
        let p = parts[k - 1];
        assert(p.byte_offset == parts_end(parts, k - 1));
        assert(bodies[k - 1] == part_bytes(data, p));
        assert(data.subrange(0, parts_end(parts, k)) =~= data.subrange(0, parts_end(parts, k - 1)) + part_bytes(data, p));
    }
}

/// Law: when the presigned parts lie one after another and cover the whole
/// image, the bodies that are uploaded, placed at their offsets, are exactly
/// the build's image.
pub proof fn lemma_parts_reassemble_image(tar: Seq<u8>, parts: Seq<PresignedPart>)
    requires
        parts_tile(parts, tar.len()),
    ensures
        concat_upto(parts.map_values(|p: PresignedPart| part_bytes(tar, p)), parts.len() as int) == tar,
{
    lemma_tiled_prefix(tar, parts, parts.len() as int);
    assert(tar.subrange(0, tar.len() as int) =~= tar);
}

/// The host that presigned upload URLs name, and the one to reach the
/// object store by from inside the cluster.
pub open spec fn local_store_host() -> Seq<char> {
    "127.0.0.1"@
}

/// The object store's host inside the cluster.
pub open spec fn cluster_store_host() -> Seq<char> {
    "minio.minio.svc.cluster.local"@
}

/// A presigned upload URL with the local host replaced by the object
/// store's host inside the cluster.
pub fn upload_url(url: &str) -> (r: String)
    ensures
        r@ == replaced(url@, local_store_host(), cluster_store_host()),
{
    proof {
        reveal_strlit("127.0.0.1");
    }
    replace_all(url, "127.0.0.1", "minio.minio.svc.cluster.local")
}

/// Law: no URL that [`upload_url`] gives still names the local host.
pub proof fn lemma_upload_url_names_no_local_host(url: Seq<char>)
    ensures
        !crate::text::occurs_in(local_store_host(), replaced(url, local_store_host(), cluster_store_host())),
{
    reveal_strlit("127.0.0.1");
    reveal_strlit("minio.minio.svc.cluster.local");
    crate::text::lemma_replaced_leaves_no_occurrence(url, local_store_host(), cluster_store_host());
}

/// Whether a default build needs an upload: unless the recorded image tag
/// is already the build's tag.
pub fn needs_upload(old_image_tag: Option<&str>, tag: &str) -> (b: bool)
    ensures
        b == !(old_image_tag matches Some(t) && t@ == tag@),
{
    match old_image_tag {
        Some(t) => String::from_str(t) != String::from_str(tag),
        None => true,
    }
}

/// The statement that reads the recorded image tag of a default build kind.
pub open spec fn default_build_select_sql() -> Seq<char> {
    "SELECT image_tag FROM db_build.default_builds WHERE kind = $1"@
}

/// The statement that records a default build.
pub open spec fn default_build_upsert_sql() -> Seq<char> {
    "UPSERT INTO db_build.default_builds (kind, image_tag, upload_id)\nVALUES ($1, $2, $3)\n"@
}

/// The statement that reads the recorded image tag of `kind`.
pub fn default_build_select(kind: &str) -> (st: Statement)
    ensures
        st.sql@ == default_build_select_sql(),
        st.binds@.len() == 1,
        st.binds@[0] matches BindValue::Text(t) && t@ == kind@,
{
    let mut binds: Vec<BindValue> = Vec::new();
    binds.push(BindValue::Text(String::from_str(kind)));
    Statement { sql: String::from_str("SELECT image_tag FROM db_build.default_builds WHERE kind = $1"), binds }
}

/// The statement that records `tag` and `upload_id` as the default build of `kind`.
pub fn default_build_upsert(kind: &str, tag: &str, upload_id: u128) -> (st: Statement)
    ensures
        st.sql@ == default_build_upsert_sql(),
        st.binds@.len() == 3,
        st.binds@[0] matches BindValue::Text(t) && t@ == kind@,
        st.binds@[1] matches BindValue::Text(t) && t@ == tag@,
        st.binds@[2] == BindValue::Uuid(upload_id),
{
    let mut binds: Vec<BindValue> = Vec::new();
    binds.push(BindValue::Text(String::from_str(kind)));
    binds.push(BindValue::Text(String::from_str(tag)));
    binds.push(BindValue::Uuid(upload_id));
    Statement {
        sql: String::from_str("UPSERT INTO db_build.default_builds (kind, image_tag, upload_id)\nVALUES ($1, $2, $3)\n"),
        binds,
    }
}

/// The file of an upload to prepare.
pub struct PrepareFile {
    pub path: String,
    pub content_length: u64,
    pub multipart: bool,
}

/// The request that prepares the upload of a build image.
pub struct UploadPrepare {
    pub bucket: String,
    pub files: Vec<PrepareFile>,
}

/// The bucket that build images go to.
pub open spec fn build_bucket() -> Seq<char> {
    "bucket-build"@
}

/// The request that prepares the multipart upload of a build's image: one
/// file whose length is that of the image.
pub fn upload_prepare(build: &DefaultBuildConfig) -> (req: UploadPrepare)
    ensures
        req.bucket@ == build_bucket(),
        req.files@.len() == 1,
        req.files@[0].path@ == "image.tar"@,
        req.files@[0].content_length == build.tar@.len(),
        req.files@[0].multipart,
{
    let mut files: Vec<PrepareFile> = Vec::new();
    files.push(PrepareFile { path: String::from_str("image.tar"), content_length: build.tar.len() as u64, multipart: true });
    UploadPrepare { bucket: String::from_str("bucket-build"), files }
}

} // verus!
