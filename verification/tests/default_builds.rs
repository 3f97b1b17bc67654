use rivet::default_builds::{
    default_build_kinds, default_build_select, default_build_upsert, needs_upload, upload_part, upload_parts, upload_prepare, upload_url,
    DefaultBuildConfig, PresignedPart,
};
use rivet::query::BindValue;

fn build(tar: &[u8]) -> DefaultBuildConfig {
    DefaultBuildConfig { kind: "game-multiplayer".to_string(), tag: "mp:1".to_string(), tar: tar.to_vec() }
}

fn part(n: u32, byte_offset: u64, content_length: u64) -> PresignedPart {
    PresignedPart {
        url: format!("http://127.0.0.1:9000/bucket-build/image.tar?partNumber={n}"),
        part_number: n,
        byte_offset,
        content_length,
    }
}

#[test]
fn upload_part_bytes() {
    let data = b"0123456789abcdef".to_vec();
    assert_eq!(upload_part(&data, 0, 4), b"0123".to_vec());
    assert_eq!(upload_part(&data, 10, 6), b"abcdef".to_vec());
    assert_eq!(upload_part(&data, data.len() as u64, 0), Vec::<u8>::new());
    assert_eq!(upload_part(&data, 0, data.len() as u64), data);
}

#[test]
fn uploaded_parts_are_the_image() {
    let tar: Vec<u8> = (0..=255u8).cycle().take(1000).collect();
    let b = build(&tar);
    let parts = vec![part(1, 0, 400), part(2, 400, 400), part(3, 800, 200)];
    let uploads = upload_parts(&b, &parts);
    assert_eq!(uploads.len(), 3);
    for (u, p) in uploads.iter().zip(&parts) {
        assert_eq!(u.part_number, p.part_number);
        assert_eq!(
            u.url,
            format!("http://minio.minio.svc.cluster.local:9000/bucket-build/image.tar?partNumber={}", p.part_number)
        );
    }
    let joined: Vec<u8> = uploads.iter().flat_map(|u| u.body.iter().copied()).collect();
    assert_eq!(joined, tar);
}

#[test]
fn upload_depends_on_the_image() {
    let a = upload_parts(&build(b"abc"), &vec![part(1, 0, 3)]);
    let b = upload_parts(&build(b"xyz"), &vec![part(1, 0, 3)]);
    assert_eq!(a[0].body, b"abc".to_vec());
    assert_eq!(b[0].body, b"xyz".to_vec());
    assert!(upload_parts(&build(b""), &Vec::new()).is_empty());
}

#[test]
fn upload_urls_reach_the_cluster_store() {
    assert_eq!(
        upload_url("http://127.0.0.1:9000/bucket-build/image.tar?partNumber=1&X-Amz-Signature=abc"),
        "http://minio.minio.svc.cluster.local:9000/bucket-build/image.tar?partNumber=1&X-Amz-Signature=abc"
    );
    assert_eq!(upload_url("https://s3.example.com/x"), "https://s3.example.com/x");
    assert_eq!(upload_url("127.0.0.1/127.0.0.1"), "minio.minio.svc.cluster.local/minio.minio.svc.cluster.local");
    assert!(!upload_url("127.0.0.127.0.0.1").contains("127.0.0.1"));
}

#[test]
fn upload_needed_unless_same_tag() {
    assert!(needs_upload(None, "game:abc"));
    assert!(needs_upload(Some("game:old"), "game:abc"));
    assert!(!needs_upload(Some("game:abc"), "game:abc"));
}

#[test]
fn default_build_statements() {
    let st = default_build_select("game-multiplayer");
    assert_eq!(st.sql, "SELECT image_tag FROM db_build.default_builds WHERE kind = $1");
    assert!(matches!(&st.binds[..], [BindValue::Text(k)] if k == "game-multiplayer"));
    let st = default_build_upsert("test-mm-lobby-echo", "echo:1", 77);
    assert_eq!(st.sql, "UPSERT INTO db_build.default_builds (kind, image_tag, upload_id)\nVALUES ($1, $2, $3)\n");
    assert!(matches!(
        &st.binds[..],
        [BindValue::Text(k), BindValue::Text(t), BindValue::Uuid(77)] if k == "test-mm-lobby-echo" && t == "echo:1"
    ));
}

#[test]
fn prepare_request() {
    let req = upload_prepare(&build(&vec![7u8; 12345]));
    assert_eq!(req.bucket, "bucket-build");
    assert_eq!(req.files.len(), 1);
    assert_eq!(req.files[0].path, "image.tar");
    assert_eq!(req.files[0].content_length, 12345);
    assert!(req.files[0].multipart);
    assert_eq!(upload_prepare(&build(b"")).files[0].content_length, 0);
}

#[test]
fn default_kinds() {
    assert_eq!(
        default_build_kinds(),
        vec![
            "game-multiplayer",
            "test-fail-immediately",
            "test-hang-indefinitely",
            "test-mm-lobby-ready",
            "test-mm-lobby-echo",
            "test-mm-player-connect",
        ]
    );
}
