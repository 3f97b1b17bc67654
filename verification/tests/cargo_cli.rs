use rivet::cargo_cli::{build_plan, make_build_script, make_docker_build, BuildCall, BuildError, BuildOpts, BuildPlan, ClusterKind};

const HEADER: &str = "TARGET_DIR=$(readlink -f ./target)\n# Used for Tokio Console. See https://github.com/tokio-rs/console#using-it\nexport RUSTFLAGS=\"--cfg tokio_unstable\"\n# Used for debugging\n# export CARGO_LOG=cargo::core::compiler::fingerprint=info\n\n";

fn opts(release: bool, jobs: Option<usize>) -> BuildOpts {
    BuildOpts {
        build_calls: vec![
            BuildCall { path: "svc/api/status".to_string(), bins: vec!["api-status".to_string()] },
            BuildCall { path: "svc/pkg/user".to_string(), bins: vec!["user-worker".to_string(), "user-ops".to_string()] },
        ],
        release,
        jobs,
    }
}

#[test]
fn script_with_all_flags() {
    let script = make_build_script(&opts(true, Some(8)), Some("json"));
    let expected = format!(
        "{HEADER}if [ $? -eq 0 ]; then\n\t(cd svc/api/status && cargo build --jobs 8 --message-format=json --release --bin api-status --target-dir $TARGET_DIR)\nfi\n\nif [ $? -eq 0 ]; then\n\t(cd svc/pkg/user && cargo build --jobs 8 --message-format=json --release --bin user-worker --bin user-ops --target-dir $TARGET_DIR)\nfi\n\n\nEXIT_CODE=$?\n"
    );
    assert_eq!(script, expected);
}

#[test]
fn script_without_flags() {
    let o = BuildOpts {
        build_calls: vec![BuildCall { path: "a".to_string(), bins: vec!["x".to_string()] }],
        release: false,
        jobs: None,
    };
    let script = make_build_script(&o, None);
    assert_eq!(
        script,
        format!("{HEADER}if [ $? -eq 0 ]; then\n\t(cd a && cargo build    --bin x --target-dir $TARGET_DIR)\nfi\n\n\nEXIT_CODE=$?\n")
    );
}

#[test]
fn script_without_calls() {
    let o = BuildOpts { build_calls: Vec::new(), release: false, jobs: None };
    assert_eq!(make_build_script(&o, None), format!("{HEADER}\n\nEXIT_CODE=$?\n"));
}

#[test]
fn single_node_plan_exits_with_code() {
    let o = opts(false, None);
    let script = make_build_script(&o, None);
    match build_plan(&o, None, ClusterKind::SingleNode, "no-slash", "abc").unwrap() {
        BuildPlan::SingleNode { script: s } => assert_eq!(s, format!("{script}\n\n# Exit\nexit $EXIT_CODE\n")),
        BuildPlan::Distributed { .. } => panic!("expected a single-node plan"),
    }
}

#[test]
fn distributed_plan_builds_one_image_per_binary() {
    let o = opts(true, Some(2));
    let script = format!("{}\n\n# Exit\nexit $EXIT_CODE\n", make_build_script(&o, Some("short")));
    match build_plan(&o, Some("short"), ClusterKind::Distributed, "ghcr.io/rivet/", "f00d").unwrap() {
        BuildPlan::Distributed { images } => {
            let bins = ["api-status", "user-worker", "user-ops"];
            assert_eq!(images.len(), bins.len());
            for (image, bin) in images.iter().zip(bins) {
                assert_eq!(image.bin, bin);
                assert_eq!(image.dockerfile_name, format!("Dockerfile.{bin}"));
                assert_eq!(image.image_tag, format!("ghcr.io/rivet/{bin}:f00d"));
                let expected = format!(
                    "FROM rust:1.72-slim as build\n\nRUN apt-get update\nRUN apt-get install -y protobuf-compiler pkg-config libssl-dev\n\nWORKDIR /usr/rivet\nCOPY . .\nRUN [\"sh\", \"-c\", {script:?}]\n\nFROM debian:12.1-slim as run\n\nCOPY --from=build /usr/rivet/target/release/{bin} /bin/svc\nRUN apt-get update\nRUN apt-get -y install openssl\n\nCMD [\"bin/svc\"]\n"
                );
                assert_eq!(image.dockerfile, expected);
            }
        }
        BuildPlan::SingleNode { .. } => panic!("expected a distributed plan"),
    }
}

#[test]
fn distributed_debug_profile() {
    let o = BuildOpts {
        build_calls: vec![BuildCall { path: "p".to_string(), bins: vec!["b".to_string()] }],
        release: false,
        jobs: None,
    };
    match build_plan(&o, None, ClusterKind::Distributed, "r/", "h").unwrap() {
        BuildPlan::Distributed { images } => {
            assert_eq!(images.len(), 1);
            assert!(images[0].dockerfile.contains("COPY --from=build /usr/rivet/target/debug/b /bin/svc\n"));
            assert!(images[0].dockerfile.contains("RUN [\"sh\", \"-c\", \"TARGET_DIR=$(readlink -f ./target)\\n"));
        }
        BuildPlan::SingleNode { .. } => panic!("expected a distributed plan"),
    }
}

#[test]
fn repository_must_end_with_slash() {
    let o = opts(false, None);
    assert!(matches!(
        build_plan(&o, None, ClusterKind::Distributed, "ghcr.io/rivet", "f00d"),
        Err(BuildError::RepositoryWithoutSlash)
    ));
    assert!(matches!(
        build_plan(&o, None, ClusterKind::Distributed, "", "f00d"),
        Err(BuildError::RepositoryWithoutSlash)
    ));
}

#[test]
fn docker_build_of_one_binary() {
    let d = make_docker_build(&"api-route".to_string(), "\"echo hi\"", "release", "reg.io/", "cafe");
    assert_eq!(d.bin, "api-route");
    assert_eq!(d.dockerfile_name, "Dockerfile.api-route");
    assert_eq!(d.image_tag, "reg.io/api-route:cafe");
    assert_eq!(
        d.dockerfile,
        "FROM rust:1.72-slim as build\n\nRUN apt-get update\nRUN apt-get install -y protobuf-compiler pkg-config libssl-dev\n\nWORKDIR /usr/rivet\nCOPY . .\nRUN [\"sh\", \"-c\", \"echo hi\"]\n\nFROM debian:12.1-slim as run\n\nCOPY --from=build /usr/rivet/target/release/api-route /bin/svc\nRUN apt-get update\nRUN apt-get -y install openssl\n\nCMD [\"bin/svc\"]\n"
    );
}
