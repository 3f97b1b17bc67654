use rivet::cargo_cli::ClusterKind;
use rivet::db_conn::{
    connect_order, local_host, make_host_port, migrate_inputs, ServiceEntry, DatabaseConnection, DbConnError, DistributedStep, LocalStep, MigrateInputs,
    MigrateSecrets, RuntimeKind,
};

#[test]
fn addresses() {
    assert_eq!(local_host(6379), "127.0.0.1:6379");
    assert_eq!(local_host(0), "127.0.0.1:0");
    assert_eq!(make_host_port("crdb.internal", 26257), "crdb.internal:26257");
}

#[test]
fn local_redis_connects_once_per_name() {
    let mut conn = DatabaseConnection::new();
    match conn.next_local_step("redis-chirp", &RuntimeKind::Redis).unwrap() {
        LocalStep::Redis { name, ca_command, forward } => {
            assert_eq!(name, "redis-chirp");
            assert_eq!(
                ca_command,
                "kubectl get secret -n redis-chirp redis-crt -o jsonpath='{.data.ca\\.crt}' |\nbase64 --decode > /tmp/redis-chirp-ca.crt\n"
            );
            assert_eq!(forward.service, "redis-master");
            assert_eq!(forward.namespace, "redis-chirp");
            assert_eq!(forward.remote_port, 6379);
        }
        _ => panic!("expected a redis step"),
    }
    conn.add_redis_host("redis-chirp".to_string(), local_host(41000));
    assert!(matches!(conn.next_local_step("redis-chirp", &RuntimeKind::Redis), Ok(LocalStep::Skip)));
    assert!(matches!(conn.next_local_step("redis-cache", &RuntimeKind::Redis), Ok(LocalStep::Redis { .. })));
    assert!(conn.has_redis_host("redis-chirp"));
    assert!(!conn.has_redis_host("redis-cache"));
    assert_eq!(conn.redis_host("redis-chirp").map(|s| s.as_str()), Some("127.0.0.1:41000"));
    assert_eq!(conn.redis_host("redis-cache"), None);
}

#[test]
fn local_cockroach_and_clickhouse() {
    let mut conn = DatabaseConnection::new();
    match conn.next_local_step("db-user", &RuntimeKind::CRDB).unwrap() {
        LocalStep::Cockroach { ca_command, forward } => {
            assert_eq!(
                ca_command,
                "kubectl get secret -n cockroachdb cockroachdb-ca-secret -o jsonpath='{.data.ca\\.crt}' |\nbase64 --decode > /tmp/crdb-ca.crt\n"
            );
            assert_eq!((forward.service.as_str(), forward.namespace.as_str(), forward.remote_port), ("cockroachdb", "cockroachdb", 26257));
        }
        _ => panic!("expected a cockroach step"),
    }
    match conn.next_local_step("db-job-log", &RuntimeKind::ClickHouse).unwrap() {
        LocalStep::ClickHouse { ca_command, config_path, config, forward } => {
            assert_eq!(
                ca_command,
                "kubectl get secret -n clickhouse clickhouse-crt -o jsonpath='{.data.ca\\.crt}' |\nbase64 --decode > /tmp/clickhouse-ca.crt\n"
            );
            assert_eq!(config_path, "/tmp/clickhouse-config.yml");
            assert_eq!(config, "secure: true\nopenSSL:\n  client:\n    caConfig: '/tmp/clickhouse-ca.crt'\n");
            assert_eq!((forward.service.as_str(), forward.namespace.as_str(), forward.remote_port), ("clickhouse", "clickhouse", 9440));
        }
        _ => panic!("expected a clickhouse step"),
    }
    conn.set_cockroach_host(local_host(40001));
    conn.set_clickhouse_host(local_host(40002));
    assert!(matches!(conn.next_local_step("db-team", &RuntimeKind::CRDB), Ok(LocalStep::Skip)));
    assert!(matches!(conn.next_local_step("db-x", &RuntimeKind::ClickHouse), Ok(LocalStep::Skip)));
}

#[test]
fn other_runtimes_cannot_connect() {
    let conn = DatabaseConnection::new();
    let other = RuntimeKind::Other { description: "Rust".to_string() };
    assert!(matches!(conn.next_local_step("api", &other), Err(DbConnError::CannotConnect)));
    assert!(matches!(conn.next_distributed_step("api", &other), Err(DbConnError::CannotConnect)));
}

#[test]
fn distributed_steps() {
    let mut conn = DatabaseConnection::new();
    match conn.next_distributed_step("redis-cache", &RuntimeKind::Redis).unwrap() {
        DistributedStep::Redis { name } => assert_eq!(name, "redis-cache"),
        _ => panic!("expected a redis step"),
    }
    match conn.next_distributed_step("db-user", &RuntimeKind::CRDB).unwrap() {
        DistributedStep::Cockroach { ca_command } => assert_eq!(
            ca_command,
            "kubectl get configmap -n rivet-service crdb-ca -o jsonpath='{.data.ca\\.crt}' > /tmp/crdb-ca.crt\n"
        ),
        _ => panic!("expected a cockroach step"),
    }
    match conn.next_distributed_step("db-log", &RuntimeKind::ClickHouse).unwrap() {
        DistributedStep::ClickHouse { config_path, config } => {
            assert_eq!(config_path, "/tmp/clickhouse-config.yml");
            assert_eq!(config, "secure: true\n");
        }
        _ => panic!("expected a clickhouse step"),
    }
    conn.add_redis_host("redis-cache".to_string(), make_host_port("redis.example", 6380));
    assert!(matches!(conn.next_distributed_step("redis-cache", &RuntimeKind::Redis), Ok(DistributedStep::Skip)));
}

fn connected() -> DatabaseConnection {
    let mut conn = DatabaseConnection::new();
    conn.set_cockroach_host("127.0.0.1:26000".to_string());
    conn.set_clickhouse_host("127.0.0.1:9000".to_string());
    conn
}

#[test]
fn migrate_inputs_by_runtime() {
    match migrate_inputs(&RuntimeKind::CRDB, ClusterKind::SingleNode).unwrap() {
        MigrateInputs::Cockroach { username_secret, password_secret, needs_cluster_identifier } => {
            assert_eq!(username_secret, vec!["crdb", "username"]);
            assert_eq!(password_secret, vec!["crdb", "password"]);
            assert!(!needs_cluster_identifier);
        }
        _ => panic!("expected cockroach inputs"),
    }
    assert!(matches!(
        migrate_inputs(&RuntimeKind::CRDB, ClusterKind::Distributed),
        Ok(MigrateInputs::Cockroach { needs_cluster_identifier: true, .. })
    ));
    match migrate_inputs(&RuntimeKind::ClickHouse, ClusterKind::Distributed).unwrap() {
        MigrateInputs::ClickHouse { password_secret } => {
            assert_eq!(password_secret, vec!["clickhouse", "users", "bolt", "password"])
        }
        _ => panic!("expected clickhouse inputs"),
    }
    assert!(matches!(migrate_inputs(&RuntimeKind::Redis, ClusterKind::SingleNode), Err(DbConnError::CannotMigrate)));
    let other = RuntimeKind::Other { description: "S3".to_string() };
    assert!(matches!(migrate_inputs(&other, ClusterKind::Distributed), Err(DbConnError::CannotMigrate)));
}

#[test]
fn cockroach_migrate_urls() {
    let conn = connected();
    let single = MigrateSecrets::Cockroach { username: "root".to_string(), password: "pw".to_string(), cluster_identifier: None };
    assert_eq!(
        conn.migrate_db_url("db_user", &single),
        "cockroach://root:pw@127.0.0.1:26000/db_user?sslmode=verify-ca&sslrootcert=/tmp/crdb-ca.crt"
    );
    let distributed = MigrateSecrets::Cockroach {
        username: "root".to_string(),
        password: "pw".to_string(),
        cluster_identifier: Some("rivet-123".to_string()),
    };
    assert_eq!(
        conn.migrate_db_url("db_user", &distributed),
        "cockroach://root:pw@127.0.0.1:26000/rivet-123.db_user?sslmode=verify-ca&sslrootcert=/tmp/crdb-ca.crt"
    );
}

#[test]
fn clickhouse_migrate_url() {
    let conn = connected();
    let secrets = MigrateSecrets::ClickHouse { password: "s3cret".to_string() };
    assert_eq!(
        conn.migrate_db_url("db_job_log", &secrets),
        "clickhouse://127.0.0.1:9000/?database=db_job_log&username=bolt&password=s3cret&x-multi-statement=true&x-migrations-table-engine=ReplicatedMergeTree&secure=true&skip_verify=true"
    );
}

#[test]
fn host_setters_keep_the_rest() {
    let mut conn = DatabaseConnection::new();
    conn.add_redis_host("r".to_string(), local_host(1));
    conn.set_cockroach_host(local_host(2));
    assert_eq!(conn.cockroach_host.as_deref(), Some("127.0.0.1:2"));
    assert_eq!(conn.clickhouse_host, None);
    conn.set_clickhouse_host(local_host(3));
    assert_eq!(conn.clickhouse_host.as_deref(), Some("127.0.0.1:3"));
    assert_eq!(conn.redis_host("r").map(|s| s.as_str()), Some("127.0.0.1:1"));
}

fn entry(name: &str, runtime: RuntimeKind) -> ServiceEntry {
    ServiceEntry { name: name.to_string(), runtime }
}

#[test]
fn connection_run_connects_each_database_once() {
    let services = vec![
        entry("redis-chirp", RuntimeKind::Redis),
        entry("db-user", RuntimeKind::CRDB),
        entry("redis-chirp", RuntimeKind::Redis),
        entry("redis-cache", RuntimeKind::Redis),
        entry("db-team", RuntimeKind::CRDB),
        entry("db-log", RuntimeKind::ClickHouse),
        entry("db-log2", RuntimeKind::ClickHouse),
    ];
    let order = connect_order(&services);
    assert_eq!(order.connects, vec![0, 1, 3, 5]);
    assert_eq!(order.unsupported, None);
}

#[test]
fn connection_run_stops_at_unsupported_service() {
    let services = vec![
        entry("redis-a", RuntimeKind::Redis),
        entry("api", RuntimeKind::Other { description: "Rust".to_string() }),
        entry("redis-b", RuntimeKind::Redis),
    ];
    let order = connect_order(&services);
    assert_eq!(order.connects, vec![0]);
    assert_eq!(order.unsupported, Some(1));
    assert!(connect_order(&Vec::new()).connects.is_empty());
}
