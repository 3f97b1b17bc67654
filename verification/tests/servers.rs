use rivet::servers::{build_servers, check_pools, NsPool, PoolNetwork, PoolProblem, PoolVolume, Server, ServersError};

fn ip(a: u8, b: u8, c: u8, d: u8) -> u32 {
    u32::from_be_bytes([a, b, c, d])
}

fn pool(region: &str, pool: &str, version: &str, netnum: usize, count: usize) -> NsPool {
    NsPool {
        region: region.to_string(),
        pool: pool.to_string(),
        version: version.to_string(),
        netnum,
        count,
        size: "g6-standard-2".to_string(),
        volumes: vec![
            PoolVolume { id: "data".to_string(), size: 64 },
            PoolVolume { id: "logs".to_string(), size: 8 },
        ],
    }
}

fn net(pool_id: &str, address: u32, prefix_len: u8) -> PoolNetwork {
    PoolNetwork { pool_id: pool_id.to_string(), vlan_address: address, vlan_prefix_len: prefix_len }
}

fn find<'a>(servers: &'a [Server], name: &str) -> &'a Server {
    servers.iter().find(|s| s.name == name).expect("server missing")
}

#[test]
fn servers_of_one_pool() {
    let servers = build_servers(
        "stg",
        &vec![pool("lnd-atl", "job", "v1", 2, 3)],
        &vec!["lnd-atl".to_string()],
        &vec![net("job", ip(10, 0, 2, 0), 24)],
    )
    .unwrap();
    assert_eq!(servers.len(), 3);
    for i in 0..3usize {
        let s = find(&servers, &format!("stg-lnd-atl-job-v1-{i}"));
        assert_eq!(s.index, i);
        assert_eq!(s.region_id, "lnd-atl");
        assert_eq!(s.pool_id, "job");
        assert_eq!(s.version_id, "v1");
        assert_eq!(s.size, "g6-standard-2");
        assert_eq!(s.netnum, 2);
        // host 0 (10.0.2.1) is left free
        assert_eq!(s.vlan_ip, ip(10, 0, 2, 2 + i as u8));
        assert_eq!(
            s.tags,
            vec!["stg", "stg-lnd-atl", "stg-job", "stg-job-v1", "stg-lnd-atl-job", "stg-lnd-atl-job-v1"]
        );
        assert_eq!(s.volumes.len(), 2);
        assert_eq!(s.volumes[0].0, "data");
        assert_eq!(s.volumes[0].1.size, 64);
        assert_eq!(s.volumes[1].0, "logs");
        assert_eq!(s.volumes[1].1.size, 8);
    }
}

#[test]
fn vlan_address_uses_network_of_address() {
    // the configured address is inside the block; hosts start from its network
    let servers = build_servers(
        "prod",
        &vec![pool("fra", "gg", "v2", 5, 2)],
        &vec!["fra".to_string()],
        &vec![net("gg", ip(10, 5, 7, 200), 16)],
    )
    .unwrap();
    assert_eq!(find(&servers, "prod-fra-gg-v2-0").vlan_ip, ip(10, 5, 0, 2));
    assert_eq!(find(&servers, "prod-fra-gg-v2-1").vlan_ip, ip(10, 5, 0, 3));
}

#[test]
fn prefix_31_includes_network_address() {
    let servers = build_servers(
        "ns",
        &vec![pool("r", "p", "v", 1, 1)],
        &vec!["r".to_string()],
        &vec![net("p", ip(192, 168, 0, 0), 31)],
    )
    .unwrap();
    assert_eq!(servers[0].vlan_ip, ip(192, 168, 0, 1));
}

#[test]
fn several_pools_first_network_wins() {
    let servers = build_servers(
        "ns",
        &vec![pool("r1", "a", "v", 1, 1), pool("r2", "b", "w", 2, 2)],
        &vec!["r1".to_string(), "r2".to_string()],
        &vec![net("b", ip(10, 2, 0, 0), 24), net("a", ip(10, 1, 0, 0), 24), net("a", ip(10, 9, 0, 0), 24)],
    )
    .unwrap();
    assert_eq!(servers.len(), 3);
    assert_eq!(find(&servers, "ns-r1-a-v-0").vlan_ip, ip(10, 1, 0, 2));
    assert_eq!(find(&servers, "ns-r2-b-w-0").vlan_ip, ip(10, 2, 0, 2));
    assert_eq!(find(&servers, "ns-r2-b-w-1").vlan_ip, ip(10, 2, 0, 3));
}

#[test]
fn later_server_replaces_same_name() {
    // "a-b" + "c" and "a" + "b-c" give the same names
    let servers = build_servers(
        "ns",
        &vec![pool("a-b", "c", "v", 1, 1), pool("a", "b-c", "v", 2, 1)],
        &vec!["a-b".to_string(), "a".to_string()],
        &vec![net("c", ip(10, 1, 0, 0), 24), net("b-c", ip(10, 2, 0, 0), 24)],
    )
    .unwrap();
    assert_eq!(servers.len(), 1);
    assert_eq!(servers[0].name, "ns-a-b-c-v-0");
    assert_eq!(servers[0].pool_id, "b-c");
    assert_eq!(servers[0].netnum, 2);
    assert_eq!(servers[0].vlan_ip, ip(10, 2, 0, 2));
}

#[test]
fn empty_pools_give_no_servers() {
    let servers = build_servers("ns", &Vec::new(), &Vec::new(), &Vec::new()).unwrap();
    assert!(servers.is_empty());
    let servers = build_servers(
        "ns",
        &vec![pool("r", "p", "v", 1, 0)],
        &vec!["r".to_string()],
        &vec![net("p", 0, 40)],
    )
    .unwrap();
    assert!(servers.is_empty());
}

#[test]
fn prefix_above_32_is_an_error() {
    let res = build_servers(
        "ns",
        &vec![pool("r", "p", "v", 1, 2)],
        &vec!["r".to_string()],
        &vec![net("p", ip(10, 0, 0, 0), 33)],
    );
    assert!(matches!(res, Err(ServersError::PrefixLen)));
}

#[test]
fn pool_checks() {
    let regions = vec!["r".to_string()];
    let nets = vec![net("p", ip(10, 0, 0, 0), 30), net("q", ip(10, 1, 0, 0), 24)];
    let ok = vec![pool("r", "p", "v", 1, 1), pool("r", "q", "v", 2, 3)];
    assert!(check_pools(&ok, &regions, &nets).is_none());

    let c = check_pools(&vec![pool("r", "q", "v", 2, 1), pool("x", "q", "v", 3, 1)], &regions, &nets).unwrap();
    assert_eq!((c.pool, c.problem), (1, PoolProblem::MissingRegion));
    // a pool missing both its region and its network fails at the region first
    let c = check_pools(&vec![pool("x", "zz", "v", 0, 1)], &regions, &nets).unwrap();
    assert_eq!((c.pool, c.problem), (0, PoolProblem::MissingRegion));
    // the first failing pool is reported
    let c = check_pools(&vec![pool("r", "q", "v", 2, 1), pool("r", "q", "v", 0, 1), pool("x", "q", "v", 3, 1)], &regions, &nets).unwrap();
    assert_eq!((c.pool, c.problem), (1, PoolProblem::NetnumZero));
    let c = check_pools(&vec![pool("r", "zz", "v", 0, 1)], &regions, &nets).unwrap();
    assert_eq!((c.pool, c.problem), (0, PoolProblem::MissingPool));
    let c = check_pools(&vec![pool("r", "q", "v", 0, 1)], &regions, &nets).unwrap();
    assert_eq!((c.pool, c.problem), (0, PoolProblem::NetnumZero));
    let c = check_pools(&vec![pool("r", "q", "v", 4, 1), pool("r", "p", "v", 4, 1)], &regions, &nets).unwrap();
    assert_eq!((c.pool, c.problem), (1, PoolProblem::NetnumUsed));
    // a /30 has two hosts, and host 0 is left free: one server fits, two do not
    let c = check_pools(&vec![pool("r", "p", "v", 1, 2)], &regions, &nets).unwrap();
    assert_eq!((c.pool, c.problem), (0, PoolProblem::NoHostForServer));
    // building stops at a pool with a prefix above 32, so later pools are not checked
    let bad = vec![net("p", 0, 33)];
    assert!(check_pools(&vec![pool("r", "p", "v", 1, 1), pool("x", "y", "v", 0, 1)], &regions, &bad).is_none());
}
