//! Connections from the tooling to a namespace's databases: which services
//! need a connection, the commands and files that prepare each one, the
//! addresses they end up at, and the URLs that migrations use.

use vstd::prelude::*;

use crate::cargo_cli::ClusterKind;
use crate::text::{decimal, push_decimal, views};

verus! {

/// The runtime of a service, as far as connecting to it goes. `Other`
/// carries the description of any other runtime.
pub enum RuntimeKind {
    Redis,
    CRDB,
    ClickHouse,
    Other { description: String },
}

/// A service to connect to.
pub struct ServiceEntry {
    pub name: String,
    pub runtime: RuntimeKind,
}

/// Why a connection or a migration URL cannot be made.
#[derive(Debug, PartialEq, Eq, Structural)]
pub enum DbConnError {
    /// The service's runtime has no database connection.
    CannotConnect,
    /// The service's runtime has no migrations.
    CannotMigrate,
}

/// The addresses of the databases that the tooling has connected to.
pub struct DatabaseConnection {
    /// Redis address (`host:port`) by service name, each name once.
    pub redis_hosts: Vec<(String, String)>,
    pub cockroach_host: Option<String>,
    pub clickhouse_host: Option<String>,
}

/// A port of a Kubernetes service to forward to a local port.
pub struct PortForward {
    pub service: String,
    pub namespace: String,
    pub remote_port: u16,
}

/// What connecting to the next service takes on a single-node cluster.
pub enum LocalStep {
    /// Nothing: the database already has an address.
    Skip,
    /// Copy the CA certificate, forward the port, and record the Redis
    /// address under `name`.
    Redis { name: String, ca_command: String, forward: PortForward },
    /// Copy the CA certificate, forward the port, record the address.
    Cockroach { ca_command: String, forward: PortForward },
    /// Copy the CA certificate, write the client configuration, forward the
    /// port, record the address.
    ClickHouse { ca_command: String, config_path: String, config: String, forward: PortForward },
}

/// What connecting to the next service takes on a distributed cluster.
pub enum DistributedStep {
    /// Nothing: the database already has an address.
    Skip,
    /// Read the Redis address from the Terraform output and record it under
    /// `name`.
    Redis { name: String },
    /// Copy the CA certificate, then read the address from the Terraform
    /// output.
    Cockroach { ca_command: String },
    /// Read the address from the Terraform output, then write the client
    /// configuration.
    ClickHouse { config_path: String, config: String },
}

/// The keys of an association list.
pub open spec fn keys(v: Seq<(String, String)>) -> Seq<Seq<char>> {
    v.map_values(|e: (String, String)| e.0@)
}

/// Whether no key occurs twice.
pub open spec fn keys_unique(v: Seq<(String, String)>) -> bool {
    forall|a: int, b: int| 0 <= a < v.len() && 0 <= b < v.len() && a != b ==> (#[trigger] v[a]).0@ != (#[trigger] v[b]).0@
}

/// The Redis addresses as a map from service name to address.
pub open spec fn host_map(v: Seq<(String, String)>) -> Map<Seq<char>, Seq<char>> {
    Map::new(
        |n: Seq<char>| exists|j: int| 0 <= j < v.len() && (#[trigger] v[j]).0@ == n,
        |n: Seq<char>| v[choose|j: int| 0 <= j < v.len() && (#[trigger] v[j]).0@ == n].1@,
    )
}

/// Whether connecting to a service of this runtime and name needs nothing
/// more: its database already has an address.
pub open spec fn already_connected(conn: DatabaseConnection, name: Seq<char>, runtime: RuntimeKind) -> bool {
    match runtime {
        RuntimeKind::Redis => host_map(conn.redis_hosts@).contains_key(name),
        RuntimeKind::CRDB => conn.cockroach_host is Some,
        RuntimeKind::ClickHouse => conn.clickhouse_host is Some,
        RuntimeKind::Other { .. } => false,
    }
}

/// The command that copies a Redis database's CA certificate on a single node.
pub open spec fn redis_ca_command(name: Seq<char>) -> Seq<char> {
    "kubectl get secret -n "@ + name + " redis-crt -o jsonpath='{.data.ca\\.crt}' |\nbase64 --decode > /tmp/"@ + name + "-ca.crt\n"@
}

/// The command that copies CockroachDB's CA certificate on a single node.
pub open spec fn local_cockroach_ca_command() -> Seq<char> {
    "kubectl get secret -n cockroachdb cockroachdb-ca-secret -o jsonpath='{.data.ca\\.crt}' |\nbase64 --decode > /tmp/crdb-ca.crt\n"@
}

/// The command that copies ClickHouse's CA certificate on a single node.
pub open spec fn local_clickhouse_ca_command() -> Seq<char> {
    "kubectl get secret -n clickhouse clickhouse-crt -o jsonpath='{.data.ca\\.crt}' |\nbase64 --decode > /tmp/clickhouse-ca.crt\n"@
}

/// The ClickHouse client configuration on a single node.
pub open spec fn local_clickhouse_config() -> Seq<char> {
    "secure: true\nopenSSL:\n  client:\n    caConfig: '/tmp/clickhouse-ca.crt'\n"@
}

/// The command that copies CockroachDB's CA certificate on a distributed cluster.
pub open spec fn distributed_cockroach_ca_command() -> Seq<char> {
    "kubectl get configmap -n rivet-service crdb-ca -o jsonpath='{.data.ca\\.crt}' > /tmp/crdb-ca.crt\n"@
}

/// The ClickHouse client configuration on a distributed cluster.
pub open spec fn distributed_clickhouse_config() -> Seq<char> {
    "secure: true\n"@
}

/// The path of the ClickHouse client configuration.
pub open spec fn clickhouse_config_path() -> Seq<char> {
    "/tmp/clickhouse-config.yml"@
}

/// Whether `f` forwards the given service port.
pub open spec fn forwards(f: PortForward, service: Seq<char>, namespace: Seq<char>, remote_port: u16) -> bool {
    f.service@ == service && f.namespace@ == namespace && f.remote_port == remote_port
}

/// `{host}:{port}`.
pub open spec fn host_port(host: Seq<char>, port: u16) -> Seq<char> {
    host + ":"@ + decimal(port as nat)
}

/// The address of a port forwarded to this machine.
pub open spec fn local_address(port: u16) -> Seq<char> {
    host_port("127.0.0.1"@, port)
}

/// `{host}:{port}` as a string.
pub fn make_host_port(host: &str, port: u16) -> (s: String)
    ensures
        s@ == host_port(host@, port),
{
    let mut s = String::from_str(host);
    s.append(":");
    push_decimal(&mut s, port as u64);
    s
}

/// The address of a port forwarded to this machine, `127.0.0.1:{port}`.
pub fn local_host(port: u16) -> (s: String)
    ensures
        s@ == local_address(port),
{
    make_host_port("127.0.0.1", port)
}

fn port_forward(service: &str, namespace: &str, remote_port: u16) -> (f: PortForward)
    ensures
        forwards(f, service@, namespace@, remote_port),
{
    PortForward { service: String::from_str(service), namespace: String::from_str(namespace), remote_port }
}

/// What must be read before a migration URL can be made.
pub enum MigrateInputs {
    /// The CockroachDB user and password secrets, by path, and on a
    /// distributed cluster the cluster identifier from the Terraform output.
    Cockroach { username_secret: Vec<String>, password_secret: Vec<String>, needs_cluster_identifier: bool },
    /// The password secret of the ClickHouse `bolt` user, by path.
    ClickHouse { password_secret: Vec<String> },
}

/// What was read for a migration URL.
pub enum MigrateSecrets {
    Cockroach { username: String, password: String, cluster_identifier: Option<String> },
    ClickHouse { password: String },
}

/// The database address of a CockroachDB database: serverless clusters
/// need the cluster identifier in front of the name.
pub open spec fn cockroach_db_address(db_name: Seq<char>, cluster_identifier: Option<Seq<char>>) -> Seq<char> {
    match cluster_identifier {
        None => db_name,
        Some(c) => c + "."@ + db_name,
    }
}

/// The migration URL of a CockroachDB database.
pub open spec fn cockroach_migrate_url(user: Seq<char>, password: Seq<char>, host: Seq<char>, db_address: Seq<char>) -> Seq<char> {
    "cockroach://"@ + user + ":"@ + password + "@"@ + host + "/"@ + db_address + "?sslmode=verify-ca&sslrootcert=/tmp/crdb-ca.crt"@
}

/// The migration URL of a ClickHouse database.
pub open spec fn clickhouse_migrate_url(host: Seq<char>, db_name: Seq<char>, user: Seq<char>, password: Seq<char>) -> Seq<char> {
    "clickhouse://"@ + host + "/?database="@ + db_name + "&username="@ + user + "&password="@ + password
        + "&x-multi-statement=true&x-migrations-table-engine=ReplicatedMergeTree&secure=true&skip_verify=true"@
}

/// What migrating a database of this runtime needs read first; only
/// CockroachDB and ClickHouse databases have migrations.
pub fn migrate_inputs(runtime: &RuntimeKind, cluster: ClusterKind) -> (res: Result<MigrateInputs, DbConnError>)
    ensures
        res is Err <==> (*runtime is Redis || *runtime is Other),
        res matches Err(e) ==> e == DbConnError::CannotMigrate,
        res matches Ok(inputs) ==> match inputs {
            MigrateInputs::Cockroach { username_secret, password_secret, needs_cluster_identifier } => {
                &&& *runtime is CRDB
                &&& views(username_secret@) == seq!["crdb"@, "username"@]
                &&& views(password_secret@) == seq!["crdb"@, "password"@]
                &&& needs_cluster_identifier == (cluster == ClusterKind::Distributed)
            },
            MigrateInputs::ClickHouse { password_secret } => {
                &&& *runtime is ClickHouse
                &&& views(password_secret@) == seq!["clickhouse"@, "users"@, "bolt"@, "password"@]
            },
        },
{
    match runtime {
        RuntimeKind::CRDB => {
            let username_secret = vec![String::from_str("crdb"), String::from_str("username")];
            let password_secret = vec![String::from_str("crdb"), String::from_str("password")];
            assert(views(username_secret@) =~= seq!["crdb"@, "username"@]);
            assert(views(password_secret@) =~= seq!["crdb"@, "password"@]);
            let needs_cluster_identifier = match cluster {
                ClusterKind::SingleNode => false,
                ClusterKind::Distributed => true,
            };
            Ok(MigrateInputs::Cockroach { username_secret, password_secret, needs_cluster_identifier })
        },
        RuntimeKind::ClickHouse => {
            let password_secret = vec![
                String::from_str("clickhouse"),
                String::from_str("users"),
                String::from_str("bolt"),
                String::from_str("password"),
            ];
            assert(views(password_secret@) =~= seq!["clickhouse"@, "users"@, "bolt"@, "password"@]);
            Ok(MigrateInputs::ClickHouse { password_secret })
        },
        _ => Err(DbConnError::CannotMigrate),
    }
}

/// Whether two services use the same database: Redis services of one
/// name, or any two CockroachDB, or any two ClickHouse services.
pub open spec fn same_database(a: ServiceEntry, b: ServiceEntry) -> bool {
    match (a.runtime, b.runtime) {
        (RuntimeKind::Redis, RuntimeKind::Redis) => a.name@ == b.name@,
        (RuntimeKind::CRDB, RuntimeKind::CRDB) => true,
        (RuntimeKind::ClickHouse, RuntimeKind::ClickHouse) => true,
        _ => false,
    }
}

/// Whether service `k` is the first of its database: the one whose step
/// connects to it.
pub open spec fn first_of_database(services: Seq<ServiceEntry>, k: int) -> bool {
    &&& !(services[k].runtime is Other)
    &&& forall|j: int| 0 <= j < k ==> !same_database(#[trigger] services[j], services[k])
}

/// Whether every one of the first `k` services has a database.
pub open spec fn supported_upto(services: Seq<ServiceEntry>, k: int) -> bool {
    forall|j: int| 0 <= j < k ==> !((#[trigger] services[j]).runtime is Other)
}

/// The services among the first `k` whose steps connect to a database, in
/// order.
pub open spec fn connect_indices(services: Seq<ServiceEntry>, k: int) -> Seq<int>
    decreases k,
{
    if k <= 0 {
        Seq::empty()
    } else if first_of_database(services, k - 1) {
        connect_indices(services, k - 1).push(k - 1)
    } else {
        connect_indices(services, k - 1)
    }
}

/// The services whose steps connect, in order, and the first service that
/// has no database, at which connecting stops with an error.
pub struct ConnectOrder {
    pub connects: Vec<usize>,
    pub unsupported: Option<usize>,
}

/// The end of a connection run: the first unsupported service, or all.
pub open spec fn run_end(services: Seq<ServiceEntry>, unsupported: Option<usize>) -> int {
    match unsupported {
        Some(u) => u as int,
        None => services.len() as int,
    }
}

/// Whether the two services use the same database.
fn same_database_exec(a: &ServiceEntry, b: &ServiceEntry) -> (r: bool)
    ensures
        r == same_database(*a, *b),
{
    match (&a.runtime, &b.runtime) {
        (RuntimeKind::Redis, RuntimeKind::Redis) => a.name == b.name,
        (RuntimeKind::CRDB, RuntimeKind::CRDB) => true,
        (RuntimeKind::ClickHouse, RuntimeKind::ClickHouse) => true,
        _ => false,
    }
}

/// Which services a connection run connects to, in order, and where it
/// stops: each database is connected once, at its first service, and the
/// run stops at the first service without a database.
pub fn connect_order(services: &Vec<ServiceEntry>) -> (order: ConnectOrder)
    ensures
        match order.unsupported {
            Some(u) => u < services@.len() && services@[u as int].runtime is Other && supported_upto(services@, u as int),
            None => supported_upto(services@, services@.len() as int),
        },
        order.connects@.len() == connect_indices(services@, run_end(services@, order.unsupported)).len(),
        forall|i: int| 0 <= i < order.connects@.len() ==>
            #[trigger] order.connects@[i] as int == connect_indices(services@, run_end(services@, order.unsupported))[i],
{
    let mut connects: Vec<usize> = Vec::new();
    let mut k: usize = 0;
    while k < services.len()
        invariant
            k <= services@.len(),
            supported_upto(services@, k as int),
            connects@.len() == connect_indices(services@, k as int).len(),
            forall|i: int| 0 <= i < connects@.len() ==> #[trigger] connects@[i] as int == connect_indices(services@, k as int)[i],
        decreases services@.len() - k,
    {
        if let RuntimeKind::Other { .. } = services[k].runtime {
            return ConnectOrder { connects, unsupported: Some(k) };
        }
        let mut first = true;
        let mut j: usize = 0;
        while j < k
            invariant
                k < services@.len(),
                j <= k,
                first == forall|i: int| 0 <= i < j ==> !same_database(#[trigger] services@[i], services@[k as int]),
            decreases k - j,
        {
            if same_database_exec(&services[j], &services[k]) {
                first = false;
            }
            j = j + 1;
        }
        assert(first == first_of_database(services@, k as int));
        let ghost before = connects@;
        if first {
            connects.push(k);
        }
        proof {
            let idx = connect_indices(services@, (k + 1) as int);
            assert forall|i: int| 0 <= i < connects@.len() implies #[trigger] connects@[i] as int == idx[i] by {
                if i < before.len() {
                    assert(connects@[i] == before[i]);
                }
            }
        }
        k = k + 1;
    }
    ConnectOrder { connects, unsupported: None }
}

/// The services that connect lie in range, in increasing order, and each is
/// the first of its database.
proof fn lemma_connect_indices_shape(services: Seq<ServiceEntry>, k: int)
    requires
        0 <= k <= services.len(),
    ensures
        forall|i: int| 0 <= i < connect_indices(services, k).len() ==> {
            &&& 0 <= #[trigger] connect_indices(services, k)[i] < k
            &&& first_of_database(services, connect_indices(services, k)[i])
        },
        forall|a: int, b: int| 0 <= a < b < connect_indices(services, k).len() ==>
            #[trigger] connect_indices(services, k)[a] < #[trigger] connect_indices(services, k)[b],
    decreases k,
{
    if k > 0 {
        lemma_connect_indices_shape(services, k - 1);
        let prev = connect_indices(services, k - 1);
        let cur = connect_indices(services, k);
        if first_of_database(services, k - 1) {
            assert(cur == prev.push(k - 1));
            assert forall|i: int| 0 <= i < cur.len() implies {
                &&& 0 <= #[trigger] cur[i] < k
                &&& first_of_database(services, cur[i])
            } by {
                if i < prev.len() {
                    assert(cur[i] == prev[i]);
                }
            }
            assert forall|a: int, b: int| 0 <= a < b < cur.len() implies #[trigger] cur[a] < #[trigger] cur[b] by {
                assert(cur[a] == prev[a]);
                if b < prev.len() {
                    assert(cur[b] == prev[b]);
                }
            }
        } else {
            assert(cur == prev);
        }
    }
}

/// Law: a connection run connects to each database at most once: no two
/// services that it connects use the same database.
pub proof fn lemma_one_connection_per_database(services: Seq<ServiceEntry>, k: int, a: int, b: int)
    requires
        0 <= k <= services.len(),
        0 <= a < connect_indices(services, k).len(),
        0 <= b < connect_indices(services, k).len(),
        a != b,
    ensures
        !same_database(services[connect_indices(services, k)[a]], services[connect_indices(services, k)[b]]),
{
    lemma_connect_indices_shape(services, k);
    let idx = connect_indices(services, k);
    if a < b {
        assert(idx[a] < idx[b]);
        assert(first_of_database(services, idx[b]));
        assert(!same_database(services[idx[a]], services[idx[b]]));
    } else {
        assert(idx[b] < idx[a]);
        assert(first_of_database(services, idx[a]));
        assert(!same_database(services[idx[b]], services[idx[a]]));
    }
}

/// Law: a connection run connects to the database of every service it
/// passes: some service that it connects uses the same database.
pub proof fn lemma_every_database_connected(services: Seq<ServiceEntry>, k: int, j: int)
    requires
        0 <= j < k <= services.len(),
        supported_upto(services, k),
    ensures
        exists|i: int| 0 <= i < connect_indices(services, k).len()
            && same_database(services[#[trigger] connect_indices(services, k)[i]], services[j]),
    decreases j,
{
    assert(!(services[j].runtime is Other));
    if first_of_database(services, j) {
        lemma_first_listed(services, j, k);
    } else {
        let j2 = choose|j2: int| 0 <= j2 < j && same_database(#[trigger] services[j2], services[j]);
        lemma_every_database_connected(services, k, j2);
        let i = choose|i: int| 0 <= i < connect_indices(services, k).len()
            && same_database(services[#[trigger] connect_indices(services, k)[i]], services[j2]);
        assert(same_database(services[connect_indices(services, k)[i]], services[j]));
    }
}

/// A service that is the first of its database is among those that connect.
proof fn lemma_first_listed(services: Seq<ServiceEntry>, j: int, k: int)
    requires
        0 <= j < k <= services.len(),
        first_of_database(services, j),
    ensures
        exists|i: int| 0 <= i < connect_indices(services, k).len()
            && same_database(services[#[trigger] connect_indices(services, k)[i]], services[j]),
    decreases k,
{
    if k - 1 == j {
        let idx = connect_indices(services, k);
        assert(idx[idx.len() - 1] == j);
        assert(same_database(services[j], services[j]));
    } else {
        lemma_first_listed(services, j, k - 1);
        let i = choose|i: int| 0 <= i < connect_indices(services, k - 1).len()
            && same_database(services[#[trigger] connect_indices(services, k - 1)[i]], services[j]);
        assert(connect_indices(services, k)[i] == connect_indices(services, k - 1)[i]);
    }
}

/// Law: each database is connected to at most once. Once a Redis service
/// name has an address, every later service of that name needs nothing
/// more; the same holds of CockroachDB and ClickHouse once theirs is set.
pub proof fn lemma_connected_once(before: DatabaseConnection, after: DatabaseConnection, name: Seq<char>, host: Seq<char>)
    requires
        host_map(after.redis_hosts@) == host_map(before.redis_hosts@).insert(name, host),
    ensures
        already_connected(after, name, RuntimeKind::Redis),
        after.cockroach_host is Some ==> already_connected(after, name, RuntimeKind::CRDB),
        after.clickhouse_host is Some ==> already_connected(after, name, RuntimeKind::ClickHouse),
{
}

impl DatabaseConnection {
    /// Whether each Redis service name has at most one address.
    pub open spec fn wf(&self) -> bool {
        keys_unique(self.redis_hosts@)
    }

    /// No addresses yet.
    pub fn new() -> (conn: Self)
        ensures
            conn.wf(),
            conn.redis_hosts@.len() == 0,
            conn.cockroach_host is None,
            conn.clickhouse_host is None,
    {
        DatabaseConnection { redis_hosts: Vec::new(), cockroach_host: None, clickhouse_host: None }
    }

    /// Whether the Redis service `name` has an address.
    pub fn has_redis_host(&self, name: &str) -> (b: bool)
        ensures
            b == host_map(self.redis_hosts@).contains_key(name@),
    {
        let key = String::from_str(name);
        let mut i: usize = 0;
        while i < self.redis_hosts.len()
            invariant
                i <= self.redis_hosts@.len(),
                key@ == name@,
                forall|j: int| 0 <= j < i ==> (#[trigger] self.redis_hosts@[j]).0@ != name@,
            decreases self.redis_hosts@.len() - i,
        {
            if self.redis_hosts[i].0 == key {
                assert(self.redis_hosts@[i as int].0@ == name@);
                return true;
            }
            i = i + 1;
        }
        false
    }

    /// The address of the Redis service `name`, if it has one.
    pub fn redis_host(&self, name: &str) -> (res: Option<&String>)
        requires
            self.wf(),
        ensures
            match res {
                Some(h) => host_map(self.redis_hosts@).contains_key(name@) && host_map(self.redis_hosts@)[name@] == h@,
                None => !host_map(self.redis_hosts@).contains_key(name@),
            },
    {
        let key = String::from_str(name);
        let mut i: usize = 0;
        while i < self.redis_hosts.len()
            invariant
                self.wf(),
                i <= self.redis_hosts@.len(),
                key@ == name@,
                forall|j: int| 0 <= j < i ==> (#[trigger] self.redis_hosts@[j]).0@ != name@,
            decreases self.redis_hosts@.len() - i,
        {
            if self.redis_hosts[i].0 == key {
                proof {
                    let v = self.redis_hosts@;
                    assert(v[i as int].0@ == name@);
                    let c = choose|j: int| 0 <= j < v.len() && (#[trigger] v[j]).0@ == name@;
                    assert(c == i);
                }
                return Some(&self.redis_hosts[i].1);
            }
            i = i + 1;
        }
        None
    }

    /// Records the address of the Redis service `name`, which has none yet.
    pub fn add_redis_host(&mut self, name: String, host: String)
        requires
            old(self).wf(),
            !host_map(old(self).redis_hosts@).contains_key(name@),
        ensures
            final(self).wf(),
            host_map(final(self).redis_hosts@) == host_map(old(self).redis_hosts@).insert(name@, host@),
            final(self).cockroach_host == old(self).cockroach_host,
            final(self).clickhouse_host == old(self).clickhouse_host,
    {
        let ghost before = self.redis_hosts@;
        let ghost n = name@;
        let ghost h = host@;
        self.redis_hosts.push((name, host));
        proof {
            let after = self.redis_hosts@;
            assert forall|a: int, b: int| 0 <= a < after.len() && 0 <= b < after.len() && a != b implies
                (#[trigger] after[a]).0@ != (#[trigger] after[b]).0@ by {
                if a == before.len() {
                    assert(after[b] == before[b]);
                } else if b == before.len() {
                    assert(after[a] == before[a]);
                } else {
                    assert(after[a] == before[a]);
                    assert(after[b] == before[b]);
                }
            }
            let m0 = host_map(before);
            let m1 = host_map(after);
            assert forall|k: Seq<char>| m1.contains_key(k) <==> m0.insert(n, h).contains_key(k) by {
                if m0.contains_key(k) {
                    let j = choose|j: int| 0 <= j < before.len() && (#[trigger] before[j]).0@ == k;
                    assert(after[j] == before[j]);
                }
                if k == n {
                    assert(after[before.len() as int].0@ == n);
                }
                if m1.contains_key(k) {
                    let j = choose|j: int| 0 <= j < after.len() && (#[trigger] after[j]).0@ == k;
                    if j < before.len() {
                        assert(after[j] == before[j]);
                    }
                }
            }
            assert forall|k: Seq<char>| #[trigger] m1.contains_key(k) implies m1[k] == m0.insert(n, h)[k] by {
                let j = choose|j: int| 0 <= j < after.len() && (#[trigger] after[j]).0@ == k;
                if k == n {
                    assert(after[before.len() as int].0@ == n);
                    assert(j == before.len());
                } else {
                    assert(j < before.len());
                    assert(after[j] == before[j]);
                    let j0 = choose|j0: int| 0 <= j0 < before.len() && (#[trigger] before[j0]).0@ == k;
                    assert(after[j0] == before[j0]);
                    assert(j0 == j);
                }
            }
            assert(m1 =~= m0.insert(n, h));
        }
    }

    /// Records the address of CockroachDB.
    pub fn set_cockroach_host(&mut self, host: String)
        ensures
            final(self).cockroach_host == Some(host),
            final(self).redis_hosts == old(self).redis_hosts,
            final(self).clickhouse_host == old(self).clickhouse_host,
    {
        self.cockroach_host = Some(host);
    }

    /// Records the address of ClickHouse.
    pub fn set_clickhouse_host(&mut self, host: String)
        ensures
            final(self).clickhouse_host == Some(host),
            final(self).redis_hosts == old(self).redis_hosts,
            final(self).cockroach_host == old(self).cockroach_host,
    {
        self.clickhouse_host = Some(host);
    }

    /// The URL that migrations of a database use, through the address that
    /// this connection recorded for it and what was read as
    /// [`migrate_inputs`] asked.
    pub fn migrate_db_url(&self, db_name: &str, secrets: &MigrateSecrets) -> (url: String)
        requires
            secrets is Cockroach ==> self.cockroach_host is Some,
            secrets is ClickHouse ==> self.clickhouse_host is Some,
        ensures
            match secrets {
                MigrateSecrets::Cockroach { username, password, cluster_identifier } => url@ == cockroach_migrate_url(
                    username@,
                    password@,
                    self.cockroach_host->0@,
                    cockroach_db_address(db_name@, match cluster_identifier {
                        Some(c) => Some(c@),
                        None => None,
                    }),
                ),
                MigrateSecrets::ClickHouse { password } => url@ == clickhouse_migrate_url(
                    self.clickhouse_host->0@,
                    db_name@,
                    "bolt"@,
                    password@,
                ),
            },
    {
        match secrets {
            MigrateSecrets::Cockroach { username, password, cluster_identifier } => {
                let host = match &self.cockroach_host {
                    Some(h) => h,
                    None => {
                        assert(false);
                        return String::new();
                    },
                };
                let db_address = match cluster_identifier {
                    None => String::from_str(db_name),
                    Some(c) => {
                        let mut a = c.clone();
                        a.append(".");
                        a.append(db_name);
                        a
                    },
                };
                let mut url = String::from_str("cockroach://");
                url.append(username.as_str());
                url.append(":");
                url.append(password.as_str());
                url.append("@");
                url.append(host.as_str());
                url.append("/");
                url.append(db_address.as_str());
                url.append("?sslmode=verify-ca&sslrootcert=/tmp/crdb-ca.crt");
                url
            },
            MigrateSecrets::ClickHouse { password } => {
                let host = match &self.clickhouse_host {
                    Some(h) => h,
                    None => {
                        assert(false);
                        return String::new();
                    },
                };
                let mut url = String::from_str("clickhouse://");
                url.append(host.as_str());
                url.append("/?database=");
                url.append(db_name);
                url.append("&username=");
                url.append("bolt");
                url.append("&password=");
                url.append(password.as_str());
                url.append("&x-multi-statement=true&x-migrations-table-engine=ReplicatedMergeTree&secure=true&skip_verify=true");
                url
            },
        }
    }

    /// The next step of connecting to a service on a single-node cluster.
    pub fn next_local_step(&self, name: &str, runtime: &RuntimeKind) -> (res: Result<LocalStep, DbConnError>)
        ensures
            res is Err <==> runtime is Other,
            res matches Err(e) ==> e == DbConnError::CannotConnect,
            res matches Ok(step) ==> match step {
                LocalStep::Skip => already_connected(*self, name@, *runtime),
                LocalStep::Redis { name: n, ca_command, forward } => {
                    &&& *runtime is Redis
                    &&& !already_connected(*self, name@, *runtime)
                    &&& n@ == name@
                    &&& ca_command@ == redis_ca_command(name@)
                    &&& forwards(forward, "redis-master"@, name@, 6379)
                },
                LocalStep::Cockroach { ca_command, forward } => {
                    &&& *runtime is CRDB
                    &&& !already_connected(*self, name@, *runtime)
                    &&& ca_command@ == local_cockroach_ca_command()
                    &&& forwards(forward, "cockroachdb"@, "cockroachdb"@, 26257)
                },
                LocalStep::ClickHouse { ca_command, config_path, config, forward } => {
                    &&& *runtime is ClickHouse
                    &&& !already_connected(*self, name@, *runtime)
                    &&& ca_command@ == local_clickhouse_ca_command()
                    &&& config_path@ == clickhouse_config_path()
                    &&& config@ == local_clickhouse_config()
                    &&& forwards(forward, "clickhouse"@, "clickhouse"@, 9440)
                },
            },
    {
        match runtime {
            RuntimeKind::Redis => {
                if self.has_redis_host(name) {
                    Ok(LocalStep::Skip)
                } else {
                    let mut cmd = String::from_str("kubectl get secret -n ");
                    cmd.append(name);
                    cmd.append(" redis-crt -o jsonpath='{.data.ca\\.crt}' |\nbase64 --decode > /tmp/");
                    cmd.append(name);
                    cmd.append("-ca.crt\n");
                    Ok(LocalStep::Redis {
                        name: String::from_str(name),
                        ca_command: cmd,
                        forward: port_forward("redis-master", name, 6379),
                    })
                }
            },
            RuntimeKind::CRDB => {
                if self.cockroach_host.is_some() {
                    Ok(LocalStep::Skip)
                } else {
                    Ok(LocalStep::Cockroach {
                        ca_command: String::from_str("kubectl get secret -n cockroachdb cockroachdb-ca-secret -o jsonpath='{.data.ca\\.crt}' |\nbase64 --decode > /tmp/crdb-ca.crt\n"),
                        forward: port_forward("cockroachdb", "cockroachdb", 26257),
                    })
                }
            },
            RuntimeKind::ClickHouse => {
                if self.clickhouse_host.is_some() {
                    Ok(LocalStep::Skip)
                } else {
                    Ok(LocalStep::ClickHouse {
                        ca_command: String::from_str("kubectl get secret -n clickhouse clickhouse-crt -o jsonpath='{.data.ca\\.crt}' |\nbase64 --decode > /tmp/clickhouse-ca.crt\n"),
                        config_path: String::from_str("/tmp/clickhouse-config.yml"),
                        config: String::from_str("secure: true\nopenSSL:\n  client:\n    caConfig: '/tmp/clickhouse-ca.crt'\n"),
                        forward: port_forward("clickhouse", "clickhouse", 9440),
                    })
                }
            },
            RuntimeKind::Other { .. } => Err(DbConnError::CannotConnect),
        }
    }

    /// The next step of connecting to a service on a distributed cluster.
    pub fn next_distributed_step(&self, name: &str, runtime: &RuntimeKind) -> (res: Result<DistributedStep, DbConnError>)
        ensures
            res is Err <==> runtime is Other,
            res matches Err(e) ==> e == DbConnError::CannotConnect,
            res matches Ok(step) ==> match step {
                DistributedStep::Skip => already_connected(*self, name@, *runtime),
                DistributedStep::Redis { name: n } => {
                    &&& *runtime is Redis
                    &&& !already_connected(*self, name@, *runtime)
                    &&& n@ == name@
                },
                DistributedStep::Cockroach { ca_command } => {
                    &&& *runtime is CRDB
                    &&& !already_connected(*self, name@, *runtime)
                    &&& ca_command@ == distributed_cockroach_ca_command()
                },
                DistributedStep::ClickHouse { config_path, config } => {
                    &&& *runtime is ClickHouse
                    &&& !already_connected(*self, name@, *runtime)
                    &&& config_path@ == clickhouse_config_path()
                    &&& config@ == distributed_clickhouse_config()
                },
            },
    {
        match runtime {
            RuntimeKind::Redis => {
                if self.has_redis_host(name) {
                    Ok(DistributedStep::Skip)
                } else {
                    Ok(DistributedStep::Redis { name: String::from_str(name) })
                }
            },
            RuntimeKind::CRDB => {
                if self.cockroach_host.is_some() {
                    Ok(DistributedStep::Skip)
                } else {
                    Ok(DistributedStep::Cockroach {
                        ca_command: String::from_str("kubectl get configmap -n rivet-service crdb-ca -o jsonpath='{.data.ca\\.crt}' > /tmp/crdb-ca.crt\n"),
                    })
                }
            },
            RuntimeKind::ClickHouse => {
                if self.clickhouse_host.is_some() {
                    Ok(DistributedStep::Skip)
                } else {
                    Ok(DistributedStep::ClickHouse {
                        config_path: String::from_str("/tmp/clickhouse-config.yml"),
                        config: String::from_str("secure: true\n"),
                    })
                }
            },
            RuntimeKind::Other { .. } => Err(DbConnError::CannotConnect),
        }
    }
}

} // verus!
