//! The servers of a namespace: one per slot of each configured pool, named
//! and tagged after the namespace, region, pool and version, and addressed
//! on the pool's VLAN.

use vstd::prelude::*;
use vstd::arithmetic::power2::pow2;

use crate::text::{dash, dashed, decimal, decimal_string, digits_value, lemma_decimal_reads_back};
use vstd::set_lib::{lemma_int_range, set_int_range};

verus! {

/// The error of `ipnet::Ipv4Net::new`, carried through opaquely.
#[verifier::external_type_specification]
#[verifier::external_body]
pub struct ExPrefixLenError(ipnet::PrefixLenError);

/// The size of an IPv4 block with the given prefix length.
pub open spec fn block_size(prefix_len: u8) -> nat {
    pow2((32 - prefix_len) as nat)
}

/// The network address of `addr` under the given prefix length.
pub open spec fn network_address(addr: u32, prefix_len: u8) -> int {
    (addr as int) - (addr as int) % (block_size(prefix_len) as int)
}

/// The first usable host address of the block: the network address itself
/// for /31 and /32, the address after it otherwise.
pub open spec fn first_host(addr: u32, prefix_len: u8) -> int {
    if prefix_len < 31 {
        network_address(addr, prefix_len) + 1
    } else {
        network_address(addr, prefix_len)
    }
}

/// The last usable host address of the block: the broadcast address itself
/// for /31 and /32, the address before it otherwise.
pub open spec fn last_host(addr: u32, prefix_len: u8) -> int {
    let broadcast: int = network_address(addr, prefix_len) + block_size(prefix_len) - 1;
    if prefix_len < 31 {
        broadcast - 1
    } else {
        broadcast
    }
}

/// The `n`-th (from zero) host address of the network of `addr`, if the
/// network has that many hosts.
pub open spec fn nth_host(addr: u32, prefix_len: u8, n: nat) -> Option<int> {
    if first_host(addr, prefix_len) + n <= last_host(addr, prefix_len) {
        Some(first_host(addr, prefix_len) + n)
    } else {
        None
    }
}

/// Builds `ipnet::Ipv4Net::new(addr, prefix_len)` and takes the `n`-th
/// element of its `hosts()` iterator. `Ipv4Net::new` fails exactly when the
/// prefix length exceeds 32; `hosts()` runs from the network address to the
/// broadcast address, both left out below /31, and `nth` steps through that
/// range. Addresses are taken and given as their `u32` values.
#[verifier::external_body]
fn ipv4_nth_host(addr: u32, prefix_len: u8, n: usize) -> (res: Result<Option<u32>, ipnet::PrefixLenError>)
    ensures
        res is Err <==> prefix_len > 32,
        res matches Ok(host) ==> match host {
            Some(h) => nth_host(addr, prefix_len, n as nat) == Some(h as int),
            None => nth_host(addr, prefix_len, n as nat) is None,
        },
{
    match ipnet::Ipv4Net::new(addr.into(), prefix_len) {
        Ok(net) => Ok(net.hosts().nth(n).map(u32::from)),
        Err(e) => Err(e),
    }
}

/// A volume that a pool attaches to each of its servers.
pub struct PoolVolume {
    pub id: String,
    pub size: usize,
}

/// A pool of the namespace configuration: `count` servers of one size in
/// one region, at one version, on the network number `netnum`.
pub struct NsPool {
    pub region: String,
    pub pool: String,
    pub version: String,
    pub netnum: usize,
    pub count: usize,
    pub size: String,
    pub volumes: Vec<PoolVolume>,
}

/// The VLAN of a pool kind.
pub struct PoolNetwork {
    pub pool_id: String,
    pub vlan_address: u32,
    pub vlan_prefix_len: u8,
}

/// A volume attached to a server.
pub struct ServerVolume {
    pub size: usize,
}

/// One server of the namespace. Its install script is generated from it
/// by the caller.
pub struct Server {
    pub region_id: String,
    pub pool_id: String,
    pub version_id: String,
    pub index: usize,
    pub name: String,
    pub size: String,
    pub netnum: usize,
    /// The server's address on its pool's VLAN, as a `u32`.
    pub vlan_ip: u32,
    /// Volumes by id, in the order of the pool's configuration.
    pub volumes: Vec<(String, ServerVolume)>,
    pub tags: Vec<String>,
}

/// Why the servers could not be built.
#[derive(Debug, PartialEq, Eq, Structural)]
pub enum ServersError {
    /// A pool that has servers uses a VLAN prefix length above 32.
    PrefixLen,
}

/// The name of server `i` of a pool.
pub open spec fn server_name(ns: Seq<char>, region: Seq<char>, pool: Seq<char>, version: Seq<char>, i: nat) -> Seq<char> {
    dash(dash(dash(dash(ns, region), pool), version), decimal(i))
}

/// The tags given to every server of a pool.
pub open spec fn server_tags(ns: Seq<char>, region: Seq<char>, pool: Seq<char>, version: Seq<char>) -> Seq<Seq<char>> {
    seq![
        ns,
        dash(ns, region),
        dash(ns, pool),
        dash(dash(ns, pool), version),
        dash(dash(ns, region), pool),
        dash(dash(dash(ns, region), pool), version),
    ]
}

/// Whether some listed region has the given id.
pub open spec fn has_region(regions: Seq<String>, id: Seq<char>) -> bool {
    exists|j: int| 0 <= j < regions.len() && (#[trigger] regions[j])@ == id
}

/// Whether `k` is the first network listed for the given pool id.
pub open spec fn is_first_network(nets: Seq<PoolNetwork>, id: Seq<char>, k: int) -> bool {
    &&& 0 <= k < nets.len()
    &&& nets[k].pool_id@ == id
    &&& forall|j: int| 0 <= j < k ==> (#[trigger] nets[j]).pool_id@ != id
}

/// Whether some network is listed for the given pool id.
pub open spec fn has_network(nets: Seq<PoolNetwork>, id: Seq<char>) -> bool {
    exists|j: int| 0 <= j < nets.len() && (#[trigger] nets[j]).pool_id@ == id
}

/// The network that a pool id looks up: the first listed for it.
pub open spec fn network_of(nets: Seq<PoolNetwork>, id: Seq<char>) -> PoolNetwork {
    nets[choose|k: int| is_first_network(nets, id, k)]
}

/// Whether building the servers stops with an error at this pool: it has
/// servers and its VLAN prefix length is above 32.
pub open spec fn pool_fails(nets: Seq<PoolNetwork>, p: NsPool) -> bool {
    p.count > 0 && network_of(nets, p.pool@).vlan_prefix_len > 32
}

/// Whether the VLAN has a host for every server of the pool (host 0 is
/// skipped).
pub open spec fn hosts_available(net: PoolNetwork, count: nat) -> bool {
    forall|i: nat| i < count ==> (#[trigger] nth_host(net.vlan_address, net.vlan_prefix_len, i + 1)) is Some
}

/// Whether the netnum of pool `k` differs from that of every earlier pool.
pub open spec fn netnum_fresh(pools: Seq<NsPool>, k: int) -> bool {
    forall|j: int| 0 <= j < k ==> (#[trigger] pools[j]).netnum != pools[k].netnum
}

/// Whether pools `k..` are processed without a panic: each names a known
/// region and pool, has a nonzero netnum not used before, and (until a pool
/// fails) has a VLAN host for each of its servers.
pub open spec fn builds_without_panic(regions: Seq<String>, nets: Seq<PoolNetwork>, pools: Seq<NsPool>, k: int) -> bool
    decreases pools.len() - k,
{
    if k < 0 || k >= pools.len() {
        true
    } else {
        &&& has_region(regions, pools[k].region@)
        &&& has_network(nets, pools[k].pool@)
        &&& pools[k].netnum > 0
        &&& netnum_fresh(pools, k)
        &&& if pool_fails(nets, pools[k]) {
            true
        } else {
            &&& hosts_available(network_of(nets, pools[k].pool@), pools[k].count as nat)
            &&& builds_without_panic(regions, nets, pools, k + 1)
        }
    }
}

/// Whether no volume id occurs twice in a pool's volumes.
pub open spec fn volume_ids_unique(vols: Seq<PoolVolume>) -> bool {
    forall|a: int, b: int| 0 <= a < vols.len() && 0 <= b < vols.len() && a != b ==> (#[trigger] vols[a]).id@ != (#[trigger] vols[b]).id@
}

/// What would make building the servers panic at a pool.
#[derive(Debug, PartialEq, Eq, Structural)]
pub enum PoolProblem {
    /// The pool's region is not listed.
    MissingRegion,
    /// No network is listed for the pool.
    MissingPool,
    /// The pool's netnum is 0, which is reserved.
    NetnumZero,
    /// An earlier pool has the same netnum.
    NetnumUsed,
    /// The pool's VLAN has too few hosts for its servers.
    NoHostForServer,
}

/// What would make building the servers panic at pool `k`, in the order
/// in which the pool is checked: its region, its network, a netnum of 0, a
/// netnum used before, and (unless building stops with an error there) a
/// host for each of its servers.
pub open spec fn pool_problem(regions: Seq<String>, nets: Seq<PoolNetwork>, pools: Seq<NsPool>, k: int) -> Option<PoolProblem> {
    if !has_region(regions, pools[k].region@) {
        Some(PoolProblem::MissingRegion)
    } else if !has_network(nets, pools[k].pool@) {
        Some(PoolProblem::MissingPool)
    } else if pools[k].netnum == 0 {
        Some(PoolProblem::NetnumZero)
    } else if !netnum_fresh(pools, k) {
        Some(PoolProblem::NetnumUsed)
    } else if !pool_fails(nets, pools[k]) && !hosts_available(network_of(nets, pools[k].pool@), pools[k].count as nat) {
        Some(PoolProblem::NoHostForServer)
    } else {
        None
    }
}

/// The first pool at which building the servers would panic, and why.
pub struct PoolCheck {
    pub pool: usize,
    pub problem: PoolProblem,
}

/// Which server a name holds: the pool index and the slot in that pool.
pub type Slot = (int, int);

/// The servers of pool `p`, slots `0..n`, written over `m`.
pub open spec fn add_pool_servers(ns: Seq<char>, pools: Seq<NsPool>, p: int, n: nat, m: Map<Seq<char>, Slot>) -> Map<Seq<char>, Slot>
    decreases n,
{
    if n == 0 {
        m
    } else {
        let pool = pools[p];
        add_pool_servers(ns, pools, p, (n - 1) as nat, m).insert(
            server_name(ns, pool.region@, pool.pool@, pool.version@, (n - 1) as nat),
            (p, n - 1),
        )
    }
}

/// The slot each server name holds after the first `k` pools: a later server
/// with the same name replaces an earlier one.
pub open spec fn named_slots(ns: Seq<char>, pools: Seq<NsPool>, k: int) -> Map<Seq<char>, Slot>
    decreases k,
{
    if k <= 0 {
        Map::empty()
    } else {
        add_pool_servers(ns, pools, k - 1, pools[k - 1].count as nat, named_slots(ns, pools, k - 1))
    }
}

/// Whether `s` is server `i` of pool `p`, on the network `net`.
pub open spec fn server_matches(s: Server, ns: Seq<char>, p: NsPool, net: PoolNetwork, i: int) -> bool {
    &&& s.region_id@ == p.region@
    &&& s.pool_id@ == p.pool@
    &&& s.version_id@ == p.version@
    &&& s.index == i
    &&& s.name@ == server_name(ns, p.region@, p.pool@, p.version@, i as nat)
    &&& s.size@ == p.size@
    &&& s.netnum == p.netnum
    &&& nth_host(net.vlan_address, net.vlan_prefix_len, (i + 1) as nat) == Some(s.vlan_ip as int)
    &&& s.volumes@.len() == p.volumes@.len()
    &&& forall|j: int| 0 <= j < s.volumes@.len() ==> {
        &&& (#[trigger] s.volumes@[j]).0@ == p.volumes@[j].id@
        &&& s.volumes@[j].1.size == p.volumes@[j].size
    }
    &&& s.tags@.len() == 6
    &&& forall|j: int| 0 <= j < 6 ==> (#[trigger] s.tags@[j])@ == server_tags(ns, p.region@, p.pool@, p.version@)[j]
}

/// Whether no two servers share a name.
pub open spec fn names_unique(v: Seq<Server>) -> bool {
    forall|a: int, b: int| 0 <= a < v.len() && 0 <= b < v.len() && a != b ==> (#[trigger] v[a]).name@ != (#[trigger] v[b]).name@
}

/// Whether some server has the given name.
pub open spec fn has_name(v: Seq<Server>, n: Seq<char>) -> bool {
    exists|j: int| 0 <= j < v.len() && (#[trigger] v[j]).name@ == n
}

/// Whether the servers are exactly those that the slots name, each the
/// server of its slot.
pub open spec fn servers_agree(v: Seq<Server>, ns: Seq<char>, pools: Seq<NsPool>, nets: Seq<PoolNetwork>, slots: Map<Seq<char>, Slot>) -> bool {
    &&& names_unique(v)
    &&& forall|n: Seq<char>| has_name(v, n) <==> #[trigger] slots.contains_key(n)
    &&& forall|j: int| 0 <= j < v.len() ==> {
        let slot = slots[(#[trigger] v[j]).name@];
        &&& 0 <= slot.0 < pools.len()
        &&& server_matches(v[j], ns, pools[slot.0], network_of(nets, pools[slot.0].pool@), slot.1)
    }
}

/// Whether `after` is `before` with `s` put under its name: names stay
/// unique, the names are those of `before` and that of `s`, the server
/// under the name of `s` is `s`, and every other server is one of `before`.
pub open spec fn inserted(before: Seq<Server>, after: Seq<Server>, s: Server) -> bool {
    &&& names_unique(after)
    &&& forall|n: Seq<char>| has_name(after, n) <==> (n == s.name@ || has_name(before, n))
    &&& forall|j: int| 0 <= j < after.len() && (#[trigger] after[j]).name@ == s.name@ ==> after[j] == s
    &&& forall|j: int| 0 <= j < after.len() && (#[trigger] after[j]).name@ != s.name@
        ==> exists|k: int| 0 <= k < before.len() && before[k] == after[j]
}

/// Replacing the server that has the name of `s` by `s` inserts `s`.
proof fn lemma_insert_by_update(before: Seq<Server>, idx: int, s: Server)
    requires
        names_unique(before),
        0 <= idx < before.len(),
        before[idx].name@ == s.name@,
    ensures
        inserted(before, before.update(idx, s), s),
{
    let after = before.update(idx, s);
    assert forall|a: int, b: int| 0 <= a < after.len() && 0 <= b < after.len() && a != b implies
        (#[trigger] after[a]).name@ != (#[trigger] after[b]).name@ by {
        assert(before[a].name@ != before[b].name@);
    }
    assert forall|n: Seq<char>| has_name(after, n) <==> (n == s.name@ || has_name(before, n)) by {
        if n == s.name@ {
            assert(after[idx] == s);
        }
        if has_name(before, n) {
            let k = choose|k: int| 0 <= k < before.len() && (#[trigger] before[k]).name@ == n;
            if k != idx {
                assert(after[k] == before[k]);
            } else {
                assert(after[idx] == s);
            }
        }
        if has_name(after, n) {
            let k = choose|k: int| 0 <= k < after.len() && (#[trigger] after[k]).name@ == n;
            if k != idx {
                assert(before[k] == after[k]);
            }
        }
    }
    assert forall|j: int| 0 <= j < after.len() && (#[trigger] after[j]).name@ == s.name@ implies after[j] == s by {
        if j != idx {
            assert(before[j].name@ != before[idx].name@);
        }
    }
    assert forall|j: int| 0 <= j < after.len() && (#[trigger] after[j]).name@ != s.name@
        implies exists|k: int| 0 <= k < before.len() && before[k] == after[j] by {
        assert(before[j] == after[j]);
    }
}

/// Adding a server whose name is new inserts it.
proof fn lemma_insert_by_push(before: Seq<Server>, s: Server)
    requires
        names_unique(before),
        !has_name(before, s.name@),
    ensures
        inserted(before, before.push(s), s),
{
    let after = before.push(s);
    let last = before.len() as int;
    assert forall|a: int, b: int| 0 <= a < after.len() && 0 <= b < after.len() && a != b implies
        (#[trigger] after[a]).name@ != (#[trigger] after[b]).name@ by {
        if a == last {
            assert(after[b] == before[b]);
        } else if b == last {
            assert(after[a] == before[a]);
        } else {
            assert(after[a] == before[a]);
            assert(after[b] == before[b]);
        }
    }
    assert forall|n: Seq<char>| has_name(after, n) <==> (n == s.name@ || has_name(before, n)) by {
        if n == s.name@ {
            assert(after[last] == s);
        }
        if has_name(before, n) {
            let k = choose|k: int| 0 <= k < before.len() && (#[trigger] before[k]).name@ == n;
            assert(after[k] == before[k]);
        }
        if has_name(after, n) {
            let k = choose|k: int| 0 <= k < after.len() && (#[trigger] after[k]).name@ == n;
            if k != last {
                assert(before[k] == after[k]);
            }
        }
    }
    assert forall|j: int| 0 <= j < after.len() && (#[trigger] after[j]).name@ == s.name@ implies after[j] == s by {
        if j != last {
            assert(before[j] == after[j]);
        }
    }
    assert forall|j: int| 0 <= j < after.len() && (#[trigger] after[j]).name@ != s.name@
        implies exists|k: int| 0 <= k < before.len() && before[k] == after[j] by {
        assert(before[j] == after[j]);
    }
}

/// Puts `s` in place of the server with its name, or adds it.
fn insert_server(v: &mut Vec<Server>, s: Server)
    requires
        names_unique(old(v)@),
    ensures
        inserted(old(v)@, final(v)@, s),
{
    let mut idx: usize = 0;
    while idx < v.len()
        invariant_except_break
            idx <= v@.len(),
            forall|j: int| 0 <= j < idx ==> (#[trigger] v@[j]).name@ != s.name@,
        ensures
            idx <= v@.len(),
            forall|j: int| 0 <= j < idx ==> (#[trigger] v@[j]).name@ != s.name@,
            idx < v@.len() ==> v@[idx as int].name@ == s.name@,
        decreases v@.len() - idx,
    {
        if v[idx].name == s.name {
            break;
        }
        idx = idx + 1;
    }
    let ghost before = v@;
    if idx < v.len() {
        proof {
            lemma_insert_by_update(before, idx as int, s);
        }
        v.set(idx, s);
    } else {
        proof {
            lemma_insert_by_push(before, s);
        }
        v.push(s);
    }
}

/// Server `i` of pool `pool`, on the network `net`.
fn make_server(ns: &str, pool: &NsPool, net: &PoolNetwork, i: usize) -> (res: Result<Server, ServersError>)
    requires
        i < usize::MAX,
        net.vlan_prefix_len <= 32 ==> nth_host(net.vlan_address, net.vlan_prefix_len, (i + 1) as nat) is Some,
    ensures
        res is Err <==> net.vlan_prefix_len > 32,
        res matches Ok(s) ==> server_matches(s, ns@, *pool, *net, i as int),
{
    let vlan_ip = match ipv4_nth_host(net.vlan_address, net.vlan_prefix_len, i + 1) {
        Ok(Some(host)) => host,
        Ok(None) => {
            assert(false);
            return Err(ServersError::PrefixLen);
        },
        Err(_) => {
            return Err(ServersError::PrefixLen);
        },
    };

    let ns_region = dashed(ns, pool.region.as_str());
    let ns_region_pool = dashed(ns_region.as_str(), pool.pool.as_str());
    let ns_region_pool_version = dashed(ns_region_pool.as_str(), pool.version.as_str());
    let slot = decimal_string(i as u64);
    let name = dashed(ns_region_pool_version.as_str(), slot.as_str());

    let mut volumes: Vec<(String, ServerVolume)> = Vec::new();
    let mut j: usize = 0;
    while j < pool.volumes.len()
        invariant
            j <= pool.volumes@.len(),
            volumes@.len() == j,
            forall|jj: int| 0 <= jj < j ==> {
                &&& (#[trigger] volumes@[jj]).0@ == pool.volumes@[jj].id@
                &&& volumes@[jj].1.size == pool.volumes@[jj].size
            },
        decreases pool.volumes@.len() - j,
    {
        volumes.push((pool.volumes[j].id.clone(), ServerVolume { size: pool.volumes[j].size }));
        j = j + 1;
    }

    let ns_pool = dashed(ns, pool.pool.as_str());
    let tags = vec![
        String::from_str(ns),
        dashed(ns, pool.region.as_str()),
        dashed(ns, pool.pool.as_str()),
        dashed(ns_pool.as_str(), pool.version.as_str()),
        dashed(ns_region.as_str(), pool.pool.as_str()),
        dashed(ns_region_pool.as_str(), pool.version.as_str()),
    ];

    let server = Server {
        region_id: pool.region.clone(),
        pool_id: pool.pool.clone(),
        version_id: pool.version.clone(),
        index: i,
        name,
        size: pool.size.clone(),
        netnum: pool.netnum,
        vlan_ip,
        volumes,
        tags,
    };
    assert(server.tags@[0]@ == server_tags(ns@, pool.region@, pool.pool@, pool.version@)[0]);
    Ok(server)
}

/// The first network listed for a pool id is unique.
proof fn lemma_first_network_unique(nets: Seq<PoolNetwork>, id: Seq<char>, k1: int, k2: int)
    requires
        is_first_network(nets, id, k1),
        is_first_network(nets, id, k2),
    ensures
        k1 == k2,
{
    if k1 < k2 {
        assert(nets[k1].pool_id@ != id);
    } else if k2 < k1 {
        assert(nets[k2].pool_id@ != id);
    }
}

/// The index of the network that `id` looks up.
fn find_network(nets: &Vec<PoolNetwork>, id: &String) -> (k: usize)
    requires
        has_network(nets@, id@),
    ensures
        is_first_network(nets@, id@, k as int),
        network_of(nets@, id@) == nets@[k as int],
{
    let mut k: usize = 0;
    while k < nets.len()
        invariant_except_break
            k <= nets@.len(),
            has_network(nets@, id@),
            forall|j: int| 0 <= j < k ==> (#[trigger] nets@[j]).pool_id@ != id@,
        ensures
            k < nets@.len(),
            forall|j: int| 0 <= j < k ==> (#[trigger] nets@[j]).pool_id@ != id@,
            nets@[k as int].pool_id@ == id@,
        decreases nets@.len() - k,
    {
        if nets[k].pool_id == *id {
            break;
        }
        k = k + 1;
    }
    proof {
        assert(is_first_network(nets@, id@, k as int));
        let c = choose|c: int| is_first_network(nets@, id@, c);
        lemma_first_network_unique(nets@, id@, c, k as int);
    }
    k
}

/// Putting server `i` of pool `p` in place keeps the servers in agreement
/// with the slots, now naming that server.
proof fn lemma_insert_agrees(
    before: Seq<Server>,
    after: Seq<Server>,
    s: Server,
    ns: Seq<char>,
    pools: Seq<NsPool>,
    nets: Seq<PoolNetwork>,
    slots: Map<Seq<char>, Slot>,
    p: int,
    i: int,
)
    requires
        servers_agree(before, ns, pools, nets, slots),
        0 <= p < pools.len(),
        server_matches(s, ns, pools[p], network_of(nets, pools[p].pool@), i),
        inserted(before, after, s),
    ensures
        servers_agree(after, ns, pools, nets, slots.insert(s.name@, (p, i))),
{
    let slots2 = slots.insert(s.name@, (p, i));
    assert forall|n: Seq<char>| has_name(after, n) <==> #[trigger] slots2.contains_key(n) by {
        assert(has_name(after, n) <==> (n == s.name@ || has_name(before, n)));
        assert(has_name(before, n) <==> slots.contains_key(n));
    }
    assert forall|j: int| 0 <= j < after.len() implies {
        let slot = slots2[(#[trigger] after[j]).name@];
        &&& 0 <= slot.0 < pools.len()
        &&& server_matches(after[j], ns, pools[slot.0], network_of(nets, pools[slot.0].pool@), slot.1)
    } by {
        if after[j].name@ != s.name@ {
            let k = choose|k: int| 0 <= k < before.len() && before[k] == after[j];
            assert(before[k].name@ == after[j].name@);
        }
    }
}

/// Builds the servers of the namespace `ns` from its pools: server `i` of a
/// pool is named `{ns}-{region}-{pool}-{version}-{i}`, tagged with the
/// namespace and its combinations with region, pool and version, and takes
/// host `i + 1` of the pool's VLAN. A later server with the name of an
/// earlier one replaces it.
pub fn build_servers(ns: &str, ns_pools: &Vec<NsPool>, regions: &Vec<String>, pools: &Vec<PoolNetwork>) -> (res: Result<Vec<Server>, ServersError>)
    requires
        builds_without_panic(regions@, pools@, ns_pools@, 0),
        forall|k: int| 0 <= k < ns_pools@.len() ==> volume_ids_unique((#[trigger] ns_pools@[k]).volumes@),
    ensures
        res is Err <==> exists|k: int| 0 <= k < ns_pools@.len() && #[trigger] pool_fails(pools@, ns_pools@[k]),
        res matches Ok(v) ==> servers_agree(v@, ns@, ns_pools@, pools@, named_slots(ns@, ns_pools@, ns_pools@.len() as int)),
        res matches Ok(v) ==> forall|k: int, i: nat| 0 <= k < ns_pools@.len() && i < ns_pools@[k].count
            ==> #[trigger] has_name(v@, server_name(ns@, ns_pools@[k].region@, ns_pools@[k].pool@, ns_pools@[k].version@, i)),
        res matches Ok(v) ==> (ns_pools@.len() > 0 ==> forall|i: nat| i < ns_pools@.last().count
            ==> #[trigger] holds_slot(v@, ns@, ns_pools@.last(), i)),
        res matches Ok(v) ==> (ns_pools@.len() == 1 ==> v@.len() == ns_pools@[0].count),
{
    let mut servers: Vec<Server> = Vec::new();
    let mut k: usize = 0;
    proof {
        assert(servers_agree(servers@, ns@, ns_pools@, pools@, named_slots(ns@, ns_pools@, 0)));
    }
    while k < ns_pools.len()
        invariant
            k <= ns_pools@.len(),
            builds_without_panic(regions@, pools@, ns_pools@, k as int),
            forall|j: int| 0 <= j < k ==> !(#[trigger] pool_fails(pools@, ns_pools@[j])),
            servers_agree(servers@, ns@, ns_pools@, pools@, named_slots(ns@, ns_pools@, k as int)),
        decreases ns_pools@.len() - k,
    {
        let pool = &ns_pools[k];
        let net_idx = find_network(pools, &pool.pool);
        let net = &pools[net_idx];
        let ghost base = named_slots(ns@, ns_pools@, k as int);
        let mut i: usize = 0;
        while i < pool.count
            invariant
                k < ns_pools@.len(),
                *pool == ns_pools@[k as int],
                *net == network_of(pools@, pool.pool@),
                i <= pool.count,
                pool_fails(pools@, *pool) ==> i == 0,
                !pool_fails(pools@, *pool) ==> hosts_available(*net, pool.count as nat),
                servers_agree(servers@, ns@, ns_pools@, pools@, add_pool_servers(ns@, ns_pools@, k as int, i as nat, base)),
            decreases pool.count - i,
        {
            proof {
                if net.vlan_prefix_len <= 32 {
                    assert(!pool_fails(pools@, *pool));
                    assert(nth_host(net.vlan_address, net.vlan_prefix_len, (i as nat) + 1) is Some);
                }
            }
            let server = match make_server(ns, pool, net, i) {
                Ok(s) => s,
                Err(e) => {
                    assert(pool_fails(pools@, ns_pools@[k as int]));
                    return Err(e);
                },
            };
            let ghost before = servers@;
            let ghost slots = add_pool_servers(ns@, ns_pools@, k as int, i as nat, base);
            insert_server(&mut servers, server);
            proof {
                lemma_insert_agrees(before, servers@, server, ns@, ns_pools@, pools@, slots, k as int, i as int);
                assert(add_pool_servers(ns@, ns_pools@, k as int, (i + 1) as nat, base)
                    == slots.insert(server.name@, (k as int, i as int)));
            }
            i = i + 1;
        }
        proof {
            if pool_fails(pools@, *pool) {
                assert(false);
            }
            assert(named_slots(ns@, ns_pools@, (k + 1) as int)
                == add_pool_servers(ns@, ns_pools@, k as int, pool.count as nat, base));
        }
        k = k + 1;
    }
    proof {
        let n = ns_pools@.len() as int;
        assert forall|k: int, i: nat| 0 <= k < n && i < ns_pools@[k].count
            implies #[trigger] has_name(servers@, server_name(ns@, ns_pools@[k].region@, ns_pools@[k].pool@, ns_pools@[k].version@, i)) by {
            lemma_every_slot_named(servers@, ns@, ns_pools@, pools@, k, i);
        }
        if n > 0 {
            assert forall|i: nat| i < ns_pools@.last().count implies #[trigger] holds_slot(servers@, ns@, ns_pools@.last(), i) by {
                lemma_last_pool_slots(servers@, ns@, ns_pools@, pools@, i);
            }
        }
        if n == 1 {
            lemma_single_pool_servers(servers@, ns@, ns_pools@, pools@);
        }
    }
    Ok(servers)
}

/// Whether some listed region has the id.
fn region_listed(regions: &Vec<String>, id: &String) -> (b: bool)
    ensures
        b == has_region(regions@, id@),
        b <==> exists|j: int| 0 <= j < regions@.len() && (#[trigger] regions@[j])@ == id@,
{
    let mut j: usize = 0;
    while j < regions.len()
        invariant
            j <= regions@.len(),
            forall|i: int| 0 <= i < j ==> (#[trigger] regions@[i])@ != id@,
        decreases regions@.len() - j,
    {
        if regions[j] == *id {
            assert(regions@[j as int]@ == id@);
            return true;
        }
        j = j + 1;
    }
    false
}

/// Whether some network is listed for the pool id.
fn network_listed(nets: &Vec<PoolNetwork>, id: &String) -> (b: bool)
    ensures
        b == has_network(nets@, id@),
        b <==> exists|j: int| 0 <= j < nets@.len() && (#[trigger] nets@[j]).pool_id@ == id@,
{
    let mut j: usize = 0;
    while j < nets.len()
        invariant
            j <= nets@.len(),
            forall|i: int| 0 <= i < j ==> (#[trigger] nets@[i]).pool_id@ != id@,
        decreases nets@.len() - j,
    {
        if nets[j].pool_id == *id {
            assert(nets@[j as int].pool_id@ == id@);
            return true;
        }
        j = j + 1;
    }
    false
}

/// Whether the netnum of pool `k` differs from that of every earlier pool.
fn netnum_unused(pools: &Vec<NsPool>, k: usize) -> (b: bool)
    requires
        k < pools@.len(),
    ensures
        b == netnum_fresh(pools@, k as int),
        !b <==> exists|j: int| 0 <= j < k && (#[trigger] pools@[j]).netnum == pools@[k as int].netnum,
{
    let mut j: usize = 0;
    while j < k
        invariant
            k < pools@.len(),
            j <= k,
            forall|i: int| 0 <= i < j ==> (#[trigger] pools@[i]).netnum != pools@[k as int].netnum,
        decreases k - j,
    {
        if pools[j].netnum == pools[k].netnum {
            return false;
        }
        j = j + 1;
    }
    true
}

/// Finds the first pool at which building the servers would panic, or
/// nothing if it runs without a panic; it checks what
/// [`build_servers`] requires.
pub fn check_pools(ns_pools: &Vec<NsPool>, regions: &Vec<String>, pools: &Vec<PoolNetwork>) -> (res: Option<PoolCheck>)
    ensures
        res is None <==> builds_without_panic(regions@, pools@, ns_pools@, 0),
        res matches Some(c) ==> {
            &&& c.pool < ns_pools@.len()
            &&& pool_problem(regions@, pools@, ns_pools@, c.pool as int) == Some(c.problem)
            &&& (c.problem == PoolProblem::MissingRegion
                <==> forall|j: int| 0 <= j < regions@.len() ==> (#[trigger] regions@[j])@ != ns_pools@[c.pool as int].region@)
            &&& (c.problem == PoolProblem::MissingPool ==>
                forall|j: int| 0 <= j < pools@.len() ==> (#[trigger] pools@[j]).pool_id@ != ns_pools@[c.pool as int].pool@)
            &&& (c.problem == PoolProblem::NetnumUsed ==>
                exists|j: int| 0 <= j < c.pool && (#[trigger] ns_pools@[j]).netnum == ns_pools@[c.pool as int].netnum)
            &&& forall|j: int| 0 <= j < c.pool ==> {
                &&& pool_problem(regions@, pools@, ns_pools@, j) is None
                &&& !pool_fails(pools@, #[trigger] ns_pools@[j])
            }
        },
{
    let mut k: usize = 0;
    while k < ns_pools.len()
        invariant
            k <= ns_pools@.len(),
            builds_without_panic(regions@, pools@, ns_pools@, 0) == builds_without_panic(regions@, pools@, ns_pools@, k as int),
            forall|j: int| 0 <= j < k ==> {
                &&& pool_problem(regions@, pools@, ns_pools@, j) is None
                &&& !pool_fails(pools@, #[trigger] ns_pools@[j])
            },
        decreases ns_pools@.len() - k,
    {
        let pool = &ns_pools[k];
        if !region_listed(regions, &pool.region) {
            return Some(PoolCheck { pool: k, problem: PoolProblem::MissingRegion });
        }
        proof {
            lemma_missing_region_exact(regions@, pools@, ns_pools@, k as int);
        }
        if !network_listed(pools, &pool.pool) {
            return Some(PoolCheck { pool: k, problem: PoolProblem::MissingPool });
        }
        if pool.netnum == 0 {
            return Some(PoolCheck { pool: k, problem: PoolProblem::NetnumZero });
        }
        if !netnum_unused(ns_pools, k) {
            return Some(PoolCheck { pool: k, problem: PoolProblem::NetnumUsed });
        }
        let net = &pools[find_network(pools, &pool.pool)];
        if pool.count > 0 {
            if net.vlan_prefix_len > 32 {
                assert(pool_fails(pools@, *pool));
                return None;
            }
            match ipv4_nth_host(net.vlan_address, net.vlan_prefix_len, pool.count) {
                Ok(Some(_)) => {
                    assert(hosts_available(*net, pool.count as nat));
                },
                _ => {
                    assert(nth_host(net.vlan_address, net.vlan_prefix_len, ((pool.count - 1) as nat) + 1) is None);
                    return Some(PoolCheck { pool: k, problem: PoolProblem::NoHostForServer });
                },
            }
        }
        k = k + 1;
    }
    None
}

/// Law: the servers of one pool take pairwise distinct VLAN addresses.
pub proof fn lemma_pool_hosts_distinct(addr: u32, prefix_len: u8, i: nat, j: nat)
    requires
        i != j,
        nth_host(addr, prefix_len, i + 1) is Some,
        nth_host(addr, prefix_len, j + 1) is Some,
    ensures
        nth_host(addr, prefix_len, i + 1) != nth_host(addr, prefix_len, j + 1),
{
}

/// Law: a server's VLAN address is never the network address nor the first
/// host of the network: the first host is left free.
pub proof fn lemma_first_host_left_free(addr: u32, prefix_len: u8, i: nat)
    requires
        nth_host(addr, prefix_len, i + 1) is Some,
    ensures
        nth_host(addr, prefix_len, i + 1)->0 > first_host(addr, prefix_len),
        nth_host(addr, prefix_len, i + 1)->0 > network_address(addr, prefix_len),
{
}

/// Law: within one pool, distinct slots give distinct server names.
pub proof fn lemma_pool_names_distinct(ns: Seq<char>, region: Seq<char>, pool: Seq<char>, version: Seq<char>, i: nat, j: nat)
    requires
        i != j,
    ensures
        server_name(ns, region, pool, version, i) != server_name(ns, region, pool, version, j),
{
    let prefix = dash(dash(dash(ns, region), pool), version) + seq!['-'];
    assert(server_name(ns, region, pool, version, i) =~= prefix + decimal(i));
    assert(server_name(ns, region, pool, version, j) =~= prefix + decimal(j));
    if server_name(ns, region, pool, version, i) == server_name(ns, region, pool, version, j) {
        assert((prefix + decimal(i)).subrange(prefix.len() as int, (prefix + decimal(i)).len() as int) =~= decimal(i));
        assert((prefix + decimal(j)).subrange(prefix.len() as int, (prefix + decimal(j)).len() as int) =~= decimal(j));
        crate::text::lemma_decimal_injective(i, j);
    }
}

/// A pool reached by a panic-free run has a netnum unused by the pools before it.
proof fn lemma_reached_fresh(regions: Seq<String>, nets: Seq<PoolNetwork>, pools: Seq<NsPool>, k: int, b: int)
    requires
        0 <= k <= b < pools.len(),
        builds_without_panic(regions, nets, pools, k),
        forall|j: int| 0 <= j < pools.len() ==> !(#[trigger] pool_fails(nets, pools[j])),
    ensures
        netnum_fresh(pools, b),
    decreases b - k,
{
    assert(!pool_fails(nets, pools[k]));
    if k < b {
        lemma_reached_fresh(regions, nets, pools, k + 1, b);
    }
}

/// Law: when the servers are built, pools hold pairwise distinct netnums, so
/// servers of different pools never share a netnum.
pub proof fn lemma_netnums_distinct(regions: Seq<String>, nets: Seq<PoolNetwork>, pools: Seq<NsPool>, a: int, b: int)
    requires
        builds_without_panic(regions, nets, pools, 0),
        forall|j: int| 0 <= j < pools.len() ==> !(#[trigger] pool_fails(nets, pools[j])),
        0 <= a < pools.len(),
        0 <= b < pools.len(),
        a != b,
    ensures
        pools[a].netnum != pools[b].netnum,
{
    if a < b {
        lemma_reached_fresh(regions, nets, pools, 0, b);
    } else {
        lemma_reached_fresh(regions, nets, pools, 0, a);
    }
}

/// Law: a pool is reported for a missing region exactly when no listed
/// region, wherever it stands in the list, has the pool's region id.
pub proof fn lemma_missing_region_exact(regions: Seq<String>, nets: Seq<PoolNetwork>, pools: Seq<NsPool>, k: int)
    requires
        0 <= k < pools.len(),
    ensures
        pool_problem(regions, nets, pools, k) == Some(PoolProblem::MissingRegion)
            <==> forall|j: int| 0 <= j < regions.len() ==> (#[trigger] regions[j])@ != pools[k].region@,
{
    if exists|j: int| 0 <= j < regions.len() && (#[trigger] regions[j])@ == pools[k].region@ {
        let j = choose|j: int| 0 <= j < regions.len() && (#[trigger] regions[j])@ == pools[k].region@;
        assert(has_region(regions, pools[k].region@));
    }
}

/// Law: a pool whose region is listed is reported for a missing network
/// exactly when no listed network, wherever it stands, is for the pool's id;
/// and a pool that passes the earlier checks is reported for a used netnum
/// exactly when some earlier pool, not only the one just before it, has the
/// same netnum.
pub proof fn lemma_missing_pool_and_used_netnum_exact(regions: Seq<String>, nets: Seq<PoolNetwork>, pools: Seq<NsPool>, k: int)
    requires
        0 <= k < pools.len(),
        exists|j: int| 0 <= j < regions.len() && (#[trigger] regions[j])@ == pools[k].region@,
    ensures
        pool_problem(regions, nets, pools, k) == Some(PoolProblem::MissingPool)
            <==> forall|j: int| 0 <= j < nets.len() ==> (#[trigger] nets[j]).pool_id@ != pools[k].pool@,
        (exists|j: int| 0 <= j < nets.len() && (#[trigger] nets[j]).pool_id@ == pools[k].pool@) && pools[k].netnum != 0
            ==> (pool_problem(regions, nets, pools, k) == Some(PoolProblem::NetnumUsed)
                <==> exists|j: int| 0 <= j < k && (#[trigger] pools[j]).netnum == pools[k].netnum),
{
    lemma_missing_region_exact(regions, nets, pools, k);
    if exists|j: int| 0 <= j < nets.len() && (#[trigger] nets[j]).pool_id@ == pools[k].pool@ {
        let j = choose|j: int| 0 <= j < nets.len() && (#[trigger] nets[j]).pool_id@ == pools[k].pool@;
        assert(has_network(nets, pools[k].pool@));
    }
    if exists|j: int| 0 <= j < k && (#[trigger] pools[j]).netnum == pools[k].netnum {
        let j = choose|j: int| 0 <= j < k && (#[trigger] pools[j]).netnum == pools[k].netnum;
        assert(!netnum_fresh(pools, k));
    }
}

/// Law: listing more regions in front of the listed ones changes nothing in
/// the check of a pool whose region is listed.
pub proof fn lemma_more_regions_same_check(extra: Seq<String>, regions: Seq<String>, nets: Seq<PoolNetwork>, pools: Seq<NsPool>, k: int, j: int)
    requires
        0 <= k < pools.len(),
        0 <= j < regions.len(),
        regions[j]@ == pools[k].region@,
    ensures
        pool_problem(extra + regions, nets, pools, k) == pool_problem(regions, nets, pools, k),
        pool_problem(regions, nets, pools, k) != Some(PoolProblem::MissingRegion),
{
    let all = extra + regions;
    assert(all[extra.len() + j] == regions[j]);
    assert(has_region(all, pools[k].region@));
    assert(has_region(regions, pools[k].region@));
}

/// Law: a server's name is `{ns}-{region}-{pool}-{version}-` followed by the
/// whole slot number in decimal digits, which read back as the slot.
pub proof fn lemma_server_name_reads_back(ns: Seq<char>, region: Seq<char>, pool: Seq<char>, version: Seq<char>, i: nat)
    ensures
        server_name(ns, region, pool, version, i)
            == ns + seq!['-'] + region + seq!['-'] + pool + seq!['-'] + version + seq!['-'] + decimal(i),
        digits_value(server_name(ns, region, pool, version, i).subrange(
            (ns.len() + region.len() + pool.len() + version.len() + 4) as int,
            server_name(ns, region, pool, version, i).len() as int,
        )) == i,
{
    let prefix = ns + seq!['-'] + region + seq!['-'] + pool + seq!['-'] + version + seq!['-'];
    let name = server_name(ns, region, pool, version, i);
    assert(name =~= prefix + decimal(i));
    assert(name.subrange(prefix.len() as int, name.len() as int) =~= decimal(i));
    lemma_decimal_reads_back(i);
}

/// Adding the servers of a pool keeps every name that was there.
proof fn lemma_add_keeps_keys(ns: Seq<char>, pools: Seq<NsPool>, p: int, n: nat, m: Map<Seq<char>, Slot>, x: Seq<char>)
    requires
        m.contains_key(x),
    ensures
        add_pool_servers(ns, pools, p, n, m).contains_key(x),
    decreases n,
{
    if n > 0 {
        lemma_add_keeps_keys(ns, pools, p, (n - 1) as nat, m, x);
    }
}

/// After adding slots `0..n` of pool `p`, the name of each of these slots
/// holds that slot.
proof fn lemma_add_names_slot(ns: Seq<char>, pools: Seq<NsPool>, p: int, n: nat, m: Map<Seq<char>, Slot>, i: nat)
    requires
        i < n,
    ensures
        add_pool_servers(ns, pools, p, n, m).contains_key(server_name(ns, pools[p].region@, pools[p].pool@, pools[p].version@, i)),
        add_pool_servers(ns, pools, p, n, m)[server_name(ns, pools[p].region@, pools[p].pool@, pools[p].version@, i)] == (p, i as int),
    decreases n,
{
    let pool = pools[p];
    if i < n - 1 {
        lemma_add_names_slot(ns, pools, p, (n - 1) as nat, m, i);
        lemma_pool_names_distinct(ns, pool.region@, pool.pool@, pool.version@, i, (n - 1) as nat);
    }
}

/// Every name added to an empty map is that of a slot `i < n` of pool `p`,
/// and holds that slot.
proof fn lemma_add_only_pool_slots(ns: Seq<char>, pools: Seq<NsPool>, p: int, n: nat, x: Seq<char>)
    requires
        add_pool_servers(ns, pools, p, n, Map::empty()).contains_key(x),
    ensures
        ({
            let slot = add_pool_servers(ns, pools, p, n, Map::empty())[x];
            &&& slot.0 == p
            &&& 0 <= slot.1 < n
            &&& x == server_name(ns, pools[p].region@, pools[p].pool@, pools[p].version@, slot.1 as nat)
        }),
    decreases n,
{
    if n > 0 {
        let pool = pools[p];
        if x != server_name(ns, pool.region@, pool.pool@, pool.version@, (n - 1) as nat) {
            lemma_add_only_pool_slots(ns, pools, p, (n - 1) as nat, x);
        }
    }
}

/// After the first `upto` pools, the name of every slot of each of them is
/// held by some slot.
proof fn lemma_named_slots_has_every_slot(ns: Seq<char>, pools: Seq<NsPool>, upto: int, k: int, i: nat)
    requires
        0 <= k < upto <= pools.len(),
        i < pools[k].count,
    ensures
        named_slots(ns, pools, upto).contains_key(server_name(ns, pools[k].region@, pools[k].pool@, pools[k].version@, i)),
    decreases upto,
{
    let x = server_name(ns, pools[k].region@, pools[k].pool@, pools[k].version@, i);
    let prev = named_slots(ns, pools, upto - 1);
    if k == upto - 1 {
        lemma_add_names_slot(ns, pools, k, pools[k].count as nat, prev, i);
    } else {
        lemma_named_slots_has_every_slot(ns, pools, upto - 1, k, i);
        lemma_add_keeps_keys(ns, pools, upto - 1, pools[upto - 1].count as nat, prev, x);
    }
}

/// Law: the built servers hold, for every pool and every slot `i` below its
/// count, a server named `{ns}-{region}-{pool}-{version}-{i}`.
pub proof fn lemma_every_slot_named(v: Seq<Server>, ns: Seq<char>, pools: Seq<NsPool>, nets: Seq<PoolNetwork>, k: int, i: nat)
    requires
        servers_agree(v, ns, pools, nets, named_slots(ns, pools, pools.len() as int)),
        0 <= k < pools.len(),
        i < pools[k].count,
    ensures
        exists|j: int| 0 <= j < v.len()
            && (#[trigger] v[j]).name@ == server_name(ns, pools[k].region@, pools[k].pool@, pools[k].version@, i),
{
    let x = server_name(ns, pools[k].region@, pools[k].pool@, pools[k].version@, i);
    lemma_named_slots_has_every_slot(ns, pools, pools.len() as int, k, i);
    assert(has_name(v, x));
}

/// Whether some server is server `i` of pool `p`, under its name
/// `{ns}-{region}-{pool}-{version}-{i}`.
pub open spec fn holds_slot(v: Seq<Server>, ns: Seq<char>, p: NsPool, i: nat) -> bool {
    exists|j: int| 0 <= j < v.len() && (#[trigger] v[j]).index == i
        && v[j].name@ == server_name(ns, p.region@, p.pool@, p.version@, i)
}

/// Law: every slot of the last pool keeps its own server in the built
/// servers: server `i` under the name `{ns}-{region}-{pool}-{version}-{i}`.
pub proof fn lemma_last_pool_slots(v: Seq<Server>, ns: Seq<char>, pools: Seq<NsPool>, nets: Seq<PoolNetwork>, i: nat)
    requires
        pools.len() > 0,
        servers_agree(v, ns, pools, nets, named_slots(ns, pools, pools.len() as int)),
        i < pools.last().count,
    ensures
        holds_slot(v, ns, pools.last(), i),
{
    let k = pools.len() - 1;
    let x = server_name(ns, pools[k].region@, pools[k].pool@, pools[k].version@, i);
    lemma_add_names_slot(ns, pools, k, pools[k].count as nat, named_slots(ns, pools, k), i);
    assert(has_name(v, x));
    let j = choose|j: int| 0 <= j < v.len() && (#[trigger] v[j]).name@ == x;
    assert(v[j].index == i);
}

/// Law: the servers built from a single pool are exactly `count` servers
/// with pairwise distinct names; for each slot `i` below the count, one of
/// them is server `i`, named `{ns}-{region}-{pool}-{version}-{i}`.
pub proof fn lemma_single_pool_servers(v: Seq<Server>, ns: Seq<char>, pools: Seq<NsPool>, nets: Seq<PoolNetwork>)
    requires
        pools.len() == 1,
        servers_agree(v, ns, pools, nets, named_slots(ns, pools, 1)),
    ensures
        v.len() == pools[0].count,
        forall|a: int, b: int| 0 <= a < v.len() && 0 <= b < v.len() && a != b
            ==> (#[trigger] v[a]).name@ != (#[trigger] v[b]).name@,
        forall|i: nat| i < pools[0].count ==> #[trigger] holds_slot(v, ns, pools[0], i),
{
    let pool = pools[0];
    let count = pool.count as nat;
    let slots = named_slots(ns, pools, 1);
    assert(named_slots(ns, pools, 0) == Map::<Seq<char>, Slot>::empty());
    assert(slots == add_pool_servers(ns, pools, 0, count, Map::empty()));
    assert forall|j: int| 0 <= j < v.len() implies {
        &&& 0 <= (#[trigger] v[j]).index < count
        &&& v[j].name@ == server_name(ns, pool.region@, pool.pool@, pool.version@, v[j].index as nat)
    } by {
        assert(has_name(v, v[j].name@));
        lemma_add_only_pool_slots(ns, pools, 0, count, v[j].name@);
    }
    assert forall|i: nat| i < pools[0].count implies #[trigger] holds_slot(v, ns, pools[0], i) by {
        let x = server_name(ns, pool.region@, pool.pool@, pool.version@, i);
        lemma_add_names_slot(ns, pools, 0, count, Map::empty(), i);
        assert(has_name(v, x));
        let j = choose|j: int| 0 <= j < v.len() && (#[trigger] v[j]).name@ == x;
        assert(v[j].index == i);
    }
    let idx = Seq::new(v.len(), |j: int| v[j].index as int);
    assert forall|a: int, b: int| 0 <= a < idx.len() && 0 <= b < idx.len() && a != b implies idx[a] != idx[b] by {
        assert(v[a].name@ != v[b].name@);
        assert(0 <= v[a].index < count);
        assert(0 <= v[b].index < count);
    }
    assert(idx.no_duplicates());
    assert forall|x: int| idx.to_set().contains(x) <==> #[trigger] set_int_range(0, count as int).contains(x) by {
        if idx.to_set().contains(x) {
            let j = choose|j: int| 0 <= j < idx.len() && idx[j] == x;
            assert(0 <= v[j].index < count);
        }
        if 0 <= x < count {
            let i = x as nat;
            assert(holds_slot(v, ns, pools[0], i));
            let j = choose|j: int| 0 <= j < v.len() && (#[trigger] v[j]).index == i
                && v[j].name@ == server_name(ns, pools[0].region@, pools[0].pool@, pools[0].version@, i);
            assert(idx[j] == x);
            assert(idx.contains(x));
        }
    }
    assert(idx.to_set() =~= set_int_range(0, count as int));
    idx.unique_seq_to_set();
    lemma_int_range(0, count as int);
}

} // verus!
