//! Mining pools: what a miner reports about its pools, and the pool groups a
//! caller writes to it.
use vstd::prelude::*;
use crate::json::{Json, JsonV, entries_view, entry_push, json_object, json_string};

verus! {

/// A pool endpoint address, kept as the text the firmware reports or accepts
/// (scheme, host, port and an optional Stratum V2 key).
#[derive(Debug)]
pub struct PoolURL {
    text: String,
}

impl View for PoolURL {
    type V = Seq<char>;

    closed spec fn view(&self) -> Seq<char> {
        self.text@
    }
}

impl PoolURL {
    /// The address written as text.
    pub fn new(text: String) -> (r: PoolURL)
        ensures
            r@ == text@,
    {
        PoolURL { text }
    }

    /// The address as text.
    pub fn to_text(&self) -> (r: String)
        ensures
            r@ == self@,
    {
        self.text.clone()
    }

    /// The address as a borrowed text.
    pub fn as_text(&self) -> (r: &str)
        ensures
            r@ == self@,
    {
        self.text.as_str()
    }

    /// A copy of this address.
    pub fn duplicate(&self) -> (r: PoolURL)
        ensures
            r@ == self@,
    {
        PoolURL { text: self.text.clone() }
    }
}

/// A writable mining pool endpoint.
#[derive(Debug)]
pub struct PoolConfig {
    /// Pool URL including scheme, host, port, and optional Stratum V2 pubkey.
    pub url: PoolURL,
    /// Worker username sent to the pool.
    pub username: String,
    /// Worker password sent to the pool.
    pub password: String,
}

/// The value of a [`PoolConfig`].
pub struct PoolConfigV {
    pub url: Seq<char>,
    pub username: Seq<char>,
    pub password: Seq<char>,
}

impl View for PoolConfig {
    type V = PoolConfigV;

    open spec fn view(&self) -> PoolConfigV {
        PoolConfigV { url: self.url@, username: self.username@, password: self.password@ }
    }
}

impl PoolConfig {
    /// A copy of this pool.
    pub fn duplicate(&self) -> (r: PoolConfig)
        ensures
            r@ == self@,
    {
        PoolConfig {
            url: self.url.duplicate(),
            username: self.username.clone(),
            password: self.password.clone(),
        }
    }
}

/// The values of a list of pools.
pub open spec fn pool_configs_view(pools: Seq<PoolConfig>) -> Seq<PoolConfigV> {
    pools.map_values(|p: PoolConfig| p@)
}

/// A writable group of mining pools.
///
/// Some firmwares support multiple pool groups with quota-based selection. For
/// simpler firmwares, use one group named `"default"` with quota `1`.
#[derive(Debug)]
pub struct PoolGroupConfig {
    /// Pool group name.
    pub name: String,
    /// Pool group quota or priority weight.
    pub quota: u32,
    /// Pools in this group.
    pub pools: Vec<PoolConfig>,
}

/// The value of a [`PoolGroupConfig`].
pub struct PoolGroupConfigV {
    pub name: Seq<char>,
    pub quota: u32,
    pub pools: Seq<PoolConfigV>,
}

impl View for PoolGroupConfig {
    type V = PoolGroupConfigV;

    open spec fn view(&self) -> PoolGroupConfigV {
        PoolGroupConfigV {
            name: self.name@,
            quota: self.quota,
            pools: pool_configs_view(self.pools@),
        }
    }
}

/// The values of a list of pool groups.
pub open spec fn pool_groups_view(groups: Seq<PoolGroupConfig>) -> Seq<PoolGroupConfigV> {
    groups.map_values(|g: PoolGroupConfig| g@)
}

/// Copy a list of pools.
pub fn duplicate_pools(pools: &Vec<PoolConfig>) -> (r: Vec<PoolConfig>)
    ensures
        pool_configs_view(r@) == pool_configs_view(pools@),
{
    let mut out: Vec<PoolConfig> = Vec::new();
    let mut i: usize = 0;
    while i < pools.len()
        invariant
            i <= pools@.len(),
            out@.len() == i,
            forall|j: int| 0 <= j < i ==> #[trigger] out@[j]@ == pools@[j]@,
        decreases pools@.len() - i,
    {
        let p = pools[i].duplicate();
        out.push(p);
        i = i + 1;
    }
    assert(pool_configs_view(out@) =~= pool_configs_view(pools@));
    out
}

/// The pools of a list of groups, group after group.
pub open spec fn flat_pools(groups: Seq<PoolGroupConfigV>) -> Seq<PoolConfigV>
    decreases groups.len(),
{
    if groups.len() == 0 {
        Seq::empty()
    } else {
        flat_pools(groups.drop_last()) + groups.last().pools
    }
}

/// The first `n` elements of `s`, or all of them when there are fewer.
pub open spec fn at_most<A>(s: Seq<A>, n: int) -> Seq<A> {
    if s.len() <= n {
        s
    } else {
        s.take(n)
    }
}

proof fn lemma_at_most_push<A>(s: Seq<A>, x: A, n: int)
    requires
        0 <= n,
    ensures
        s.len() < n ==> at_most(s.push(x), n) == at_most(s, n).push(x),
        s.len() >= n ==> at_most(s.push(x), n) == at_most(s, n),
        at_most(s, n).len() == if s.len() < n { s.len() as int } else { n },
{
    if s.len() >= n {
        assert(s.push(x).take(n) =~= s.take(n));
    }
}

/// Copies of at most `limit` pools of `groups`, group after group, in order.
pub fn first_pools(groups: &Vec<PoolGroupConfig>, limit: usize) -> (r: Vec<PoolConfig>)
    ensures
        pool_configs_view(r@) == at_most(flat_pools(pool_groups_view(groups@)), limit as int),
{
    let ghost gv = pool_groups_view(groups@);
    let mut out: Vec<PoolConfig> = Vec::new();
    let mut i: usize = 0;
    assert(gv.take(0) =~= Seq::<PoolGroupConfigV>::empty());
    assert(pool_configs_view(out@) =~= Seq::<PoolConfigV>::empty());
    while i < groups.len()
        invariant
            i <= groups@.len(),
            gv == pool_groups_view(groups@),
            pool_configs_view(out@) == at_most(flat_pools(gv.take(i as int)), limit as int),
        decreases groups@.len() - i,
    {
        let g = &groups[i];
        let ghost before = flat_pools(gv.take(i as int));
        assert(gv[i as int] == g@);
        let mut j: usize = 0;
        assert(before + g@.pools.take(0) =~= before);
        while j < g.pools.len()
            invariant
                j <= g.pools@.len(),
                pool_configs_view(out@) == at_most(before + g@.pools.take(j as int), limit as int),
            decreases g.pools@.len() - j,
        {
            let ghost acc = before + g@.pools.take(j as int);
            proof {
                lemma_at_most_push(acc, g@.pools[j as int], limit as int);
            }
            assert(before + g@.pools.take(j + 1) =~= acc.push(g@.pools[j as int]));
            if out.len() < limit {
                let p = g.pools[j].duplicate();
                let ghost prev = out@;
                out.push(p);
                assert(pool_configs_view(out@) =~= pool_configs_view(prev).push(p@));
            }
            j = j + 1;
        }
        assert(gv.take(i + 1).drop_last() =~= gv.take(i as int));
        assert(g@.pools.take(g@.pools.len() as int) =~= g@.pools);
        i = i + 1;
    }
    assert(gv.take(groups@.len() as int) =~= gv);
    out
}

impl PoolGroupConfig {
    /// A copy of this group.
    pub fn duplicate(&self) -> (r: PoolGroupConfig)
        ensures
            r@ == self@,
    {
        PoolGroupConfig {
            name: self.name.clone(),
            quota: self.quota,
            pools: duplicate_pools(&self.pools),
        }
    }
}

/// One pool as reported by a miner.
#[derive(Debug)]
pub struct PoolData {
    /// The pool's position in the miner's list.
    pub position: Option<u16>,
    /// The pool address.
    pub url: Option<PoolURL>,
    /// Shares the pool accepted.
    pub accepted_shares: Option<u64>,
    /// Shares the pool rejected.
    pub rejected_shares: Option<u64>,
    /// Whether the miner is currently mining on this pool.
    pub active: Option<bool>,
    /// Whether the pool answers.
    pub alive: Option<bool>,
    /// The worker name used on this pool.
    pub user: Option<String>,
}

/// The value of a [`PoolData`].
pub struct PoolDataV {
    pub position: Option<u16>,
    pub url: Option<Seq<char>>,
    pub accepted_shares: Option<u64>,
    pub rejected_shares: Option<u64>,
    pub active: Option<bool>,
    pub alive: Option<bool>,
    pub user: Option<Seq<char>>,
}

/// The text of an optional string.
pub open spec fn opt_text(s: Option<String>) -> Option<Seq<char>> {
    match s {
        Some(t) => Some(t@),
        None => None,
    }
}

/// The text of an optional pool address.
pub open spec fn opt_url(u: Option<PoolURL>) -> Option<Seq<char>> {
    match u {
        Some(t) => Some(t@),
        None => None,
    }
}

impl View for PoolData {
    type V = PoolDataV;

    open spec fn view(&self) -> PoolDataV {
        PoolDataV {
            position: self.position,
            url: opt_url(self.url),
            accepted_shares: self.accepted_shares,
            rejected_shares: self.rejected_shares,
            active: self.active,
            alive: self.alive,
            user: opt_text(self.user),
        }
    }
}

/// The values of a list of reported pools.
pub open spec fn pool_datas_view(pools: Seq<PoolData>) -> Seq<PoolDataV> {
    pools.map_values(|p: PoolData| p@)
}

/// The payload entry that writes one pool: `url`, `user` and `pass`.
pub open spec fn pool_entry(url: Seq<char>, user: Seq<char>, pass: Seq<char>) -> JsonV {
    JsonV::Object(
        seq![("url"@, JsonV::Str(url)), ("user"@, JsonV::Str(user)), ("pass"@, JsonV::Str(pass))],
    )
}

/// A written pool entry holds the address under `url`, the user under
/// `user` and the password under `pass`.
pub proof fn lemma_pool_entry_fields(url: Seq<char>, user: Seq<char>, pass: Seq<char>)
    ensures
        pool_entry(url, user, pass).get("url"@) == Some(JsonV::Str(url)),
        pool_entry(url, user, pass).get("user"@) == Some(JsonV::Str(user)),
        pool_entry(url, user, pass).get("pass"@) == Some(JsonV::Str(pass)),
{
    reveal_strlit("url");
    reveal_strlit("user");
    reveal_strlit("pass");
    let es = seq![("url"@, JsonV::Str(url)), ("user"@, JsonV::Str(user)), ("pass"@, JsonV::Str(pass))];
    assert("url"@ != "user"@) by {
        assert("url"@[1] != "user"@[1]);
    }
    assert("url"@ != "pass"@) by {
        assert("url"@[0] != "pass"@[0]);
    }
    assert("user"@ != "pass"@) by {
        assert("user"@[0] != "pass"@[0]);
    }
    crate::json::lemma_get_listed(es, 0);
    crate::json::lemma_get_listed(es, 1);
    crate::json::lemma_get_listed(es, 2);
}

/// Build the payload entry that writes one pool.
pub fn pool_payload_entry(url: String, user: String, pass: String) -> (r: Json)
    ensures
        r@ == pool_entry(url@, user@, pass@),
{
    let mut entries: Vec<(String, Json)> = Vec::new();
    entry_push(&mut entries, "url", json_string(url));
    entry_push(&mut entries, "user", json_string(user));
    entry_push(&mut entries, "pass", json_string(pass));
    proof {
        reveal_strlit("url");
        reveal_strlit("user");
        reveal_strlit("pass");
    }
    assert(entries_view(entries@) =~= seq![("url"@, JsonV::Str(url@)), ("user"@, JsonV::Str(user@)), ("pass"@, JsonV::Str(pass@))]);
    json_object(entries)
}

/// A group of pools as reported by a miner.
#[derive(Debug)]
pub struct PoolGroupData {
    /// The group name (empty when the firmware has no groups).
    pub name: String,
    /// The group quota.
    pub quota: u32,
    /// The pools of the group.
    pub pools: Vec<PoolData>,
}

/// The value of a [`PoolGroupData`].
pub struct PoolGroupDataV {
    pub name: Seq<char>,
    pub quota: u32,
    pub pools: Seq<PoolDataV>,
}

impl View for PoolGroupData {
    type V = PoolGroupDataV;

    open spec fn view(&self) -> PoolGroupDataV {
        PoolGroupDataV { name: self.name@, quota: self.quota, pools: pool_datas_view(self.pools@) }
    }
}

/// The values of a list of reported groups.
pub open spec fn pool_group_datas_view(groups: Seq<PoolGroupData>) -> Seq<PoolGroupDataV> {
    groups.map_values(|g: PoolGroupData| g@)
}

/// The pools of a reported group that can be written back: those with an
/// address, with an empty user name where none was reported and the
/// placeholder password `x`.
pub open spec fn writable_pools(pools: Seq<PoolDataV>) -> Seq<PoolConfigV>
    decreases pools.len(),
{
    if pools.len() == 0 {
        Seq::empty()
    } else {
        let rest = writable_pools(pools.drop_last());
        let p = pools.last();
        match p.url {
            Some(url) => rest.push(
                PoolConfigV {
                    url,
                    username: match p.user {
                        Some(u) => u,
                        None => Seq::empty(),
                    },
                    password: seq!['x'],
                },
            ),
            None => rest,
        }
    }
}

impl PoolGroupConfig {
    /// The writable form of a reported pool group (`From<PoolGroupData>`):
    /// same name and quota, the pools that have an address, each with the
    /// reported user (or an empty one) and the password `x`.
    pub fn from_pool_group_data(data: PoolGroupData) -> (r: PoolGroupConfig)
        ensures
            r@.name == data@.name,
            r@.quota == data@.quota,
            r@.pools == writable_pools(data@.pools),
    {
        let PoolGroupData { name, quota, pools } = data;
        let ghost pv = pool_datas_view(pools@);
        let mut out: Vec<PoolConfig> = Vec::new();
        let mut i: usize = 0;
        while i < pools.len()
            invariant
                i <= pools@.len(),
                pv == pool_datas_view(pools@),
                pool_configs_view(out@) == writable_pools(pv.subrange(0, i as int)),
            decreases pools@.len() - i,
        {
            let p = &pools[i];
            let ghost before = out@;
            assert(pv.subrange(0, i + 1).drop_last() =~= pv.subrange(0, i as int));
            match &p.url {
                Some(url) => {
                    let username = match &p.user {
                        Some(u) => u.clone(),
                        None => String::new(),
                    };
                    let mut password = String::new();
                    crate::text::push_char(&mut password, 'x');
                    out.push(PoolConfig { url: url.duplicate(), username, password });
                    assert(password@ =~= seq!['x']);
                    assert(pool_configs_view(out@) =~= pool_configs_view(before).push(out@.last()@));
                },
                None => {},
            }
            i = i + 1;
        }
        assert(pv.subrange(0, pools@.len() as int) =~= pv);
        PoolGroupConfig { name, quota, pools: out }
    }
}

/// A pool group together with the group id the firmware gave it.
pub type KeyedGroup = (u64, PoolGroupConfig);

/// The value of a keyed pool group.
pub open spec fn keyed_view(g: KeyedGroup) -> (u64, PoolGroupConfigV) {
    (g.0, g.1@)
}

/// The values of a list of keyed pool groups.
pub open spec fn keyed_groups_view(gs: Seq<KeyedGroup>) -> Seq<(u64, PoolGroupConfigV)> {
    gs.map_values(|g: KeyedGroup| keyed_view(g))
}

/// A pool to place into its group: group id, the quota a group created for
/// it gets, and the pool.
pub type KeyedPool = (u64, u32, PoolConfig);

/// The value of a keyed pool.
pub open spec fn keyed_pool_view(p: KeyedPool) -> (u64, u32, PoolConfigV) {
    (p.0, p.1, p.2@)
}

/// The values of a list of keyed pools.
pub open spec fn keyed_pools_view(ps: Seq<KeyedPool>) -> Seq<(u64, u32, PoolConfigV)> {
    ps.map_values(|p: KeyedPool| keyed_pool_view(p))
}

/// The index of the first group with id `gid`, or -1.
pub open spec fn gid_index(acc: Seq<(u64, PoolGroupConfigV)>, gid: u64) -> int
    decreases acc.len(),
{
    if acc.len() == 0 {
        -1
    } else if acc[0].0 == gid {
        0
    } else {
        let r = gid_index(acc.drop_first(), gid);
        if r < 0 {
            -1
        } else {
            r + 1
        }
    }
}

/// Place one pool: into the first group with its id, or into a new unnamed
/// group with that id and the given quota at the end.
pub open spec fn add_pool(acc: Seq<(u64, PoolGroupConfigV)>, p: (u64, u32, PoolConfigV)) -> Seq<
    (u64, PoolGroupConfigV),
> {
    let i = gid_index(acc, p.0);
    if i >= 0 {
        acc.update(
            i,
            (
                p.0,
                PoolGroupConfigV {
                    name: acc[i].1.name,
                    quota: acc[i].1.quota,
                    pools: acc[i].1.pools.push(p.2),
                },
            ),
        )
    } else {
        acc.push((p.0, PoolGroupConfigV { name: Seq::empty(), quota: p.1, pools: seq![p.2] }))
    }
}

/// Place the pools one after the other.
pub open spec fn add_pools(acc: Seq<(u64, PoolGroupConfigV)>, ps: Seq<(u64, u32, PoolConfigV)>) -> Seq<
    (u64, PoolGroupConfigV),
>
    decreases ps.len(),
{
    if ps.len() == 0 {
        acc
    } else {
        add_pool(add_pools(acc, ps.drop_last()), ps.last())
    }
}

/// Insert a group into a list sorted by id, after the groups with an id not
/// greater than its own.
pub open spec fn insert_by_gid(s: Seq<(u64, PoolGroupConfigV)>, x: (u64, PoolGroupConfigV)) -> Seq<
    (u64, PoolGroupConfigV),
>
    decreases s.len(),
{
    if s.len() == 0 {
        seq![x]
    } else if s.last().0 <= x.0 {
        s.push(x)
    } else {
        insert_by_gid(s.drop_last(), x).push(s.last())
    }
}

/// The groups sorted by id, keeping the order of groups with equal ids (a
/// stable sort).
pub open spec fn sort_by_gid(s: Seq<(u64, PoolGroupConfigV)>) -> Seq<(u64, PoolGroupConfigV)>
    decreases s.len(),
{
    if s.len() == 0 {
        s
    } else {
        insert_by_gid(sort_by_gid(s.drop_last()), s.last())
    }
}

/// The groups of a list of keyed groups, without their ids.
pub open spec fn strip_gids(s: Seq<(u64, PoolGroupConfigV)>) -> Seq<PoolGroupConfigV> {
    s.map_values(|g: (u64, PoolGroupConfigV)| g.1)
}

proof fn lemma_gid_index(acc: Seq<(u64, PoolGroupConfigV)>, gid: u64)
    ensures
        -1 <= gid_index(acc, gid) < acc.len(),
        gid_index(acc, gid) >= 0 ==> acc[gid_index(acc, gid)].0 == gid,
        forall|j: int| 0 <= j < acc.len() && (gid_index(acc, gid) < 0 || j < gid_index(acc, gid)) ==> #[trigger] acc[j].0 != gid,
    decreases acc.len(),
{
    if acc.len() > 0 && acc[0].0 != gid {
        lemma_gid_index(acc.drop_first(), gid);
        assert forall|j: int| 0 <= j < acc.len() && (gid_index(acc, gid) < 0 || j < gid_index(acc, gid)) implies #[trigger] acc[j].0 != gid by {
            if j > 0 {
                assert(acc[j] == acc.drop_first()[j - 1]);
            }
        }
    }
}

/// Find the first group with id `gid`.
fn find_gid(acc: &Vec<KeyedGroup>, gid: u64) -> (r: Option<usize>)
    ensures
        r matches Some(i) ==> gid_index(keyed_groups_view(acc@), gid) == i,
        r is None ==> gid_index(keyed_groups_view(acc@), gid) == -1,
{
    let ghost v = keyed_groups_view(acc@);
    proof {
        lemma_gid_index(v, gid);
    }
    let mut i: usize = 0;
    while i < acc.len()
        invariant
            v == keyed_groups_view(acc@),
            i <= acc@.len(),
            forall|j: int| 0 <= j < i ==> #[trigger] v[j].0 != gid,
            -1 <= gid_index(v, gid) < v.len(),
            gid_index(v, gid) >= 0 ==> v[gid_index(v, gid)].0 == gid,
            forall|j: int| 0 <= j < v.len() && (gid_index(v, gid) < 0 || j < gid_index(v, gid)) ==> #[trigger] v[j].0 != gid,
        decreases acc@.len() - i,
    {
        assert(v[i as int].0 == acc@[i as int].0);
        if acc[i].0 == gid {
            return Some(i);
        }
        i = i + 1;
    }
    None
}

/// Place the pools into their groups (see [`add_pools`]).
pub fn place_pools(groups: Vec<KeyedGroup>, pools: Vec<KeyedPool>) -> (r: Vec<KeyedGroup>)
    ensures
        keyed_groups_view(r@) == add_pools(keyed_groups_view(groups@), keyed_pools_view(pools@)),
{
    let mut acc = groups;
    let ghost start = keyed_groups_view(acc@);
    let ghost pv = keyed_pools_view(pools@);
    assert(pv.len() == pools@.len());
    let mut rest = pools;
    let mut taken: Vec<KeyedPool> = Vec::new();
    // take the pools in order
    let mut i: usize = 0;
    let n = rest.len();
    let mut pools_rev: Vec<KeyedPool> = Vec::new();
    while rest.len() > 0
        invariant
            keyed_pools_view(rest@) + keyed_pools_view(pools_rev@).reverse() == pv,
        decreases rest@.len(),
    {
        let ghost before_rest = rest@;
        let ghost before_rev = pools_rev@;
        let p = rest.pop().unwrap();
        pools_rev.push(p);
        assert(keyed_pools_view(before_rest) =~= keyed_pools_view(rest@).push(keyed_pool_view(p)));
        assert(keyed_pools_view(pools_rev@).reverse() =~= seq![keyed_pool_view(p)] + keyed_pools_view(before_rev).reverse());
    }
    assert(keyed_pools_view(rest@) =~= Seq::<(u64, u32, PoolConfigV)>::empty());
    let mut done: usize = 0;
    while pools_rev.len() > 0
        invariant
            keyed_pools_view(pools_rev@).reverse() == pv.skip(done as int),
            done <= pv.len(),
            pv.len() <= usize::MAX,
            keyed_groups_view(acc@) == add_pools(start, pv.take(done as int)),
        decreases pools_rev@.len(),
    {
        let ghost before_rev = pools_rev@;
        let p = pools_rev.pop().unwrap();
        assert(keyed_pools_view(before_rev).reverse() =~= seq![keyed_pool_view(p)] + keyed_pools_view(pools_rev@).reverse());
        assert(pv.skip(done as int)[0] == keyed_pool_view(p));
        let ghost acc_before = keyed_groups_view(acc@);
        assert(done < pv.len());
        let (gid, quota, pool) = p;
        proof {
            lemma_gid_index(acc_before, gid);
        }
        match find_gid(&acc, gid) {
            Some(j) => {
                assert(acc_before.len() == acc@.len());
                let mut g = acc.remove(j);
                let ghost old_pools = pool_configs_view(g.1.pools@);
                g.1.pools.push(pool);
                assert(pool_configs_view(g.1.pools@) =~= old_pools.push(keyed_pool_view(p).2));
                acc.insert(j, g);
                assert(keyed_groups_view(acc@) =~= add_pool(acc_before, keyed_pool_view(p)));
            },
            None => {
                let mut ps: Vec<PoolConfig> = Vec::new();
                ps.push(pool);
                let g = PoolGroupConfig { name: String::new(), quota, pools: ps };
                assert(pool_configs_view(ps@) =~= seq![keyed_pool_view(p).2]);
                acc.push((gid, g));
                assert(keyed_groups_view(acc@) =~= add_pool(acc_before, keyed_pool_view(p)));
            },
        }
        assert(pv.take(done + 1).drop_last() =~= pv.take(done as int));
        assert(pv.take(done + 1).last() == keyed_pool_view(p));
        assert(pv.skip(done + 1) =~= pv.skip(done as int).drop_first());
        done = done + 1;
        assert(keyed_pools_view(pools_rev@).reverse() =~= pv.skip(done as int));
    }
    assert(pv.skip(done as int).len() == 0);
    assert(pv.take(done as int) =~= pv);
    acc
}

proof fn lemma_insert_by_gid(s: Seq<(u64, PoolGroupConfigV)>, x: (u64, PoolGroupConfigV), j: int)
    requires
        0 <= j <= s.len(),
        forall|k: int| j <= k < s.len() ==> #[trigger] s[k].0 > x.0,
        j > 0 ==> s[j - 1].0 <= x.0,
    ensures
        insert_by_gid(s, x) == s.take(j).push(x) + s.skip(j),
    decreases s.len(),
{
    if s.len() == 0 {
        assert(s.take(j).push(x) + s.skip(j) =~= seq![x]);
    } else if s.last().0 <= x.0 {
        assert(j == s.len());
        assert(s.take(j).push(x) + s.skip(j) =~= s.push(x));
    } else {
        lemma_insert_by_gid(s.drop_last(), x, j);
        assert(s.take(j).push(x) + s.skip(j) =~= (s.drop_last().take(j).push(x) + s.drop_last().skip(j)).push(s.last()));
    }
}

/// Sort keyed groups by id, stably.
pub fn sort_groups_by_gid(groups: Vec<KeyedGroup>) -> (r: Vec<KeyedGroup>)
    ensures
        keyed_groups_view(r@) == sort_by_gid(keyed_groups_view(groups@)),
{
    let ghost gv = keyed_groups_view(groups@);
    let n0 = groups.len();
    assert(gv.len() == n0);
    let mut rest = groups;
    let mut rev: Vec<KeyedGroup> = Vec::new();
    while rest.len() > 0
        invariant
            keyed_groups_view(rest@) + keyed_groups_view(rev@).reverse() == gv,
            gv.len() <= usize::MAX,
        decreases rest@.len(),
    {
        let ghost before_rest = rest@;
        let ghost before_rev = rev@;
        let g = rest.pop().unwrap();
        rev.push(g);
        assert(keyed_groups_view(before_rest) =~= keyed_groups_view(rest@).push(keyed_view(g)));
        assert(keyed_groups_view(rev@).reverse() =~= seq![keyed_view(g)] + keyed_groups_view(before_rev).reverse());
    }
    assert(keyed_groups_view(rest@) =~= Seq::<(u64, PoolGroupConfigV)>::empty());
    let mut sorted: Vec<KeyedGroup> = Vec::new();
    let mut done: usize = 0;
    while rev.len() > 0
        invariant
            keyed_groups_view(rev@).reverse() == gv.skip(done as int),
            done <= gv.len(),
            gv.len() <= usize::MAX,
            keyed_groups_view(sorted@) == sort_by_gid(gv.take(done as int)),
        decreases rev@.len(),
    {
        let ghost before_rev = rev@;
        let g = rev.pop().unwrap();
        assert(keyed_groups_view(before_rev).reverse() =~= seq![keyed_view(g)] + keyed_groups_view(rev@).reverse());
        assert(gv.skip(done as int)[0] == keyed_view(g));
        assert(done < gv.len());
        let ghost sv = keyed_groups_view(sorted@);
        // find the insertion point: after every group whose id is not greater
        let mut j: usize = sorted.len();
        while j > 0 && sorted[j - 1].0 > g.0
            invariant
                j <= sorted@.len(),
                sv == keyed_groups_view(sorted@),
                forall|k: int| j <= k < sorted@.len() ==> #[trigger] sv[k].0 > g.0,
            decreases j,
        {
            j = j - 1;
        }
        proof {
            lemma_insert_by_gid(sv, keyed_view(g), j as int);
        }
        sorted.insert(j, g);
        assert(keyed_groups_view(sorted@) =~= sv.take(j as int).push(keyed_view(g)) + sv.skip(j as int));
        assert(gv.take(done + 1).drop_last() =~= gv.take(done as int));
        assert(gv.take(done + 1).last() == keyed_view(g));
        assert(gv.skip(done + 1) =~= gv.skip(done as int).drop_first());
        done = done + 1;
        assert(keyed_groups_view(rev@).reverse() =~= gv.skip(done as int));
    }
    assert(gv.skip(done as int).len() == 0);
    assert(gv.take(done as int) =~= gv);
    sorted
}

/// Drop the ids of keyed groups.
pub fn into_groups(groups: Vec<KeyedGroup>) -> (r: Vec<PoolGroupConfig>)
    ensures
        pool_groups_view(r@) == strip_gids(keyed_groups_view(groups@)),
{
    let ghost gv = keyed_groups_view(groups@);
    let mut rest = groups;
    let mut rev: Vec<PoolGroupConfig> = Vec::new();
    while rest.len() > 0
        invariant
            strip_gids(keyed_groups_view(rest@)) + pool_groups_view(rev@).reverse() == strip_gids(gv),
        decreases rest@.len(),
    {
        let ghost before_rest = rest@;
        let ghost before_rev = rev@;
        let g = rest.pop().unwrap();
        let (_, group) = g;
        rev.push(group);
        assert(strip_gids(keyed_groups_view(before_rest)) =~= strip_gids(keyed_groups_view(rest@)).push(keyed_view(g).1));
        assert(pool_groups_view(rev@).reverse() =~= seq![keyed_view(g).1] + pool_groups_view(before_rev).reverse());
    }
    assert(strip_gids(keyed_groups_view(rest@)) =~= Seq::<PoolGroupConfigV>::empty());
    let mut out: Vec<PoolGroupConfig> = Vec::new();
    while rev.len() > 0
        invariant
            pool_groups_view(out@) + pool_groups_view(rev@).reverse() == strip_gids(gv),
        decreases rev@.len(),
    {
        let ghost before_rev = rev@;
        let ghost before_out = out@;
        let g = rev.pop().unwrap();
        out.push(g);
        assert(pool_groups_view(before_rev).reverse() =~= seq![g@] + pool_groups_view(rev@).reverse());
        assert(pool_groups_view(out@) =~= pool_groups_view(before_out).push(g@));
    }
    assert(pool_groups_view(rev@).reverse() =~= Seq::<PoolGroupConfigV>::empty());
    out
}

} // verus!
