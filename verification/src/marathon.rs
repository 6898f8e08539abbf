//! MaraFW (Marathon) pool configuration.
//!
//! MaraFW takes at most three pool groups, each with a share of the hashrate
//! in whole percent.  Quotas are turned into percents that add up to 100 by
//! giving every group the floor of its share and handing the percents left
//! over to the groups with the largest remainders (earlier groups first on
//! ties).
use vstd::prelude::*;
use crate::errors::ConfigError;
use crate::json::{
    Json, JsonNumber, JsonV, entries_view, items_view, entry_push, item_push, json_text, json_u64,
    json_object, opt_u64, opt_str, str_or_empty, array_or_empty, view_opt, get_in, u64_in, str_in,
    array_in, text_or_empty, text_opt,
};
use crate::pools::{
    PoolConfig, PoolConfigV, PoolGroupConfig, PoolGroupConfigV, pool_groups_view, KeyedGroup,
    KeyedPool, keyed_groups_view, keyed_pools_view, add_pools, sort_by_gid, strip_gids, place_pools,
    sort_groups_by_gid, into_groups,
};

verus! {

/// The groups MaraFW takes: the first three.
pub open spec fn kept_groups(config: Seq<PoolGroupConfigV>) -> Seq<PoolGroupConfigV> {
    if config.len() <= 3 {
        config
    } else {
        config.take(3)
    }
}

/// The sum of the quotas of the groups.
pub open spec fn total_quota(groups: Seq<PoolGroupConfigV>) -> nat
    decreases groups.len(),
{
    if groups.len() == 0 {
        0
    } else {
        total_quota(groups.drop_last()) + groups.last().quota as nat
    }
}

/// The whole percents a quota earns out of the total.
pub open spec fn base_percent(quota: nat, total: nat) -> nat {
    (quota * 100) / total
}

/// What is left of a quota's share after its whole percents.
pub open spec fn share_remainder(quota: nat, total: nat) -> nat {
    (quota * 100) % total
}

/// The sum of the whole percents of the groups.
pub open spec fn assigned_percent(groups: Seq<PoolGroupConfigV>, total: nat) -> nat
    decreases groups.len(),
{
    if groups.len() == 0 {
        0
    } else {
        assigned_percent(groups.drop_last(), total) + base_percent(groups.last().quota as nat, total)
    }
}

/// The percents left to hand out after every group got its whole percents.
pub open spec fn leftover_percent(groups: Seq<PoolGroupConfigV>) -> nat {
    let a = assigned_percent(groups, total_quota(groups));
    if a <= 100 {
        (100 - a) as nat
    } else {
        0
    }
}

/// Group `j` comes before group `i` when handing out left-over percents:
/// a larger remainder first, the earlier group first on equal remainders.
pub open spec fn ahead_of(groups: Seq<PoolGroupConfigV>, j: int, i: int) -> bool {
    let t = total_quota(groups);
    let rj = share_remainder(groups[j].quota as nat, t);
    let ri = share_remainder(groups[i].quota as nat, t);
    rj > ri || (rj == ri && j < i)
}

/// How many of the groups `0..n` come before group `i`.
pub open spec fn count_ahead(groups: Seq<PoolGroupConfigV>, i: int, n: int) -> nat
    decreases n,
{
    if n <= 0 {
        0
    } else {
        count_ahead(groups, i, n - 1) + if ahead_of(groups, n - 1, i) {
            1nat
        } else {
            0nat
        }
    }
}

/// The percent MaraFW is given for group `i`.
pub open spec fn group_percent(groups: Seq<PoolGroupConfigV>, i: int) -> nat {
    base_percent(groups[i].quota as nat, total_quota(groups)) + if count_ahead(
        groups,
        i,
        groups.len() as int,
    ) < leftover_percent(groups) {
        1nat
    } else {
        0nat
    }
}

/// The group entry MaraFW expects for group `i`.
pub open spec fn pool_group_entry(groups: Seq<PoolGroupConfigV>, i: int) -> JsonV {
    JsonV::Object(
        seq![
            ("gid"@, JsonV::Number(JsonNumber::PosInt(i as u64))),
            ("alias"@, JsonV::Str(groups[i].name)),
            ("percent"@, JsonV::Number(JsonNumber::PosInt(group_percent(groups, i) as u64))),
        ],
    )
}

/// The pool entry MaraFW expects for a pool of group `gid`.
pub open spec fn pool_entry(pool: PoolConfigV, gid: int) -> JsonV {
    JsonV::Object(
        seq![
            ("url"@, JsonV::Str(pool.url)),
            ("user"@, JsonV::Str(pool.username)),
            ("pass"@, JsonV::Str(pool.password)),
            ("gid"@, JsonV::Number(JsonNumber::PosInt(gid as u64))),
        ],
    )
}

/// The pool entries of the groups `0..n`, group after group.
pub open spec fn pool_entries(groups: Seq<PoolGroupConfigV>, n: int) -> Seq<JsonV>
    decreases n,
{
    if n <= 0 {
        Seq::empty()
    } else {
        pool_entries(groups, n - 1) + groups[n - 1].pools.map_values(
            |p: PoolConfigV| pool_entry(p, n - 1),
        )
    }
}

/// Whether some kept group has quota 0.
pub open spec fn has_zero_quota(groups: Seq<PoolGroupConfigV>) -> bool {
    exists|i: int| 0 <= i < groups.len() && #[trigger] groups[i].quota == 0
}

proof fn lemma_total_quota_bound(groups: Seq<PoolGroupConfigV>)
    ensures
        total_quota(groups) <= groups.len() * 0xffff_ffff,
    decreases groups.len(),
{
    if groups.len() > 0 {
        lemma_total_quota_bound(groups.drop_last());
    }
}

proof fn lemma_total_quota_positive(groups: Seq<PoolGroupConfigV>)
    requires
        groups.len() > 0,
        !has_zero_quota(groups),
    ensures
        total_quota(groups) > 0,
{
    assert(groups[groups.len() - 1].quota != 0);
}

proof fn lemma_base_bound(q: nat, t: nat)
    requires
        t > 0,
        q <= t,
    ensures
        base_percent(q, t) <= 100,
        share_remainder(q, t) < t,
{
    assert((q * 100) / t <= 100) by (nonlinear_arith)
        requires
            t > 0,
            q <= t,
    ;
    assert((q * 100) % t < t) by (nonlinear_arith)
        requires
            t > 0,
    ;
}

/// Build the MaraFW pool-group and pool lists for a pool configuration.
///
/// Only the first three groups are used.  Each kept group must have a quota
/// greater than 0.  Group `i` is written as `{gid: i, alias, percent}` and
/// each of its pools as `{url, user, pass, gid: i}`.
pub fn build_pool_config(config: &[PoolGroupConfig]) -> (r: Result<(Vec<Json>, Vec<Json>), ConfigError>)
    ensures
        ({
            let groups = kept_groups(pool_groups_view(config@));
            match r {
                Err(e) => e == ConfigError::ZeroQuota && groups.len() > 0 && has_zero_quota(groups),
                Ok((pool_groups, pools)) => {
                    &&& !(groups.len() > 0 && has_zero_quota(groups))
                    &&& items_view(pool_groups@) == Seq::new(
                        groups.len(),
                        |i: int| pool_group_entry(groups, i),
                    )
                    &&& items_view(pools@) == pool_entries(groups, groups.len() as int)
                },
            }
        }),
{
    let ghost all = pool_groups_view(config@);
    let ghost groups = kept_groups(all);
    let k: usize = if config.len() < 3 { config.len() } else { 3 };
    assert(groups.len() == k);
    assert(forall|i: int| 0 <= i < k ==> #[trigger] groups[i] == config@[i]@);
    if k == 0 {
        let e1: Vec<Json> = Vec::new();
        let e2: Vec<Json> = Vec::new();
        assert(items_view(e1@) =~= Seq::<JsonV>::empty());
        assert(items_view(e2@) =~= Seq::<JsonV>::empty());
        assert(Seq::new(groups.len(), |i: int| pool_group_entry(groups, i)) =~= Seq::<JsonV>::empty());
        return Ok((e1, e2));
    }
    // every kept group must carry a quota
    let mut i: usize = 0;
    while i < k
        invariant
            k == groups.len(),
            k <= config@.len(),
            i <= k,
            forall|j: int| 0 <= j < k ==> #[trigger] groups[j] == config@[j]@,
            forall|j: int| 0 <= j < i ==> #[trigger] groups[j].quota != 0,
            groups == kept_groups(pool_groups_view(config@)),
        decreases k - i,
    {
        if config[i].quota == 0 {
            assert(groups[i as int].quota == 0);
            return Err(ConfigError::ZeroQuota);
        }
        i = i + 1;
    }
    assert(!has_zero_quota(groups));
    // total quota
    let mut total: u64 = 0;
    let mut i: usize = 0;
    proof {
        lemma_total_quota_bound(groups);
    }
    while i < k
        invariant
            k == groups.len(),
            k <= 3,
            k <= config@.len(),
            i <= k,
            forall|j: int| 0 <= j < k ==> #[trigger] groups[j] == config@[j]@,
            total == total_quota(groups.take(i as int)),
            total <= i * 0xffff_ffff,
        decreases k - i,
    {
        assert(groups.take(i + 1).drop_last() =~= groups.take(i as int));
        total = total + config[i].quota as u64;
        i = i + 1;
    }
    assert(groups.take(k as int) =~= groups);
    let ghost t = total_quota(groups);
    proof {
        lemma_total_quota_positive(groups);
    }
    // whole percents and remainders
    let mut base: Vec<u64> = Vec::new();
    let mut rem: Vec<u64> = Vec::new();
    let mut assigned: u64 = 0;
    let mut i: usize = 0;
    while i < k
        invariant
            k == groups.len(),
            k <= 3,
            k <= config@.len(),
            i <= k,
            forall|j: int| 0 <= j < k ==> #[trigger] groups[j] == config@[j]@,
            total == t,
            t == total_quota(groups),
            t > 0,
            t <= 3 * 0xffff_ffff,
            base@.len() == i,
            rem@.len() == i,
            forall|j: int| 0 <= j < i ==> #[trigger] base@[j] == base_percent(groups[j].quota as nat, t),
            forall|j: int| 0 <= j < i ==> #[trigger] rem@[j] == share_remainder(groups[j].quota as nat, t),
            forall|j: int| 0 <= j < i ==> #[trigger] base@[j] <= 100,
            assigned == assigned_percent(groups.take(i as int), t),
            assigned <= i * 100,
        decreases k - i,
    {
        let q: u64 = config[i].quota as u64;
        proof {
            lemma_quota_le_total(groups, i as int);
            lemma_base_bound(q as nat, t);
        }
        let b = (q * 100) / total;
        let r = (q * 100) % total;
        base.push(b);
        rem.push(r);
        assert(groups.take(i + 1).drop_last() =~= groups.take(i as int));
        assigned = assigned + b;
        i = i + 1;
    }
    assert(groups.take(k as int) =~= groups);
    let leftover: u64 = if assigned <= 100 { 100 - assigned } else { 0 };
    assert(leftover == leftover_percent(groups));
    // percents: whole percents plus one for the groups first in line for the leftover
    let mut percents: Vec<u64> = Vec::new();
    let mut i: usize = 0;
    while i < k
        invariant
            k == groups.len(),
            k <= 3,
            i <= k,
            t == total_quota(groups),
            t > 0,
            base@.len() == k,
            rem@.len() == k,
            forall|j: int| 0 <= j < k ==> #[trigger] base@[j] == base_percent(groups[j].quota as nat, t),
            forall|j: int| 0 <= j < k ==> #[trigger] rem@[j] == share_remainder(groups[j].quota as nat, t),
            forall|j: int| 0 <= j < k ==> #[trigger] base@[j] <= 100,
            leftover == leftover_percent(groups),
            percents@.len() == i,
            forall|j: int| 0 <= j < i ==> #[trigger] percents@[j] == group_percent(groups, j),
        decreases k - i,
    {
        let mut ahead: u64 = 0;
        let mut j: usize = 0;
        while j < k
            invariant
                k == groups.len(),
                k <= 3,
                i < k,
                j <= k,
                t == total_quota(groups),
                rem@.len() == k,
                forall|x: int| 0 <= x < k ==> #[trigger] rem@[x] == share_remainder(groups[x].quota as nat, t),
                ahead == count_ahead(groups, i as int, j as int),
                ahead <= j,
            decreases k - j,
        {
            if rem[j] > rem[i] || (rem[j] == rem[i] && j < i) {
                ahead = ahead + 1;
            }
            j = j + 1;
        }
        let extra: u64 = if ahead < leftover { 1 } else { 0 };
        percents.push(base[i] + extra);
        i = i + 1;
    }
    // group entries
    let mut pool_groups: Vec<Json> = Vec::new();
    let mut i: usize = 0;
    while i < k
        invariant
            k == groups.len(),
            k <= config@.len(),
            i <= k,
            forall|j: int| 0 <= j < k ==> #[trigger] groups[j] == config@[j]@,
            percents@.len() == k,
            forall|j: int| 0 <= j < k ==> #[trigger] percents@[j] == group_percent(groups, j),
            items_view(pool_groups@) == Seq::new(i as nat, |j: int| pool_group_entry(groups, j)),
        decreases k - i,
    {
        let mut entries: Vec<(String, Json)> = Vec::new();
        entry_push(&mut entries, "gid", json_u64(i as u64));
        entry_push(&mut entries, "alias", json_text(config[i].name.as_str()));
        entry_push(&mut entries, "percent", json_u64(percents[i]));
        let ghost ev = entries_view(entries@);
        assert(ev =~= seq![
            ("gid"@, JsonV::Number(JsonNumber::PosInt(i as u64))),
            ("alias"@, JsonV::Str(groups[i as int].name)),
            ("percent"@, JsonV::Number(JsonNumber::PosInt(group_percent(groups, i as int) as u64))),
        ]);
        let obj = json_object(entries);
        item_push(&mut pool_groups, obj);
        i = i + 1;
        assert(items_view(pool_groups@) =~= Seq::new(i as nat, |j: int| pool_group_entry(groups, j)));
    }
    // pool entries
    let mut pools: Vec<Json> = Vec::new();
    let mut gid: usize = 0;
    while gid < k
        invariant
            k == groups.len(),
            k <= 3,
            k <= config@.len(),
            gid <= k,
            forall|j: int| 0 <= j < k ==> #[trigger] groups[j] == config@[j]@,
            items_view(pools@) == pool_entries(groups, gid as int),
        decreases k - gid,
    {
        let group = &config[gid];
        let ghost gpools = groups[gid as int].pools;
        let ghost start = items_view(pools@);
        let mut p: usize = 0;
        while p < group.pools.len()
            invariant
                gid < k,
                gpools == groups[gid as int].pools,
                gpools == crate::pools::pool_configs_view(group.pools@),
                p <= group.pools@.len(),
                gid <= 3,
                items_view(pools@) == start + gpools.take(p as int).map_values(
                    |x: PoolConfigV| pool_entry(x, gid as int),
                ),
            decreases group.pools@.len() - p,
        {
            let pool = &group.pools[p];
            let mut entries: Vec<(String, Json)> = Vec::new();
            entry_push(&mut entries, "url", json_text(pool.url.as_text()));
            entry_push(&mut entries, "user", json_text(pool.username.as_str()));
            entry_push(&mut entries, "pass", json_text(pool.password.as_str()));
            entry_push(&mut entries, "gid", json_u64(gid as u64));
            assert(entries_view(entries@) =~= seq![
                ("url"@, JsonV::Str(gpools[p as int].url)),
                ("user"@, JsonV::Str(gpools[p as int].username)),
                ("pass"@, JsonV::Str(gpools[p as int].password)),
                ("gid"@, JsonV::Number(JsonNumber::PosInt(gid as u64))),
            ]);
            let obj = json_object(entries);
            item_push(&mut pools, obj);
            p = p + 1;
            assert(gpools.take(p as int).map_values(|x: PoolConfigV| pool_entry(x, gid as int))
                =~= gpools.take(p - 1).map_values(|x: PoolConfigV| pool_entry(x, gid as int)).push(
                pool_entry(gpools[p - 1], gid as int),
            ));
        }
        assert(gpools.take(group.pools@.len() as int) =~= gpools);
        gid = gid + 1;
    }
    Ok((pool_groups, pools))
}

proof fn lemma_quota_le_total(groups: Seq<PoolGroupConfigV>, i: int)
    requires
        0 <= i < groups.len(),
    ensures
        groups[i].quota <= total_quota(groups),
    decreases groups.len(),
{
    if i < groups.len() - 1 {
        lemma_quota_le_total(groups.drop_last(), i);
    }
}

/// The sum of the percents of the groups `0..n`.
pub open spec fn percent_sum(groups: Seq<PoolGroupConfigV>, n: int) -> nat
    decreases n,
{
    if n <= 0 {
        0
    } else {
        percent_sum(groups, n - 1) + group_percent(groups, n - 1)
    }
}

proof fn lemma_split_share(q: nat, t: nat)
    requires
        t > 0,
    ensures
        q * 100 == t * base_percent(q, t) + share_remainder(q, t),
        share_remainder(q, t) < t,
{
    vstd::arithmetic::div_mod::lemma_fundamental_div_mod((q * 100) as int, t as int);
    vstd::arithmetic::div_mod::lemma_mod_pos_bound((q * 100) as int, t as int);
}

/// The percents written for the kept pool groups add up to 100, and each is
/// the floor of the group's share of the total quota or one more.
pub proof fn lemma_percents_sum_to_100(groups: Seq<PoolGroupConfigV>)
    requires
        1 <= groups.len() <= 3,
        !has_zero_quota(groups),
    ensures
        percent_sum(groups, groups.len() as int) == 100,
        forall|i: int|
            0 <= i < groups.len() ==> {
                let b = base_percent(#[trigger] groups[i].quota as nat, total_quota(groups));
                group_percent(groups, i) == b || group_percent(groups, i) == b + 1
            },
{
    let t = total_quota(groups);
    lemma_total_quota_positive(groups);
    let k = groups.len();
    reveal_with_fuel(total_quota, 4);
    reveal_with_fuel(assigned_percent, 4);
    reveal_with_fuel(count_ahead, 4);
    reveal_with_fuel(percent_sum, 4);
    let q0 = groups[0].quota as nat;
    lemma_split_share(q0, t);
    let b0 = base_percent(q0, t);
    let r0 = share_remainder(q0, t);
    if k == 1 {
        assert(groups.drop_last().len() == 0);
        assert(t == q0);
        assert(t * 100 == t * b0 + r0);
        assert(b0 == 100 && r0 == 0) by (nonlinear_arith)
            requires
                t * 100 == t * b0 + r0,
                r0 < t,
                t > 0,
        ;
        assert(assigned_percent(groups, t) == b0);
        assert(leftover_percent(groups) == 0);
    } else {
        let q1 = groups[1].quota as nat;
        lemma_split_share(q1, t);
        let b1 = base_percent(q1, t);
        let r1 = share_remainder(q1, t);
        if k == 2 {
            assert(groups.drop_last() =~= seq![groups[0]]);
            assert(seq![groups[0]].drop_last().len() == 0);
            assert(t == q0 + q1);
            assert(assigned_percent(groups, t) == b0 + b1);
            assert((b0 + b1) <= 100 && (r0 + r1) == t * (100 - (b0 + b1))) by (nonlinear_arith)
                requires
                    q0 * 100 == t * b0 + r0,
                    q1 * 100 == t * b1 + r1,
                    t == q0 + q1,
                    t > 0,
            ;
            let l = leftover_percent(groups);
            assert(l == 100 - (b0 + b1));
            assert(l < 2) by (nonlinear_arith)
                requires
                    r0 + r1 == t * l,
                    r0 < t,
                    r1 < t,
                    t > 0,
            ;
            assert(count_ahead(groups, 0, 2) + count_ahead(groups, 1, 2) == 1);
        } else {
            let q2 = groups[2].quota as nat;
            lemma_split_share(q2, t);
            let b2 = base_percent(q2, t);
            let r2 = share_remainder(q2, t);
            assert(groups.drop_last() =~= seq![groups[0], groups[1]]);
            assert(seq![groups[0], groups[1]].drop_last() =~= seq![groups[0]]);
            assert(seq![groups[0]].drop_last().len() == 0);
            assert(t == q0 + q1 + q2);
            assert(assigned_percent(groups, t) == b0 + b1 + b2);
            assert((b0 + b1 + b2) <= 100 && (r0 + r1 + r2) == t * (100 - (b0 + b1 + b2))) by (nonlinear_arith)
                requires
                    q0 * 100 == t * b0 + r0,
                    q1 * 100 == t * b1 + r1,
                    q2 * 100 == t * b2 + r2,
                    t == q0 + q1 + q2,
                    t > 0,
            ;
            let l = leftover_percent(groups);
            assert(l == 100 - (b0 + b1 + b2));
            assert(l < 3) by (nonlinear_arith)
                requires
                    r0 + r1 + r2 == t * l,
                    r0 < t,
                    r1 < t,
                    r2 < t,
                    t > 0,
            ;
            let c0 = count_ahead(groups, 0, 3);
            let c1 = count_ahead(groups, 1, 3);
            let c2 = count_ahead(groups, 2, 3);
            assert(c0 != c1 && c0 != c2 && c1 != c2 && c0 < 3 && c1 < 3 && c2 < 3);
        }
    }
}

/// A MaraFW pool-group entry, when it carries a group id: its id, and a
/// group named by `alias` whose quota is `percent` (0 when missing or too
/// large).
pub open spec fn mara_group(g: JsonV) -> Option<(u64, PoolGroupConfigV)> {
    match opt_u64(g.get("gid"@)) {
        None => None,
        Some(gid) => Some(
            (
                gid,
                PoolGroupConfigV {
                    name: str_or_empty(g.get("alias"@)),
                    quota: match opt_u64(g.get("percent"@)) {
                        Some(p) => if p <= u32::MAX {
                            p as u32
                        } else {
                            0
                        },
                        None => 0,
                    },
                    pools: Seq::empty(),
                },
            ),
        ),
    }
}

/// The MaraFW pool-group entries that carry a group id, in order.
pub open spec fn mara_groups(gs: Seq<JsonV>) -> Seq<(u64, PoolGroupConfigV)>
    decreases gs.len(),
{
    if gs.len() == 0 {
        Seq::empty()
    } else {
        let rest = mara_groups(gs.drop_last());
        match mara_group(gs.last()) {
            Some(x) => rest.push(x),
            None => rest,
        }
    }
}

/// A MaraFW pool entry with a non-empty `url`: its group id (0 when
/// missing) and the pool.
pub open spec fn mara_pool(p: JsonV) -> Option<(u64, u32, PoolConfigV)> {
    match opt_str(p.get("url"@)) {
        Some(url) => if url.len() > 0 {
            Some(
                (
                    match opt_u64(p.get("gid"@)) {
                        Some(g) => g,
                        None => 0,
                    },
                    0u32,
                    PoolConfigV {
                        url,
                        username: str_or_empty(p.get("user"@)),
                        password: str_or_empty(p.get("pass"@)),
                    },
                ),
            )
        } else {
            None
        },
        None => None,
    }
}

/// The MaraFW pool entries with a non-empty `url`, in order.
pub open spec fn mara_pools(ps: Seq<JsonV>) -> Seq<(u64, u32, PoolConfigV)>
    decreases ps.len(),
{
    if ps.len() == 0 {
        Seq::empty()
    } else {
        let rest = mara_pools(ps.drop_last());
        match mara_pool(ps.last()) {
            Some(x) => rest.push(x),
            None => rest,
        }
    }
}

/// The pool groups a MaraFW miner configuration describes: the groups of
/// `pool-group` (or one unnamed group with quota 100 and id 0 when there is
/// none but there are pools), each pool of `pools` placed into the first
/// group with its id (or a new unnamed group with quota 0), sorted by group
/// id.
pub open spec fn mara_pool_config(config: JsonV) -> Seq<PoolGroupConfigV> {
    let gs = array_or_empty(config.get("pool-group"@));
    let ps = array_or_empty(config.get("pools"@));
    let init = mara_groups(gs);
    let start = if init.len() == 0 && ps.len() > 0 {
        seq![(0u64, PoolGroupConfigV { name: Seq::empty(), quota: 100, pools: Seq::empty() })]
    } else {
        init
    };
    strip_gids(sort_by_gid(add_pools(start, mara_pools(ps))))
}

/// A pool-group entry is read from its own fields: it counts only with a
/// `gid`, which becomes the group's id; the group's quota is its `percent`
/// when that is a number that fits in `u32` (else 0); its name is its
/// `alias`; it starts with no pools.
pub proof fn lemma_mara_group_reads_entry(g: JsonV)
    ensures
        opt_u64(g.get("gid"@)) is None ==> mara_group(g) is None,
        opt_u64(g.get("gid"@)) is Some ==> mara_group(g) is Some,
        opt_u64(g.get("gid"@)) is Some ==> (mara_group(g)->0).0 == opt_u64(g.get("gid"@))->0,
        opt_u64(g.get("gid"@)) is Some && opt_u64(g.get("percent"@)) is Some && opt_u64(g.get("percent"@))->0
            <= u32::MAX ==> (mara_group(g)->0).1.quota == opt_u64(g.get("percent"@))->0,
        opt_u64(g.get("gid"@)) is Some && !(opt_u64(g.get("percent"@)) is Some && opt_u64(
            g.get("percent"@),
        )->0 <= u32::MAX) ==> (mara_group(g)->0).1.quota == 0,
        opt_u64(g.get("gid"@)) is Some && opt_str(g.get("alias"@)) is Some ==> (mara_group(g)->0).1.name == opt_str(
            g.get("alias"@),
        )->0,
        opt_u64(g.get("gid"@)) is Some ==> (mara_group(g)->0).1.pools.len() == 0,
{
}

/// The groups read from a list of pool-group entries that all carry a
/// `gid` are one per entry, in order, each with the entry's id and its
/// `percent` as quota (when that fits in `u32`).
pub proof fn lemma_mara_groups_follow_entries(gs: Seq<JsonV>)
    requires
        forall|j: int| 0 <= j < gs.len() ==> opt_u64(#[trigger] gs[j].get("gid"@)) is Some,
    ensures
        mara_groups(gs).len() == gs.len(),
        forall|j: int| 0 <= j < gs.len() ==> (#[trigger] mara_groups(gs)[j]).0 == opt_u64(gs[j].get("gid"@))->0,
        forall|j: int|
            0 <= j < gs.len() && opt_u64(gs[j].get("percent"@)) is Some && opt_u64(gs[j].get("percent"@))->0
                <= u32::MAX ==> (#[trigger] mara_groups(gs)[j]).1.quota == opt_u64(gs[j].get("percent"@))->0,
    decreases gs.len(),
{
    if gs.len() > 0 {
        let rest = gs.drop_last();
        lemma_mara_groups_follow_entries(rest);
        lemma_mara_group_reads_entry(gs.last());
        assert forall|j: int| 0 <= j < gs.len() implies (#[trigger] mara_groups(gs)[j]).0 == opt_u64(
            gs[j].get("gid"@),
        )->0 by {
            if j < gs.len() - 1 {
                assert(rest[j] == gs[j]);
            }
        }
        assert forall|j: int|
            0 <= j < gs.len() && opt_u64(gs[j].get("percent"@)) is Some && opt_u64(gs[j].get("percent"@))->0
                <= u32::MAX implies (#[trigger] mara_groups(gs)[j]).1.quota == opt_u64(gs[j].get("percent"@))->0 by {
            if j < gs.len() - 1 {
                assert(rest[j] == gs[j]);
            }
        }
    }
}

/// Reading a written pool entry gives back the pool and its group id, when
/// the pool has an address.
pub proof fn lemma_mara_pool_reads_back(pool: PoolConfigV, gid: int)
    requires
        pool.url.len() > 0,
        0 <= gid <= u64::MAX,
    ensures
        mara_pool(pool_entry(pool, gid)) == Some((gid as u64, 0u32, pool)),
{
    reveal_strlit("url");
    reveal_strlit("user");
    reveal_strlit("pass");
    reveal_strlit("gid");
    let es = seq![
        ("url"@, JsonV::Str(pool.url)),
        ("user"@, JsonV::Str(pool.username)),
        ("pass"@, JsonV::Str(pool.password)),
        ("gid"@, JsonV::Number(JsonNumber::PosInt(gid as u64))),
    ];
    assert("url"@ != "user"@) by {
        assert("url"@[1] != "user"@[1]);
    }
    assert("url"@ != "pass"@) by {
        assert("url"@[0] != "pass"@[0]);
    }
    assert("url"@ != "gid"@) by {
        assert("url"@[0] != "gid"@[0]);
    }
    assert("user"@ != "pass"@) by {
        assert("user"@[0] != "pass"@[0]);
    }
    assert("user"@ != "gid"@) by {
        assert("user"@[0] != "gid"@[0]);
    }
    assert("pass"@ != "gid"@) by {
        assert("pass"@[0] != "gid"@[0]);
    }
    crate::json::lemma_get_listed(es, 0);
    crate::json::lemma_get_listed(es, 1);
    crate::json::lemma_get_listed(es, 2);
    crate::json::lemma_get_listed(es, 3);
}

/// Reading the written entry of group `i` gives back id `i`, the group's
/// name, and the percent written for it as quota.
pub proof fn lemma_mara_group_entry_reads_back(groups: Seq<PoolGroupConfigV>, i: int)
    requires
        0 <= i < groups.len(),
        i <= u64::MAX,
        group_percent(groups, i) <= u32::MAX,
    ensures
        mara_group(pool_group_entry(groups, i)) == Some(
            (
                i as u64,
                PoolGroupConfigV {
                    name: groups[i].name,
                    quota: group_percent(groups, i) as u32,
                    pools: Seq::empty(),
                },
            ),
        ),
{
    reveal_strlit("gid");
    reveal_strlit("alias");
    reveal_strlit("percent");
    let es = seq![
        ("gid"@, JsonV::Number(JsonNumber::PosInt(i as u64))),
        ("alias"@, JsonV::Str(groups[i].name)),
        ("percent"@, JsonV::Number(JsonNumber::PosInt(group_percent(groups, i) as u64))),
    ];
    assert("gid"@ != "alias"@) by {
        assert("gid"@[0] != "alias"@[0]);
    }
    assert("gid"@ != "percent"@) by {
        assert("gid"@[0] != "percent"@[0]);
    }
    assert("alias"@ != "percent"@) by {
        assert("alias"@[0] != "percent"@[0]);
    }
    crate::json::lemma_get_listed(es, 0);
    crate::json::lemma_get_listed(es, 1);
    crate::json::lemma_get_listed(es, 2);
}

/// Read one pool-group entry.
fn read_mara_group(g: &Json) -> (r: Option<KeyedGroup>)
    ensures
        match r {
            Some(x) => mara_group(g@) == Some(crate::pools::keyed_view(x)),
            None => mara_group(g@) is None,
        },
{
    let gid = match u64_in(g.get("gid")) {
        Some(v) => v,
        None => return None,
    };
    let name = text_or_empty(g.get("alias"));
    let quota: u32 = match u64_in(g.get("percent")) {
        Some(p) => if p <= u32::MAX as u64 {
            p as u32
        } else {
            0
        },
        None => 0,
    };
    let pools: Vec<PoolConfig> = Vec::new();
    assert(crate::pools::pool_configs_view(pools@) =~= Seq::<PoolConfigV>::empty());
    Some((gid, PoolGroupConfig { name, quota, pools }))
}

/// Read one pool entry.
fn read_mara_pool(p: &Json) -> (r: Option<KeyedPool>)
    ensures
        match r {
            Some(x) => mara_pool(p@) == Some(crate::pools::keyed_pool_view(x)),
            None => mara_pool(p@) is None,
        },
{
    let url = match str_in(p.get("url")) {
        Some(u) => u,
        None => return None,
    };
    if url.unicode_len() == 0 {
        return None;
    }
    let gid = match u64_in(p.get("gid")) {
        Some(g) => g,
        None => 0,
    };
    let pool = PoolConfig {
        url: crate::pools::PoolURL::new(url.to_owned()),
        username: text_or_empty(p.get("user")),
        password: text_or_empty(p.get("pass")),
    };
    Some((gid, 0, pool))
}

/// The pool groups a MaraFW miner configuration describes (see
/// [`mara_pool_config`]).
pub fn parse_pool_config(config: &Json) -> (r: Vec<PoolGroupConfig>)
    ensures
        pool_groups_view(r@) == mara_pool_config(config@),
{
    let empty: Vec<Json> = Vec::new();
    let gs: &Vec<Json> = match array_in(config.get("pool-group")) {
        Some(a) => a,
        None => &empty,
    };
    let ps: &Vec<Json> = match array_in(config.get("pools")) {
        Some(a) => a,
        None => &empty,
    };
    let ghost gsv = array_or_empty(config@.get("pool-group"@));
    let ghost psv = array_or_empty(config@.get("pools"@));
    assert(crate::json::items_view(empty@) =~= Seq::<JsonV>::empty());
    assert(crate::json::items_view(gs@) == gsv);
    assert(crate::json::items_view(ps@) == psv);
    proof {
        crate::json::lemma_items_view_len(gs@);
        crate::json::lemma_items_view_len(ps@);
    }
    let mut groups: Vec<KeyedGroup> = Vec::new();
    let mut i: usize = 0;
    while i < gs.len()
        invariant
            i <= gs@.len(),
            gsv == crate::json::items_view(gs@),
            gsv.len() == gs@.len(),
            forall|j: int| 0 <= j < gs@.len() ==> #[trigger] gsv[j] == gs@[j]@,
            keyed_groups_view(groups@) == mara_groups(gsv.take(i as int)),
        decreases gs@.len() - i,
    {
        let ghost before = groups@;
        assert(gsv.take(i + 1).drop_last() =~= gsv.take(i as int));
        match read_mara_group(&gs[i]) {
            Some(g) => {
                groups.push(g);
                assert(keyed_groups_view(groups@) =~= keyed_groups_view(before).push(crate::pools::keyed_view(g)));
            },
            None => {},
        }
        i = i + 1;
    }
    assert(gsv.take(gs@.len() as int) =~= gsv);
    let mut pools: Vec<KeyedPool> = Vec::new();
    let mut i: usize = 0;
    while i < ps.len()
        invariant
            i <= ps@.len(),
            psv == crate::json::items_view(ps@),
            psv.len() == ps@.len(),
            forall|j: int| 0 <= j < ps@.len() ==> #[trigger] psv[j] == ps@[j]@,
            keyed_pools_view(pools@) == mara_pools(psv.take(i as int)),
        decreases ps@.len() - i,
    {
        let ghost before = pools@;
        assert(psv.take(i + 1).drop_last() =~= psv.take(i as int));
        match read_mara_pool(&ps[i]) {
            Some(p) => {
                pools.push(p);
                assert(keyed_pools_view(pools@) =~= keyed_pools_view(before).push(crate::pools::keyed_pool_view(p)));
            },
            None => {},
        }
        i = i + 1;
    }
    assert(psv.take(ps@.len() as int) =~= psv);
    if groups.len() == 0 && ps.len() > 0 {
        let v: Vec<PoolConfig> = Vec::new();
        assert(crate::pools::pool_configs_view(v@) =~= Seq::<PoolConfigV>::empty());
        groups.push((0, PoolGroupConfig { name: String::new(), quota: 100, pools: v }));
        assert(keyed_groups_view(groups@) =~= seq![(0u64, PoolGroupConfigV { name: Seq::empty(), quota: 100, pools: Seq::empty() })]);
    }
    let placed = place_pools(groups, pools);
    let sorted = sort_groups_by_gid(placed);
    into_groups(sorted)
}

/// The work modes of MaraFW.
#[derive(Debug, Clone, Copy, PartialEq, Eq, Structural)]
pub enum MaraWorkMode {
    Auto,
    Fixed,
    Stock,
    Sleep,
}

/// The name MaraFW uses for a work mode.
pub open spec fn work_mode_name(m: MaraWorkMode) -> Seq<char> {
    match m {
        MaraWorkMode::Auto => "Auto"@,
        MaraWorkMode::Fixed => "Fixed"@,
        MaraWorkMode::Stock => "Stock"@,
        MaraWorkMode::Sleep => "Sleep"@,
    }
}

impl MaraWorkMode {
    /// The name MaraFW uses for this work mode (its `Display`).
    pub fn name(&self) -> (r: &'static str)
        ensures
            r@ == work_mode_name(*self),
    {
        match self {
            MaraWorkMode::Auto => "Auto",
            MaraWorkMode::Fixed => "Fixed",
            MaraWorkMode::Stock => "Stock",
            MaraWorkMode::Sleep => "Sleep",
        }
    }
}

} // verus!
