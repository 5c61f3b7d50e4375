//! Choice of the upstream account that serves a request: a fixed-account
//! override, sticky sessions, vendor dispatch modes and the selection
//! strategies, over a snapshot of the pool.

use vstd::prelude::*;
use crate::config::{ProxySelectionStrategy, ZaiDispatchMode};

verus! {

/// Which provider an account belongs to.
#[derive(Clone, Copy, Debug, PartialEq, Eq, Structural)]
pub enum Vendor {
    Primary,
    Secondary,
}

/// An upstream account as the scheduler sees it.
#[derive(Clone, Copy, Debug, PartialEq, Eq, Structural)]
pub struct Account {
    pub id: u64,
    pub vendor: Vendor,
    pub enabled: bool,
    /// Consumed share of the quota, in percent.
    pub consumption_percent: u32,
    /// Lower is preferred.
    pub priority: i32,
    pub healthy: bool,
    /// Requests dispatched to this account and not yet finished.
    pub in_flight: u64,
    /// Last measured latency in milliseconds, if any.
    pub latency_ms: Option<u64>,
}

/// Latency above which an account counts as slow.
pub const SLOW_LATENCY_MS: u64 = 1000;

/// The operator's scheduling settings.
#[derive(Clone, Copy, Debug, PartialEq, Eq, Structural)]
pub struct SchedulerPolicy {
    pub strategy: ProxySelectionStrategy,
    /// Accounts whose consumption reaches this percentage are not used.
    pub consumption_threshold: u32,
    pub dispatch_mode: ZaiDispatchMode,
    /// Pins every request to this account when it is in the pool.
    pub fixed_account: Option<u64>,
    /// Lifetime of a sticky binding, in seconds.
    pub sticky_ttl_secs: u64,
}

/// Affinity of a client session to an account, valid until `expires_at`.
pub struct StickyBinding {
    pub key: String,
    pub account_id: u64,
    pub expires_at: u64,
}

/// What the scheduler needs to know of one request.
pub struct DispatchRequest {
    pub session_key: Option<String>,
    /// Current time, in seconds.
    pub now: u64,
    /// A random number, drawn by the caller, for the `Random` strategy.
    pub random: u64,
    /// An account that failed this request and must not serve its retry.
    pub exclude: Option<u64>,
}

#[derive(Clone, Copy, Debug, PartialEq, Eq, Structural)]
pub enum DispatchError {
    NoAvailableUpstream,
}

/// The pool, the sticky bindings and the round-robin cursor.
pub struct Scheduler {
    pub pool: Vec<Account>,
    pub sticky: Vec<StickyBinding>,
    pub cursor: u64,
}

// ---------------------------------------------------------------------------
// Candidates
// ---------------------------------------------------------------------------

/// Enabled and under the consumption threshold.
pub open spec fn eligible(a: Account, threshold: u32) -> bool {
    a.enabled && a.consumption_percent < threshold
}

pub open spec fn not_excluded(a: Account, exclude: Option<u64>) -> bool {
    !(exclude == Some(a.id))
}

/// Some eligible, non-excluded account of the primary vendor exists.
pub open spec fn primary_available(pool: Seq<Account>, threshold: u32, exclude: Option<u64>) -> bool {
    exists|i: int|
        0 <= i < pool.len() && (#[trigger] pool[i]).vendor == Vendor::Primary && eligible(
            pool[i],
            threshold,
        ) && not_excluded(pool[i], exclude)
}

/// Whether the dispatch mode lets this account's vendor take part.
pub open spec fn vendor_admitted(vendor: Vendor, mode: ZaiDispatchMode, primary: bool) -> bool {
    match vendor {
        Vendor::Primary => mode != ZaiDispatchMode::Exclusive,
        Vendor::Secondary => match mode {
            ZaiDispatchMode::Off => false,
            ZaiDispatchMode::Exclusive => true,
            ZaiDispatchMode::Pooled => true,
            ZaiDispatchMode::Fallback => !primary,
        },
    }
}

/// Account `i` may be chosen by the strategy.
pub open spec fn candidate(
    pool: Seq<Account>,
    policy: SchedulerPolicy,
    exclude: Option<u64>,
    i: int,
) -> bool {
    &&& eligible(pool[i], policy.consumption_threshold)
    &&& not_excluded(pool[i], exclude)
    &&& vendor_admitted(
        pool[i].vendor,
        policy.dispatch_mode,
        primary_available(pool, policy.consumption_threshold, exclude),
    )
}

pub fn is_eligible(a: &Account, threshold: u32) -> (r: bool)
    ensures
        r == eligible(*a, threshold),
{
    a.enabled && a.consumption_percent < threshold
}

fn has_primary(pool: &Vec<Account>, threshold: u32, exclude: Option<u64>) -> (r: bool)
    ensures
        r == primary_available(pool@, threshold, exclude),
{
    let mut i: usize = 0;
    while i < pool.len()
        invariant
            i <= pool@.len(),
            forall|j: int|
                0 <= j < i ==> !((#[trigger] pool@[j]).vendor == Vendor::Primary && eligible(
                    pool@[j],
                    threshold,
                ) && not_excluded(pool@[j], exclude)),
        decreases pool@.len() - i,
    {
        let a = pool[i];
        if a.vendor == Vendor::Primary && is_eligible(&a, threshold) && exclude != Some(a.id) {
            return true;
        }
        i += 1;
    }
    false
}

/// Marks the accounts that the strategy may choose from.
pub fn candidate_mask(pool: &Vec<Account>, policy: &SchedulerPolicy, exclude: Option<u64>) -> (r:
    Vec<bool>)
    ensures
        r@.len() == pool@.len(),
        forall|i: int| 0 <= i < pool@.len() ==> r@[i] == candidate(pool@, *policy, exclude, i),
{
    let primary = has_primary(pool, policy.consumption_threshold, exclude);
    let mut mask: Vec<bool> = Vec::new();
    let mut i: usize = 0;
    while i < pool.len()
        invariant
            i <= pool@.len(),
            mask@.len() == i,
            primary == primary_available(pool@, policy.consumption_threshold, exclude),
            forall|j: int| 0 <= j < i ==> mask@[j] == candidate(pool@, *policy, exclude, j),
        decreases pool@.len() - i,
    {
        let a = pool[i];
        let admitted = match a.vendor {
            Vendor::Primary => policy.dispatch_mode != ZaiDispatchMode::Exclusive,
            Vendor::Secondary => match policy.dispatch_mode {
                ZaiDispatchMode::Off => false,
                ZaiDispatchMode::Exclusive => true,
                ZaiDispatchMode::Pooled => true,
                ZaiDispatchMode::Fallback => !primary,
            },
        };
        mask.push(is_eligible(&a, policy.consumption_threshold) && exclude != Some(a.id) && admitted);
        i += 1;
    }
    mask
}

} // verus!

verus! {

// ---------------------------------------------------------------------------
// Strategies
// ---------------------------------------------------------------------------

/// `a` comes before `b` under `Priority`: lower priority value, then healthy first.
pub open spec fn priority_before(a: Account, b: Account) -> bool {
    a.priority < b.priority || (a.priority == b.priority && a.healthy && !b.healthy)
}

/// `a` comes before `b` under `LeastConnections`: fewer in-flight requests,
/// then lower priority value.
pub open spec fn connections_before(a: Account, b: Account) -> bool {
    a.in_flight < b.in_flight || (a.in_flight == b.in_flight && a.priority < b.priority)
}

pub open spec fn before(least_connections: bool, a: Account, b: Account) -> bool {
    if least_connections {
        connections_before(a, b)
    } else {
        priority_before(a, b)
    }
}

/// The first candidate among the first `k` accounts that no other candidate
/// comes before.
pub open spec fn best_among(
    pool: Seq<Account>,
    mask: Seq<bool>,
    least_connections: bool,
    k: int,
) -> Option<int>
    decreases k,
{
    if k <= 0 {
        None
    } else {
        let prev = best_among(pool, mask, least_connections, k - 1);
        if !mask[k - 1] {
            prev
        } else {
            match prev {
                None => Some(k - 1),
                Some(b) => if before(least_connections, pool[k - 1], pool[b]) {
                    Some(k - 1)
                } else {
                    prev
                },
            }
        }
    }
}

/// Indices of the candidates among the first `k` accounts, in order.
pub open spec fn candidate_list(mask: Seq<bool>, k: int) -> Seq<int>
    decreases k,
{
    if k <= 0 {
        seq![]
    } else if mask[k - 1] {
        candidate_list(mask, k - 1).push(k - 1)
    } else {
        candidate_list(mask, k - 1)
    }
}

/// Weight of an account under `WeightedRoundRobin`: from 10 for priority 0 or
/// less down to 1 for priority 9 or more, doubled when healthy, then halved
/// (rounding up) when its last latency is above `SLOW_LATENCY_MS`.
pub open spec fn weight(a: Account) -> int {
    let base: int = if a.priority <= 0 {
        10
    } else if a.priority >= 9 {
        1
    } else {
        10 - a.priority
    };
    let w = if a.healthy {
        2 * base
    } else {
        base
    };
    match a.latency_ms {
        Some(l) => if l > SLOW_LATENCY_MS {
            (w + 1) / 2
        } else {
            w
        },
        None => w,
    }
}

pub open spec fn total_weight(pool: Seq<Account>, list: Seq<int>) -> int
    decreases list.len(),
{
    if list.len() == 0 {
        0
    } else {
        total_weight(pool, list.drop_last()) + weight(pool[list.last()])
    }
}

/// The entry of `list` whose weight slot holds `t`, walking from the front.
pub open spec fn weighted_pick(pool: Seq<Account>, list: Seq<int>, t: int) -> int
    decreases list.len(),
{
    if list.len() <= 1 {
        list[0]
    } else if t < weight(pool[list[0]]) {
        list[0]
    } else {
        weighted_pick(pool, list.drop_first(), t - weight(pool[list[0]]))
    }
}

/// The account the strategy picks among the candidates marked in `mask`.
pub open spec fn strategy_pick(
    pool: Seq<Account>,
    mask: Seq<bool>,
    strategy: ProxySelectionStrategy,
    cursor: u64,
    random: u64,
) -> Option<int> {
    let list = candidate_list(mask, pool.len() as int);
    if list.len() == 0 {
        None
    } else {
        match strategy {
            ProxySelectionStrategy::Priority => best_among(pool, mask, false, pool.len() as int),
            ProxySelectionStrategy::LeastConnections => best_among(
                pool,
                mask,
                true,
                pool.len() as int,
            ),
            ProxySelectionStrategy::RoundRobin => Some(list[cursor as int % list.len() as int]),
            ProxySelectionStrategy::Random => Some(list[random as int % list.len() as int]),
            ProxySelectionStrategy::WeightedRoundRobin => Some(
                weighted_pick(pool, list, cursor as int % total_weight(pool, list)),
            ),
        }
    }
}

fn account_before(least_connections: bool, a: &Account, b: &Account) -> (r: bool)
    ensures
        r == before(least_connections, *a, *b),
{
    if least_connections {
        a.in_flight < b.in_flight || (a.in_flight == b.in_flight && a.priority < b.priority)
    } else {
        a.priority < b.priority || (a.priority == b.priority && a.healthy && !b.healthy)
    }
}

fn pick_best(pool: &Vec<Account>, mask: &Vec<bool>, least_connections: bool) -> (r: Option<usize>)
    requires
        mask@.len() == pool@.len(),
    ensures
        r matches Some(i) ==> best_among(pool@, mask@, least_connections, pool@.len() as int)
            == Some(i as int),
        r is Some ==> r->0 < pool@.len(),
        r is None ==> best_among(pool@, mask@, least_connections, pool@.len() as int) is None,
{
    let mut best: Option<usize> = None;
    let mut k: usize = 0;
    while k < pool.len()
        invariant
            k <= pool@.len() == mask@.len(),
            best matches Some(b) ==> b < k && best_among(pool@, mask@, least_connections, k as int)
                == Some(b as int),
            best is None ==> best_among(pool@, mask@, least_connections, k as int) is None,
        decreases pool@.len() - k,
    {
        if mask[k] {
            match best {
                None => {
                    best = Some(k);
                },
                Some(b) => {
                    if account_before(least_connections, &pool[k], &pool[b]) {
                        best = Some(k);
                    }
                },
            }
        }
        k += 1;
    }
    best
}

proof fn lemma_candidate_list(mask: Seq<bool>, k: int)
    requires
        0 <= k <= mask.len(),
    ensures
        forall|j: int|
            0 <= j < candidate_list(mask, k).len() ==> 0 <= #[trigger] candidate_list(mask, k)[j]
                < k && mask[candidate_list(mask, k)[j]],
        forall|a: int, b: int|
            0 <= a < b < candidate_list(mask, k).len() ==> candidate_list(mask, k)[a]
                < candidate_list(mask, k)[b],
        forall|i: int|
            0 <= i < k && mask[i] ==> exists|j: int|
                0 <= j < candidate_list(mask, k).len() && candidate_list(mask, k)[j] == i,
    decreases k,
{
    if k > 0 {
        lemma_candidate_list(mask, k - 1);
        let prev = candidate_list(mask, k - 1);
        if mask[k - 1] {
            let cur = candidate_list(mask, k);
            assert(cur == prev.push(k - 1));
            assert forall|i: int| 0 <= i < k && mask[i] implies exists|j: int|
                0 <= j < cur.len() && cur[j] == i by {
                if i == k - 1 {
                    assert(cur[prev.len() as int] == i);
                } else {
                    let j = choose|j: int| 0 <= j < prev.len() && prev[j] == i;
                    assert(cur[j] == i);
                }
            }
        } else {
            let cur = candidate_list(mask, k);
            assert(cur == prev);
            assert forall|i: int| 0 <= i < k && mask[i] implies exists|j: int|
                0 <= j < cur.len() && cur[j] == i by {
                assert(i < k - 1);
            }
        }
    }
}

/// The candidate indices marked in `mask`, in order.
fn collect_candidates(mask: &Vec<bool>) -> (r: Vec<usize>)
    ensures
        r@.len() == candidate_list(mask@, mask@.len() as int).len(),
        forall|j: int|
            0 <= j < r@.len() ==> r@[j] as int == candidate_list(mask@, mask@.len() as int)[j],
{
    let mut r: Vec<usize> = Vec::new();
    let mut k: usize = 0;
    while k < mask.len()
        invariant
            k <= mask@.len(),
            r@.len() == candidate_list(mask@, k as int).len(),
            forall|j: int| 0 <= j < r@.len() ==> r@[j] as int == candidate_list(mask@, k as int)[j],
        decreases mask@.len() - k,
    {
        if mask[k] {
            r.push(k);
        }
        k += 1;
    }
    r
}

fn account_weight(a: &Account) -> (r: u64)
    ensures
        r as int == weight(*a),
        1 <= r <= 20,
{
    let base: u64 = if a.priority <= 0 {
        10
    } else if a.priority >= 9 {
        1
    } else {
        (10 - a.priority) as u64
    };
    let w = if a.healthy {
        2 * base
    } else {
        base
    };
    match a.latency_ms {
        Some(l) => if l > SLOW_LATENCY_MS {
            (w + 1) / 2
        } else {
            w
        },
        None => w,
    }
}

proof fn lemma_total_weight_bounds(pool: Seq<Account>, list: Seq<int>)
    ensures
        list.len() <= total_weight(pool, list) <= 20 * list.len(),
    decreases list.len(),
{
    if list.len() > 0 {
        lemma_total_weight_bounds(pool, list.drop_last());
    }
}

fn pick_weighted(pool: &Vec<Account>, list: &Vec<usize>, cursor: u64) -> (r: usize)
    requires
        list@.len() > 0,
        forall|j: int| 0 <= j < list@.len() ==> list@[j] < pool@.len(),
    ensures
        ({
            let l = list@.map_values(|x: usize| x as int);
            r as int == weighted_pick(pool@, l, cursor as int % total_weight(pool@, l))
        }),
        r < pool@.len(),
{
    let ghost l = list@.map_values(|x: usize| x as int);
    let mut total: u128 = 0;
    let mut k: usize = 0;
    while k < list.len()
        invariant
            k <= list@.len(),
            l == list@.map_values(|x: usize| x as int),
            forall|j: int| 0 <= j < list@.len() ==> list@[j] < pool@.len(),
            total as int == total_weight(pool@, l.subrange(0, k as int)),
            total <= 20 * k,
        decreases list@.len() - k,
    {
        assert(l.subrange(0, k + 1).drop_last() =~= l.subrange(0, k as int));
        total = total + account_weight(&pool[list[k]]) as u128;
        k += 1;
    }
    assert(l.subrange(0, list@.len() as int) =~= l);
    proof {
        lemma_total_weight_bounds(pool@, l);
    }
    let mut t: u128 = cursor as u128 % total;
    let mut j: usize = 0;
    while j < list.len() - 1
        invariant
            j < list@.len(),
            l == list@.map_values(|x: usize| x as int),
            forall|i: int| 0 <= i < list@.len() ==> list@[i] < pool@.len(),
            weighted_pick(pool@, l, cursor as int % total_weight(pool@, l)) == weighted_pick(
                pool@,
                l.subrange(j as int, l.len() as int),
                t as int,
            ),
        ensures
            j + 1 >= list@.len() || (t as int) < weight(pool@[list@[j as int] as int]),
        decreases list@.len() - j,
    {
        let w = account_weight(&pool[list[j]]) as u128;
        let ghost rest = l.subrange(j as int, l.len() as int);
        assert(rest[0] == list@[j as int] as int);
        if t < w {
            break;
        }
        assert(rest.drop_first() =~= l.subrange(j + 1, l.len() as int));
        t = t - w;
        j += 1;
    }
    proof {
        let rest = l.subrange(j as int, l.len() as int);
        assert(rest[0] == list@[j as int] as int);
    }
    list[j]
}

} // verus!

verus! {

/// Applies `strategy` to the candidates marked in `mask`.
pub fn select_by_strategy(
    pool: &Vec<Account>,
    mask: &Vec<bool>,
    strategy: ProxySelectionStrategy,
    cursor: u64,
    random: u64,
) -> (r: Option<usize>)
    requires
        mask@.len() == pool@.len(),
    ensures
        r matches Some(i) ==> strategy_pick(pool@, mask@, strategy, cursor, random) == Some(
            i as int,
        ),
        r is Some ==> r->0 < pool@.len(),
        r is None ==> strategy_pick(pool@, mask@, strategy, cursor, random) is None,
{
    let list = collect_candidates(mask);
    let ghost l = candidate_list(mask@, pool@.len() as int);
    proof {
        lemma_candidate_list(mask@, pool@.len() as int);
        assert(list@.map_values(|x: usize| x as int) =~= l);
    }
    if list.len() == 0 {
        return None;
    }
    match strategy {
        ProxySelectionStrategy::Priority => {
            pick_best(pool, mask, false)
        },
        ProxySelectionStrategy::LeastConnections => pick_best(pool, mask, true),
        ProxySelectionStrategy::RoundRobin => {
            let k = (cursor % (list.len() as u64)) as usize;
            assert(l[k as int] == list@[k as int] as int);
            Some(list[k])
        },
        ProxySelectionStrategy::Random => {
            let k = (random % (list.len() as u64)) as usize;
            assert(l[k as int] == list@[k as int] as int);
            Some(list[k])
        },
        ProxySelectionStrategy::WeightedRoundRobin => {
            assert(forall|j: int| 0 <= j < list@.len() ==> list@[j] < pool@.len()) by {
                assert forall|j: int| 0 <= j < list@.len() implies list@[j] < pool@.len() by {
                    assert(l[j] == list@[j] as int);
                }
            }
            Some(pick_weighted(pool, &list, cursor))
        },
    }
}

// ---------------------------------------------------------------------------
// Sticky sessions
// ---------------------------------------------------------------------------

/// The account bound to `key` by the first binding for it, if that binding
/// is still live at `now`.
pub open spec fn sticky_lookup(table: Seq<StickyBinding>, key: Seq<char>, now: u64) -> Option<u64>
    decreases table.len(),
{
    if table.len() == 0 {
        None
    } else if table[0].key@ == key {
        if now < table[0].expires_at {
            Some(table[0].account_id)
        } else {
            None
        }
    } else {
        sticky_lookup(table.drop_first(), key, now)
    }
}

pub fn find_sticky(table: &Vec<StickyBinding>, key: &String, now: u64) -> (r: Option<u64>)
    ensures
        r == sticky_lookup(table@, key@, now),
{
    let mut i: usize = 0;
    assert(table@.subrange(0, table@.len() as int) =~= table@);
    while i < table.len()
        invariant
            i <= table@.len(),
            sticky_lookup(table@, key@, now) == sticky_lookup(
                table@.subrange(i as int, table@.len() as int),
                key@,
                now,
            ),
        decreases table@.len() - i,
    {
        let ghost rest = table@.subrange(i as int, table@.len() as int);
        assert(rest[0] == table@[i as int]);
        let b = &table[i];
        if b.key == *key {
            if now < b.expires_at {
                return Some(b.account_id);
            }
            return None;
        }
        assert(rest.drop_first() =~= table@.subrange(i + 1, table@.len() as int));
        i += 1;
    }
    None
}

/// Bindings of `table` for keys other than `key`, in order.
pub open spec fn without_key(table: Seq<StickyBinding>, key: Seq<char>) -> Seq<StickyBinding>
    decreases table.len(),
{
    if table.len() == 0 {
        seq![]
    } else if table[0].key@ == key {
        without_key(table.drop_first(), key)
    } else {
        seq![table[0]] + without_key(table.drop_first(), key)
    }
}

proof fn lemma_without_key_lookup(table: Seq<StickyBinding>, key: Seq<char>, other: Seq<char>, now: u64)
    requires
        other != key,
    ensures
        sticky_lookup(without_key(table, key), other, now) == sticky_lookup(table, other, now),
    decreases table.len(),
{
    if table.len() > 0 {
        lemma_without_key_lookup(table.drop_first(), key, other, now);
        if table[0].key@ != key {
            let w = seq![table[0]] + without_key(table.drop_first(), key);
            assert(w[0] == table[0]);
            assert(w.drop_first() =~= without_key(table.drop_first(), key));
        }
    }
}

proof fn lemma_without_key_push(table: Seq<StickyBinding>, b: StickyBinding, key: Seq<char>)
    ensures
        without_key(table.push(b), key) == without_key(table, key) + if b.key@ == key {
            Seq::<StickyBinding>::empty()
        } else {
            seq![b]
        },
    decreases table.len(),
{
    if table.len() > 0 {
        lemma_without_key_push(table.drop_first(), b, key);
        assert(table.push(b).drop_first() =~= table.drop_first().push(b));
        assert(table.push(b)[0] == table[0]);
        if b.key@ == key {
            assert(without_key(table.push(b), key) =~= without_key(table, key));
        } else {
            assert(without_key(table.push(b), key) =~= without_key(table, key) + seq![b]);
        }
    } else {
        let t = table.push(b);
        assert(t.len() == 1 && t[0] == b);
        assert(t.drop_first() =~= Seq::<StickyBinding>::empty());
        assert(without_key(t.drop_first(), key) == Seq::<StickyBinding>::empty());
        assert(without_key(table, key) == Seq::<StickyBinding>::empty());
        if b.key@ == key {
            assert(without_key(table.push(b), key) =~= without_key(table, key));
        } else {
            assert(without_key(table.push(b), key) =~= without_key(table, key) + seq![b]);
        }
    }
}

/// Binds `key` to `account_id` until `expires_at`, replacing any earlier
/// binding of that key.
pub fn bind_sticky(table: &mut Vec<StickyBinding>, key: &String, account_id: u64, expires_at: u64)
    ensures
        final(table)@.len() > 0,
        final(table)@[0].key@ == key@,
        final(table)@[0].account_id == account_id,
        final(table)@[0].expires_at == expires_at,
        final(table)@.drop_first() == without_key(old(table)@, key@),
{
    let ghost orig = table@;
    let mut kept: Vec<StickyBinding> = Vec::new();
    kept.push(StickyBinding { key: key.clone(), account_id, expires_at });
    let mut old_table: Vec<StickyBinding> = Vec::new();
    std::mem::swap(table, &mut old_table);
    let mut i: usize = 0;
    let n = old_table.len();
    while i < n
        invariant
            n == old_table@.len(),
            old_table@ == orig,
            i <= n,
            kept@.len() > 0,
            kept@[0].key@ == key@,
            kept@[0].account_id == account_id,
            kept@[0].expires_at == expires_at,
            kept@.drop_first() == without_key(orig.subrange(0, i as int), key@),
        decreases n - i,
    {
        assert(orig.subrange(0, i + 1) =~= orig.subrange(0, i as int).push(orig[i as int]));
        proof {
            lemma_without_key_push(orig.subrange(0, i as int), orig[i as int], key@);
        }
        let b = &old_table[i];
        if b.key != *key {
            let ghost before = kept@;
            kept.push(StickyBinding { key: b.key.clone(), account_id: b.account_id, expires_at: b.expires_at });
            assert(kept@.drop_first() =~= before.drop_first() + seq![orig[i as int]]);
        } else {
            assert(orig[i as int].key@ == key@);
        }
        i += 1;
    }
    assert(orig.subrange(0, n as int) =~= orig);
    *table = kept;
}

} // verus!

verus! {

// ---------------------------------------------------------------------------
// Selection
// ---------------------------------------------------------------------------

/// The first index of the account with id `id` at or after `k`.
pub open spec fn find_index_from(pool: Seq<Account>, id: u64, k: int) -> Option<int>
    decreases pool.len() - k,
{
    if k < 0 || k >= pool.len() {
        None
    } else if pool[k].id == id {
        Some(k)
    } else {
        find_index_from(pool, id, k + 1)
    }
}

pub open spec fn find_index(pool: Seq<Account>, id: u64) -> Option<int> {
    find_index_from(pool, id, 0)
}

pub open spec fn candidates(pool: Seq<Account>, policy: SchedulerPolicy, exclude: Option<u64>) -> Seq<
    bool,
> {
    Seq::new(pool.len(), |i: int| candidate(pool, policy, exclude, i))
}

/// The account of a live sticky binding of the request's session, if it is
/// still eligible and not excluded.
pub open spec fn sticky_choice(
    pool: Seq<Account>,
    table: Seq<StickyBinding>,
    policy: SchedulerPolicy,
    req: DispatchRequest,
) -> Option<int> {
    match req.session_key {
        None => None,
        Some(key) => match sticky_lookup(table, key@, req.now) {
            None => None,
            Some(aid) => match find_index(pool, aid) {
                None => None,
                Some(k) => if eligible(pool[k], policy.consumption_threshold) && not_excluded(
                    pool[k],
                    req.exclude,
                ) {
                    Some(k)
                } else {
                    None
                },
            },
        },
    }
}

/// The account that serves the request: the fixed account when it is in the
/// pool; else the session's sticky account when it may still be used; else
/// the strategy's pick among the candidates.
pub open spec fn selection(
    pool: Seq<Account>,
    table: Seq<StickyBinding>,
    cursor: u64,
    policy: SchedulerPolicy,
    req: DispatchRequest,
) -> Option<int> {
    if policy.fixed_account is Some && find_index(pool, policy.fixed_account->0) is Some {
        find_index(pool, policy.fixed_account->0)
    } else if sticky_choice(pool, table, policy, req) is Some {
        sticky_choice(pool, table, policy, req)
    } else {
        strategy_pick(pool, candidates(pool, policy, req.exclude), policy.strategy, cursor, req.random)
    }
}

pub fn find_account(pool: &Vec<Account>, id: u64) -> (r: Option<usize>)
    ensures
        r matches Some(i) ==> find_index(pool@, id) == Some(i as int) && i < pool@.len(),
        r is None ==> find_index(pool@, id) is None,
{
    let mut i: usize = 0;
    while i < pool.len()
        invariant
            i <= pool@.len(),
            find_index(pool@, id) == find_index_from(pool@, id, i as int),
        decreases pool@.len() - i,
    {
        if pool[i].id == id {
            return Some(i);
        }
        i += 1;
    }
    None
}

impl Scheduler {
    pub fn new(pool: Vec<Account>) -> (r: Self)
        ensures
            r.pool@ == pool@,
            r.sticky@.len() == 0,
            r.cursor == 0,
    {
        Scheduler { pool, sticky: Vec::new(), cursor: 0 }
    }

    /// The account index that would serve `req`, without changing any state.
    pub fn select(&self, policy: &SchedulerPolicy, req: &DispatchRequest) -> (r: Result<
        usize,
        DispatchError,
    >)
        ensures
            r matches Ok(i) ==> selection(self.pool@, self.sticky@, self.cursor, *policy, *req)
                == Some(i as int),
            r is Err ==> selection(self.pool@, self.sticky@, self.cursor, *policy, *req) is None,
            r matches Ok(i) ==> i < self.pool@.len(),
    {
        if let Some(id) = policy.fixed_account {
            if let Some(i) = find_account(&self.pool, id) {
                return Ok(i);
            }
        }
        if let Some(key) = &req.session_key {
            if let Some(aid) = find_sticky(&self.sticky, key, req.now) {
                if let Some(k) = find_account(&self.pool, aid) {
                    let a = self.pool[k];
                    if is_eligible(&a, policy.consumption_threshold) && req.exclude != Some(a.id) {
                        return Ok(k);
                    }
                }
            }
        }
        let mask = candidate_mask(&self.pool, policy, req.exclude);
        assert(mask@ =~= candidates(self.pool@, *policy, req.exclude));
        match select_by_strategy(&self.pool, &mask, policy.strategy, self.cursor, req.random) {
            Some(i) => Ok(i),
            None => Err(DispatchError::NoAvailableUpstream),
        }
    }

    /// Chooses the account for `req`, records the session's sticky binding,
    /// counts the request as in flight on that account and advances the cursor.
    pub fn dispatch(&mut self, policy: &SchedulerPolicy, req: &DispatchRequest) -> (r: Result<
        usize,
        DispatchError,
    >)
        ensures
            r matches Ok(i) ==> selection(
                old(self).pool@,
                old(self).sticky@,
                old(self).cursor,
                *policy,
                *req,
            ) == Some(i as int),
            r is Err ==> selection(old(self).pool@, old(self).sticky@, old(self).cursor, *policy, *req)
                is None,
            r is Err ==> *final(self) == *old(self),
            r matches Ok(i) ==> {
                &&& final(self).pool@.len() == old(self).pool@.len()
                &&& forall|j: int|
                    0 <= j < old(self).pool@.len() && j != i ==> final(self).pool@[j]
                        == old(self).pool@[j]
                &&& final(self).pool@[i as int] == (Account {
                    in_flight: if old(self).pool@[i as int].in_flight < u64::MAX {
                        (old(self).pool@[i as int].in_flight + 1) as u64
                    } else {
                        u64::MAX
                    },
                    ..old(self).pool@[i as int]
                })
                &&& final(self).cursor == if old(self).cursor < u64::MAX {
                    (old(self).cursor + 1) as u64
                } else {
                    0
                }
                &&& req.session_key is None ==> final(self).sticky@ == old(self).sticky@
                &&& req.session_key matches Some(key) ==> {
                    &&& final(self).sticky@[0].key@ == key@
                    &&& final(self).sticky@[0].account_id == old(self).pool@[i as int].id
                    &&& final(self).sticky@[0].expires_at == if req.now <= u64::MAX
                        - policy.sticky_ttl_secs {
                        (req.now + policy.sticky_ttl_secs) as u64
                    } else {
                        u64::MAX
                    }
                    &&& final(self).sticky@.drop_first() == without_key(old(self).sticky@, key@)
                    &&& final(self).sticky@.len() > 0
                }
            },
    {
        let r = self.select(policy, req);
        if let Ok(i) = r {
            let mut a = self.pool[i];
            if a.in_flight < u64::MAX {
                a.in_flight = a.in_flight + 1;
            }
            self.pool.set(i, a);
            if let Some(key) = &req.session_key {
                let expires_at = if req.now <= u64::MAX - policy.sticky_ttl_secs {
                    req.now + policy.sticky_ttl_secs
                } else {
                    u64::MAX
                };
                bind_sticky(&mut self.sticky, key, a.id, expires_at);
            }
            self.cursor = if self.cursor < u64::MAX {
                self.cursor + 1
            } else {
                0
            };
        }
        r
    }

    /// Marks the end of a request served by account `i`.
    pub fn release(&mut self, i: usize)
        requires
            i < old(self).pool@.len(),
        ensures
            final(self).sticky@ == old(self).sticky@,
            final(self).cursor == old(self).cursor,
            final(self).pool@ == old(self).pool@.update(
                i as int,
                Account {
                    in_flight: if old(self).pool@[i as int].in_flight > 0 {
                        (old(self).pool@[i as int].in_flight - 1) as u64
                    } else {
                        0
                    },
                    ..old(self).pool@[i as int]
                },
            ),
    {
        let mut a = self.pool[i];
        if a.in_flight > 0 {
            a.in_flight = a.in_flight - 1;
        }
        self.pool.set(i, a);
    }

    /// Records account `i`'s consumption; an account whose consumption
    /// reaches `threshold` is disabled.
    pub fn record_consumption(&mut self, i: usize, percent: u32, threshold: u32)
        requires
            i < old(self).pool@.len(),
        ensures
            final(self).sticky@ == old(self).sticky@,
            final(self).cursor == old(self).cursor,
            final(self).pool@ == old(self).pool@.update(
                i as int,
                Account {
                    consumption_percent: percent,
                    enabled: old(self).pool@[i as int].enabled && percent < threshold,
                    ..old(self).pool@[i as int]
                },
            ),
    {
        let mut a = self.pool[i];
        a.consumption_percent = percent;
        if percent >= threshold {
            a.enabled = false;
        }
        self.pool.set(i, a);
    }
}

} // verus!

verus! {

// ---------------------------------------------------------------------------
// Laws
// ---------------------------------------------------------------------------

proof fn lemma_best_among_minimal(pool: Seq<Account>, mask: Seq<bool>, least: bool, k: int)
    requires
        0 <= k <= mask.len() <= pool.len(),
    ensures
        best_among(pool, mask, least, k) matches Some(b) ==> 0 <= b < k && mask[b] && forall|j: int|
            0 <= j < k && mask[j] ==> !before(least, #[trigger] pool[j], pool[b]),
        best_among(pool, mask, least, k) is None ==> forall|j: int| 0 <= j < k ==> !mask[j],
    decreases k,
{
    if k > 0 {
        lemma_best_among_minimal(pool, mask, least, k - 1);
    }
}

/// Under `Priority` the choice depends on the pool and the candidates alone:
/// neither the cursor nor the random number changes it, so repeating a
/// selection on an unchanged snapshot gives the same account. The account
/// chosen is a candidate that no candidate comes before in priority order.
pub proof fn lemma_priority_selection_deterministic(
    pool: Seq<Account>,
    mask: Seq<bool>,
    cursor1: u64,
    random1: u64,
    cursor2: u64,
    random2: u64,
)
    requires
        mask.len() == pool.len(),
    ensures
        strategy_pick(pool, mask, ProxySelectionStrategy::Priority, cursor1, random1)
            == strategy_pick(pool, mask, ProxySelectionStrategy::Priority, cursor2, random2),
        strategy_pick(pool, mask, ProxySelectionStrategy::Priority, cursor1, random1) matches Some(b)
            ==> mask[b] && forall|j: int|
            0 <= j < pool.len() && mask[j] ==> !priority_before(#[trigger] pool[j], pool[b]),
        (exists|j: int| 0 <= j < pool.len() && mask[j]) ==> strategy_pick(
            pool,
            mask,
            ProxySelectionStrategy::Priority,
            cursor1,
            random1,
        ) is Some,
{
    lemma_best_among_minimal(pool, mask, false, pool.len() as int);
    lemma_candidate_list(mask, pool.len() as int);
    let l = candidate_list(mask, pool.len() as int);
    if l.len() == 0 {
        assert forall|j: int| 0 <= j < pool.len() implies !mask[j] by {
            if mask[j] {
                let jj = choose|jj: int| 0 <= jj < l.len() && l[jj] == j;
            }
        }
    }
}

/// The `RoundRobin` pick with cursor `c`.
pub open spec fn round_robin_pick(pool: Seq<Account>, mask: Seq<bool>, c: int) -> Option<int> {
    strategy_pick(pool, mask, ProxySelectionStrategy::RoundRobin, c as u64, 0)
}

/// Under `RoundRobin`, the selections made with `n` consecutive cursor values,
/// where `n` is the number of candidates, choose each candidate exactly once.
pub proof fn lemma_round_robin_visits_each_once(
    pool: Seq<Account>,
    mask: Seq<bool>,
    cursor: u64,
    n: int,
)
    requires
        mask.len() == pool.len(),
        n == candidate_list(mask, pool.len() as int).len(),
        n > 0,
        cursor + n <= u64::MAX,
    ensures
        forall|random: u64, c: u64|
            #[trigger] strategy_pick(pool, mask, ProxySelectionStrategy::RoundRobin, c, random)
                == round_robin_pick(pool, mask, c as int),
        forall|i: int, j: int|
            0 <= i < j < n ==> #[trigger] round_robin_pick(pool, mask, cursor + i)
                != #[trigger] round_robin_pick(pool, mask, cursor + j),
        forall|a: int|
            0 <= a < pool.len() && mask[a] ==> exists|i: int|
                0 <= i < n && #[trigger] round_robin_pick(pool, mask, cursor + i) == Some(a),
{
    let l = candidate_list(mask, pool.len() as int);
    lemma_candidate_list(mask, pool.len() as int);
    assert forall|i: int, j: int| 0 <= i < j < n implies #[trigger] round_robin_pick(
        pool,
        mask,
        cursor + i,
    ) != #[trigger] round_robin_pick(pool, mask, cursor + j) by {
        let pi = (cursor + i) % n;
        let pj = (cursor + j) % n;
        vstd::arithmetic::div_mod::lemma_mod_bound(cursor + i, n);
        vstd::arithmetic::div_mod::lemma_mod_bound(cursor + j, n);
        if pi == pj {
            vstd::arithmetic::div_mod::lemma_mod_equivalence(cursor + j, cursor + i, n);
            assert((cursor + j - (cursor + i)) % n == 0);
            assert((j - i) % n == j - i) by {
                vstd::arithmetic::div_mod::lemma_small_mod((j - i) as nat, n as nat);
            }
        }
        if pi < pj {
            assert(l[pi] < l[pj]);
        } else if pj < pi {
            assert(l[pj] < l[pi]);
        }
    }
    assert forall|a: int| 0 <= a < pool.len() && mask[a] implies exists|i: int|
        0 <= i < n && #[trigger] round_robin_pick(pool, mask, cursor + i) == Some(a) by {
        let p = choose|p: int| 0 <= p < l.len() && l[p] == a;
        let c = cursor as int % n;
        vstd::arithmetic::div_mod::lemma_mod_bound(cursor as int, n);
        let i = (p - c + n) % n;
        vstd::arithmetic::div_mod::lemma_mod_bound(p - c + n, n);
        vstd::arithmetic::div_mod::lemma_mod_twice(p - c + n, n);
        vstd::arithmetic::div_mod::lemma_add_mod_noop(cursor as int, i, n);
        assert((cursor + i) % n == (c + i) % n);
        vstd::arithmetic::div_mod::lemma_add_mod_noop_right(c, p - c + n, n);
        assert((c + i) % n == (p + n) % n);
        vstd::arithmetic::div_mod::lemma_mod_add_multiples_vanish(p, n);
        vstd::arithmetic::div_mod::lemma_small_mod(p as nat, n as nat);
        assert((cursor + i) % n == p);
        assert(round_robin_pick(pool, mask, cursor + i) == Some(a));
    }
}

/// While a session's binding to an account is live and that account is
/// enabled, under its consumption threshold and not excluded, a request of
/// that session is served by that account, whatever the strategy, the cursor
/// or the random number would pick, unless a fixed account in the pool
/// overrides everything.
pub proof fn lemma_sticky_session_stable(
    pool: Seq<Account>,
    table: Seq<StickyBinding>,
    cursor: u64,
    policy: SchedulerPolicy,
    req: DispatchRequest,
    a: int,
)
    requires
        0 <= a < pool.len(),
        find_index(pool, pool[a].id) == Some(a),
        policy.fixed_account is None || find_index(pool, policy.fixed_account->0) is None,
        req.session_key is Some,
        sticky_lookup(table, req.session_key->0@, req.now) == Some(pool[a].id),
        eligible(pool[a], policy.consumption_threshold),
        not_excluded(pool[a], req.exclude),
    ensures
        selection(pool, table, cursor, policy, req) == Some(a),
{
}

/// After a dispatch of a request with a session key, the binding it records
/// sends the session's later requests, within the binding's lifetime, to the
/// same account while that account stays eligible and not excluded.
pub proof fn lemma_dispatch_binds_session(
    before: Seq<StickyBinding>,
    after: Seq<StickyBinding>,
    key: Seq<char>,
    id: u64,
    expires_at: u64,
    now: u64,
)
    requires
        after.len() > 0,
        after[0].key@ == key,
        after[0].account_id == id,
        after[0].expires_at == expires_at,
        after.drop_first() == without_key(before, key),
        now < expires_at,
    ensures
        sticky_lookup(after, key, now) == Some(id),
{
}

/// Recording one session's binding leaves every other session's binding as it was.
pub proof fn lemma_dispatch_keeps_other_sessions(
    before: Seq<StickyBinding>,
    after: Seq<StickyBinding>,
    key: Seq<char>,
    other: Seq<char>,
    now: u64,
)
    requires
        after.len() > 0,
        after[0].key@ == key,
        after.drop_first() == without_key(before, key),
        other != key,
    ensures
        sticky_lookup(after, other, now) == sticky_lookup(before, other, now),
{
    lemma_without_key_lookup(before, key, other, now);
}

} // verus!

verus! {

proof fn lemma_weighted_pick_in_list(pool: Seq<Account>, list: Seq<int>, t: int)
    requires
        list.len() > 0,
    ensures
        exists|j: int| 0 <= j < list.len() && list[j] == weighted_pick(pool, list, t),
    decreases list.len(),
{
    if list.len() > 1 && t >= weight(pool[list[0]]) {
        lemma_weighted_pick_in_list(pool, list.drop_first(), t - weight(pool[list[0]]));
        let j = choose|j: int|
            0 <= j < list.drop_first().len() && list.drop_first()[j] == weighted_pick(
                pool,
                list.drop_first(),
                t - weight(pool[list[0]]),
            );
        assert(list[j + 1] == list.drop_first()[j]);
    } else {
        assert(list[0] == weighted_pick(pool, list, t));
    }
}

/// Whatever the strategy, its pick is one of the candidates.
pub proof fn lemma_strategy_pick_is_candidate(
    pool: Seq<Account>,
    mask: Seq<bool>,
    strategy: ProxySelectionStrategy,
    cursor: u64,
    random: u64,
)
    requires
        mask.len() == pool.len(),
    ensures
        strategy_pick(pool, mask, strategy, cursor, random) matches Some(k) ==> 0 <= k < pool.len()
            && mask[k],
{
    let l = candidate_list(mask, pool.len() as int);
    lemma_candidate_list(mask, pool.len() as int);
    lemma_best_among_minimal(pool, mask, false, pool.len() as int);
    lemma_best_among_minimal(pool, mask, true, pool.len() as int);
    if l.len() > 0 {
        let n = l.len() as int;
        vstd::arithmetic::div_mod::lemma_mod_bound(cursor as int, n);
        vstd::arithmetic::div_mod::lemma_mod_bound(random as int, n);
        assert(l[cursor as int % n] == l[cursor as int % n]);
        assert(l[random as int % n] == l[random as int % n]);
        if strategy == ProxySelectionStrategy::WeightedRoundRobin {
            lemma_weighted_pick_in_list(pool, l, cursor as int % total_weight(pool, l));
        }
    }
}

} // verus!

verus! {

/// Under `Priority`, the account that serves a request does not depend on the
/// round-robin cursor nor on the random number: on an unchanged snapshot,
/// repeated selections give the same account.
pub proof fn lemma_priority_dispatch_repeatable(
    pool: Seq<Account>,
    table: Seq<StickyBinding>,
    cursor1: u64,
    cursor2: u64,
    policy: SchedulerPolicy,
    req1: DispatchRequest,
    req2: DispatchRequest,
)
    requires
        policy.strategy == ProxySelectionStrategy::Priority,
        req1.session_key == req2.session_key,
        req1.now == req2.now,
        req1.exclude == req2.exclude,
    ensures
        selection(pool, table, cursor1, policy, req1) == selection(pool, table, cursor2, policy, req2),
{
    lemma_priority_selection_deterministic(
        pool,
        candidates(pool, policy, req1.exclude),
        cursor1,
        req1.random,
        cursor2,
        req2.random,
    );
}

} // verus!

verus! {

proof fn lemma_find_index_bounds(pool: Seq<Account>, id: u64, k: int)
    requires
        0 <= k,
    ensures
        find_index_from(pool, id, k) matches Some(j) ==> k <= j < pool.len() && pool[j].id == id,
    decreases pool.len() - k,
{
    if k < pool.len() && pool[k].id != id {
        lemma_find_index_bounds(pool, id, k + 1);
    }
}

/// The retry of a failed request, which excludes the account that failed,
/// is never served by that account unless a fixed account pins the pool.
pub proof fn lemma_retry_excludes_failed_account(
    pool: Seq<Account>,
    table: Seq<StickyBinding>,
    cursor: u64,
    policy: SchedulerPolicy,
    req: DispatchRequest,
    failed: u64,
)
    requires
        req.exclude == Some(failed),
        policy.fixed_account is None || find_index(pool, policy.fixed_account->0) is None,
    ensures
        selection(pool, table, cursor, policy, req) matches Some(k) ==> 0 <= k < pool.len()
            && pool[k].id != failed,
{
    let mask = candidates(pool, policy, req.exclude);
    lemma_strategy_pick_is_candidate(pool, mask, policy.strategy, cursor, req.random);
    match req.session_key {
        Some(key) => match sticky_lookup(table, key@, req.now) {
            Some(aid) => lemma_find_index_bounds(pool, aid, 0),
            None => {},
        },
        None => {},
    }
}

} // verus!
