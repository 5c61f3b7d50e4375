//! Choice of the egress proxy for an upstream call, and the health-check
//! bookkeeping of pool entries.

use vstd::prelude::*;
use crate::adapter::{lookup_mapping, lookup_pairs};
use crate::config::{ProxyEntry, ProxyPoolConfig};
use crate::scheduler::{select_by_strategy, strategy_pick, Account, Vendor};

verus! {

/// Enabled and healthy.
pub open spec fn usable_entry(e: ProxyEntry) -> bool {
    e.enabled && e.is_healthy
}

pub open spec fn any_usable(proxies: Seq<ProxyEntry>) -> bool {
    exists|i: int| 0 <= i < proxies.len() && usable_entry(#[trigger] proxies[i])
}

/// The entries the strategy may choose from: the usable ones; when there are
/// none and `auto_failover` allows degraded use, the enabled ones.
pub open spec fn proxy_candidates(proxies: Seq<ProxyEntry>, auto_failover: bool) -> Seq<bool> {
    Seq::new(
        proxies.len(),
        |i: int|
            if any_usable(proxies) {
                usable_entry(proxies[i])
            } else {
                auto_failover && proxies[i].enabled
            },
    )
}

/// How the strategy sees entry `i`, with `in_flight` calls going through it.
pub open spec fn entry_as_account(e: ProxyEntry, i: int, in_flight: u64) -> Account {
    Account {
        id: i as u64,
        vendor: Vendor::Primary,
        enabled: e.enabled,
        consumption_percent: 0,
        priority: e.priority,
        healthy: e.is_healthy,
        in_flight,
        latency_ms: e.latency,
    }
}

pub open spec fn entries_as_accounts(proxies: Seq<ProxyEntry>, in_flight: Seq<u64>) -> Seq<Account> {
    Seq::new(proxies.len(), |i: int| entry_as_account(proxies[i], i, in_flight[i]))
}

/// The first entry with id `id` at or after `k`.
pub open spec fn find_entry_from(proxies: Seq<ProxyEntry>, id: Seq<char>, k: int) -> Option<int>
    decreases proxies.len() - k,
{
    if k < 0 || k >= proxies.len() {
        None
    } else if proxies[k].id@ == id {
        Some(k)
    } else {
        find_entry_from(proxies, id, k + 1)
    }
}

/// The usable entry that `account` is bound to, if any.
pub open spec fn bound_entry(pool: ProxyPoolConfig, account: Seq<char>) -> Option<int> {
    match lookup_pairs(pool.account_bindings@, account) {
        None => None,
        Some(pid) => match find_entry_from(pool.proxies@, pid, 0) {
            None => None,
            Some(k) => if usable_entry(pool.proxies@[k]) {
                Some(k)
            } else {
                None
            },
        },
    }
}

/// The entry that carries a call of `account`: none when pooling is off;
/// the account's bound entry when it is usable; else the strategy's pick.
pub open spec fn proxy_selection(
    pool: ProxyPoolConfig,
    account: Seq<char>,
    in_flight: Seq<u64>,
    cursor: u64,
    random: u64,
) -> Option<int> {
    if !pool.enabled {
        None
    } else if bound_entry(pool, account) is Some {
        bound_entry(pool, account)
    } else {
        strategy_pick(
            entries_as_accounts(pool.proxies@, in_flight),
            proxy_candidates(pool.proxies@, pool.auto_failover),
            pool.strategy,
            cursor,
            random,
        )
    }
}

fn find_entry(proxies: &Vec<ProxyEntry>, id: &String) -> (r: Option<usize>)
    ensures
        r matches Some(i) ==> find_entry_from(proxies@, id@, 0) == Some(i as int),
        r is Some ==> r->0 < proxies@.len(),
        r is None ==> find_entry_from(proxies@, id@, 0) is None,
{
    let mut i: usize = 0;
    while i < proxies.len()
        invariant
            i <= proxies@.len(),
            find_entry_from(proxies@, id@, 0) == find_entry_from(proxies@, id@, i as int),
        decreases proxies@.len() - i,
    {
        if proxies[i].id == *id {
            return Some(i);
        }
        i += 1;
    }
    None
}

/// Chooses the egress proxy for a call made through `account`.
/// `in_flight[i]` counts the calls going through entry `i`.
pub fn select_proxy(
    pool: &ProxyPoolConfig,
    account: &String,
    in_flight: &Vec<u64>,
    cursor: u64,
    random: u64,
) -> (r: Option<usize>)
    requires
        in_flight@.len() == pool.proxies@.len(),
    ensures
        r matches Some(i) ==> proxy_selection(*pool, account@, in_flight@, cursor, random) == Some(
            i as int,
        ),
        r is Some ==> r->0 < pool.proxies@.len(),
        r is None ==> proxy_selection(*pool, account@, in_flight@, cursor, random) is None,
{
    if !pool.enabled {
        return None;
    }
    if let Some(pid) = lookup_mapping(&pool.account_bindings, account) {
        if let Some(k) = find_entry(&pool.proxies, &pid) {
            if pool.proxies[k].enabled && pool.proxies[k].is_healthy {
                return Some(k);
            }
        }
    }
    let n = pool.proxies.len();
    let mut usable_exists = false;
    let mut j: usize = 0;
    while j < n
        invariant
            j <= n == pool.proxies@.len(),
            usable_exists == exists|i: int| 0 <= i < j && usable_entry(#[trigger] pool.proxies@[i]),
        decreases n - j,
    {
        if pool.proxies[j].enabled && pool.proxies[j].is_healthy {
            assert(usable_entry(pool.proxies@[j as int]));
            usable_exists = true;
        }
        j += 1;
    }
    let mut accounts: Vec<Account> = Vec::new();
    let mut mask: Vec<bool> = Vec::new();
    let mut i: usize = 0;
    while i < n
        invariant
            i <= n == pool.proxies@.len() == in_flight@.len(),
            usable_exists == any_usable(pool.proxies@),
            accounts@.len() == i,
            mask@.len() == i,
            forall|k: int|
                0 <= k < i ==> accounts@[k] == entry_as_account(pool.proxies@[k], k, in_flight@[k]),
            forall|k: int|
                0 <= k < i ==> mask@[k] == proxy_candidates(pool.proxies@, pool.auto_failover)[k],
        decreases n - i,
    {
        let e = &pool.proxies[i];
        accounts.push(
            Account {
                id: i as u64,
                vendor: Vendor::Primary,
                enabled: e.enabled,
                consumption_percent: 0,
                priority: e.priority,
                healthy: e.is_healthy,
                in_flight: in_flight[i],
                latency_ms: e.latency,
            },
        );
        mask.push(
            if usable_exists {
                e.enabled && e.is_healthy
            } else {
                pool.auto_failover && e.enabled
            },
        );
        i += 1;
    }
    assert(accounts@ =~= entries_as_accounts(pool.proxies@, in_flight@));
    assert(mask@ =~= proxy_candidates(pool.proxies@, pool.auto_failover));
    select_by_strategy(&accounts, &mask, pool.strategy, cursor, random)
}

/// Records the outcome of a health probe of `entry` at time `now`.
pub fn record_health_check(entry: &mut ProxyEntry, healthy: bool, latency_ms: Option<u64>, now: i64)
    ensures
        *final(entry) == (ProxyEntry {
            is_healthy: healthy,
            last_check_time: Some(now),
            latency: latency_ms,
            ..*old(entry)
        }),
{
    entry.is_healthy = healthy;
    entry.last_check_time = Some(now);
    entry.latency = latency_ms;
}

/// A pool entry that is disabled or unhealthy is chosen only when no entry
/// is usable and `auto_failover` allows degraded use, and a disabled entry
/// never by the strategy.
pub proof fn lemma_degraded_entries_only_as_last_resort(
    pool: ProxyPoolConfig,
    account: Seq<char>,
    in_flight: Seq<u64>,
    cursor: u64,
    random: u64,
)
    requires
        in_flight.len() == pool.proxies@.len(),
    ensures
        proxy_selection(pool, account, in_flight, cursor, random) matches Some(k) ==> (0 <= k
            < pool.proxies@.len() && pool.proxies@[k].enabled && (usable_entry(pool.proxies@[k]) || (
        !any_usable(pool.proxies@) && pool.auto_failover))),
{
    let accounts = entries_as_accounts(pool.proxies@, in_flight);
    let mask = proxy_candidates(pool.proxies@, pool.auto_failover);
    if pool.enabled {
        match lookup_pairs(pool.account_bindings@, account) {
            Some(pid) => lemma_find_entry_bounds(pool.proxies@, pid, 0),
            None => {},
        }
        if bound_entry(pool, account) is None {
            crate::scheduler::lemma_strategy_pick_is_candidate(
                accounts,
                mask,
                pool.strategy,
                cursor,
                random,
            );
            if proxy_selection(pool, account, in_flight, cursor, random) is Some {
                let k = proxy_selection(pool, account, in_flight, cursor, random)->0;
                assert(mask[k]);
            }
        }
    }
}

proof fn lemma_find_entry_bounds(proxies: Seq<ProxyEntry>, id: Seq<char>, k: int)
    requires
        0 <= k,
    ensures
        find_entry_from(proxies, id, k) matches Some(j) ==> k <= j < proxies.len(),
    decreases proxies.len() - k,
{
    if k < proxies.len() && proxies[k].id@ != id {
        lemma_find_entry_bounds(proxies, id, k + 1);
    }
}

} // verus!

verus! {

/// Under `Priority`, the egress proxy chosen for an account does not depend
/// on the cursor nor on the random number: on an unchanged pool, repeated
/// selections give the same entry.
pub proof fn lemma_proxy_priority_repeatable(
    pool: ProxyPoolConfig,
    account: Seq<char>,
    in_flight: Seq<u64>,
    cursor1: u64,
    random1: u64,
    cursor2: u64,
    random2: u64,
)
    requires
        pool.strategy == crate::config::ProxySelectionStrategy::Priority,
        in_flight.len() == pool.proxies@.len(),
    ensures
        proxy_selection(pool, account, in_flight, cursor1, random1) == proxy_selection(
            pool,
            account,
            in_flight,
            cursor2,
            random2,
        ),
{
    crate::scheduler::lemma_priority_selection_deterministic(
        entries_as_accounts(pool.proxies@, in_flight),
        proxy_candidates(pool.proxies@, pool.auto_failover),
        cursor1,
        random1,
        cursor2,
        random2,
    );
}

/// Under `RoundRobin`, for an account with no usable bound entry, `n`
/// consecutive cursor values, where `n` is the number of candidate entries,
/// choose each candidate entry exactly once.
pub proof fn lemma_proxy_round_robin_visits_each_once(
    pool: ProxyPoolConfig,
    account: Seq<char>,
    in_flight: Seq<u64>,
    cursor: u64,
    random: u64,
    n: int,
)
    requires
        pool.enabled,
        pool.strategy == crate::config::ProxySelectionStrategy::RoundRobin,
        bound_entry(pool, account) is None,
        in_flight.len() == pool.proxies@.len(),
        n == crate::scheduler::candidate_list(
            proxy_candidates(pool.proxies@, pool.auto_failover),
            pool.proxies@.len() as int,
        ).len(),
        n > 0,
        cursor + n <= u64::MAX,
    ensures
        forall|i: int, j: int|
            0 <= i < j < n ==> #[trigger] proxy_selection(
                pool,
                account,
                in_flight,
                (cursor + i) as u64,
                random,
            ) != #[trigger] proxy_selection(pool, account, in_flight, (cursor + j) as u64, random),
        forall|k: int|
            0 <= k < pool.proxies@.len() && proxy_candidates(pool.proxies@, pool.auto_failover)[k]
                ==> exists|i: int|
                0 <= i < n && #[trigger] proxy_selection(
                    pool,
                    account,
                    in_flight,
                    (cursor + i) as u64,
                    random,
                ) == Some(k),
{
    let accounts = entries_as_accounts(pool.proxies@, in_flight);
    let mask = proxy_candidates(pool.proxies@, pool.auto_failover);
    crate::scheduler::lemma_round_robin_visits_each_once(accounts, mask, cursor, n);
    assert forall|i: int, j: int| 0 <= i < j < n implies #[trigger] proxy_selection(
        pool,
        account,
        in_flight,
        (cursor + i) as u64,
        random,
    ) != #[trigger] proxy_selection(pool, account, in_flight, (cursor + j) as u64, random) by {
        assert(crate::scheduler::round_robin_pick(accounts, mask, cursor + i)
            != crate::scheduler::round_robin_pick(accounts, mask, cursor + j));
    }
    assert forall|k: int|
        0 <= k < pool.proxies@.len() && mask[k] implies exists|i: int|
        0 <= i < n && #[trigger] proxy_selection(
            pool,
            account,
            in_flight,
            (cursor + i) as u64,
            random,
        ) == Some(k) by {
        let i = choose|i: int|
            0 <= i < n && #[trigger] crate::scheduler::round_robin_pick(accounts, mask, cursor + i)
                == Some(k);
        assert(proxy_selection(pool, account, in_flight, (cursor + i) as u64, random) == Some(k));
    }
}

} // verus!
