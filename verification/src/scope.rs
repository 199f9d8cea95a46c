//! The scope planner: which look-back durations a generation covers.

use vstd::arithmetic::power2::{lemma2_to64, lemma_pow2_unfold, pow2};
use vstd::prelude::*;

verus! {

/// The scope that reaches back to the beginning of recorded history.
pub const UNBOUNDED: u64 = 0xffff_ffff_ffff_ffff;

/// Why a pair of configuration values admits no scope list.
#[derive(Debug, Clone, Copy, PartialEq, Eq, Structural)]
pub enum ConfigError {
    /// The base interval is zero.
    ZeroInterval,
    /// The maximum scope is shorter than the base interval.
    MaxScopeBelowInterval,
    /// The longest bounded scope would not fit below the unbounded sentinel.
    ScopeOverflow,
}

/// `base` doubled `k` times.
pub open spec fn doubled(base: nat, k: nat) -> nat
    decreases k,
{
    if k == 0 {
        base
    } else {
        2 * doubled(base, (k - 1) as nat)
    }
}

/// The least number of doublings that take `base` to `max` or beyond.
pub open spec fn doublings_needed(base: nat, max: nat) -> nat
    decreases
            (if base < max {
                max - base
            } else {
                0
            }),
{
    if base == 0 || base >= max {
        0
    } else {
        1 + doublings_needed(2 * base, max)
    }
}

/// The bounded scopes for a base interval and a maximum scope: the base
/// interval doubled zero times, once, twice, and so on, up to and including the
/// first value that reaches the maximum.
pub open spec fn bounded_scopes(base: nat, max: nat) -> Seq<nat> {
    Seq::new(doublings_needed(base, max) + 1, |k: int| doubled(base, k as nat))
}

/// The full scope list: the bounded scopes followed by the unbounded sentinel.
pub open spec fn planned_scopes(base: nat, max: nat) -> Seq<nat> {
    bounded_scopes(base, max).push(UNBOUNDED as nat)
}

/// The reason, if any, for which `plan` turns a configuration down.
pub open spec fn plan_rejection(base: nat, max: nat) -> Option<ConfigError> {
    if base == 0 {
        Some(ConfigError::ZeroInterval)
    } else if max < base {
        Some(ConfigError::MaxScopeBelowInterval)
    } else if doubled(base, doublings_needed(base, max)) >= UNBOUNDED {
        Some(ConfigError::ScopeOverflow)
    } else {
        None
    }
}

/// A usable scope list: strictly ascending and closed by the unbounded
/// sentinel, which therefore occurs exactly once.
pub open spec fn is_scope_list(scopes: Seq<u64>) -> bool {
    &&& scopes.len() >= 1
    &&& scopes.last() == UNBOUNDED
    &&& forall|i: int, j: int| 0 <= i < j < scopes.len() ==> scopes[i] < scopes[j]
}

/// The scopes as mathematical integers.
pub open spec fn as_nats(scopes: Seq<u64>) -> Seq<nat> {
    scopes.map_values(|s: u64| s as nat)
}

/// Doubling more often gives at least as much.
pub proof fn lemma_doubled_monotonic(base: nat, i: nat, j: nat)
    requires
        i <= j,
    ensures
        doubled(base, i) <= doubled(base, j),
        base >= 1 && i < j ==> doubled(base, i) < doubled(base, j),
        base >= 1 ==> doubled(base, i) >= 1,
    decreases j,
{
    if i < j {
        lemma_doubled_monotonic(base, i, (j - 1) as nat);
    } else if i > 0 {
        lemma_doubled_monotonic(base, (i - 1) as nat, (i - 1) as nat);
    }
}

/// Doubling `k + 1` times is doubling once and then `k` times.
pub proof fn lemma_doubled_shift(base: nat, k: nat)
    ensures
        doubled(2 * base, k) == doubled(base, k + 1),
    decreases k,
{
    assert(doubled(base, k + 1) == 2 * doubled(base, k));
    if k > 0 {
        lemma_doubled_shift(base, (k - 1) as nat);
    }
}

/// `doublings_needed` is the least `k` whose doubling reaches `max`.
pub proof fn lemma_doublings_needed(base: nat, max: nat)
    requires
        base >= 1,
    ensures
        doubled(base, doublings_needed(base, max)) >= max,
        forall|k: nat| k < doublings_needed(base, max) ==> #[trigger] doubled(base, k) < max,
    decreases
            (if base < max {
                max - base
            } else {
                0
            }),
{
    if base < max {
        lemma_doublings_needed(2 * base, max);
        let rest = doublings_needed(2 * base, max);
        lemma_doubled_shift(base, rest);
        assert forall|k: nat| k < doublings_needed(base, max) implies #[trigger] doubled(base, k)
            < max by {
            if k > 0 {
                lemma_doubled_shift(base, (k - 1) as nat);
                assert(doubled(2 * base, (k - 1) as nat) < max);
            }
        }
    }
}

/// Plans the scopes of a generation.
///
/// Starting at `base_interval`, each scope is twice the one before; the first
/// one that reaches `max_scope` is the last bounded scope, and the unbounded
/// sentinel closes the list.
pub fn plan(base_interval: u64, max_scope: u64) -> (result: Result<Vec<u64>, ConfigError>)
    ensures
        match result {
            Ok(scopes) => {
                &&& plan_rejection(base_interval as nat, max_scope as nat) is None
                &&& as_nats(scopes@) == planned_scopes(base_interval as nat, max_scope as nat)
                &&& is_scope_list(scopes@)
            },
            Err(e) => plan_rejection(base_interval as nat, max_scope as nat) == Some(e),
        },
{
    if base_interval == 0 {
        return Err(ConfigError::ZeroInterval);
    }
    if max_scope < base_interval {
        return Err(ConfigError::MaxScopeBelowInterval);
    }
    let ghost base = base_interval as nat;
    let ghost max = max_scope as nat;
    let ghost needed = doublings_needed(base, max);
    let mut snapshot_scopes: Vec<u64> = Vec::new();
    let mut current_scope: u64 = base_interval;
    let ghost mut k: nat = 0;
    loop
        invariant
            base == base_interval,
            max == max_scope,
            base >= 1,
            base <= max,
            needed == doublings_needed(base, max),
            current_scope == doubled(base, k),
            current_scope >= 1,
            needed == k + doublings_needed(current_scope as nat, max),
            snapshot_scopes@.len() == k,
            forall|j: int| 0 <= j < k ==> snapshot_scopes@[j] == doubled(base, j as nat),
            forall|j: int| 0 <= j < k ==> snapshot_scopes@[j] < current_scope,
        decreases
                (if current_scope < max_scope {
                    max_scope - current_scope
                } else {
                    0
                }),
    {
        if current_scope == UNBOUNDED {
            proof {
                lemma_doubled_monotonic(base, k, needed);
            }
            return Err(ConfigError::ScopeOverflow);
        }
        snapshot_scopes.push(current_scope);
        if current_scope >= max_scope {
            snapshot_scopes.push(UNBOUNDED);
            proof {
                assert(needed == k);
                assert(as_nats(snapshot_scopes@) =~= planned_scopes(base, max));
                assert forall|i: int, j: int| 0 <= i < j < snapshot_scopes@.len() implies
                    snapshot_scopes@[i] < snapshot_scopes@[j] by {
                    if j < k {
                        lemma_doubled_monotonic(base, i as nat, j as nat);
                    }
                }
            }
            return Ok(snapshot_scopes);
        }
        if current_scope > UNBOUNDED / 2 {
            proof {
                assert(doubled(base, k + 1) == 2 * current_scope);
                lemma_doubled_monotonic(base, k + 1, needed);
            }
            return Err(ConfigError::ScopeOverflow);
        }
        proof {
            assert(doubled(base, k + 1) == 2 * doubled(base, k));
            k = k + 1;
        }
        current_scope = current_scope * 2;
    }
}

/// Whether `scopes` is a usable scope list.
pub fn check_scope_list(scopes: &[u64]) -> (valid: bool)
    ensures
        valid == is_scope_list(scopes@),
{
    let count: usize = scopes.len();
    if count == 0 {
        return false;
    }
    if scopes[count - 1] != UNBOUNDED {
        return false;
    }
    let mut k: usize = 1;
    while k < count
        invariant
            1 <= k <= count,
            count == scopes@.len(),
            forall|i: int, j: int| 0 <= i < j < k ==> scopes@[i] < scopes@[j],
        decreases count - k,
    {
        if scopes[k - 1] >= scopes[k] {
            return false;
        }
        k += 1;
    }
    true
}

/// The shape of every planned scope list: one bounded scope more than the
/// least number of doublings that takes the base interval to the maximum
/// scope, then the sentinel; strictly ascending throughout, so the sentinel
/// occurs once, at the end.
pub proof fn lemma_plan_shape(base: nat, max: nat)
    requires
        plan_rejection(base, max) is None,
    ensures
        ({
            let scopes = planned_scopes(base, max);
            let doublings = doublings_needed(base, max);
            &&& scopes.len() == doublings + 2
            &&& scopes[0] == base
            &&& scopes.last() == UNBOUNDED
            &&& forall|i: int| 0 <= i < scopes.len() - 1 ==> #[trigger] scopes[i] == base * pow2(i as nat)
            &&& forall|i: int| 0 <= i < scopes.len() - 1 ==> #[trigger] scopes[i] < UNBOUNDED
            &&& forall|i: int, j: int| 0 <= i < j < scopes.len() ==> scopes[i] < scopes[j]
            &&& forall|i: int| 0 <= i < scopes.len() - 2 ==> #[trigger] scopes[i] < max
            &&& scopes[scopes.len() - 2] >= max
            &&& base * pow2(doublings) >= max
            &&& doublings > 0 ==> base * pow2((doublings - 1) as nat) < max
            &&& doublings <= 63
        }),
{
    let scopes = planned_scopes(base, max);
    let doublings = doublings_needed(base, max);
    lemma_doublings_needed(base, max);
    assert forall|i: int| 0 <= i < scopes.len() - 1 implies #[trigger] scopes[i] == base * pow2(
        i as nat,
    ) && scopes[i] < UNBOUNDED by {
        lemma_doubled_is_power(base, i as nat);
        lemma_doubled_monotonic(base, i as nat, doublings);
    }
    assert forall|i: int, j: int| 0 <= i < j < scopes.len() implies scopes[i] < scopes[j] by {
        if j < scopes.len() - 1 {
            lemma_doubled_monotonic(base, i as nat, j as nat);
        } else {
            lemma_doubled_monotonic(base, i as nat, doublings);
        }
    }
    lemma_doubled_is_power(base, doublings);
    if doublings > 0 {
        lemma_doubled_is_power(base, (doublings - 1) as nat);
        assert(doubled(base, (doublings - 1) as nat) < max);
    }
    if doublings > 63 {
        lemma_doubled_monotonic(base, 64, doublings);
        lemma_doubled_is_power(base, 64);
        lemma2_to64();
        assert(base * pow2(64) >= pow2(64)) by (nonlinear_arith)
            requires
                base >= 1,
        ;
    }
}

/// Doubling `k` times multiplies by the `k`-th power of two.
pub proof fn lemma_doubled_is_power(base: nat, k: nat)
    ensures
        doubled(base, k) == base * pow2(k),
    decreases k,
{
    if k == 0 {
        lemma2_to64();
    } else {
        lemma_doubled_is_power(base, (k - 1) as nat);
        lemma_pow2_unfold(k);
        assert(2 * (base * pow2((k - 1) as nat)) == base * (2 * pow2((k - 1) as nat)))
            by (nonlinear_arith);
    }
}

} // verus!
