//! The round-robin selection orbit and its fairness laws: starting from any
//! cursor position, a window of as many selections as there are payloads
//! serves every payload index exactly once.

use vstd::prelude::*;
use vstd::arithmetic::div_mod::lemma_add_mod_noop;
use vstd::arithmetic::div_mod::lemma_fundamental_div_mod;
use vstd::arithmetic::div_mod::lemma_mod_division_less_than_divisor;
use vstd::arithmetic::div_mod::lemma_mod_multiples_vanish;
use vstd::arithmetic::div_mod::lemma_small_mod;

verus! {

/// The payload index served by the `k`-th selection after the moment the
/// cursor stands at `c`, for a store of `n` payloads.
pub open spec fn selected_index(c: int, n: int, k: int) -> int {
    (c + k) % n
}

/// Every selection lands on a valid payload index.
pub proof fn lemma_selected_index_in_range(c: int, n: int, k: int)
    requires
        n > 0,
    ensures
        0 <= selected_index(c, n, k) < n,
{
    lemma_mod_division_less_than_divisor(c + k, n);
}

/// One cursor step stays on the round-robin orbit: reducing the cursor
/// modulo `n` after each single increment selects the same index as
/// reducing the whole count of increments at once.
pub proof fn lemma_selected_step(c: int, n: int, k: int)
    requires
        n > 0,
    ensures
        (selected_index(c, n, k) + 1) % n == selected_index(c, n, k + 1),
{
    let x = c + k;
    lemma_add_mod_noop(x, 1, n);
    if n == 1 {
        lemma_mod_division_less_than_divisor(x % 1 + 1, 1);
        lemma_mod_division_less_than_divisor(x + 1, 1);
    } else {
        lemma_small_mod(1, n as nat);
    }
}

/// The first selection of a window serves the cursor's own position.
pub proof fn lemma_selected_start(c: int, n: int)
    requires
        n > 0,
        0 <= c < n,
    ensures
        selected_index(c, n, 0) == c,
{
    lemma_small_mod(c as nat, n as nat);
}

/// The cursor after `k` single selections from position `c`: each selection
/// adds one and reduces modulo `n`, exactly as the store's `next_item`
/// advances it.
pub open spec fn cursor_after(c: int, n: int, k: nat) -> int
    decreases k,
{
    if k == 0 {
        c
    } else {
        (cursor_after(c, n, (k - 1) as nat) + 1) % n
    }
}

/// Stepping the cursor one selection at a time stays on the orbit: the
/// `k`-th selection after the cursor stood at `c` serves the position
/// `selected_index(c, n, k)`, so a window of `n` selections serves the
/// indices the fairness law speaks of.
pub proof fn lemma_cursor_after_on_orbit(c: int, n: int, k: nat)
    requires
        n > 0,
        0 <= c < n,
    ensures
        cursor_after(c, n, k) == selected_index(c, n, k as int),
    decreases k,
{
    if k == 0 {
        lemma_selected_start(c, n);
    } else {
        lemma_cursor_after_on_orbit(c, n, (k - 1) as nat);
        lemma_selected_step(c, n, k as int - 1);
    }
}

/// Two distinct selections within one window of `n` serve distinct indices.
pub proof fn lemma_round_robin_distinct(c: int, n: int, i: int, j: int)
    requires
        n > 0,
        0 <= i < n,
        0 <= j < n,
        i != j,
    ensures
        selected_index(c, n, i) != selected_index(c, n, j),
{
    if i < j {
        lemma_round_robin_distinct_ordered(c, n, i, j);
    } else {
        lemma_round_robin_distinct_ordered(c, n, j, i);
    }
}

proof fn lemma_round_robin_distinct_ordered(c: int, n: int, i: int, j: int)
    requires
        n > 0,
        0 <= i < n,
        0 <= j < n,
        i < j,
    ensures
        selected_index(c, n, i) != selected_index(c, n, j),
{
    if selected_index(c, n, i) == selected_index(c, n, j) {
        let r = selected_index(c, n, i);
        let qi = (c + i) / n;
        let qj = (c + j) / n;
        lemma_fundamental_div_mod(c + i, n);
        lemma_fundamental_div_mod(c + j, n);
        assert(false) by (nonlinear_arith)
            requires
                c + i == n * qi + r,
                c + j == n * qj + r,
                0 < j - i < n,
        ;
    }
}

/// Index `t` is served somewhere within a window of `n` selections
/// starting at cursor `c`.
pub open spec fn covered(c: int, n: int, t: int) -> bool {
    exists|k: int| 0 <= k < n && selected_index(c, n, k) == t
}

/// Within one window of `n` selections every payload index is served.
pub proof fn lemma_round_robin_covers(c: int, n: int, t: int)
    requires
        n > 0,
        0 <= t < n,
    ensures
        covered(c, n, t),
{
    let cm = c % n;
    lemma_mod_division_less_than_divisor(c, n);
    let q = c / n;
    lemma_fundamental_div_mod(c, n);
    lemma_small_mod(t as nat, n as nat);
    if cm <= t {
        let k = t - cm;
        lemma_mod_multiples_vanish(q, t, n);
        assert(c + k == n * q + t);
        assert(0 <= k < n && selected_index(c, n, k) == t);
    } else {
        let k = t - cm + n;
        lemma_mod_multiples_vanish(q + 1, t, n);
        assert(n * (q + 1) == n * q + n) by (nonlinear_arith);
        assert(c + k == n * (q + 1) + t);
        assert(0 <= k < n && selected_index(c, n, k) == t);
    }
}

/// Round-robin fairness: among any `n` consecutive selections starting at
/// cursor `c`, the served indices are pairwise distinct and cover every
/// index in `[0, n)` — each payload is served exactly once per window.
pub proof fn lemma_round_robin_fairness(c: int, n: int)
    requires
        n > 0,
    ensures
        forall|i: int, j: int|
            0 <= i < n && 0 <= j < n && i != j ==> selected_index(c, n, i) != selected_index(
                c,
                n,
                j,
            ),
        forall|t: int| 0 <= t < n ==> #[trigger] covered(c, n, t),
{
    assert forall|i: int, j: int|
        0 <= i < n && 0 <= j < n && i != j implies selected_index(c, n, i) != selected_index(
        c,
        n,
        j,
    ) by {
        lemma_round_robin_distinct(c, n, i, j);
    }
    assert forall|t: int| 0 <= t < n implies #[trigger] covered(c, n, t) by {
        lemma_round_robin_covers(c, n, t);
    }
}

} // verus!
