//! Round-robin over `n` slots: turn `t` goes to slot `t % n`. The same
//! arithmetic underlies the partitioner (the file with discovery index `j`
//! goes to worker `j % n`) and the worker loop (worker turn `t` serves unit
//! `t % n`).

use vstd::prelude::*;

verus! {

/// How many of the first `t` turns round-robin over `n` slots gives slot
/// `i`: one per completed sweep, plus one if the current sweep has already
/// passed `i`.
pub open spec fn round_robin_count(t: nat, n: nat, i: nat) -> nat
    recommends
        n > 0,
{
    t / n + if i < t % n {
        1nat
    } else {
        0nat
    }
}

/// Quotient and remainder of `t + 1` by `n`, from those of `t`.
proof fn lemma_turn_step(t: nat, n: nat)
    requires
        n > 0,
    ensures
        t % n < n,
        t % n + 1 < n ==> (t + 1) % n == t % n + 1 && (t + 1) / n == t / n,
        t % n + 1 == n ==> (t + 1) % n == 0 && (t + 1) / n == t / n + 1,
{
    let d = n as int;
    let q = t as int / d;
    let r = t as int % d;
    vstd::arithmetic::div_mod::lemma_mod_bound(t as int, d);
    vstd::arithmetic::div_mod::lemma_fundamental_div_mod(t as int, d);
    if r + 1 < d {
        vstd::arithmetic::div_mod::lemma_fundamental_div_mod_converse(t as int + 1, d, q, r + 1);
    } else {
        assert((q + 1) * d == q * d + d) by (nonlinear_arith);
        vstd::arithmetic::div_mod::lemma_fundamental_div_mod_converse(t as int + 1, d, q + 1, 0);
    }
}

/// One more turn raises the count of the slot whose turn it was, `t % n`,
/// by one, and no other.
pub proof fn lemma_round_robin_step(t: nat, n: nat, i: nat)
    requires
        n > 0,
        i < n,
    ensures
        round_robin_count(t + 1, n, i) == round_robin_count(t, n, i) + (if i == t % n {
            1nat
        } else {
            0nat
        }),
{
    lemma_turn_step(t, n);
}

/// Each slot takes exactly one turn in every window of `n` consecutive
/// turns: a slot is served again only after every other slot has been
/// served once.
pub proof fn lemma_round_robin_period(t: nat, n: nat, i: nat)
    requires
        n > 0,
        i < n,
    ensures
        round_robin_count(t + n, n, i) == round_robin_count(t, n, i) + 1,
{
    let d = n as int;
    let q = t as int / d;
    let r = t as int % d;
    vstd::arithmetic::div_mod::lemma_mod_bound(t as int, d);
    vstd::arithmetic::div_mod::lemma_fundamental_div_mod(t as int, d);
    assert((q + 1) * d == q * d + d) by (nonlinear_arith);
    vstd::arithmetic::div_mod::lemma_fundamental_div_mod_converse(t as int + d, d, q + 1, r);
}

/// Round robin is balanced: after any number of turns, no slot is more than
/// one turn ahead of any other.
pub proof fn lemma_round_robin_balanced(t: nat, n: nat, i: nat, j: nat)
    requires
        n > 0,
        i < n,
        j < n,
    ensures
        round_robin_count(t, n, i) <= round_robin_count(t, n, j) + 1,
{
}

/// The counts of slots `0` through `i - 1` taken together.
pub open spec fn count_sum(t: nat, n: nat, i: nat) -> nat
    decreases i,
{
    if i == 0 {
        0
    } else {
        count_sum(t, n, (i - 1) as nat) + round_robin_count(t, n, (i - 1) as nat)
    }
}

proof fn lemma_count_sum_closed(t: nat, n: nat, i: nat)
    requires
        n > 0,
        i <= n,
    ensures
        count_sum(t, n, i) == i * (t / n) + (if i <= t % n {
            i
        } else {
            t % n
        }),
    decreases i,
{
    vstd::arithmetic::div_mod::lemma_mod_bound(t as int, n as int);
    if i == 0 {
    } else {
        let j = (i - 1) as nat;
        let q = t / n;
        lemma_count_sum_closed(t, n, j);
        assert((j + 1) * q == j * q + q) by (nonlinear_arith);
    }
}

/// Round robin is total and exclusive: the slot counts add up to exactly
/// the number of turns — every turn is counted by one slot and one alone.
pub proof fn lemma_round_robin_total(t: nat, n: nat)
    requires
        n > 0,
    ensures
        count_sum(t, n, n) == t,
{
    lemma_count_sum_closed(t, n, n);
    vstd::arithmetic::div_mod::lemma_mod_bound(t as int, n as int);
    vstd::arithmetic::div_mod::lemma_fundamental_div_mod(t as int, n as int);
    assert(n * (t / n) == (n as int) * ((t as int) / (n as int))) by (nonlinear_arith);
}

/// Slot `i` and position `p` name the turn `p * n + i`, and name it alone:
/// distinct slot/position pairs name distinct turns.
pub proof fn lemma_slot_position(n: nat, i: nat, p: nat)
    requires
        n > 0,
        i < n,
    ensures
        (p * n + i) % n == i,
        (p * n + i) / n == p,
{
    vstd::arithmetic::div_mod::lemma_fundamental_div_mod_converse(
        (p * n + i) as int,
        n as int,
        p as int,
        i as int,
    );
}

/// Every turn `t` is slot `t % n`'s turn number `t / n`, and `t / n` is a
/// valid position in that slot whenever `t` has happened: the slots cover
/// the turns.
pub proof fn lemma_round_robin_covers(m: nat, n: nat, j: nat)
    requires
        n > 0,
        j < m,
    ensures
        (j / n) * n + j % n == j,
        j / n < round_robin_count(m, n, (j % n) as nat),
{
    vstd::arithmetic::div_mod::lemma_mod_bound(j as int, n as int);
    vstd::arithmetic::div_mod::lemma_fundamental_div_mod(j as int, n as int);
    vstd::arithmetic::div_mod::lemma_mod_bound(m as int, n as int);
    vstd::arithmetic::div_mod::lemma_fundamental_div_mod(m as int, n as int);
    assert((j as int / n as int) * n as int == n as int * (j as int / n as int))
        by (nonlinear_arith);
    vstd::arithmetic::div_mod::lemma_div_is_ordered(j as int, m as int, n as int);
    if j / n == m / n {
        assert(j % n < m % n);
    }
}

} // verus!
