//! The laws the pair engine obeys, stated and proved over the same spec
//! functions its operations are contracted against.

use vstd::prelude::*;

use crate::ledger::{bal_of, sum_bal, LpToken};
use crate::math::{spec_get_amount_in, spec_get_amount_out, spec_calculate_liquidity, spec_quote,
    MINIMUM_LIQUIDITY};
use crate::pair::{spec_add_commit_rel, spec_add_liquidity_begin, spec_migrate_begin,
    spec_rem_commit_rel, spec_remove_begin_rel, spec_remove_checks, spec_swap_begin,
    spec_swap_commit_rel, spec_treasury_begin, spec_treasury_commit_rel, LockState, Pair,
    PairError, PairEvent, ReplyOutcome, SwapType, TokenAction};
use crate::u256::{is_sqrt, lemma_is_sqrt_is_sqrt_nat, pow256};

verus! {

/// The product of the reserves never falls across a swap: the reserves a
/// swap will commit multiply to at least the product of the reserves it
/// started from.
pub proof fn lemma_swap_product_non_decreasing(
    pre: Pair,
    swap_type: SwapType,
    is01: bool,
    now: u64,
    deadline: u64,
    ain_total: nat,
    aout: nat,
    nri: nat,
    nro: nat,
    nacc: nat,
)
    requires
        spec_swap_begin(pre, swap_type, is01, now, deadline) == Ok::<
            (nat, nat, nat, nat, nat),
            PairError,
        >((ain_total, aout, nri, nro, nacc)),
    ensures
        nri * nro >= pre.spec_reserve_in(is01) * pre.spec_reserve_out(is01),
{
    let rin = pre.spec_reserve_in(is01);
    let rout = pre.spec_reserve_out(is01);
    let ain_pool = (nri - rin) as nat;
    let b0: nat = if is01 {
        nri
    } else {
        nro
    };
    let b1: nat = if is01 {
        nro
    } else {
        nri
    };
    let a0in: nat = if is01 {
        ain_pool
    } else {
        0
    };
    let a1in: nat = if is01 {
        0
    } else {
        ain_pool
    };
    let adj0 = (b0 * 1000 - a0in * 3) as nat;
    let adj1 = (b1 * 1000 - a1in * 3) as nat;
    assert(adj0 * adj1 >= (pre.reserve0.as_nat() * pre.reserve1.as_nat()) * 1000000);
    assert(adj0 <= b0 * 1000 && adj1 <= b1 * 1000);
    assert((b0 * 1000) * (b1 * 1000) >= adj0 * adj1) by (nonlinear_arith)
        requires
            adj0 <= b0 * 1000,
            adj1 <= b1 * 1000,
            adj0 >= 0,
            adj1 >= 0,
    ;
    assert((b0 * 1000) * (b1 * 1000) == (b0 * b1) * 1000000) by (nonlinear_arith);
    assert(b0 * b1 == nri * nro) by (nonlinear_arith)
        requires
            b0 == nri && b1 == nro || b0 == nro && b1 == nri,
    ;
    assert(rin * rout == pre.reserve0.as_nat() * pre.reserve1.as_nat()) by (nonlinear_arith)
        requires
            rin == pre.reserve0.as_nat() && rout == pre.reserve1.as_nat() || rin
                == pre.reserve1.as_nat() && rout == pre.reserve0.as_nat(),
    ;
    assert((nri * nro) * 1000000 >= (rin * rout) * 1000000);
    assert(nri * nro >= rin * rout) by (nonlinear_arith)
        requires
            (nri * nro) * 1000000 >= (rin * rout) * 1000000,
    ;
}

/// With the pool fee charged on the input leg, the committed state of every
/// swap satisfies the adjusted constant-product inequality
/// `(newRIn·1000 − aInPool·3)·(newROut·1000) ≥ rIn·rOut·1000²`.
pub proof fn lemma_swap_invariant_holds(
    pre: Pair,
    swap_type: SwapType,
    is01: bool,
    now: u64,
    deadline: u64,
    ain_total: nat,
    aout: nat,
    nri: nat,
    nro: nat,
    nacc: nat,
)
    requires
        spec_swap_begin(pre, swap_type, is01, now, deadline) == Ok::<
            (nat, nat, nat, nat, nat),
            PairError,
        >((ain_total, aout, nri, nro, nacc)),
    ensures
        (nri * 1000 - ((nri - pre.spec_reserve_in(is01)) as nat) * 3) * (nro * 1000) >= (
        pre.spec_reserve_in(is01) * pre.spec_reserve_out(is01)) * 1000000,
{
    let rin = pre.spec_reserve_in(is01);
    let rout = pre.spec_reserve_out(is01);
    let ain_pool = (nri - rin) as nat;
    let adj_in = (nri * 1000 - ain_pool * 3) as nat;
    if is01 {
        assert(adj_in * (nro * 1000) >= (pre.reserve0.as_nat() * pre.reserve1.as_nat())
            * 1000000);
    } else {
        let adj1 = (nri * 1000 - ain_pool * 3) as nat;
        assert((nro * 1000 - 0 * 3) as nat * adj1 >= (pre.reserve0.as_nat()
            * pre.reserve1.as_nat()) * 1000000);
        assert((nro * 1000) * adj1 == adj1 * (nro * 1000)) by (nonlinear_arith);
    }
    assert(rin * rout == pre.reserve0.as_nat() * pre.reserve1.as_nat()) by (nonlinear_arith)
        requires
            rin == pre.reserve0.as_nat() && rout == pre.reserve1.as_nat() || rin
                == pre.reserve1.as_nat() && rout == pre.reserve0.as_nat(),
    ;
}

/// After a completed add-liquidity with the protocol fee on, `k_last`
/// equals the product of the new reserves.
pub proof fn lemma_k_last_tracks_product_add(
    pre: Pair,
    user: u64,
    amount_a: crate::u256::U256,
    amount_b: crate::u256::U256,
    nr0: crate::u256::U256,
    nr1: crate::u256::U256,
    post: Pair,
    out: ReplyOutcome,
)
    requires
        spec_add_commit_rel(pre, user, amount_a, amount_b, nr0, nr1, post, out),
        pre.fee_to != 0,
        out matches ReplyOutcome::Completed(PairEvent::LiquidityAdded { .. }),
    ensures
        post.k_last.as_nat() == post.reserve0.as_nat() * post.reserve1.as_nat(),
{
}

/// After a completed remove-liquidity with the protocol fee on, `k_last`
/// equals the product of the new reserves.
pub proof fn lemma_k_last_tracks_product_remove(
    pre: Pair,
    user: u64,
    liquidity: crate::u256::U256,
    amount_a: crate::u256::U256,
    amount_b: crate::u256::U256,
    post: Pair,
    out: ReplyOutcome,
)
    requires
        spec_rem_commit_rel(pre, user, liquidity, amount_a, amount_b, true, post, out),
        out matches ReplyOutcome::Completed(PairEvent::LiquidityRemoved { .. }),
    ensures
        post.k_last.as_nat() == post.reserve0.as_nat() * post.reserve1.as_nat(),
{
}

/// The total supply of shares is exactly the sum of all balances.
pub proof fn lemma_total_supply_is_sum(lp: &LpToken)
    requires
        lp.wf(),
    ensures
        lp.spec_total_supply() == sum_bal(lp@),
{
}

/// The total supply never falls across an add-liquidity commit.
pub proof fn lemma_supply_non_decreasing_add(
    pre: Pair,
    user: u64,
    amount_a: crate::u256::U256,
    amount_b: crate::u256::U256,
    nr0: crate::u256::U256,
    nr1: crate::u256::U256,
    post: Pair,
    out: ReplyOutcome,
)
    requires
        spec_add_commit_rel(pre, user, amount_a, amount_b, nr0, nr1, post, out),
    ensures
        post.lp.spec_total_supply() >= pre.lp.spec_total_supply(),
{
}

/// With the protocol fee off, the total supply never grows across a begun
/// remove-liquidity.
pub proof fn lemma_supply_non_increasing_remove(
    pre: Pair,
    user: u64,
    liquidity: crate::u256::U256,
    a_min: crate::u256::U256,
    b_min: crate::u256::U256,
    now: u64,
    deadline: u64,
    post: Pair,
    r: Result<TokenAction, PairError>,
)
    requires
        spec_remove_begin_rel(pre, user, liquidity, a_min, b_min, now, deadline, post, r),
        pre.fee_to == 0,
    ensures
        post.lp.spec_total_supply() <= pre.lp.spec_total_supply(),
{
}

/// Once any shares exist, at least the minimum liquidity sits at the zero
/// identity, where nothing ever burns it.
pub proof fn lemma_minimum_liquidity_locked(p: &Pair)
    requires
        p.wf(),
        p.lp.spec_total_supply() > 0,
    ensures
        bal_of(p.lp@, 0u64) >= MINIMUM_LIQUIDITY as nat,
{
}

/// A swap never lowers either accrued treasury counter, and a completed
/// treasury payout leaves both at zero.
pub proof fn lemma_accrued_monotone(
    pre: Pair,
    swap_type: SwapType,
    is01: bool,
    now: u64,
    deadline: u64,
    ain_total: nat,
    aout: nat,
    nri: nat,
    nro: nat,
    nacc: nat,
)
    requires
        spec_swap_begin(pre, swap_type, is01, now, deadline) == Ok::<
            (nat, nat, nat, nat, nat),
            PairError,
        >((ain_total, aout, nri, nro, nacc)),
    ensures
        nacc >= (if is01 {
            pre.accrued_fee0.as_nat()
        } else {
            pre.accrued_fee1.as_nat()
        }),
{
}

/// A completed treasury payout resets both accrued counters.
pub proof fn lemma_payout_resets_accrued(
    pre: Pair,
    treasury: u64,
    amount0: crate::u256::U256,
    amount1: crate::u256::U256,
    post: Pair,
    out: ReplyOutcome,
)
    requires
        spec_treasury_commit_rel(pre, treasury, amount0, amount1, post, out),
    ensures
        post.accrued_fee0.as_nat() == 0 && post.accrued_fee1.as_nat() == 0,
{
}

/// A migrated pair holds nothing — no reserves, no `k_last`, no accrued
/// fees — and every user-facing mutator rejects it, with `PoolMigrated`
/// whenever the request gets past the lock and the emergency gate.
pub proof fn lemma_migrated_is_terminal(
    p: Pair,
    a_des: nat,
    b_des: nat,
    a_min: nat,
    b_min: nat,
    user: u64,
    liq: nat,
    swap_type: SwapType,
    is01: bool,
    caller: u64,
    target: u64,
    bal0: crate::u256::U256,
    bal1: crate::u256::U256,
    now: u64,
    deadline: u64,
)
    requires
        p.wf(),
        p.migrated,
    ensures
        p.reserve0.as_nat() == 0 && p.reserve1.as_nat() == 0,
        p.k_last.as_nat() == 0,
        p.accrued_fee0.as_nat() == 0 && p.accrued_fee1.as_nat() == 0,
        spec_add_liquidity_begin(p, a_des, b_des, a_min, b_min, now, deadline) is Err,
        spec_remove_checks(p, user, liq, a_min, b_min, now, deadline) is Err,
        spec_swap_begin(p, swap_type, is01, now, deadline) is Err,
        spec_migrate_begin(p, caller, bal0, bal1) is Err,
        !p.entry_gate ==> spec_add_liquidity_begin(p, a_des, b_des, a_min, b_min, now, deadline)
            == Err::<(nat, nat, nat, nat), PairError>(PairError::PoolMigrated),
        !p.entry_gate ==> spec_swap_begin(p, swap_type, is01, now, deadline) == Err::<
            (nat, nat, nat, nat, nat),
            PairError,
        >(PairError::PoolMigrated),
        !p.entry_gate ==> spec_remove_checks(p, user, liq, a_min, b_min, now, deadline) == Err::<
            (nat, nat),
            PairError,
        >(PairError::PoolMigrated),
{
}

/// Only a free lock admits a new operation: while one is in flight or the
/// pair is paused, every entry point rejects.
pub proof fn lemma_lock_serialises(
    p: Pair,
    a_des: nat,
    b_des: nat,
    a_min: nat,
    b_min: nat,
    user: u64,
    liq: nat,
    swap_type: SwapType,
    is01: bool,
    caller: u64,
    target: u64,
    bal0: crate::u256::U256,
    bal1: crate::u256::U256,
    now: u64,
    deadline: u64,
)
    requires
        !(p.lock matches LockState::Free),
    ensures
        spec_add_liquidity_begin(p, a_des, b_des, a_min, b_min, now, deadline) is Err,
        spec_remove_checks(p, user, liq, a_min, b_min, now, deadline) is Err,
        spec_swap_begin(p, swap_type, is01, now, deadline) is Err,
        spec_treasury_begin(p, caller) is Err,
        spec_migrate_begin(p, caller, bal0, bal1) is Err,
{
}

/// The first balanced deposit `(a, a)` mints exactly `a − 1000` shares, and
/// removing them against reserves `(a, a)` and supply `a` pays back exactly
/// those `a − 1000` of each token — strictly less than the deposit.
pub proof fn lemma_first_deposit_round_trip(a: nat)
    requires
        MINIMUM_LIQUIDITY < a,
        a * a < pow256(),
    ensures
        spec_calculate_liquidity(0, 0, a, a, 0) == Ok::<nat, PairError>(
            (a - MINIMUM_LIQUIDITY) as nat,
        ),
        ((a - MINIMUM_LIQUIDITY) as nat) * a / a == ((a - MINIMUM_LIQUIDITY) as nat),
        ((a - MINIMUM_LIQUIDITY) as nat) < a,
{
    assert(is_sqrt(a * a, a)) by (nonlinear_arith);
    lemma_is_sqrt_is_sqrt_nat(a * a, a);
    let l = (a - MINIMUM_LIQUIDITY) as nat;
    assert(l * a / a == l) by {
        vstd::arithmetic::div_mod::lemma_div_by_multiple(l as int, a as int);
        vstd::arithmetic::mul::lemma_mul_is_commutative(l as int, a as int);
    }
}

/// For a balanced pool `(r, r)` the quoted output is exactly
/// `⌊997·aIn·r / (1000·r + 997·aIn)⌋`.
pub proof fn lemma_amount_out_formula(ain: nat, r: nat)
    requires
        ain > 0,
        r > 0,
        ain * 997 < pow256(),
        (ain * 997) * r < pow256(),
        r * 1000 + ain * 997 < pow256(),
    ensures
        spec_get_amount_out(ain, r, r) == Ok::<nat, PairError>(
            (ain * 997) * r / ((r * 1000 + ain * 997) as nat),
        ),
{
}

/// Feeding a quoted output back through the input formula never asks for
/// more than one unit over the original input: the pool's rounding only
/// ever favours the pool.
pub proof fn lemma_swap_round_trip(ain: nat, rin: nat, rout: nat, aout: nat, back: nat)
    requires
        spec_get_amount_out(ain, rin, rout) == Ok::<nat, PairError>(aout),
        spec_get_amount_in(aout, rin, rout) == Ok::<nat, PairError>(back),
    ensures
        back <= ain + 1,
{
    let f = ain * 997;
    let d = rin * 1000 + f;
    // the floor property of the quoted output
    vstd::arithmetic::div_mod::lemma_fundamental_div_mod((f * rout) as int, d as int);
    vstd::arithmetic::div_mod::lemma_mod_division_less_than_divisor((f * rout) as int, d as int);
    assert(aout * d <= f * rout) by (nonlinear_arith)
        requires
            aout == (f * rout) / d,
            f * rout == d * ((f * rout) / d) + (f * rout) % d,
            (f * rout) % d >= 0,
            d > 0,
    ;
    // rearrange: 1000·rin·aout <= 997·ain·(rout − aout)
    assert(aout * d == aout * (rin * 1000) + aout * f) by (nonlinear_arith)
        requires
            d == rin * 1000 + f,
    ;
    assert(f * rout == f * aout + f * ((rout - aout) as int)) by (nonlinear_arith)
        requires
            aout <= rout,
    ;
    assert(aout * f == f * aout) by (nonlinear_arith);
    assert(aout * (rin * 1000) <= f * ((rout - aout) as int));
    assert((rin * aout) * 1000 == aout * (rin * 1000)) by (nonlinear_arith);
    assert(f * ((rout - aout) as int) == ain * (((rout - aout) as nat) * 997)) by (nonlinear_arith)
        requires
            f == ain * 997,
            aout <= rout,
    ;
    let din = ((rout - aout) as nat) * 997;
    assert(((rout - aout) as nat) * 997 > 0) by (nonlinear_arith)
        requires
            aout < rout,
    ;
    assert((rin * aout) * 1000 <= din * ain) by (nonlinear_arith)
        requires
            (rin * aout) * 1000 <= ain * din,
    ;
    vstd::arithmetic::div_mod::lemma_multiply_divide_le(((rin * aout) * 1000) as int, din as int, ain as int);
    assert((rin * aout) * 1000 / din <= ain);
}

/// `quote` is exactly `⌊a·y/x⌋`, quotes nothing for nothing, and rejects an
/// empty reserve.
pub proof fn lemma_quote_laws(a: nat, x: nat, y: nat)
    ensures
        a > 0 && x > 0 && y > 0 && a * y < pow256() ==> spec_quote(a, x, y) == Ok::<
            nat,
            PairError,
        >(a * y / x),
        spec_quote(0, x, y) == Ok::<nat, PairError>(0),
        a > 0 && (x == 0 || y == 0) ==> spec_quote(a, x, y) == Err::<nat, PairError>(
            PairError::InsufficientLiquidity,
        ),
{
}

} // verus!
