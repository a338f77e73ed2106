use crate::pool::{
    deposit_shares, lemma_swap_quotient, lemma_withdrawal_bounded, swap_output, withdrawal_amount,
    PoolState,
};
use vstd::prelude::*;

verus! {

/// The reserves a swap reads: input side first.
pub open spec fn swap_reserves(s: PoolState, a_for_b: bool) -> (int, int) {
    if a_for_b {
        (s.token_a_reserve as int, s.token_b_reserve as int)
    } else {
        (s.token_b_reserve as int, s.token_a_reserve as int)
    }
}

/// The product of a pool's two reserves.
pub open spec fn reserve_product(s: PoolState) -> int {
    s.token_a_reserve * s.token_b_reserve
}

/// A swap never raises the reserve product, and the product loses less than
/// the grown input reserve to the floor in the output formula.
pub proof fn lemma_swap_product_rounding(s: PoolState, signed: bool, a_for_b: bool, amount_in: u64)
    requires
        s.swap_spec(signed, a_for_b, amount_in) is Ok,
    ensures
        ({
            let t = s.swap_spec(signed, a_for_b, amount_in)->Ok_0.state;
            let grown = swap_reserves(s, a_for_b).0 + amount_in;
            &&& reserve_product(t) <= reserve_product(s)
            &&& reserve_product(s) - grown < reserve_product(t)
        }),
{
    let (rin, rout) = swap_reserves(s, a_for_b);
    let k = rin * rout;
    let d = rin + amount_in;
    let q = k / d;
    let t = s.swap_spec(signed, a_for_b, amount_in)->Ok_0.state;
    lemma_swap_quotient(rin, rout, amount_in as int);
    assert(swap_output(rin, rout, amount_in as int) == rout - q);
    assert(a_for_b ==> t.token_a_reserve == d && t.token_b_reserve == q);
    assert(!a_for_b ==> t.token_b_reserve == d && t.token_a_reserve == q);
    assert(reserve_product(s) == k) by (nonlinear_arith)
        requires
            a_for_b ==> rin == s.token_a_reserve && rout == s.token_b_reserve,
            !a_for_b ==> rin == s.token_b_reserve && rout == s.token_a_reserve,
            k == rin * rout,
            reserve_product(s) == s.token_a_reserve * s.token_b_reserve,
    ;
    assert(reserve_product(t) == d * q) by (nonlinear_arith)
        requires
            a_for_b ==> t.token_a_reserve == d && t.token_b_reserve == q,
            !a_for_b ==> t.token_b_reserve == d && t.token_a_reserve == q,
            reserve_product(t) == t.token_a_reserve * t.token_b_reserve,
    ;
    assert(d * q <= k && k - d < d * q) by (nonlinear_arith)
        requires
            d > 0,
            k >= 0,
            q == k / d,
    ;
}

/// For every swap that loses nothing to rounding, the reserve product after
/// the swap is at least the product before it. A swap loses something exactly
/// when the grown input reserve does not divide the product, so those swaps
/// are the ones left out.
pub proof fn lemma_swap_keeps_product(s: PoolState, signed: bool, a_for_b: bool, amount_in: u64)
    requires
        s.swap_spec(signed, a_for_b, amount_in) is Ok,
        (swap_reserves(s, a_for_b).0 * swap_reserves(s, a_for_b).1) % (swap_reserves(s, a_for_b).0
            + amount_in) == 0,
    ensures
        reserve_product(s.swap_spec(signed, a_for_b, amount_in)->Ok_0.state) >= reserve_product(s),
{
    let (rin, rout) = swap_reserves(s, a_for_b);
    let k = rin * rout;
    let d = rin + amount_in;
    let q = k / d;
    let t = s.swap_spec(signed, a_for_b, amount_in)->Ok_0.state;
    lemma_swap_product_rounding(s, signed, a_for_b, amount_in);
    lemma_swap_quotient(rin, rout, amount_in as int);
    assert(swap_output(rin, rout, amount_in as int) == rout - q);
    assert(a_for_b ==> t.token_a_reserve == d && t.token_b_reserve == q);
    assert(!a_for_b ==> t.token_b_reserve == d && t.token_a_reserve == q);
    assert(reserve_product(s) == k) by (nonlinear_arith)
        requires
            a_for_b ==> rin == s.token_a_reserve && rout == s.token_b_reserve,
            !a_for_b ==> rin == s.token_b_reserve && rout == s.token_a_reserve,
            k == rin * rout,
            reserve_product(s) == s.token_a_reserve * s.token_b_reserve,
    ;
    assert(reserve_product(t) == d * q) by (nonlinear_arith)
        requires
            a_for_b ==> t.token_a_reserve == d && t.token_b_reserve == q,
            !a_for_b ==> t.token_b_reserve == d && t.token_a_reserve == q,
            reserve_product(t) == t.token_a_reserve * t.token_b_reserve,
    ;
    assert(d * q == k) by (nonlinear_arith)
        requires
            d > 0,
            k % d == 0,
            q == k / d,
    ;
}

/// Withdrawing shares and depositing exactly the amounts paid out never mints
/// more shares than were burned.
pub proof fn lemma_no_free_mint(s: PoolState, signed: bool, lp_amount: u64)
    requires
        s.remove_liquidity_spec(signed, lp_amount) is Ok,
    ensures
        ({
            let w = s.remove_liquidity_spec(signed, lp_amount)->Ok_0;
            match w.state.add_liquidity_spec(signed, w.amount_a, w.amount_b) {
                Ok(d) => d.shares <= lp_amount,
                Err(_) => true,
            }
        }),
{
    let w = s.remove_liquidity_spec(signed, lp_amount)->Ok_0;
    let t = w.state;
    let supply = s.lp_supply as int;
    let lp = lp_amount as int;
    let rest = t.lp_supply as int;
    assert(rest == supply - lp);
    lemma_withdrawal_bounded(lp, s.token_a_reserve as int, supply);
    lemma_withdrawal_bounded(lp, s.token_b_reserve as int, supply);
    assert(t.token_a_reserve == s.token_a_reserve - w.amount_a);
    assert(t.token_b_reserve == s.token_b_reserve - w.amount_b);
    if t.token_a_reserve != 0 && t.token_b_reserve != 0 {
        lemma_claim_bounded(lp, s.token_a_reserve as int, supply);
        lemma_claim_bounded(lp, s.token_b_reserve as int, supply);
        let sh = deposit_shares(
            w.amount_a as int,
            w.amount_b as int,
            t.token_a_reserve as int,
            t.token_b_reserve as int,
            rest,
        );
        assert(sh <= (w.amount_a as int) * rest / (t.token_a_reserve as int));
    }
}

/// Depositing what a withdrawal of `lp` shares paid on one side claims at most
/// `lp` shares of what remains.
proof fn lemma_claim_bounded(lp: int, reserve: int, supply: int)
    requires
        0 < lp <= supply,
        reserve >= 0,
        reserve - withdrawal_amount(lp, reserve, supply) > 0,
    ensures
        withdrawal_amount(lp, reserve, supply) * (supply - lp) / (reserve - withdrawal_amount(
            lp,
            reserve,
            supply,
        )) <= lp,
{
    let out = withdrawal_amount(lp, reserve, supply);
    let left = reserve - out;
    assert(out * supply <= lp * reserve && out >= 0) by (nonlinear_arith)
        requires
            supply > 0,
            lp >= 0,
            reserve >= 0,
            out == lp * reserve / supply,
    ;
    assert(out * (supply - lp) <= lp * left) by (nonlinear_arith)
        requires
            out * supply <= lp * reserve,
            left == reserve - out,
    ;
    assert(out * (supply - lp) / left <= lp) by (nonlinear_arith)
        requires
            out * (supply - lp) <= lp * left,
            left > 0,
            lp >= 0,
            out >= 0,
            supply - lp >= 0,
    ;
}

/// A withdrawal that burns more shares than are outstanding always fails.
pub proof fn lemma_cannot_burn_beyond_supply(s: PoolState, signed: bool, lp_amount: u64)
    requires
        lp_amount > s.lp_supply,
    ensures
        s.remove_liquidity_spec(signed, lp_amount) is Err,
{
}

} // verus!
