//! General laws of the market, stated over the same specification
//! functions that the operations' contracts use, and proved for every
//! well-formed input.
//!
//! Amounts are compared with `rat_eq`, equality of the denoted rational
//! numbers, since the operations return exact but unreduced fractions.

use vstd::prelude::*;

use crate::market::MarketState;
use crate::market::lemma_rebalance_ok;
use crate::market::market_inv;
use crate::market::spec_deposit;
use crate::market::spec_minted;
use crate::market::spec_payout;
use crate::market::spec_rebalance;
use crate::market::spec_value;
use crate::market::spec_withdraw;
use crate::rational::Rat;
use crate::rational::lemma_pos_mul;
use crate::rational::lemma_rat_eq_trans;
use crate::rational::rat_abs;
use crate::rational::rat_add;
use crate::rational::rat_div;
use crate::rational::rat_eq;
use crate::rational::rat_is_pos;
use crate::rational::rat_lt;
use crate::rational::rat_mul;
use crate::rational::rat_one;
use crate::rational::rat_sub;
use crate::rational::rat_wf;

verus! {

/// Moving an amount from one fraction to another leaves their sum
/// unchanged, whichever side gives and whichever receives.
proof fn lemma_transfer_conserves(a: Rat, b: Rat, t: Rat)
    ensures
        rat_eq(rat_add(rat_add(a, t), rat_sub(b, t)), rat_add(a, b)),
        rat_eq(rat_add(rat_sub(a, t), rat_add(b, t)), rat_add(a, b)),
{
    broadcast use vstd::arithmetic::mul::group_mul_is_commutative_and_distributive;
    broadcast use vstd::arithmetic::mul::lemma_mul_is_associative;

}

/// Conservation under rebalancing: a successful rebalance only moves
/// value between the two reserves; their sum denotes the same rational
/// number before and after.
pub proof fn lemma_rebalance_conserves(m: MarketState)
    requires
        market_inv(m),
    ensures
        spec_rebalance(m) matches Ok(st) ==> rat_eq(
            rat_add(st.long_cup, st.short_cup),
            rat_add(m.long_cup, m.short_cup),
        ),
{
    match spec_rebalance(m) {
        Ok(st) => {
            if !rat_eq(m.last_exrate, m.oracle_exrate) {
                let growth = rat_sub(rat_div(m.oracle_exrate, m.last_exrate), rat_one());
                let delta = rat_mul(growth, m.leverage);
                let long_d = rat_mul(delta, m.long_cup);
                let short_d = rat_mul(delta, m.short_cup);
                let ratio = rat_div(m.long_cup, m.short_cup);
                let funding_base = if rat_lt(rat_one(), ratio) {
                    rat_div(rat_one(), ratio)
                } else {
                    ratio
                };
                let funding = rat_mul(m.funding_coeff, funding_base);
                let long_dominates = rat_lt(rat_abs(short_d), rat_abs(long_d));
                let rising = rat_is_pos(delta);
                let factor = if long_dominates == rising {
                    funding
                } else {
                    rat_div(rat_one(), funding)
                };
                let minority = if long_dominates {
                    rat_abs(short_d)
                } else {
                    rat_abs(long_d)
                };
                let adj = rat_mul(factor, minority);
                lemma_transfer_conserves(m.long_cup, m.short_cup, adj);
            }
        },
        Err(_) => {},
    }
}

/// Adding an amount to either summand adds it to the sum.
proof fn lemma_add_shuffle(a: Rat, b: Rat, f: Rat)
    ensures
        rat_eq(rat_add(rat_add(a, f), b), rat_add(rat_add(a, b), f)),
        rat_eq(rat_add(a, rat_add(b, f)), rat_add(rat_add(a, b), f)),
{
    broadcast use vstd::arithmetic::mul::group_mul_is_commutative_and_distributive;
    broadcast use vstd::arithmetic::mul::lemma_mul_is_associative;

}

/// Subtracting an amount from either summand subtracts it from the sum.
proof fn lemma_sub_shuffle(a: Rat, b: Rat, p: Rat)
    ensures
        rat_eq(rat_add(rat_sub(a, p), b), rat_sub(rat_add(a, b), p)),
        rat_eq(rat_add(a, rat_sub(b, p)), rat_sub(rat_add(a, b), p)),
{
    broadcast use vstd::arithmetic::mul::group_mul_is_commutative_and_distributive;
    broadcast use vstd::arithmetic::mul::lemma_mul_is_associative;

}

/// Equal amounts stay equal when the same amount is added to or
/// subtracted from both.
proof fn lemma_eq_congruence(x: Rat, y: Rat, f: Rat)
    requires
        x.d > 0,
        y.d > 0,
        f.d > 0,
        rat_eq(x, y),
    ensures
        rat_eq(rat_add(x, f), rat_add(y, f)),
        rat_eq(rat_sub(x, f), rat_sub(y, f)),
{
    broadcast use vstd::arithmetic::mul::group_mul_is_commutative_and_distributive;
    broadcast use vstd::arithmetic::mul::lemma_mul_is_associative;

}

/// Conservation under deposits: a successful deposit raises the sum of
/// the two reserves by exactly the deposited amount.
pub proof fn lemma_deposit_conserves(m: MarketState, side: bool, funds: Rat)
    requires
        market_inv(m),
        rat_wf(funds),
    ensures
        spec_deposit(m, side, funds) matches Ok(t) ==> rat_eq(
            rat_add(t.0.long_cup, t.0.short_cup),
            rat_add(rat_add(m.long_cup, m.short_cup), funds),
        ),
{
    match spec_deposit(m, side, funds) {
        Ok(t) => {
            lemma_rebalance_ok(m);
            lemma_rebalance_conserves(m);
            let st = spec_rebalance(m)->Ok_0;
            let pre = rat_add(m.long_cup, m.short_cup);
            let mid = rat_add(rat_add(st.long_cup, st.short_cup), funds);
            let sum1 = rat_add(t.0.long_cup, t.0.short_cup);
            lemma_pos_mul(st.long_cup.d, st.short_cup.d);
            lemma_pos_mul(m.long_cup.d, m.short_cup.d);
            lemma_pos_mul(st.long_cup.d, funds.d);
            lemma_pos_mul(st.short_cup.d, funds.d);
            lemma_pos_mul(rat_add(st.long_cup, st.short_cup).d, funds.d);
            lemma_pos_mul(pre.d, funds.d);
            lemma_pos_mul(rat_add(st.long_cup, funds).d, st.short_cup.d);
            lemma_pos_mul(st.long_cup.d, rat_add(st.short_cup, funds).d);
            lemma_add_shuffle(st.long_cup, st.short_cup, funds);
            lemma_eq_congruence(rat_add(st.long_cup, st.short_cup), pre, funds);
            lemma_rat_eq_trans(sum1, mid, rat_add(pre, funds));
        },
        Err(_) => {},
    }
}

/// Conservation under redemptions: a successful withdraw lowers the sum
/// of the two reserves by exactly the amount paid out.
pub proof fn lemma_withdraw_conserves(m: MarketState, side: bool, funds: Rat, funds_resource: u64)
    requires
        market_inv(m),
        rat_wf(funds),
    ensures
        spec_withdraw(m, side, funds, funds_resource) matches Ok(t) ==> rat_eq(
            rat_add(t.0.long_cup, t.0.short_cup),
            rat_sub(rat_add(m.long_cup, m.short_cup), t.1),
        ),
{
    match spec_withdraw(m, side, funds, funds_resource) {
        Ok(t) => {
            lemma_rebalance_ok(m);
            lemma_rebalance_conserves(m);
            let st = spec_rebalance(m)->Ok_0;
            let pre = rat_add(m.long_cup, m.short_cup);
            let mid = rat_sub(rat_add(st.long_cup, st.short_cup), t.1);
            let sum1 = rat_add(t.0.long_cup, t.0.short_cup);
            lemma_pos_mul(st.long_cup.d, st.short_cup.d);
            lemma_pos_mul(m.long_cup.d, m.short_cup.d);
            lemma_pos_mul(st.long_cup.d, t.1.d);
            lemma_pos_mul(st.short_cup.d, t.1.d);
            lemma_pos_mul(rat_add(st.long_cup, st.short_cup).d, t.1.d);
            lemma_pos_mul(pre.d, t.1.d);
            lemma_pos_mul(rat_sub(st.long_cup, t.1).d, st.short_cup.d);
            lemma_pos_mul(st.long_cup.d, rat_sub(st.short_cup, t.1).d);
            lemma_sub_shuffle(st.long_cup, st.short_cup, t.1);
            lemma_eq_congruence(rat_add(st.long_cup, st.short_cup), pre, t.1);
            lemma_rat_eq_trans(sum1, mid, rat_sub(pre, t.1));
        },
        Err(_) => {},
    }
}

/// Proportional minting: the units minted for a deposit stand to the
/// pre-deposit supply exactly as the deposited funds stand to the
/// rebalanced reserve, so every earlier holder's share is unchanged.
pub proof fn lemma_deposit_proportional(m: MarketState, side: bool, funds: Rat)
    requires
        market_inv(m),
        rat_wf(funds),
    ensures
        spec_deposit(m, side, funds) matches Ok(t) ==> ({
            let st = spec_rebalance(m)->Ok_0;
            let cup = if side {
                st.long_cup
            } else {
                st.short_cup
            };
            let lp = if side {
                st.long_cup_lp
            } else {
                st.short_cup_lp
            };
            rat_eq(rat_div(t.1, lp), rat_div(funds, cup))
        }),
{
    match spec_deposit(m, side, funds) {
        Ok(t) => {
            lemma_rebalance_ok(m);
            let st = spec_rebalance(m)->Ok_0;
            let cup = if side {
                st.long_cup
            } else {
                st.short_cup
            };
            let lp = if side {
                st.long_cup_lp
            } else {
                st.short_cup_lp
            };
            assert(t.1 == spec_minted(lp, cup, funds));
            lemma_minted_ratio(lp, cup, funds);
        },
        Err(_) => {},
    }
}

/// The minted-units formula stands to the supply exactly as the funds
/// stand to the reserve.
proof fn lemma_minted_ratio(lp: Rat, cup: Rat, f: Rat)
    ensures
        rat_eq(rat_div(spec_minted(lp, cup, f), lp), rat_div(f, cup)),
{
    let grown = rat_add(cup, f);
    let factor = rat_div(grown, cup);
    let share = rat_sub(factor, rat_one());
    let minted = rat_mul(lp, share);
    assert(share.n == f.n * (cup.d * cup.d) && share.d == (cup.d * f.d) * cup.n)
        by (nonlinear_arith)
        requires
            share.n == factor.n * 1 - 1 * factor.d,
            share.d == factor.d * 1,
            factor.n == grown.n * cup.d,
            factor.d == grown.d * cup.n,
            grown.n == cup.n * f.d + f.n * cup.d,
            grown.d == cup.d * f.d,
    ;
    let lhs = rat_div(minted, lp);
    let rhs = rat_div(f, cup);
    assert(lhs.n * rhs.d == rhs.n * lhs.d) by (nonlinear_arith)
        requires
            lhs.n == minted.n * lp.d,
            lhs.d == minted.d * lp.n,
            rhs.n == f.n * cup.d,
            rhs.d == f.d * cup.n,
            minted.n == lp.n * share.n,
            minted.d == lp.d * share.d,
            share.n == f.n * (cup.d * cup.d),
            share.d == (cup.d * f.d) * cup.n,
    ;
}

/// Exact redemption pricing: the payout of a successful withdraw is
/// literally the redeemed units' share of the pre-redemption supply,
/// applied to the side's rebalanced reserve.
pub proof fn lemma_withdraw_payout_exact(m: MarketState, side: bool, funds: Rat, funds_resource: u64)
    requires
        market_inv(m),
        rat_wf(funds),
    ensures
        spec_withdraw(m, side, funds, funds_resource) matches Ok(t) ==> ({
            let st = spec_rebalance(m)->Ok_0;
            let cup = if side {
                st.long_cup
            } else {
                st.short_cup
            };
            let lp = if side {
                m.long_cup_lp
            } else {
                m.short_cup_lp
            };
            t.1 == spec_payout(lp, cup, funds)
        }),
{
}

/// Redemption round trip: redeeming units and immediately depositing
/// the exact payout back into the same side restores both the supply
/// and the reserve to their pre-redemption values, provided the rate
/// did not move between the two calls.
pub proof fn lemma_redemption_round_trip(lp: Rat, cup: Rat, u: Rat)
    requires
        rat_wf(lp),
        rat_is_pos(lp),
        rat_wf(cup),
        rat_is_pos(cup),
        rat_wf(u),
        rat_is_pos(u),
        rat_lt(u, lp),
    ensures
        ({
            let pay = spec_payout(lp, cup, u);
            let lp1 = rat_sub(lp, u);
            let cup1 = rat_sub(cup, pay);
            let minted = spec_minted(lp1, cup1, pay);
            rat_eq(rat_add(cup1, pay), cup) && rat_eq(minted, u) && rat_eq(
                rat_add(lp1, minted),
                lp,
            )
        }),
{
    let pay = spec_payout(lp, cup, u);
    let lp1 = rat_sub(lp, u);
    let cup1 = rat_sub(cup, pay);
    let minted = spec_minted(lp1, cup1, pay);
    lemma_sub_add_cancel(cup, pay);
    lemma_minted_ratio(lp1, cup1, pay);
    lemma_div_to_mul(minted, lp1, rat_div(pay, cup1));
    let w = rat_mul(lp1, rat_div(pay, cup1));
    assert(cup1.n == (cup.n * cup.d) * lp1.n) by (nonlinear_arith)
        requires
            cup1.n == cup.n * pay.d - pay.n * cup.d,
            pay.n == (u.n * lp.d) * cup.n,
            pay.d == (u.d * lp.n) * cup.d,
            lp1.n == lp.n * u.d - u.n * lp.d,
    ;
    let unit_share = pay.n * cup1.d;
    let pool_share = pay.d * cup1.n;
    lemma_payout_reorder(u.n, lp.d, cup.n, cup.d, pay.d, u.d);
    assert(unit_share * u.d == (u.n * lp1.d) * (pay.d * (cup.n * cup.d)));
    assert(w.n * u.d == u.n * w.d) by (nonlinear_arith)
        requires
            w.n == lp1.n * unit_share,
            w.d == lp1.d * pool_share,
            pool_share == pay.d * ((cup.n * cup.d) * lp1.n),
            unit_share * u.d == (u.n * lp1.d) * (pay.d * (cup.n * cup.d)),
    ;
    lemma_pos_mul(u.d, lp.n);
    lemma_pos_mul(u.d * lp.n, cup.d);
    lemma_pos_mul(lp.d, u.d);
    assert(lp1.n > 0);
    lemma_pos_mul(cup.n, cup.d);
    lemma_pos_mul(cup.n * cup.d, lp1.n);
    lemma_pos_mul(cup.d, pay.d);
    lemma_pos_mul(cup1.d, pay.d);
    lemma_pos_mul(cup1.d * pay.d, cup1.n);
    lemma_pos_mul(lp1.d, (cup1.d * pay.d) * cup1.n);
    assert(minted.d > 0);
    lemma_pos_mul(pay.d, cup1.n);
    lemma_pos_mul(lp1.d, pay.d * cup1.n);
    lemma_rat_eq_trans(minted, w, u);
    lemma_pos_mul(lp1.d, minted.d);
    lemma_pos_mul(lp1.d, u.d);
    lemma_eq_congruence_snd(lp1, minted, u);
    lemma_sub_add_cancel(lp, u);
    lemma_rat_eq_trans(rat_add(lp1, minted), rat_add(lp1, u), lp);
}

/// Reordering of the factors in a payout's unit share.
proof fn lemma_payout_reorder(un: int, lpd: int, cupn: int, cupd: int, payd: int, ud: int)
    ensures
        (((un * lpd) * cupn) * (cupd * payd)) * ud == (un * (lpd * ud)) * (payd * (cupn * cupd)),
{
    broadcast use vstd::arithmetic::mul::group_mul_is_commutative_and_distributive;
    broadcast use vstd::arithmetic::mul::lemma_mul_is_associative;

}

/// Taking an amount out of a fraction and adding it back restores the
/// original value.
proof fn lemma_sub_add_cancel(a: Rat, t: Rat)
    ensures
        rat_eq(rat_add(rat_sub(a, t), t), a),
{
    broadcast use vstd::arithmetic::mul::group_mul_is_commutative_and_distributive;
    broadcast use vstd::arithmetic::mul::lemma_mul_is_associative;

}

/// A quotient denotes a given fraction exactly when the dividend
/// denotes the divisor times that fraction.
proof fn lemma_div_to_mul(x: Rat, l: Rat, q: Rat)
    requires
        rat_eq(rat_div(x, l), q),
    ensures
        rat_eq(x, rat_mul(l, q)),
{
    broadcast use vstd::arithmetic::mul::group_mul_is_commutative_and_distributive;
    broadcast use vstd::arithmetic::mul::lemma_mul_is_associative;

}

/// Equal amounts stay equal when added to the same fraction.
proof fn lemma_eq_congruence_snd(a: Rat, x: Rat, y: Rat)
    requires
        a.d > 0,
        x.d > 0,
        y.d > 0,
        rat_eq(x, y),
    ensures
        rat_eq(rat_add(a, x), rat_add(a, y)),
{
    broadcast use vstd::arithmetic::mul::group_mul_is_commutative_and_distributive;
    broadcast use vstd::arithmetic::mul::lemma_mul_is_associative;

}

/// Scaling one side's unit count scales that side's valuation term.
proof fn lemma_side_scale(c: Rat, x: Rat, lp: Rat, cup: Rat)
    ensures
        rat_eq(
            rat_mul(rat_div(rat_mul(c, x), lp), cup),
            rat_mul(c, rat_mul(rat_div(x, lp), cup)),
        ),
{
    broadcast use vstd::arithmetic::mul::group_mul_is_commutative_and_distributive;
    broadcast use vstd::arithmetic::mul::lemma_mul_is_associative;

}

/// Multiplication distributes over the sum of two fractions.
proof fn lemma_mul_add_dist(c: Rat, u: Rat, v: Rat)
    ensures
        rat_eq(rat_mul(c, rat_add(u, v)), rat_add(rat_mul(c, u), rat_mul(c, v))),
{
    broadcast use vstd::arithmetic::mul::group_mul_is_commutative_and_distributive;
    broadcast use vstd::arithmetic::mul::lemma_mul_is_associative;

}

/// Pairwise equal amounts have equal sums.
proof fn lemma_add_congruence_pair(u: Rat, u2: Rat, v: Rat, v2: Rat)
    requires
        u.d > 0,
        u2.d > 0,
        v.d > 0,
        v2.d > 0,
        rat_eq(u, u2),
        rat_eq(v, v2),
    ensures
        rat_eq(rat_add(u, v), rat_add(u2, v2)),
{
    broadcast use vstd::arithmetic::mul::group_mul_is_commutative_and_distributive;
    broadcast use vstd::arithmetic::mul::lemma_mul_is_associative;

}

/// Homogeneity of valuation: scaling both unit counts scales the value
/// by the same fraction, for fixed reserves and supplies.
pub proof fn lemma_value_scales(m: MarketState, c: Rat, x: Rat, y: Rat)
    requires
        market_inv(m),
        rat_wf(c),
        rat_wf(x),
        rat_wf(y),
    ensures
        rat_eq(spec_value(m, rat_mul(c, x), rat_mul(c, y)), rat_mul(c, spec_value(m, x, y))),
{
    let lterm = rat_mul(rat_div(x, m.long_cup_lp), m.long_cup);
    let sterm = rat_mul(rat_div(y, m.short_cup_lp), m.short_cup);
    let lterm_s = rat_mul(rat_div(rat_mul(c, x), m.long_cup_lp), m.long_cup);
    let sterm_s = rat_mul(rat_div(rat_mul(c, y), m.short_cup_lp), m.short_cup);
    lemma_side_scale(c, x, m.long_cup_lp, m.long_cup);
    lemma_side_scale(c, y, m.short_cup_lp, m.short_cup);
    lemma_pos_mul(c.d, x.d);
    lemma_pos_mul(c.d, y.d);
    lemma_pos_mul(rat_mul(c, x).d, m.long_cup_lp.n);
    lemma_pos_mul(rat_div(rat_mul(c, x), m.long_cup_lp).d, m.long_cup.d);
    lemma_pos_mul(rat_mul(c, y).d, m.short_cup_lp.n);
    lemma_pos_mul(rat_div(rat_mul(c, y), m.short_cup_lp).d, m.short_cup.d);
    lemma_pos_mul(x.d, m.long_cup_lp.n);
    lemma_pos_mul(rat_div(x, m.long_cup_lp).d, m.long_cup.d);
    lemma_pos_mul(y.d, m.short_cup_lp.n);
    lemma_pos_mul(rat_div(y, m.short_cup_lp).d, m.short_cup.d);
    lemma_pos_mul(c.d, lterm.d);
    lemma_pos_mul(c.d, sterm.d);
    lemma_add_congruence_pair(lterm_s, rat_mul(c, lterm), sterm_s, rat_mul(c, sterm));
    lemma_mul_add_dist(c, lterm, sterm);
    lemma_pos_mul(lterm_s.d, sterm_s.d);
    lemma_pos_mul(rat_mul(c, lterm).d, rat_mul(c, sterm).d);
    lemma_pos_mul(lterm.d, sterm.d);
    lemma_pos_mul(c.d, rat_add(lterm, sterm).d);
    lemma_rat_eq_trans(
        rat_add(lterm_s, sterm_s),
        rat_add(rat_mul(c, lterm), rat_mul(c, sterm)),
        rat_mul(c, rat_add(lterm, sterm)),
    );
}

/// Combining two baskets on one side combines that side's valuation
/// terms.
proof fn lemma_side_add(x1: Rat, x2: Rat, lp: Rat, cup: Rat)
    ensures
        rat_eq(
            rat_mul(rat_div(rat_add(x1, x2), lp), cup),
            rat_add(rat_mul(rat_div(x1, lp), cup), rat_mul(rat_div(x2, lp), cup)),
        ),
{
    broadcast use vstd::arithmetic::mul::group_mul_is_commutative_and_distributive;
    broadcast use vstd::arithmetic::mul::lemma_mul_is_associative;

}

/// Swapping the middle summands of a four-part sum keeps its value.
proof fn lemma_add_interchange(a: Rat, b: Rat, c: Rat, d: Rat)
    ensures
        rat_eq(rat_add(rat_add(a, b), rat_add(c, d)), rat_add(rat_add(a, c), rat_add(b, d))),
{
    broadcast use vstd::arithmetic::mul::group_mul_is_commutative_and_distributive;
    broadcast use vstd::arithmetic::mul::lemma_mul_is_associative;

}

/// Additivity of valuation: the value of a combined basket is the sum
/// of the two baskets' values, for fixed reserves and supplies.
pub proof fn lemma_value_additive(m: MarketState, x1: Rat, y1: Rat, x2: Rat, y2: Rat)
    requires
        market_inv(m),
        rat_wf(x1),
        rat_wf(y1),
        rat_wf(x2),
        rat_wf(y2),
    ensures
        rat_eq(
            spec_value(m, rat_add(x1, x2), rat_add(y1, y2)),
            rat_add(spec_value(m, x1, y1), spec_value(m, x2, y2)),
        ),
{
    let lterm1 = rat_mul(rat_div(x1, m.long_cup_lp), m.long_cup);
    let lterm2 = rat_mul(rat_div(x2, m.long_cup_lp), m.long_cup);
    let sterm1 = rat_mul(rat_div(y1, m.short_cup_lp), m.short_cup);
    let sterm2 = rat_mul(rat_div(y2, m.short_cup_lp), m.short_cup);
    let lsum = rat_mul(rat_div(rat_add(x1, x2), m.long_cup_lp), m.long_cup);
    let ssum = rat_mul(rat_div(rat_add(y1, y2), m.short_cup_lp), m.short_cup);
    lemma_side_add(x1, x2, m.long_cup_lp, m.long_cup);
    lemma_side_add(y1, y2, m.short_cup_lp, m.short_cup);
    lemma_pos_mul(x1.d, x2.d);
    lemma_pos_mul(y1.d, y2.d);
    lemma_pos_mul(rat_add(x1, x2).d, m.long_cup_lp.n);
    lemma_pos_mul(rat_div(rat_add(x1, x2), m.long_cup_lp).d, m.long_cup.d);
    lemma_pos_mul(rat_add(y1, y2).d, m.short_cup_lp.n);
    lemma_pos_mul(rat_div(rat_add(y1, y2), m.short_cup_lp).d, m.short_cup.d);
    lemma_pos_mul(x1.d, m.long_cup_lp.n);
    lemma_pos_mul(rat_div(x1, m.long_cup_lp).d, m.long_cup.d);
    lemma_pos_mul(x2.d, m.long_cup_lp.n);
    lemma_pos_mul(rat_div(x2, m.long_cup_lp).d, m.long_cup.d);
    lemma_pos_mul(y1.d, m.short_cup_lp.n);
    lemma_pos_mul(rat_div(y1, m.short_cup_lp).d, m.short_cup.d);
    lemma_pos_mul(y2.d, m.short_cup_lp.n);
    lemma_pos_mul(rat_div(y2, m.short_cup_lp).d, m.short_cup.d);
    lemma_pos_mul(lterm1.d, lterm2.d);
    lemma_pos_mul(sterm1.d, sterm2.d);
    lemma_add_congruence_pair(lsum, rat_add(lterm1, lterm2), ssum, rat_add(sterm1, sterm2));
    lemma_add_interchange(lterm1, lterm2, sterm1, sterm2);
    lemma_pos_mul(lsum.d, ssum.d);
    lemma_pos_mul(rat_add(lterm1, lterm2).d, rat_add(sterm1, sterm2).d);
    lemma_pos_mul(lterm1.d, sterm1.d);
    lemma_pos_mul(lterm2.d, sterm2.d);
    lemma_pos_mul(rat_add(lterm1, sterm1).d, rat_add(lterm2, sterm2).d);
    lemma_rat_eq_trans(
        rat_add(lsum, ssum),
        rat_add(rat_add(lterm1, lterm2), rat_add(sterm1, sterm2)),
        rat_add(rat_add(lterm1, sterm1), rat_add(lterm2, sterm2)),
    );
}

} // verus!
