//! The leveraged two-reserve market: rebalance engine, liquidity-unit
//! accounting and the pure valuation function.
//!
//! A `CupPerp` holds two reserves of one backing asset (the long and the
//! short cup), the outstanding liquidity-unit supply of each side, the
//! last reference rate at which a rebalance was applied, and the latest
//! rate received from the oracle.  Every mutating entry point first runs
//! the rebalance step and commits all of its effects at once, so a failed
//! operation leaves the market exactly as it was.
//!
//! The behaviour of each operation is pinned by a total specification
//! function (`spec_rebalance`, `spec_deposit`, `spec_withdraw`,
//! `spec_value_result`) that states, for every input, either the exact
//! successor state and result or the exact error returned.

use vstd::prelude::*;

use crate::rational::Rat;
use crate::rational::Ratio;
use crate::rational::lemma_nonneg_mul;
use crate::rational::lemma_pos_mul;
use crate::rational::lemma_ratio_view_injective;
use crate::rational::rat_abs;
use crate::rational::rat_add;
use crate::rational::rat_div;
use crate::rational::rat_eq;
use crate::rational::rat_from_int;
use crate::rational::rat_is_pos;
use crate::rational::rat_le;
use crate::rational::rat_lt;
use crate::rational::rat_mul;
use crate::rational::rat_one;
use crate::rational::rat_sub;
use crate::rational::rat_wf;

verus! {

/// Identifier of the long side's liquidity units within a market.
pub const LONG_UNIT_ID: u64 = 0;

/// Identifier of the short side's liquidity units within a market.
pub const SHORT_UNIT_ID: u64 = 1;

/// Why an operation was refused.  A refused operation leaves the market
/// unchanged.
#[derive(Clone, Copy, Debug, PartialEq, Eq, Structural)]
pub enum MarketError {
    /// The oracle rate, or the initial rate, is not strictly positive.
    NonPositiveRate,
    /// A deposit or redemption amount is not strictly positive.
    NonPositiveAmount,
    /// The units presented to `withdraw` belong to the other side.
    WrongUnitKind,
    /// A redemption of the whole supply (or more) of one side; refused so
    /// that a side's supply and reserve stay strictly positive.
    SupplyExhausted,
    /// The computed transfer would drain the source reserve entirely;
    /// refused so that both reserves stay strictly positive.
    ReserveExhausted,
    /// An intermediate fraction left the representable range.
    ArithmeticOverflow,
}

/// Mathematical model of a market.
pub ghost struct MarketState {
    /// Display label of the traded pair; no semantic effect.
    pub pair: Seq<char>,
    /// Positive multiplier amplifying the rate-delta impact.
    pub leverage: Rat,
    /// Dampening factor in (0, 1] applied to the favoured transfer.
    pub funding_coeff: Rat,
    /// Reserve backing long exposure.
    pub long_cup: Rat,
    /// Cached mirror of the long reserve for external reads.
    pub long_cup_value: Rat,
    /// Reserve backing short exposure.
    pub short_cup: Rat,
    /// Cached mirror of the short reserve for external reads.
    pub short_cup_value: Rat,
    /// Outstanding liquidity units of the long side.
    pub long_cup_lp: Rat,
    /// Outstanding liquidity units of the short side.
    pub short_cup_lp: Rat,
    /// Last reference rate at which a rebalance was applied.
    pub last_exrate: Rat,
    /// Latest reference rate received from the oracle.
    pub oracle_exrate: Rat,
    /// Identifier of the long side's liquidity units.
    pub long_lp_resource: u64,
    /// Identifier of the short side's liquidity units.
    pub short_lp_resource: u64,
}

/// Well-formedness of a market: all amounts are well-formed fractions,
/// reserves, supplies and the applied rate are strictly positive, the
/// funding coefficient lies in (0, 1], the cached mirrors equal the
/// reserves, and the two unit identifiers differ.
pub open spec fn market_inv(m: MarketState) -> bool {
    &&& rat_wf(m.leverage) && rat_is_pos(m.leverage)
    &&& rat_wf(m.funding_coeff) && rat_is_pos(m.funding_coeff)
    &&& rat_le(m.funding_coeff, rat_one())
    &&& rat_wf(m.long_cup) && rat_is_pos(m.long_cup)
    &&& rat_wf(m.short_cup) && rat_is_pos(m.short_cup)
    &&& rat_wf(m.long_cup_lp) && rat_is_pos(m.long_cup_lp)
    &&& rat_wf(m.short_cup_lp) && rat_is_pos(m.short_cup_lp)
    &&& rat_wf(m.last_exrate) && rat_is_pos(m.last_exrate)
    &&& rat_wf(m.oracle_exrate)
    &&& m.long_cup_value == m.long_cup
    &&& m.short_cup_value == m.short_cup
    &&& m.long_lp_resource != m.short_lp_resource
}

/// Second half of the rebalance step: from the amplified delta, the two
/// hypothetical per-side movements and the reserve ratio, the transferred
/// amount and the successor state.  The funding rebate always benefits
/// the smaller movement's side: the raw coefficient dampens the transfer
/// when the out-flowing side is the smaller one and its inverse amplifies
/// it otherwise.  On equal magnitudes the second branch is taken, exactly
/// as in the reference comparison `|long_d| > |short_d|`.
pub open spec fn spec_rebalance_transfer(
    m: MarketState,
    delta: Rat,
    long_d: Rat,
    short_d: Rat,
    ratio: Rat,
) -> Result<MarketState, MarketError> {
    let funding_base = if rat_lt(rat_one(), ratio) {
        rat_div(rat_one(), ratio)
    } else {
        ratio
    };
    if !rat_wf(funding_base) {
        Err(MarketError::ArithmeticOverflow)
    } else {
        let funding = rat_mul(m.funding_coeff, funding_base);
        if !rat_wf(funding) {
            Err(MarketError::ArithmeticOverflow)
        } else {
            let long_dominates = rat_lt(rat_abs(short_d), rat_abs(long_d));
            let rising = rat_is_pos(delta);
            let factor = if long_dominates == rising {
                funding
            } else {
                rat_div(rat_one(), funding)
            };
            if !rat_wf(factor) {
                Err(MarketError::ArithmeticOverflow)
            } else {
                let minority = if long_dominates {
                    rat_abs(short_d)
                } else {
                    rat_abs(long_d)
                };
                let adj = rat_mul(factor, minority);
                if !rat_wf(adj) {
                    Err(MarketError::ArithmeticOverflow)
                } else if rising {
                    if !rat_lt(adj, m.short_cup) {
                        Err(MarketError::ReserveExhausted)
                    } else {
                        let nl = rat_add(m.long_cup, adj);
                        let ns = rat_sub(m.short_cup, adj);
                        if !rat_wf(nl) || !rat_wf(ns) {
                            Err(MarketError::ArithmeticOverflow)
                        } else {
                            Ok(MarketState {
                                long_cup: nl,
                                long_cup_value: nl,
                                short_cup: ns,
                                short_cup_value: ns,
                                last_exrate: m.oracle_exrate,
                                ..m
                            })
                        }
                    }
                } else {
                    if !rat_lt(adj, m.long_cup) {
                        Err(MarketError::ReserveExhausted)
                    } else {
                        let nl = rat_sub(m.long_cup, adj);
                        let ns = rat_add(m.short_cup, adj);
                        if !rat_wf(nl) || !rat_wf(ns) {
                            Err(MarketError::ArithmeticOverflow)
                        } else {
                            Ok(MarketState {
                                long_cup: nl,
                                long_cup_value: nl,
                                short_cup: ns,
                                short_cup_value: ns,
                                last_exrate: m.oracle_exrate,
                                ..m
                            })
                        }
                    }
                }
            }
        }
    }
}

/// The rebalance step.  Refused when the oracle rate is not strictly
/// positive; a no-op when the oracle rate equals the applied rate;
/// otherwise moves the adjusted transfer between the reserves, refreshes
/// the cached mirrors and records the applied rate.
pub open spec fn spec_rebalance(m: MarketState) -> Result<MarketState, MarketError> {
    if !rat_is_pos(m.oracle_exrate) {
        Err(MarketError::NonPositiveRate)
    } else if rat_eq(m.last_exrate, m.oracle_exrate) {
        Ok(m)
    } else {
        let quot = rat_div(m.oracle_exrate, m.last_exrate);
        if !rat_wf(quot) {
            Err(MarketError::ArithmeticOverflow)
        } else {
            let growth = rat_sub(quot, rat_one());
            if !rat_wf(growth) {
                Err(MarketError::ArithmeticOverflow)
            } else {
                let delta = rat_mul(growth, m.leverage);
                if !rat_wf(delta) {
                    Err(MarketError::ArithmeticOverflow)
                } else {
                    let long_d = rat_mul(delta, m.long_cup);
                    if !rat_wf(long_d) {
                        Err(MarketError::ArithmeticOverflow)
                    } else {
                        let short_d = rat_mul(delta, m.short_cup);
                        if !rat_wf(short_d) {
                            Err(MarketError::ArithmeticOverflow)
                        } else {
                            let ratio = rat_div(m.long_cup, m.short_cup);
                            if !rat_wf(ratio) {
                                Err(MarketError::ArithmeticOverflow)
                            } else {
                                spec_rebalance_transfer(m, delta, long_d, short_d, ratio)
                            }
                        }
                    }
                }
            }
        }
    }
}

/// Units minted for a deposit of `funds` into a reserve holding `cup`
/// whose side has `lp` units outstanding: the supply grows by the same
/// factor as the reserve.
pub open spec fn spec_minted(lp: Rat, cup: Rat, funds: Rat) -> Rat {
    rat_mul(lp, rat_sub(rat_div(rat_add(cup, funds), cup), rat_one()))
}

/// Backing paid out for redeeming `funds` units against a reserve
/// holding `cup` whose side has `lp` units outstanding: the redeemed
/// share of the supply, applied to the reserve.
pub open spec fn spec_payout(lp: Rat, cup: Rat, funds: Rat) -> Rat {
    rat_mul(rat_div(funds, lp), cup)
}

/// The deposit operation: after a successful rebalance, the chosen
/// side's reserve grows by `funds` and its supply by exactly the units
/// minted for the depositor.  Refused without state change on a
/// non-positive amount, on a failed rebalance, or when an intermediate
/// fraction leaves the representable range.
pub open spec fn spec_deposit(m: MarketState, side: bool, funds: Rat) -> Result<
    (MarketState, Rat),
    MarketError,
> {
    if !rat_is_pos(funds) {
        Err(MarketError::NonPositiveAmount)
    } else {
        match spec_rebalance(m) {
            Err(e) => Err(e),
            Ok(st) => {
                let cup = if side {
                    st.long_cup
                } else {
                    st.short_cup
                };
                let lp = if side {
                    st.long_cup_lp
                } else {
                    st.short_cup_lp
                };
                let grown = rat_add(cup, funds);
                if !rat_wf(grown) {
                    Err(MarketError::ArithmeticOverflow)
                } else {
                    let factor = rat_div(grown, cup);
                    if !rat_wf(factor) {
                        Err(MarketError::ArithmeticOverflow)
                    } else {
                        let share = rat_sub(factor, rat_one());
                        if !rat_wf(share) {
                            Err(MarketError::ArithmeticOverflow)
                        } else {
                            let minted = rat_mul(lp, share);
                            if !rat_wf(minted) {
                                Err(MarketError::ArithmeticOverflow)
                            } else {
                                let new_lp = rat_add(lp, minted);
                                if !rat_wf(new_lp) {
                                    Err(MarketError::ArithmeticOverflow)
                                } else if side {
                                    Ok(
                                        (
                                            MarketState {
                                                long_cup: grown,
                                                long_cup_value: grown,
                                                long_cup_lp: new_lp,
                                                ..st
                                            },
                                            minted,
                                        ),
                                    )
                                } else {
                                    Ok(
                                        (
                                            MarketState {
                                                short_cup: grown,
                                                short_cup_value: grown,
                                                short_cup_lp: new_lp,
                                                ..st
                                            },
                                            minted,
                                        ),
                                    )
                                }
                            }
                        }
                    }
                }
            },
        }
    }
}

/// The withdraw operation: after a successful rebalance, redeeming
/// `funds` units of the side whose unit identifier is `funds_resource`
/// pays out exactly that share of the side's reserve and burns the
/// units.  Refused without state change on a non-positive amount, units
/// of the wrong side, a redemption of the whole supply or more, a failed
/// rebalance, or when an intermediate fraction leaves the representable
/// range.
pub open spec fn spec_withdraw(
    m: MarketState,
    side: bool,
    funds: Rat,
    funds_resource: u64,
) -> Result<(MarketState, Rat), MarketError> {
    let own_resource = if side {
        m.long_lp_resource
    } else {
        m.short_lp_resource
    };
    let lp_pre = if side {
        m.long_cup_lp
    } else {
        m.short_cup_lp
    };
    if !rat_is_pos(funds) {
        Err(MarketError::NonPositiveAmount)
    } else if funds_resource != own_resource {
        Err(MarketError::WrongUnitKind)
    } else if !rat_lt(funds, lp_pre) {
        Err(MarketError::SupplyExhausted)
    } else {
        match spec_rebalance(m) {
            Err(e) => Err(e),
            Ok(st) => {
                let cup = if side {
                    st.long_cup
                } else {
                    st.short_cup
                };
                let share = rat_div(funds, lp_pre);
                if !rat_wf(share) {
                    Err(MarketError::ArithmeticOverflow)
                } else {
                    let payout = rat_mul(share, cup);
                    if !rat_wf(payout) {
                        Err(MarketError::ArithmeticOverflow)
                    } else {
                        let new_lp = rat_sub(lp_pre, funds);
                        if !rat_wf(new_lp) {
                            Err(MarketError::ArithmeticOverflow)
                        } else {
                            let new_cup = rat_sub(cup, payout);
                            if !rat_wf(new_cup) {
                                Err(MarketError::ArithmeticOverflow)
                            } else if side {
                                Ok(
                                    (
                                        MarketState {
                                            long_cup: new_cup,
                                            long_cup_value: new_cup,
                                            long_cup_lp: new_lp,
                                            ..st
                                        },
                                        payout,
                                    ),
                                )
                            } else {
                                Ok(
                                    (
                                        MarketState {
                                            short_cup: new_cup,
                                            short_cup_value: new_cup,
                                            short_cup_lp: new_lp,
                                            ..st
                                        },
                                        payout,
                                    ),
                                )
                            }
                        }
                    }
                }
            },
        }
    }
}

/// Pure valuation of a basket of units: each side's unit count, as a
/// share of that side's supply, applied to that side's reserve, summed
/// over both sides.
pub open spec fn spec_value(m: MarketState, long: Rat, short: Rat) -> Rat {
    rat_add(
        rat_mul(rat_div(long, m.long_cup_lp), m.long_cup),
        rat_mul(rat_div(short, m.short_cup_lp), m.short_cup),
    )
}

/// The valuation as computed: `spec_value`, or the exact overflow error
/// when an intermediate fraction leaves the representable range.
pub open spec fn spec_value_result(m: MarketState, long: Rat, short: Rat) -> Result<
    Rat,
    MarketError,
> {
    let long_share = rat_div(long, m.long_cup_lp);
    if !rat_wf(long_share) {
        Err(MarketError::ArithmeticOverflow)
    } else {
        let long_part = rat_mul(long_share, m.long_cup);
        if !rat_wf(long_part) {
            Err(MarketError::ArithmeticOverflow)
        } else {
            let short_share = rat_div(short, m.short_cup_lp);
            if !rat_wf(short_share) {
                Err(MarketError::ArithmeticOverflow)
            } else {
                let short_part = rat_mul(short_share, m.short_cup);
                if !rat_wf(short_part) {
                    Err(MarketError::ArithmeticOverflow)
                } else {
                    let total = rat_add(long_part, short_part);
                    if !rat_wf(total) {
                        Err(MarketError::ArithmeticOverflow)
                    } else {
                        Ok(total)
                    }
                }
            }
        }
    }
}

/// The state created by `instantiate_pair`: the deposit split evenly
/// between the two reserves, both supplies bootstrapped to 1000 units,
/// leverage 5 and funding coefficient 3/4, and both rate fields set to
/// the initial rate.
pub open spec fn spec_instantiate(
    pair: Seq<char>,
    exch: Rat,
    deposit: Rat,
) -> Result<MarketState, MarketError> {
    if !rat_is_pos(exch) {
        Err(MarketError::NonPositiveRate)
    } else if !rat_is_pos(deposit) {
        Err(MarketError::NonPositiveAmount)
    } else {
        let half = rat_div(deposit, rat_from_int(2));
        if !rat_wf(half) {
            Err(MarketError::ArithmeticOverflow)
        } else {
            Ok(MarketState {
                pair: pair,
                leverage: rat_from_int(5),
                funding_coeff: Rat { n: 3, d: 4 },
                long_cup: half,
                long_cup_value: half,
                short_cup: half,
                short_cup_value: half,
                long_cup_lp: rat_from_int(1000),
                short_cup_lp: rat_from_int(1000),
                last_exrate: exch,
                oracle_exrate: exch,
                long_lp_resource: LONG_UNIT_ID,
                short_lp_resource: SHORT_UNIT_ID,
            })
        }
    }
}

/// A successful rebalance preserves the market invariant: both reserves
/// stay strictly positive (the transfer is strictly smaller than the
/// source reserve), the cached mirrors equal the reserves, and the
/// applied rate becomes the strictly positive oracle rate.
pub proof fn lemma_rebalance_ok(m: MarketState)
    requires
        market_inv(m),
    ensures
        spec_rebalance(m) matches Ok(st) ==> market_inv(st),
{
    match spec_rebalance(m) {
        Ok(st) => {
            if !rat_eq(m.last_exrate, m.oracle_exrate) {
                let growth = rat_sub(rat_div(m.oracle_exrate, m.last_exrate), rat_one());
                let delta = rat_mul(growth, m.leverage);
                let long_d = rat_mul(delta, m.long_cup);
                let short_d = rat_mul(delta, m.short_cup);
                let ratio = rat_div(m.long_cup, m.short_cup);
                let funding_base = if rat_lt(rat_one(), ratio) {
                    rat_div(rat_one(), ratio)
                } else {
                    ratio
                };
                let funding = rat_mul(m.funding_coeff, funding_base);
                let long_dominates = rat_lt(rat_abs(short_d), rat_abs(long_d));
                let rising = rat_is_pos(delta);
                let factor = if long_dominates == rising {
                    funding
                } else {
                    rat_div(rat_one(), funding)
                };
                let minority = if long_dominates {
                    rat_abs(short_d)
                } else {
                    rat_abs(long_d)
                };
                let adj = rat_mul(factor, minority);
                lemma_pos_mul(m.long_cup.n, m.short_cup.d);
                assert(ratio.n > 0);
                if rat_lt(rat_one(), ratio) {
                    assert(funding_base.n == 1int * ratio.d);
                }
                assert(funding_base.n > 0);
                assert(funding_base.d > 0);
                lemma_pos_mul(m.funding_coeff.n, funding_base.n);
                lemma_pos_mul(m.funding_coeff.d, funding_base.d);
                assert(funding.n > 0);
                assert(funding.d > 0);
                if long_dominates != rising {
                    assert(factor.n == 1int * funding.d);
                }
                assert(factor.n > 0);
                assert(minority.n >= 0);
                lemma_nonneg_mul(minority.n, factor.n);
                assert(adj.n >= 0);
                if rising {
                    assert(st.long_cup == rat_add(m.long_cup, adj));
                    assert(st.short_cup == rat_sub(m.short_cup, adj));
                    lemma_pos_mul(m.long_cup.n, adj.d);
                    lemma_nonneg_mul(adj.n, m.long_cup.d);
                    assert(rat_is_pos(st.long_cup));
                    assert(rat_is_pos(st.short_cup));
                } else {
                    assert(st.short_cup == rat_add(m.short_cup, adj));
                    assert(st.long_cup == rat_sub(m.long_cup, adj));
                    lemma_pos_mul(m.short_cup.n, adj.d);
                    lemma_nonneg_mul(adj.n, m.short_cup.d);
                    assert(rat_is_pos(st.short_cup));
                    assert(rat_is_pos(st.long_cup));
                }
            }
        },
        Err(_) => {},
    }
}

/// A successful deposit preserves the market invariant and mints a
/// strictly positive number of units: the chosen reserve grows, its
/// supply grows, and nothing else moves beyond the rebalance itself.
pub proof fn lemma_deposit_ok(m: MarketState, side: bool, funds: Rat)
    requires
        market_inv(m),
        rat_wf(funds),
    ensures
        spec_deposit(m, side, funds) matches Ok(t) ==> market_inv(t.0) && rat_is_pos(t.1),
{
    match spec_deposit(m, side, funds) {
        Ok(t) => {
            lemma_rebalance_ok(m);
            let st = spec_rebalance(m)->Ok_0;
            let cup = if side {
                st.long_cup
            } else {
                st.short_cup
            };
            let lp = if side {
                st.long_cup_lp
            } else {
                st.short_cup_lp
            };
            let grown = rat_add(cup, funds);
            let factor = rat_div(grown, cup);
            let share = rat_sub(factor, rat_one());
            let minted = rat_mul(lp, share);
            let new_lp = rat_add(lp, minted);
            lemma_pos_mul(cup.n, funds.d);
            lemma_pos_mul(funds.n, cup.d);
            assert(rat_is_pos(grown));
            assert(share.n > 0) by (nonlinear_arith)
                requires
                    share.n == factor.n * 1 - 1 * factor.d,
                    factor.n == grown.n * cup.d,
                    factor.d == grown.d * cup.n,
                    grown.n == cup.n * funds.d + funds.n * cup.d,
                    grown.d == cup.d * funds.d,
                    funds.n > 0,
                    cup.d > 0,
            ;
            lemma_pos_mul(lp.n, share.n);
            assert(rat_is_pos(minted));
            lemma_pos_mul(lp.n, minted.d);
            lemma_pos_mul(minted.n, lp.d);
            assert(rat_is_pos(new_lp));
            assert(market_inv(t.0));
        },
        Err(_) => {},
    }
}

/// A successful withdraw preserves the market invariant and pays out a
/// strictly positive amount that is strictly smaller than the side's
/// rebalanced reserve.
pub proof fn lemma_withdraw_ok(m: MarketState, side: bool, funds: Rat, funds_resource: u64)
    requires
        market_inv(m),
        rat_wf(funds),
    ensures
        spec_withdraw(m, side, funds, funds_resource) matches Ok(t) ==> market_inv(t.0)
            && rat_is_pos(t.1),
{
    match spec_withdraw(m, side, funds, funds_resource) {
        Ok(t) => {
            lemma_rebalance_ok(m);
            let st = spec_rebalance(m)->Ok_0;
            let cup = if side {
                st.long_cup
            } else {
                st.short_cup
            };
            let lp = if side {
                st.long_cup_lp
            } else {
                st.short_cup_lp
            };
            let share = rat_div(funds, lp);
            let payout = rat_mul(share, cup);
            let new_lp = rat_sub(lp, funds);
            let new_cup = rat_sub(cup, payout);
            lemma_pos_mul(funds.n, lp.d);
            lemma_pos_mul(share.n, cup.n);
            assert(rat_is_pos(payout));
            assert(rat_is_pos(new_lp));
            assert(new_cup.n > 0) by (nonlinear_arith)
                requires
                    new_cup.n == cup.n * payout.d - payout.n * cup.d,
                    payout.n == share.n * cup.n,
                    payout.d == share.d * cup.d,
                    share.n == funds.n * lp.d,
                    share.d == funds.d * lp.n,
                    funds.n * lp.d < lp.n * funds.d,
                    cup.n > 0,
                    cup.d > 0,
            ;
            assert(rat_is_pos(new_cup));
            assert(market_inv(t.0));
        },
        Err(_) => {},
    }
}

/// A leveraged two-reserve market.
pub struct CupPerp {
    pair: String,
    leverage: Ratio,
    funding_coeff: Ratio,
    long_cup: Ratio,
    long_cup_value: Ratio,
    short_cup: Ratio,
    short_cup_value: Ratio,
    long_cup_lp: Ratio,
    short_cup_lp: Ratio,
    last_exrate: Ratio,
    oracle_exrate: Ratio,
    long_lp_resource: u64,
    short_lp_resource: u64,
}

impl View for CupPerp {
    type V = MarketState;

    closed spec fn view(&self) -> MarketState {
        MarketState {
            pair: self.pair@,
            leverage: self.leverage@,
            funding_coeff: self.funding_coeff@,
            long_cup: self.long_cup@,
            long_cup_value: self.long_cup_value@,
            short_cup: self.short_cup@,
            short_cup_value: self.short_cup_value@,
            long_cup_lp: self.long_cup_lp@,
            short_cup_lp: self.short_cup_lp@,
            last_exrate: self.last_exrate@,
            oracle_exrate: self.oracle_exrate@,
            long_lp_resource: self.long_lp_resource,
            short_lp_resource: self.short_lp_resource,
        }
    }
}

impl CupPerp {
    /// Well-formedness of the market's representation.
    pub open spec fn inv(&self) -> bool {
        market_inv(self@)
    }

    /// Creates a market for the labelled pair at the given initial rate,
    /// splitting the initial deposit evenly between the two reserves.
    /// The initial liquidity-unit supplies are a fixed 1000 per side,
    /// independent of the deposit, so the very first proportional deposit
    /// never divides by zero.
    pub fn instantiate_pair(pair: String, exch: Ratio, deposit: Ratio) -> (r: Result<
        CupPerp,
        MarketError,
    >)
        requires
            rat_wf(exch@),
            rat_wf(deposit@),
        ensures
            spec_instantiate(pair@, exch@, deposit@) matches Ok(st) ==> r matches Ok(c) && c@
                == st && c.inv(),
            spec_instantiate(pair@, exch@, deposit@) matches Err(e) ==> r matches Err(f) && f == e,
    {
        if !exch.is_pos() {
            return Err(MarketError::NonPositiveRate);
        }
        if !deposit.is_pos() {
            return Err(MarketError::NonPositiveAmount);
        }
        let two = Ratio::from_int(2);
        let half = match deposit.checked_div(&two) {
            Some(h) => h,
            None => {
                return Err(MarketError::ArithmeticOverflow);
            },
        };
        let market = CupPerp {
            pair: pair,
            leverage: Ratio::from_int(5),
            funding_coeff: Ratio::from_frac(3, 4),
            long_cup: half,
            long_cup_value: half,
            short_cup: half,
            short_cup_value: half,
            long_cup_lp: Ratio::from_int(1000),
            short_cup_lp: Ratio::from_int(1000),
            last_exrate: exch,
            oracle_exrate: exch,
            long_lp_resource: LONG_UNIT_ID,
            short_lp_resource: SHORT_UNIT_ID,
        };
        proof {
            assert(half@.n == deposit@.n * 1int);
        }
        Ok(market)
    }

    /// Computes the rebalance step without touching the market: the new
    /// long reserve, new short reserve and new applied rate, or the exact
    /// error that `spec_rebalance` assigns to this state.
    fn rebalanced(&self) -> (r: Result<(Ratio, Ratio, Ratio), MarketError>)
        requires
            self.inv(),
        ensures
            r matches Ok(t) ==> spec_rebalance(self@) matches Ok(st) && t.0@ == st.long_cup
                && t.1@ == st.short_cup && t.2@ == st.last_exrate,
            r matches Err(e) ==> spec_rebalance(self@) matches Err(f) && e == f,
    {
        if !self.oracle_exrate.is_pos() {
            return Err(MarketError::NonPositiveRate);
        }
        if self.last_exrate.same_value(&self.oracle_exrate) {
            return Ok((self.long_cup, self.short_cup, self.last_exrate));
        }
        let one = Ratio::from_int(1);
        let quot = match self.oracle_exrate.checked_div(&self.last_exrate) {
            Some(v) => v,
            None => {
                return Err(MarketError::ArithmeticOverflow);
            },
        };
        let growth = match quot.checked_sub(&one) {
            Some(v) => v,
            None => {
                return Err(MarketError::ArithmeticOverflow);
            },
        };
        let delta = match growth.checked_mul(&self.leverage) {
            Some(v) => v,
            None => {
                return Err(MarketError::ArithmeticOverflow);
            },
        };
        let long_d = match delta.checked_mul(&self.long_cup) {
            Some(v) => v,
            None => {
                return Err(MarketError::ArithmeticOverflow);
            },
        };
        let short_d = match delta.checked_mul(&self.short_cup) {
            Some(v) => v,
            None => {
                return Err(MarketError::ArithmeticOverflow);
            },
        };
        proof {
            lemma_pos_mul(self@.long_cup.n, self@.short_cup.d);
        }
        let ratio = match self.long_cup.checked_div(&self.short_cup) {
            Some(v) => v,
            None => {
                return Err(MarketError::ArithmeticOverflow);
            },
        };
        let funding_base = if one.lt(&ratio) {
            match one.checked_div(&ratio) {
                Some(v) => v,
                None => {
                    return Err(MarketError::ArithmeticOverflow);
                },
            }
        } else {
            ratio
        };
        proof {
            if rat_lt(rat_one(), ratio@) {
                assert(funding_base@.n == 1int * ratio@.d);
            }
            lemma_pos_mul(self@.funding_coeff.n, funding_base@.n);
        }
        let funding = match self.funding_coeff.checked_mul(&funding_base) {
            Some(v) => v,
            None => {
                return Err(MarketError::ArithmeticOverflow);
            },
        };
        let long_abs = long_d.abs();
        let short_abs = short_d.abs();
        let long_dominates = short_abs.lt(&long_abs);
        let rising = delta.is_pos();
        let factor = if long_dominates == rising {
            funding
        } else {
            match one.checked_div(&funding) {
                Some(v) => v,
                None => {
                    return Err(MarketError::ArithmeticOverflow);
                },
            }
        };
        let minority = if long_dominates {
            short_abs
        } else {
            long_abs
        };
        let adj = match factor.checked_mul(&minority) {
            Some(v) => v,
            None => {
                return Err(MarketError::ArithmeticOverflow);
            },
        };
        if rising {
            if !adj.lt(&self.short_cup) {
                return Err(MarketError::ReserveExhausted);
            }
            let nl = match self.long_cup.checked_add(&adj) {
                Some(v) => v,
                None => {
                    return Err(MarketError::ArithmeticOverflow);
                },
            };
            let ns = match self.short_cup.checked_sub(&adj) {
                Some(v) => v,
                None => {
                    return Err(MarketError::ArithmeticOverflow);
                },
            };
            Ok((nl, ns, self.oracle_exrate))
        } else {
            if !adj.lt(&self.long_cup) {
                return Err(MarketError::ReserveExhausted);
            }
            let nl = match self.long_cup.checked_sub(&adj) {
                Some(v) => v,
                None => {
                    return Err(MarketError::ArithmeticOverflow);
                },
            };
            let ns = match self.short_cup.checked_add(&adj) {
                Some(v) => v,
                None => {
                    return Err(MarketError::ArithmeticOverflow);
                },
            };
            Ok((nl, ns, self.oracle_exrate))
        }
    }

    /// Applies the rebalance step (the explicit mark-to-market call): a
    /// no-op when the oracle rate equals the applied rate, otherwise the
    /// adjusted transfer moves between the reserves, the cached mirrors
    /// are refreshed and the oracle rate becomes the applied rate.  On an
    /// error the market is unchanged.
    pub fn update(&mut self) -> (r: Result<(), MarketError>)
        requires
            old(self).inv(),
        ensures
            final(self).inv(),
            spec_rebalance(old(self)@) matches Ok(st) ==> r == Ok::<(), MarketError>(())
                && final(self)@ == st,
            spec_rebalance(old(self)@) matches Err(e) ==> r == Err::<(), MarketError>(e)
                && *final(self) == *old(self),
            rat_is_pos(old(self)@.oracle_exrate) && rat_eq(
                old(self)@.last_exrate,
                old(self)@.oracle_exrate,
            ) ==> *final(self) == *old(self),
    {
        let t = match self.rebalanced() {
            Ok(t) => t,
            Err(e) => {
                return Err(e);
            },
        };
        proof {
            lemma_rebalance_ok(self@);
            if rat_eq(self@.last_exrate, self@.oracle_exrate) {
                lemma_ratio_view_injective(t.0, self.long_cup);
                lemma_ratio_view_injective(t.0, self.long_cup_value);
                lemma_ratio_view_injective(t.1, self.short_cup);
                lemma_ratio_view_injective(t.1, self.short_cup_value);
                lemma_ratio_view_injective(t.2, self.last_exrate);
            }
        }
        self.long_cup = t.0;
        self.long_cup_value = t.0;
        self.short_cup = t.1;
        self.short_cup_value = t.1;
        self.last_exrate = t.2;
        Ok(())
    }

    /// Deposits `funds` into the chosen side (`true` for long) after a
    /// rebalance, and returns the liquidity units minted for the
    /// depositor, sized so that every earlier holder's share of the
    /// reserve is unchanged.  On an error the market is unchanged.
    pub fn deposit(&mut self, side: bool, funds: Ratio) -> (r: Result<Ratio, MarketError>)
        requires
            old(self).inv(),
            rat_wf(funds@),
        ensures
            final(self).inv(),
            spec_deposit(old(self)@, side, funds@) matches Ok(t) ==> r matches Ok(u) && u@ == t.1
                && final(self)@ == t.0,
            spec_deposit(old(self)@, side, funds@) matches Err(e) ==> r matches Err(f) && f == e
                && *final(self) == *old(self),
    {
        if !funds.is_pos() {
            return Err(MarketError::NonPositiveAmount);
        }
        let t = match self.rebalanced() {
            Ok(t) => t,
            Err(e) => {
                return Err(e);
            },
        };
        proof {
            lemma_rebalance_ok(self@);
            lemma_deposit_ok(self@, side, funds@);
        }
        let cup = if side {
            t.0
        } else {
            t.1
        };
        let lp = if side {
            self.long_cup_lp
        } else {
            self.short_cup_lp
        };
        let grown = match cup.checked_add(&funds) {
            Some(v) => v,
            None => {
                return Err(MarketError::ArithmeticOverflow);
            },
        };
        let factor = match grown.checked_div(&cup) {
            Some(v) => v,
            None => {
                return Err(MarketError::ArithmeticOverflow);
            },
        };
        let one = Ratio::from_int(1);
        let share = match factor.checked_sub(&one) {
            Some(v) => v,
            None => {
                return Err(MarketError::ArithmeticOverflow);
            },
        };
        let minted = match lp.checked_mul(&share) {
            Some(v) => v,
            None => {
                return Err(MarketError::ArithmeticOverflow);
            },
        };
        let new_lp = match lp.checked_add(&minted) {
            Some(v) => v,
            None => {
                return Err(MarketError::ArithmeticOverflow);
            },
        };
        self.long_cup = t.0;
        self.long_cup_value = t.0;
        self.short_cup = t.1;
        self.short_cup_value = t.1;
        self.last_exrate = t.2;
        if side {
            self.long_cup = grown;
            self.long_cup_value = grown;
            self.long_cup_lp = new_lp;
        } else {
            self.short_cup = grown;
            self.short_cup_value = grown;
            self.short_cup_lp = new_lp;
        }
        Ok(minted)
    }

    /// Redeems `funds` liquidity units of the chosen side (`true` for
    /// long) after a rebalance; `funds_resource` must be that side's
    /// unit identifier.  Pays out exactly the redeemed share of the
    /// side's reserve, priced at the moment of the call.  On an error
    /// the market is unchanged.
    pub fn withdraw(&mut self, side: bool, funds: Ratio, funds_resource: u64) -> (r: Result<
        Ratio,
        MarketError,
    >)
        requires
            old(self).inv(),
            rat_wf(funds@),
        ensures
            final(self).inv(),
            spec_withdraw(old(self)@, side, funds@, funds_resource) matches Ok(t) ==> r matches
                Ok(u) && u@ == t.1 && final(self)@ == t.0,
            spec_withdraw(old(self)@, side, funds@, funds_resource) matches Err(e) ==> r matches
                Err(f) && f == e && *final(self) == *old(self),
    {
        if !funds.is_pos() {
            return Err(MarketError::NonPositiveAmount);
        }
        let own_resource = if side {
            self.long_lp_resource
        } else {
            self.short_lp_resource
        };
        if funds_resource != own_resource {
            return Err(MarketError::WrongUnitKind);
        }
        let lp = if side {
            self.long_cup_lp
        } else {
            self.short_cup_lp
        };
        if !funds.lt(&lp) {
            return Err(MarketError::SupplyExhausted);
        }
        let t = match self.rebalanced() {
            Ok(t) => t,
            Err(e) => {
                return Err(e);
            },
        };
        proof {
            lemma_rebalance_ok(self@);
            lemma_withdraw_ok(self@, side, funds@, funds_resource);
        }
        let cup = if side {
            t.0
        } else {
            t.1
        };
        let share = match funds.checked_div(&lp) {
            Some(v) => v,
            None => {
                return Err(MarketError::ArithmeticOverflow);
            },
        };
        let payout = match share.checked_mul(&cup) {
            Some(v) => v,
            None => {
                return Err(MarketError::ArithmeticOverflow);
            },
        };
        let new_lp = match lp.checked_sub(&funds) {
            Some(v) => v,
            None => {
                return Err(MarketError::ArithmeticOverflow);
            },
        };
        let new_cup = match cup.checked_sub(&payout) {
            Some(v) => v,
            None => {
                return Err(MarketError::ArithmeticOverflow);
            },
        };
        self.long_cup = t.0;
        self.long_cup_value = t.0;
        self.short_cup = t.1;
        self.short_cup_value = t.1;
        self.last_exrate = t.2;
        if side {
            self.long_cup = new_cup;
            self.long_cup_value = new_cup;
            self.long_cup_lp = new_lp;
        } else {
            self.short_cup = new_cup;
            self.short_cup_value = new_cup;
            self.short_cup_lp = new_lp;
        }
        Ok(payout)
    }

    /// Current amounts of the two reserves, long side first.
    pub fn show_cups(&self) -> (r: (Ratio, Ratio))
        ensures
            r.0@ == self@.long_cup,
            r.1@ == self@.short_cup,
    {
        (self.long_cup, self.short_cup)
    }

    /// Identifiers of the two sides' liquidity units, long side first.
    pub fn get_lp_resource_addr(&self) -> (r: (u64, u64))
        ensures
            r.0 == self@.long_lp_resource,
            r.1 == self@.short_lp_resource,
    {
        (self.long_lp_resource, self.short_lp_resource)
    }

    /// Values a basket of `long` and `short` liquidity units against the
    /// current reserves and supplies.  Read-only and linear in both unit
    /// counts; ownership of the units is not required.
    pub fn value(&self, long: Ratio, short: Ratio) -> (r: Result<Ratio, MarketError>)
        requires
            self.inv(),
            rat_wf(long@),
            rat_wf(short@),
        ensures
            spec_value_result(self@, long@, short@) matches Ok(v) ==> r matches Ok(u) && u@ == v
                && v == spec_value(self@, long@, short@),
            spec_value_result(self@, long@, short@) matches Err(e) ==> r matches Err(f) && f == e,
    {
        let long_share = match long.checked_div(&self.long_cup_lp) {
            Some(v) => v,
            None => {
                return Err(MarketError::ArithmeticOverflow);
            },
        };
        let long_part = match long_share.checked_mul(&self.long_cup) {
            Some(v) => v,
            None => {
                return Err(MarketError::ArithmeticOverflow);
            },
        };
        let short_share = match short.checked_div(&self.short_cup_lp) {
            Some(v) => v,
            None => {
                return Err(MarketError::ArithmeticOverflow);
            },
        };
        let short_part = match short_share.checked_mul(&self.short_cup) {
            Some(v) => v,
            None => {
                return Err(MarketError::ArithmeticOverflow);
            },
        };
        let total = match long_part.checked_add(&short_part) {
            Some(v) => v,
            None => {
                return Err(MarketError::ArithmeticOverflow);
            },
        };
        Ok(total)
    }

    /// Records a new reference rate from the oracle.  Nothing else moves
    /// until the next rebalance.
    pub fn set_oracle(&mut self, n: Ratio)
        requires
            old(self).inv(),
            rat_wf(n@),
        ensures
            final(self).inv(),
            final(self)@ == (MarketState { oracle_exrate: n@, ..old(self)@ }),
    {
        self.oracle_exrate = n;
    }
}

} // verus!
