//! A synthetic leveraged-exposure market built from two pooled reserves.
//!
//! Two reserves of one backing asset stand behind long and short exposure to
//! an external reference rate.  Whenever the rate moves, a rebalance step
//! transfers value from one reserve to the other, scaled by a leverage
//! factor and dampened by a funding coefficient that always favours the
//! smaller reserve.  Liquidity providers hold proportional-ownership units
//! of one side and redeem them for a pro-rata slice of that side's reserve.
//!
//! All amounts and rates are exact rational numbers, so the proportional
//! accounting laws hold exactly rather than up to rounding.

pub mod laws;
pub mod market;
pub mod rational;
