use cup_perp::market::CupPerp;
use cup_perp::market::MarketError;
use cup_perp::rational::Ratio;

fn whole(n: i32) -> Ratio {
    Ratio::from_int(n)
}

fn fresh_market() -> CupPerp {
    CupPerp::instantiate_pair("BTC/USD".to_string(), whole(100), whole(2000)).ok().unwrap()
}

#[test]
fn instantiation_splits_deposit_evenly() {
    let market = fresh_market();
    let (long, short) = market.show_cups();
    assert!(long.same_value(&whole(1000)));
    assert!(short.same_value(&whole(1000)));
    assert_eq!(market.get_lp_resource_addr().0 == market.get_lp_resource_addr().1, false);
}

#[test]
fn example_scenario_rate_105() {
    let mut market = fresh_market();
    market.set_oracle(whole(105));
    market.update().ok().unwrap();
    let (long, short) = market.show_cups();
    // delta = (105/100 - 1) * 5 = 1/4; both movements are 250, the tie
    // treats the long side as the minority, so the transfer is
    // (1/funding) * 250 = (4/3) * 250 = 1000/3 into the long cup.
    assert!(long.same_value(&Ratio::new(4000, 3).unwrap()));
    assert!(short.same_value(&Ratio::new(2000, 3).unwrap()));
}

#[test]
fn rebalance_conserves_reserve_sum() {
    let mut market = fresh_market();
    market.set_oracle(whole(105));
    market.update().ok().unwrap();
    let (long, short) = market.show_cups();
    let sum = long.checked_add(&short).unwrap();
    assert!(sum.same_value(&whole(2000)));
}

#[test]
fn update_is_noop_when_rate_unchanged() {
    let mut market = fresh_market();
    market.set_oracle(whole(105));
    market.update().ok().unwrap();
    let (long1, short1) = market.show_cups();
    market.update().ok().unwrap();
    let (long2, short2) = market.show_cups();
    assert!(long1.same_value(&long2));
    assert!(short1.same_value(&short2));
}

#[test]
fn funding_asymmetry_scenario() {
    let mut market =
        CupPerp::instantiate_pair("BTC/USD".to_string(), whole(100), whole(1600)).ok().unwrap();
    market.deposit(true, whole(400)).ok().unwrap();
    let (long, short) = market.show_cups();
    assert!(long.same_value(&whole(1200)));
    assert!(short.same_value(&whole(800)));
    market.set_oracle(whole(101));
    market.update().ok().unwrap();
    let (long, short) = market.show_cups();
    // delta = 1/20: movements are 60 and 40; ratio = 3/2 so funding =
    // (3/4)*(2/3) = 1/2; the short movement is the minority and the rate
    // rises, so the transfer is (1/2)*40 = 20 -- less than the naive 40.
    assert!(long.same_value(&whole(1220)));
    assert!(short.same_value(&whole(780)));
}

#[test]
fn deposit_mints_proportionally() {
    let mut market = fresh_market();
    let minted = market.deposit(true, whole(500)).ok().unwrap();
    // supply 1000, reserve 1000: 500 deposited mints exactly 500 units.
    assert!(minted.same_value(&whole(500)));
    let (long, short) = market.show_cups();
    assert!(long.same_value(&whole(1500)));
    assert!(short.same_value(&whole(1000)));
}

#[test]
fn withdraw_pays_proportionally_and_round_trips() {
    let mut market = fresh_market();
    let (long_id, _) = market.get_lp_resource_addr();
    let payout = market.withdraw(true, whole(200), long_id).ok().unwrap();
    // 200 of 1000 units redeem a fifth of the 1000 reserve.
    assert!(payout.same_value(&whole(200)));
    let (long, _) = market.show_cups();
    assert!(long.same_value(&whole(800)));
    // depositing the identical payout restores reserve and supply.
    let minted = market.deposit(true, payout).ok().unwrap();
    assert!(minted.same_value(&whole(200)));
    let (long, _) = market.show_cups();
    assert!(long.same_value(&whole(1000)));
}

#[test]
fn value_quotes_both_sides() {
    let market = fresh_market();
    let quote = market.value(whole(500), whole(250)).ok().unwrap();
    assert!(quote.same_value(&whole(750)));
}

#[test]
fn value_is_homogeneous() {
    let market = fresh_market();
    let single = market.value(whole(300), whole(100)).ok().unwrap();
    let doubled = market.value(whole(600), whole(200)).ok().unwrap();
    let twice = single.checked_add(&single).unwrap();
    assert!(doubled.same_value(&twice));
}

#[test]
fn value_is_additive() {
    let market = fresh_market();
    let first = market.value(whole(500), whole(250)).ok().unwrap();
    let second = market.value(whole(100), whole(50)).ok().unwrap();
    let combined = market.value(whole(600), whole(300)).ok().unwrap();
    assert!(combined.same_value(&first.checked_add(&second).unwrap()));
}

#[test]
fn non_positive_rate_is_refused() {
    assert!(matches!(
        CupPerp::instantiate_pair("X/Y".to_string(), whole(0), whole(100)),
        Err(MarketError::NonPositiveRate)
    ));
    let mut market = fresh_market();
    market.set_oracle(whole(-3));
    assert!(matches!(market.update(), Err(MarketError::NonPositiveRate)));
}

#[test]
fn non_positive_amounts_are_refused() {
    assert!(matches!(
        CupPerp::instantiate_pair("X/Y".to_string(), whole(100), whole(0)),
        Err(MarketError::NonPositiveAmount)
    ));
    let mut market = fresh_market();
    assert!(matches!(market.deposit(true, whole(0)), Err(MarketError::NonPositiveAmount)));
    let (long_id, _) = market.get_lp_resource_addr();
    assert!(matches!(
        market.withdraw(true, whole(-5), long_id),
        Err(MarketError::NonPositiveAmount)
    ));
}

#[test]
fn wrong_unit_kind_is_refused() {
    let mut market = fresh_market();
    let (_, short_id) = market.get_lp_resource_addr();
    assert!(matches!(
        market.withdraw(true, whole(10), short_id),
        Err(MarketError::WrongUnitKind)
    ));
}

#[test]
fn redeeming_the_whole_supply_is_refused() {
    let mut market = fresh_market();
    let (long_id, _) = market.get_lp_resource_addr();
    assert!(matches!(
        market.withdraw(true, whole(1000), long_id),
        Err(MarketError::SupplyExhausted)
    ));
}

#[test]
fn draining_transfer_is_refused() {
    let mut market = fresh_market();
    market.set_oracle(whole(1000));
    assert!(matches!(market.update(), Err(MarketError::ReserveExhausted)));
    // the failed call left the market untouched
    let (long, short) = market.show_cups();
    assert!(long.same_value(&whole(1000)));
    assert!(short.same_value(&whole(1000)));
}

#[test]
fn overflowing_valuation_is_refused() {
    let market = fresh_market();
    let huge = Ratio::new(0x3fff_ffff_ffff_ffff, 1).unwrap();
    assert!(matches!(market.value(huge, whole(0)), Err(MarketError::ArithmeticOverflow)));
}

#[test]
fn ratio_construction_and_comparison() {
    assert!(Ratio::new(1, 0).is_none());
    assert!(Ratio::new(0x4000_0000_0000_0000, 1).is_none());
    let negated = Ratio::new(3, -6).unwrap();
    assert!(negated.same_value(&Ratio::new(-1, 2).unwrap()));
    assert!(negated.lt(&Ratio::from_int(0)));
    assert!(negated.abs().same_value(&Ratio::new(1, 2).unwrap()));
    assert!(!negated.is_pos());
    assert!(Ratio::new(2, 4).unwrap().same_value(&Ratio::new(1, 2).unwrap()));
}
