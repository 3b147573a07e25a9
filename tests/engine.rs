use pump_clone::{
    create_token, apply_trade, buy_tokens, check_completion, execute_trade, polynomial_quote, quote, quote_with,
    sell_tokens, Direction, ErrorCode, ReserveSnapshot, Strategy, TradeQuote, TradeRequest,
};

fn curve(threshold: u64, fee_basis_points: u16) -> ReserveSnapshot {
    ReserveSnapshot::new(1_000_000, 1_000_000, 1_000_000, 1_000_000, threshold, fee_basis_points)
        .unwrap()
}

fn request(direction: Direction, amount: u64) -> TradeRequest {
    TradeRequest {
        direction,
        amount,
        strategy: Strategy::ConstantProduct,
        min_amount_out: None,
        max_amount_in: None,
    }
}

fn polynomial(direction: Direction, amount: u64) -> TradeRequest {
    TradeRequest {
        direction,
        amount,
        strategy: Strategy::Polynomial { base_price: 1000 },
        min_amount_out: None,
        max_amount_in: None,
    }
}

fn polynomial_curve(fee_basis_points: u16) -> ReserveSnapshot {
    ReserveSnapshot::new(1_000_000, 1_000_000, 9_000, 10_000, u64::MAX, fee_basis_points).unwrap()
}

#[test]
fn new_snapshot_starts_active_with_no_quote_custody() {
    let s = curve(500_000, 100);
    assert!(!s.is_complete);
    assert_eq!(s.real_quote_reserves, 0);
    assert_eq!(s.fee_basis_points, 100);
}

#[test]
fn new_snapshot_rejects_bad_configuration() {
    assert_eq!(ReserveSnapshot::new(1, 1, 1, 1, 1, 10_001), Err(ErrorCode::InvalidFee));
    assert_eq!(ReserveSnapshot::new(0, 1, 1, 1, 1, 0), Err(ErrorCode::DegenerateCurve));
    assert_eq!(ReserveSnapshot::new(1, 0, 1, 1, 1, 0), Err(ErrorCode::DegenerateCurve));
    assert!(ReserveSnapshot::new(1, 1, 1, 1, 1, 10_000).is_ok());
}

#[test]
fn buy_quote_takes_fee_from_gross_output() {
    let q = quote(&curve(500_000, 100), Direction::Buy, 100_000).unwrap();
    assert_eq!(
        q,
        TradeQuote {
            amount_in: 100_000,
            gross_amount_out: 90_909,
            fee_amount: 909,
            net_amount_out: 90_000,
            direction: Direction::Buy,
        }
    );
}

#[test]
fn sell_quote_takes_fee_from_gross_output() {
    let q = quote(&curve(500_000, 100), Direction::Sell, 100_000).unwrap();
    assert_eq!(q.gross_amount_out, 90_909);
    assert_eq!(q.fee_amount, 909);
    assert_eq!(q.net_amount_out, 90_000);
}

#[test]
fn buy_applies_deltas_to_all_four_reserves() {
    let (q, next) =
        apply_trade(&curve(500_000, 100), Strategy::ConstantProduct, Direction::Buy, 100_000).unwrap();
    assert_eq!(q.net_amount_out, 90_000);
    assert_eq!(next.virtual_base_reserves, 910_000);
    assert_eq!(next.virtual_quote_reserves, 1_100_000);
    assert_eq!(next.real_base_reserves, 910_000);
    assert_eq!(next.real_quote_reserves, 100_000);
    assert!(!next.is_complete);
}

#[test]
fn buy_then_sell_returns_no_more_than_was_paid() {
    let s = curve(500_000, 100);
    let first = execute_trade(&s, &request(Direction::Buy, 100_000)).unwrap();
    let second =
        execute_trade(&first.new_snapshot, &request(Direction::Sell, first.amount_out)).unwrap();
    assert_eq!(second.amount_out, 98_010);
    assert!(second.amount_out <= 100_000);
}

#[test]
fn sell_then_buy_returns_no_more_than_was_sold() {
    let s = curve(u64::MAX, 100);
    let first = execute_trade(&s, &request(Direction::Sell, 100_000)).unwrap_err();
    assert_eq!(first, ErrorCode::Underflow);
    let mut funded = s;
    funded.real_quote_reserves = 1_000_000;
    let first = execute_trade(&funded, &request(Direction::Sell, 100_000)).unwrap();
    let second =
        execute_trade(&first.new_snapshot, &request(Direction::Buy, first.amount_out)).unwrap();
    assert!(second.amount_out <= 100_000);
}

#[test]
fn zero_fee_exact_trade_keeps_product() {
    let s = ReserveSnapshot::new(100, 100, 100, 100, u64::MAX, 0).unwrap();
    let t = execute_trade(&s, &request(Direction::Buy, 25)).unwrap();
    assert_eq!(t.amount_out, 20);
    assert_eq!(t.fee_amount, 0);
    let n = t.new_snapshot;
    assert_eq!(n.virtual_base_reserves as u128 * n.virtual_quote_reserves as u128, 10_000);
}

#[test]
fn fee_trade_raises_product() {
    let s = curve(u64::MAX, 100);
    let t = execute_trade(&s, &request(Direction::Buy, 100_000)).unwrap();
    let n = t.new_snapshot;
    let before = s.virtual_base_reserves as u128 * s.virtual_quote_reserves as u128;
    let after = n.virtual_base_reserves as u128 * n.virtual_quote_reserves as u128;
    assert_eq!(after, 1_001_000_000_000);
    assert!(after > before);
}

#[test]
fn zero_fee_inexact_trade_rounds_in_curve_favour() {
    let s = ReserveSnapshot::new(10, 10, 10, 10, u64::MAX, 0).unwrap();
    let t = execute_trade(&s, &request(Direction::Buy, 3)).unwrap();
    assert_eq!(t.amount_out, 2);
    let n = t.new_snapshot;
    assert_eq!(n.virtual_base_reserves as u128 * n.virtual_quote_reserves as u128, 104);
}

#[test]
fn zero_fee_sell_never_lowers_product() {
    let mut s = ReserveSnapshot::new(3, 10, 3, 10, u64::MAX, 100).unwrap();
    s.real_quote_reserves = 10;
    let t = execute_trade(&s, &request(Direction::Sell, 1)).unwrap();
    assert_eq!(t.amount_out, 2);
    let n = t.new_snapshot;
    assert!(n.virtual_base_reserves as u128 * n.virtual_quote_reserves as u128 >= 30);
}

#[test]
fn crossing_threshold_completes_curve_for_good() {
    let s = curve(50_000, 100);
    let t = execute_trade(&s, &request(Direction::Buy, 100_000)).unwrap();
    assert!(t.completed_this_trade);
    assert!(t.new_snapshot.is_complete);
    let after = t.new_snapshot;
    assert_eq!(
        execute_trade(&after, &request(Direction::Sell, 10)),
        Err(ErrorCode::CurveComplete)
    );
    assert_eq!(
        execute_trade(&after, &request(Direction::Buy, 10)),
        Err(ErrorCode::CurveComplete)
    );
    assert_eq!(quote(&after, Direction::Buy, 0), Err(ErrorCode::CurveComplete));
}

#[test]
fn trade_below_threshold_leaves_curve_active() {
    let t = execute_trade(&curve(100_001, 100), &request(Direction::Buy, 100_000)).unwrap();
    assert!(!t.completed_this_trade);
    assert!(!t.new_snapshot.is_complete);
    let t = execute_trade(&curve(100_000, 100), &request(Direction::Buy, 100_000)).unwrap();
    assert!(t.completed_this_trade);
}

#[test]
fn completion_gate_flips_once() {
    let mut s = curve(10, 0);
    s.real_quote_reserves = 10;
    assert!(check_completion(&mut s));
    assert!(s.is_complete);
    assert!(!check_completion(&mut s));
    assert!(s.is_complete);
    let mut t = curve(10, 0);
    t.real_quote_reserves = 9;
    assert!(!check_completion(&mut t));
    assert!(!t.is_complete);
}

#[test]
fn zero_buy_is_invalid() {
    assert_eq!(quote(&curve(500_000, 100), Direction::Buy, 0), Err(ErrorCode::InvalidAmount));
    assert_eq!(quote(&curve(500_000, 100), Direction::Sell, 0), Err(ErrorCode::InvalidAmount));
}

#[test]
fn buy_with_zero_output_is_refused() {
    let s = ReserveSnapshot::new(10, 1_000_000, 10, 10, u64::MAX, 0).unwrap();
    assert_eq!(quote(&s, Direction::Buy, 1), Err(ErrorCode::InsufficientReserves));
}

#[test]
fn huge_buy_never_drains_base_reserve() {
    let s = ReserveSnapshot::new(10, 10, 10, 10, u64::MAX, 0).unwrap();
    assert_eq!(quote(&s, Direction::Buy, 1000).unwrap().gross_amount_out, 9);
}

#[test]
fn whole_output_fee_is_refused() {
    let s = curve(u64::MAX, 10_000);
    assert_eq!(quote(&s, Direction::Buy, 100_000), Err(ErrorCode::InsufficientReserves));
    assert_eq!(quote(&s, Direction::Sell, 100_000), Err(ErrorCode::InsufficientReserves));
}

#[test]
fn zero_virtual_reserve_is_degenerate() {
    let mut s = curve(500_000, 100);
    s.virtual_quote_reserves = 0;
    assert_eq!(quote(&s, Direction::Buy, 10), Err(ErrorCode::DegenerateCurve));
}

#[test]
fn fee_rate_above_whole_underflows() {
    let mut s = curve(500_000, 100);
    s.fee_basis_points = 20_000;
    assert_eq!(quote(&s, Direction::Buy, 100_000), Err(ErrorCode::Underflow));
}

#[test]
fn slippage_bounds_are_enforced() {
    let s = curve(500_000, 100);
    let tight = TradeRequest {
        direction: Direction::Buy,
        amount: 100_000,
        strategy: Strategy::ConstantProduct,
        min_amount_out: Some(90_001),
        max_amount_in: None,
    };
    assert_eq!(execute_trade(&s, &tight), Err(ErrorCode::SlippageExceeded));
    let exact = TradeRequest { min_amount_out: Some(90_000), ..tight };
    assert_eq!(execute_trade(&s, &exact).unwrap().amount_out, 90_000);
    let capped = TradeRequest { min_amount_out: None, max_amount_in: Some(99_999), ..tight };
    assert_eq!(execute_trade(&s, &capped), Err(ErrorCode::SlippageExceeded));
}

#[test]
fn ledger_overflow_is_reported() {
    let mut s = ReserveSnapshot::new(1_000_000, 1_000_000, 1_000_000, 0, u64::MAX, 0).unwrap();
    s.real_quote_reserves = u64::MAX - 5;
    assert_eq!(
        apply_trade(&s, Strategy::ConstantProduct, Direction::Buy, 10),
        Err(ErrorCode::Overflow)
    );
}

#[test]
fn ledger_underflow_is_reported() {
    let s = ReserveSnapshot::new(1_000_000, 1_000_000, 0, 0, u64::MAX, 0).unwrap();
    assert_eq!(
        apply_trade(&s, Strategy::ConstantProduct, Direction::Buy, 10),
        Err(ErrorCode::Underflow)
    );
}

#[test]
fn failed_buy_leaves_curve_untouched() {
    let before = ReserveSnapshot::new(1_000_000, 1_000_000, 0, 0, u64::MAX, 100).unwrap();
    let mut s = before;
    assert_eq!(buy_tokens(&mut s, 100_000), Err(ErrorCode::Underflow));
    assert_eq!(s, before);
    assert_eq!(buy_tokens(&mut s, 0), Err(ErrorCode::InvalidAmount));
    assert_eq!(s, before);
}

#[test]
fn failed_sell_leaves_curve_untouched() {
    let mut done = curve(500_000, 100);
    done.is_complete = true;
    let before = done;
    assert_eq!(sell_tokens(&mut done, 10), Err(ErrorCode::CurveComplete));
    assert_eq!(done, before);
}

#[test]
fn successful_buy_and_sell_commit_in_place() {
    let mut s = curve(u64::MAX, 100);
    let t = buy_tokens(&mut s, 100_000).unwrap();
    assert_eq!(s, t.new_snapshot);
    assert_eq!(s.real_quote_reserves, 100_000);
    let u = sell_tokens(&mut s, t.amount_out).unwrap();
    assert_eq!(s, u.new_snapshot);
    assert_eq!(s.real_quote_reserves, 100_000 - u.amount_out);
}

#[test]
fn polynomial_buy_costs_the_integral() {
    let t = execute_trade(&polynomial_curve(0), &polynomial(Direction::Buy, 100)).unwrap();
    assert_eq!(t.amount_in, 122_103);
    assert_eq!(t.amount_out, 100);
    assert_eq!(t.fee_amount, 0);
    let n = t.new_snapshot;
    assert_eq!(n.real_base_reserves, 8_900);
    assert_eq!(n.real_quote_reserves, 122_103);
    assert_eq!(n.virtual_base_reserves, 999_900);
    assert_eq!(n.virtual_quote_reserves, 1_122_103);
}

#[test]
fn polynomial_zero_fee_round_trip_is_even() {
    let first = execute_trade(&polynomial_curve(0), &polynomial(Direction::Buy, 100)).unwrap();
    let second =
        execute_trade(&first.new_snapshot, &polynomial(Direction::Sell, first.amount_out)).unwrap();
    assert_eq!(second.amount_in, 100);
    assert_eq!(second.amount_out, 122_103);
    assert_eq!(second.new_snapshot.real_base_reserves, 9_000);
    assert_eq!(second.new_snapshot.real_quote_reserves, 0);
}

#[test]
fn polynomial_round_trip_with_fee_loses() {
    let first = execute_trade(&polynomial_curve(100), &polynomial(Direction::Buy, 100)).unwrap();
    assert_eq!(first.amount_out, 99);
    assert_eq!(first.fee_amount, 1);
    let second =
        execute_trade(&first.new_snapshot, &polynomial(Direction::Sell, first.amount_out)).unwrap();
    assert_eq!(second.amount_out, 119_663);
    assert!(second.amount_out <= first.amount_in);
}

#[test]
fn polynomial_sell_then_rebuy_costs_at_least_the_proceeds() {
    let mut s = polynomial_curve(100);
    s.real_quote_reserves = 500_000;
    let first = execute_trade(&s, &polynomial(Direction::Sell, 100)).unwrap();
    let second = execute_trade(&first.new_snapshot, &polynomial(Direction::Buy, 100)).unwrap();
    assert_eq!(second.amount_in, 119_903);
    assert!(second.amount_in >= first.amount_out);
}

#[test]
fn polynomial_quote_refusals() {
    let s = polynomial_curve(0);
    assert_eq!(polynomial_quote(&s, Direction::Buy, 0, 1000), Err(ErrorCode::InvalidAmount));
    assert_eq!(polynomial_quote(&s, Direction::Buy, 9_001, 1000), Err(ErrorCode::SupplyExceeded));
    assert_eq!(polynomial_quote(&s, Direction::Sell, 1_001, 1000), Err(ErrorCode::SupplyExceeded));
    let mut over = s;
    over.real_base_reserves = 10_001;
    assert_eq!(polynomial_quote(&over, Direction::Buy, 1, 1000), Err(ErrorCode::SupplyExceeded));
    let mut thin = s;
    thin.virtual_base_reserves = 100;
    assert_eq!(polynomial_quote(&thin, Direction::Buy, 100, 1000), Err(ErrorCode::InsufficientReserves));
    let mut done = s;
    done.is_complete = true;
    assert_eq!(polynomial_quote(&done, Direction::Buy, 1, 1000), Err(ErrorCode::CurveComplete));
}

#[test]
fn strategies_share_one_interface() {
    let s = curve(u64::MAX, 100);
    assert_eq!(
        quote_with(&s, Strategy::ConstantProduct, Direction::Buy, 100_000),
        quote(&s, Direction::Buy, 100_000)
    );
    let p = polynomial_curve(0);
    assert_eq!(
        quote_with(&p, Strategy::Polynomial { base_price: 1000 }, Direction::Buy, 100),
        polynomial_quote(&p, Direction::Buy, 100, 1000)
    );
}

#[test]
fn polynomial_max_amount_in_bounds_the_price() {
    let capped = TradeRequest { max_amount_in: Some(122_102), ..polynomial(Direction::Buy, 100) };
    assert_eq!(execute_trade(&polynomial_curve(0), &capped), Err(ErrorCode::SlippageExceeded));
    let enough = TradeRequest { max_amount_in: Some(122_103), ..polynomial(Direction::Buy, 100) };
    assert!(execute_trade(&polynomial_curve(0), &enough).is_ok());
}

#[test]
fn zero_fee_inexact_round_trip_never_gains() {
    let s = ReserveSnapshot::new(10, 10, 10, 10, u64::MAX, 0).unwrap();
    let first = execute_trade(&s, &request(Direction::Buy, 3)).unwrap();
    let second =
        execute_trade(&first.new_snapshot, &request(Direction::Sell, first.amount_out)).unwrap();
    assert_eq!(first.amount_out, 2);
    assert_eq!(second.amount_out, 2);
    assert!(second.amount_out <= 3);
}

#[test]
fn polynomial_buy_on_launch_curve_is_priced() {
    let curve = create_token("Pump", "PMP", "u").unwrap().curve;
    let q = polynomial_quote(&curve, Direction::Buy, 500_000_000, 1).unwrap();
    assert_eq!(q.amount_in, 606_666_667);
    assert_eq!(q.net_amount_out, 495_000_000);
}

#[test]
fn polynomial_buy_priced_at_nothing_is_refused() {
    assert_eq!(
        polynomial_quote(&polynomial_curve(0), Direction::Buy, 100, 0),
        Err(ErrorCode::InvalidAmount)
    );
}
