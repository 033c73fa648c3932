use jegal::amounts::SCALE;
use jegal::risk::{OrderCheck, RiskManager};

fn units(x: i64) -> i64 {
    x * SCALE
}

fn notional(q: i64, p: i64) -> i128 {
    (q as i128).abs() * p as i128
}

#[test]
fn new_manager_is_empty() {
    let rm = RiskManager::new(units(100), units(500), units(50), 3, 60);
    assert_eq!(rm.max_exposure_per_symbol, units(100));
    assert_eq!(rm.max_total_exposure, units(500));
    assert_eq!(rm.drawdown_limit, units(50));
    assert_eq!(rm.max_orders_per_window, 3);
    assert_eq!(rm.velocity_window_seconds, 60);
    assert_eq!(rm.current_loss, 0);
    assert!(!rm.kill_switch_triggered);
    assert!(rm.order_history.is_empty());
    assert_eq!(rm.total_exposure(), 0);
    assert_eq!(rm.position("AAPL"), 0);
}

#[test]
fn accepted_order_is_logged_and_fill_moves_exposure() {
    let mut rm = RiskManager::new(units(1000), units(5000), units(50), 10, 60);
    assert_eq!(rm.check_order_at("AAPL", units(2), units(300), 5), OrderCheck::Accepted);
    assert_eq!(rm.order_history, vec![5u128]);
    assert_eq!(rm.total_exposure, 0);
    rm.update_position("AAPL", units(2), units(300));
    assert_eq!(rm.position("AAPL"), units(2));
    assert_eq!(rm.total_exposure, notional(units(2), units(300)));
    // Selling more than is held leaves a short position, counted by its size.
    rm.update_position("AAPL", units(-5), units(100));
    assert_eq!(rm.position("AAPL"), units(-3));
    let expected = notional(units(2), units(300)) - notional(units(2), units(100)) + notional(units(3), units(100));
    assert_eq!(rm.total_exposure, expected);
    rm.update_position("MSFT", units(1), units(10));
    assert_eq!(rm.position("MSFT"), units(1));
    assert_eq!(rm.position("AAPL"), units(-3));
}

#[test]
fn symbol_limit_refuses_order() {
    let mut rm = RiskManager::new(units(100), units(500), units(1000), 10, 60);
    assert_eq!(rm.check_order_at("AAPL", units(1), units(150), 0), OrderCheck::SymbolLimit);
    assert!(rm.order_history.is_empty());
    assert!(!rm.kill_switch_triggered);
    // Exactly at the limit passes.
    assert_eq!(rm.check_order_at("AAPL", units(1), units(100), 0), OrderCheck::Accepted);
}

#[test]
fn total_limit_refuses_order() {
    let mut rm = RiskManager::new(units(100), units(150), units(1000), 10, 60);
    assert!(rm.validate_order_at("AAPL", units(1), units(100), 0));
    rm.update_position("AAPL", units(1), units(100));
    assert_eq!(rm.check_order_at("MSFT", units(1), units(60), 1), OrderCheck::TotalLimit);
    assert_eq!(rm.check_order_at("MSFT", units(1), units(50), 2), OrderCheck::Accepted);
    // Reducing a position frees room in the total.
    assert_eq!(rm.check_order_at("AAPL", units(-1), units(100), 3), OrderCheck::Accepted);
}

#[test]
fn velocity_limit_sets_kill_switch() {
    let mut rm = RiskManager::new(units(1000), units(5000), units(1000), 2, 60);
    assert_eq!(rm.check_order_at("A", units(1), units(1), 0), OrderCheck::Accepted);
    assert_eq!(rm.check_order_at("A", units(1), units(1), 1), OrderCheck::Accepted);
    assert_eq!(rm.check_order_at("A", units(1), units(1), 2), OrderCheck::VelocityLimit);
    assert!(rm.kill_switch_triggered);
    assert_eq!(rm.check_order_at("A", units(1), units(1), 3), OrderCheck::KillSwitchActive);
    assert_eq!(rm.order_history, vec![0u128, 1]);
}

#[test]
fn velocity_window_forgets_old_orders() {
    let mut rm = RiskManager::new(units(1000), units(5000), units(1000), 1, 1);
    assert!(rm.validate_order_at("A", units(1), units(1), 0));
    // One second later the first order no longer counts.
    assert!(rm.validate_order_at("A", units(1), units(1), 1_000_000_000));
    assert_eq!(rm.order_history, vec![1_000_000_000u128]);
    // Half a second later the window is full.
    assert!(!rm.validate_order_at("A", units(1), units(1), 1_500_000_000));
    assert!(rm.kill_switch_triggered);
}

#[test]
fn refused_order_still_prunes_history() {
    let mut rm = RiskManager::new(units(10), units(5000), units(1000), 5, 1);
    assert!(rm.validate_order_at("A", units(1), units(1), 0));
    assert_eq!(rm.check_order_at("A", units(100), units(1), 2_000_000_000), OrderCheck::SymbolLimit);
    assert!(rm.order_history.is_empty());
}

#[test]
fn drawdown_sets_kill_switch_and_reset_clears_it() {
    let mut rm = RiskManager::new(units(1000), units(5000), units(25), 10, 60);
    rm.update_loss(units(10));
    rm.update_loss(units(10));
    assert!(!rm.kill_switch_triggered);
    rm.update_loss(units(5));
    assert!(rm.kill_switch_triggered);
    assert_eq!(rm.current_loss, units(25));
    assert!(!rm.validate_order_at("A", units(1), units(1), 0));
    rm.reset_kill_switch();
    assert!(!rm.kill_switch_triggered);
    assert_eq!(rm.current_loss, 0);
    assert!(rm.validate_order_at("A", units(1), units(1), 0));
}

#[test]
fn kill_switch_survives_fills_and_gains() {
    let mut rm = RiskManager::new(units(1000), units(5000), units(1), 10, 60);
    rm.update_loss(units(2));
    assert!(rm.kill_switch_triggered);
    rm.update_loss(units(-10));
    assert!(rm.kill_switch_triggered);
    rm.update_position("A", units(1), units(1));
    assert!(rm.kill_switch_triggered);
}

#[test]
fn amounts_saturate_instead_of_overflowing() {
    let mut rm = RiskManager::new(i64::MAX, i64::MAX, i64::MAX, 10, 60);
    rm.update_loss(i64::MAX);
    rm.update_loss(i64::MAX);
    assert_eq!(rm.current_loss, i64::MAX);
    rm.update_position("A", i64::MAX, 1);
    rm.update_position("A", i64::MAX, 1);
    assert_eq!(rm.position("A"), i64::MAX);
}

#[test]
fn validate_order_reads_the_clock() {
    let mut rm = RiskManager::new(units(1000), units(5000), units(1000), 2, 60);
    assert!(rm.validate_order("A", units(1), units(1)));
    assert!(rm.validate_order("A", units(1), units(1)));
    assert!(!rm.validate_order("A", units(1), units(1)));
    assert!(rm.kill_switch_triggered);
    assert_eq!(rm.check_order("A", units(1), units(1)), OrderCheck::KillSwitchActive);
    assert!(rm.clock() >= rm.order_history[1]);
}

#[test]
fn two_orders_in_the_window_trip_the_velocity_limit() {
    // Limit of 2 orders per 60 s: a third order within the window is refused
    // and sets the kill switch, on the real clock and at given readings.
    let mut rm = RiskManager::new(units(100_000), units(500_000), units(1000), 2, 60);
    assert!(rm.validate_order("AAPL", units(1), units(1)));
    assert!(rm.validate_order("MSFT", units(1), units(1)));
    assert!(!rm.validate_order("GOOG", units(1), units(1)));
    assert!(rm.kill_switch_triggered);

    let mut rm = RiskManager::new(units(100_000), units(500_000), units(1000), 2, 60);
    let second: u128 = 1_000_000_000;
    assert_eq!(rm.check_order_at("AAPL", units(1), units(1), 0), OrderCheck::Accepted);
    assert_eq!(rm.check_order_at("MSFT", units(1), units(1), 10 * second), OrderCheck::Accepted);
    assert_eq!(rm.check_order_at("GOOG", units(1), units(1), 59 * second), OrderCheck::VelocityLimit);
    assert!(rm.kill_switch_triggered);
}

#[test]
fn buy_then_sell_restores_position_and_exposure() {
    let mut rm = RiskManager::new(units(100_000), units(500_000), units(1000), 10, 60);
    rm.update_position("MSFT", units(4), units(250));
    let before = rm.total_exposure();
    rm.update_position("AAPL", units(3), units(300));
    rm.update_position("AAPL", units(-3), units(300));
    assert_eq!(rm.position("AAPL"), 0);
    assert!(rm.positions.iter().any(|h| h.symbol == "AAPL"));
    assert_eq!(rm.total_exposure(), before);
    rm.update_position("MSFT", units(2), units(250));
    rm.update_position("MSFT", units(-2), units(250));
    assert_eq!(rm.position("MSFT"), units(4));
    assert_eq!(rm.total_exposure(), before);
}
