use jegal::amounts::SCALE;
use jegal::batch::{Column, ColumnData, RecordTable};
use jegal::execution::{signal_run, OrderRequest, OrderRun, RunStep};
use jegal::risk::RiskManager;

fn create_test_batch(symbol: &str, signal: f64, price: f64) -> RecordTable {
    RecordTable {
        columns: vec![
            Column { name: "symbol".to_string(), data: ColumnData::Utf8(vec![symbol.to_string()]) },
            Column {
                name: "signal".to_string(),
                data: ColumnData::Float64 { values: vec![(signal * 1e6).round() as i64], valid: vec![true] },
            },
            Column {
                name: "price".to_string(),
                data: ColumnData::Float64 { values: vec![(price * 1e6).round() as i64], valid: vec![true] },
            },
        ],
        num_rows: 1,
    }
}

fn units(x: f64) -> i64 {
    (x * SCALE as f64).round() as i64
}

/// Runs the orders as the engine does, with a broker that answers every order
/// with `reply`; returns the orders sent to the broker.
fn drive(run: &mut OrderRun, rm: &mut RiskManager, reply: Result<String, String>) -> Vec<OrderRequest> {
    let mut sent = Vec::new();
    loop {
        match run.step(rm) {
            RunStep::Place(o) => {
                sent.push(o.duplicate());
                if reply.is_ok() {
                    run.filled(rm);
                }
            }
            RunStep::Rejected(_, _) | RunStep::Skipped => {}
            RunStep::Done => break,
        }
    }
    sent
}

#[test]
fn test_buy_signal_fires_order() {
    let mut rm = RiskManager::new(units(100000.0), units(500000.0), units(1000.0), 10, 60);
    let batch = create_test_batch("AAPL", 1.0, 300.0);
    let result = signal_run(rm.kill_switch_triggered, true, &batch);
    assert!(result.is_ok());
    let mut run = result.ok().unwrap();
    let sent = drive(&mut run, &mut rm, Ok("ORDER-123".to_string()));
    assert_eq!(sent.len(), 1);
    assert_eq!(sent[0].symbol, "AAPL");
    assert_eq!(sent[0].quantity, units(1.0));
    assert_eq!(sent[0].price, units(300.0));
}

#[test]
fn test_hold_signal_does_not_fire_order() {
    let mut rm = RiskManager::new(units(100000.0), units(500000.0), units(1000.0), 10, 60);
    let batch = create_test_batch("AAPL", 0.0, 300.0);
    let result = signal_run(rm.kill_switch_triggered, true, &batch);
    assert!(result.is_ok());
    let mut run = result.ok().unwrap();
    let sent = drive(&mut run, &mut rm, Ok("ORDER-123".to_string()));
    assert_eq!(sent.len(), 0);
}

#[test]
fn test_risk_management_kill_switch_blocks_order() {
    let mut rm = RiskManager::new(units(100000.0), units(500000.0), units(1000.0), 10, 60);
    rm.kill_switch_triggered = true;
    let batch = create_test_batch("AAPL", 1.0, 300.0);
    let result = signal_run(rm.kill_switch_triggered, true, &batch);
    assert!(result.is_ok());
    let mut run = result.ok().unwrap();
    let sent = drive(&mut run, &mut rm, Ok("ORDER-123".to_string()));
    assert_eq!(sent.len(), 0);
}

#[test]
fn test_risk_management_exposure_limit_blocks_order() {
    // Limit of 100.0, but order is 1.0 * 300.0 = 300.0
    let mut rm = RiskManager::new(units(100.0), units(500.0), units(1000.0), 10, 60);
    let batch = create_test_batch("AAPL", 1.0, 300.0);
    let result = signal_run(rm.kill_switch_triggered, true, &batch);
    assert!(result.is_ok());
    let mut run = result.ok().unwrap();
    let sent = drive(&mut run, &mut rm, Ok("ORDER-123".to_string()));
    assert_eq!(sent.len(), 0);
    // Verify position wasn't updated
    assert_eq!(rm.total_exposure, 0);
}
