use jegal::amounts::SCALE;
use jegal::batch::{BatchErrorKind, Column, ColumnData, RecordTable};
use jegal::holdings::Holding;
use jegal::rebalancer::{plan_trades, rebalance_gate, rebalance_run, off_target, trade_for, REBALANCE_PRICE};
use jegal::risk::RiskManager;

fn weights(rows: &[(&str, i64)]) -> RecordTable {
    RecordTable {
        columns: vec![
            Column {
                name: "ticker".to_string(),
                data: ColumnData::Utf8(rows.iter().map(|r| r.0.to_string()).collect()),
            },
            Column {
                name: "weight".to_string(),
                data: ColumnData::Float64 {
                    values: rows.iter().map(|r| r.1).collect(),
                    valid: rows.iter().map(|_| true).collect(),
                },
            },
        ],
        num_rows: rows.len(),
    }
}

fn holding(s: &str, q: i64) -> Holding {
    Holding { symbol: s.to_string(), quantity: q }
}

fn pairs(v: &[Holding]) -> Vec<(String, i64)> {
    v.iter().map(|h| (h.symbol.clone(), h.quantity)).collect()
}

#[test]
fn trades_bring_weights_to_target_sells_first() {
    // Balance 1000; A held at 100 (weight 0.1), C held at 300 with no target.
    let positions = vec![holding("A", 100 * SCALE), holding("C", 300 * SCALE)];
    let t = weights(&[("A", 500_000), ("B", 200_000)]);
    let trades = plan_trades(1_000 * SCALE, &positions, &t, 50_000).ok().unwrap();
    assert_eq!(
        pairs(&trades),
        vec![("C".to_string(), -300 * SCALE), ("B".to_string(), 200 * SCALE), ("A".to_string(), 400 * SCALE)]
    );
}

#[test]
fn assets_within_tolerance_are_left_alone() {
    let positions = vec![holding("A", 100 * SCALE)];
    let t = weights(&[("A", 120_000)]);
    // Off by 0.02: within a tolerance of 0.05, outside one of 0.01.
    assert!(plan_trades(1_000 * SCALE, &positions, &t, 50_000).ok().unwrap().is_empty());
    let trades = plan_trades(1_000 * SCALE, &positions, &t, 10_000).ok().unwrap();
    assert_eq!(pairs(&trades), vec![("A".to_string(), 20 * SCALE)]);
}

#[test]
fn later_row_for_a_ticker_wins() {
    let t = weights(&[("A", 100_000), ("A", 300_000)]);
    let trades = plan_trades(1_000 * SCALE, &vec![], &t, 0).ok().unwrap();
    assert_eq!(pairs(&trades), vec![("A".to_string(), 300 * SCALE)]);
}

#[test]
fn no_balance_counts_current_weight_as_zero() {
    let positions = vec![holding("A", 5 * SCALE)];
    let t = weights(&[("A", 500_000)]);
    let trades = plan_trades(0, &positions, &t, 100_000).ok().unwrap();
    assert_eq!(pairs(&trades), vec![("A".to_string(), 0)]);
    assert!(off_target(0, 5 * SCALE, 500_000, 100_000));
    assert!(!off_target(0, 5 * SCALE, 50_000, 100_000));
}

#[test]
fn trade_rounding_is_toward_zero() {
    // 0.333333 of 10 units is 3.33333 units.
    assert_eq!(trade_for(10 * SCALE, 0, 333_333), 3_333_330);
    assert_eq!(trade_for(3, 0, -333_333), -0);
    assert_eq!(trade_for(7, 0, -500_000), -3);
    assert_eq!(trade_for(i64::MAX, i64::MIN, i64::MAX), i64::MAX);
}

#[test]
fn weight_table_errors() {
    let e = plan_trades(1, &vec![], &RecordTable { columns: vec![], num_rows: 0 }, 0).err().unwrap();
    assert_eq!(e.message(), "Column 'ticker' not found");
    let t = RecordTable {
        columns: vec![Column { name: "ticker".to_string(), data: ColumnData::Utf8(vec![]) }],
        num_rows: 0,
    };
    let e = plan_trades(1, &vec![], &t, 0).err().unwrap();
    assert_eq!(e.kind, BatchErrorKind::NotFound);
    assert_eq!(e.message(), "Column 'weight' not found");
    let t = RecordTable {
        columns: vec![
            Column { name: "ticker".to_string(), data: ColumnData::Other },
            Column { name: "weight".to_string(), data: ColumnData::Other },
        ],
        num_rows: 0,
    };
    assert_eq!(plan_trades(1, &vec![], &t, 0).err().unwrap().message(), "Column 'ticker' is not a StringArray");
    let t = RecordTable {
        columns: vec![
            Column { name: "ticker".to_string(), data: ColumnData::Utf8(vec![]) },
            Column { name: "weight".to_string(), data: ColumnData::Other },
        ],
        num_rows: 0,
    };
    assert_eq!(plan_trades(1, &vec![], &t, 0).err().unwrap().message(), "Column 'weight' is not a Float64Array");
}

#[test]
fn kill_switch_aborts_rebalancing() {
    let mut rm = RiskManager::new(SCALE, SCALE, SCALE, 1, 1);
    assert!(rebalance_gate(&rm).is_ok());
    rm.kill_switch_triggered = true;
    assert_eq!(rebalance_gate(&rm).err().unwrap(), "Rebalancer: Kill switch is active. Aborting.");
}

#[test]
fn rebalance_orders_are_at_unit_price_without_fill_loss() {
    let trades = vec![holding("B", -2 * SCALE), holding("A", 3 * SCALE)];
    let run = rebalance_run(&trades);
    assert_eq!(run.orders.len(), 2);
    assert_eq!((run.orders[0].symbol.as_str(), run.orders[0].quantity, run.orders[0].price), ("B", -2 * SCALE, REBALANCE_PRICE));
    assert_eq!(run.orders[1].price, SCALE);
    assert_eq!(run.fill_loss, None);
}

#[test]
fn filled_trade_is_within_tolerance_of_target() {
    // Balance 3 units, target weight 0.333333, nothing held: the trade rounds
    // to 0.999999 units, after which the weight is on target and a second
    // plan has nothing to do.
    let balance = 3 * SCALE;
    let trade = trade_for(balance, 0, 333_333);
    assert_eq!(trade, 999_999);
    assert!(off_target(balance, 0, 333_333, 1));
    assert!(!off_target(balance, trade, 333_333, 1));
    let t = weights(&[("A", 333_333)]);
    let first = plan_trades(balance, &vec![], &t, 1).ok().unwrap();
    assert_eq!(pairs(&first), vec![("A".to_string(), 999_999)]);
    let second = plan_trades(balance, &vec![holding("A", trade)], &t, 1).ok().unwrap();
    assert!(second.is_empty());
}
