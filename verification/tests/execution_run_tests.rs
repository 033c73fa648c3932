use jegal::amounts::SCALE;
use jegal::batch::{BatchErrorKind, Column, ColumnData, RecordTable};
use jegal::execution::{signal_orders, signal_run, OrderRun, RunStep, DEFAULT_PRICE, LOSS_PER_SIGNAL_FILL};
use jegal::risk::{OrderCheck, RiskManager};

fn strings(name: &str, v: &[&str]) -> Column {
    Column { name: name.to_string(), data: ColumnData::Utf8(v.iter().map(|s| s.to_string()).collect()) }
}

fn numbers(name: &str, v: &[Option<i64>]) -> Column {
    Column {
        name: name.to_string(),
        data: ColumnData::Float64 {
            values: v.iter().map(|x| x.unwrap_or(0)).collect(),
            valid: v.iter().map(|x| x.is_some()).collect(),
        },
    }
}

fn table(columns: Vec<Column>, num_rows: usize) -> RecordTable {
    RecordTable { columns, num_rows }
}

#[test]
fn signal_rows_become_orders() {
    let t = table(
        vec![
            strings("symbol", &["A", "B", "C", "D"]),
            numbers("signal", &[Some(2 * SCALE), None, Some(0), Some(-SCALE)]),
            numbers("price", &[Some(10 * SCALE), Some(5), Some(5), None]),
        ],
        4,
    );
    let orders = signal_orders(&t).ok().unwrap();
    assert_eq!(orders.len(), 2);
    assert_eq!((orders[0].symbol.as_str(), orders[0].quantity, orders[0].price), ("A", 2 * SCALE, 10 * SCALE));
    assert_eq!((orders[1].symbol.as_str(), orders[1].quantity, orders[1].price), ("D", -SCALE, DEFAULT_PRICE));
}

#[test]
fn missing_or_mistyped_price_column_uses_default_price() {
    let t = table(vec![strings("symbol", &["A"]), numbers("signal", &[Some(SCALE)])], 1);
    assert_eq!(signal_orders(&t).ok().unwrap()[0].price, 50_000 * SCALE);
    let t = table(
        vec![strings("symbol", &["A"]), numbers("signal", &[Some(SCALE)]), strings("price", &["12"])],
        1,
    );
    assert_eq!(signal_orders(&t).ok().unwrap()[0].price, DEFAULT_PRICE);
}

#[test]
fn first_column_of_a_name_counts() {
    let t = table(
        vec![
            strings("symbol", &["A"]),
            numbers("signal", &[Some(SCALE)]),
            numbers("signal", &[Some(7 * SCALE)]),
        ],
        1,
    );
    assert_eq!(signal_orders(&t).ok().unwrap()[0].quantity, SCALE);
}

#[test]
fn column_errors() {
    let e = signal_orders(&table(vec![numbers("signal", &[Some(1)])], 1)).err().unwrap();
    assert_eq!(e.kind, BatchErrorKind::NotFound);
    assert_eq!(e.message(), "Column 'symbol' not found");
    let e = signal_orders(&table(vec![numbers("symbol", &[Some(1)]), numbers("signal", &[Some(1)])], 1))
        .err()
        .unwrap();
    assert_eq!(e.kind, BatchErrorKind::NotStringArray);
    assert_eq!(e.message(), "Column 'symbol' is not a StringArray");
    let e = signal_orders(&table(vec![strings("symbol", &["A"])], 1)).err().unwrap();
    assert_eq!(e.message(), "Column 'signal' not found");
    let e = signal_orders(&table(vec![strings("symbol", &["A"]), strings("signal", &["1"])], 1)).err().unwrap();
    assert_eq!(e.kind, BatchErrorKind::NotFloat64Array);
    assert_eq!(e.message(), "Column 'signal' is not a Float64Array");
}

#[test]
fn no_work_without_broker_or_with_kill_switch() {
    let bad = table(vec![], 0);
    let run = signal_run(true, true, &bad).ok().unwrap();
    assert!(run.orders.is_empty());
    let run = signal_run(false, false, &bad).ok().unwrap();
    assert!(run.orders.is_empty());
    assert!(signal_run(false, true, &bad).is_err());
}

#[test]
fn fills_book_loss_until_drawdown_stops_orders() {
    let mut rm = RiskManager::new(1_000 * SCALE, 10_000 * SCALE, 20 * SCALE, 100, 60);
    let t = table(
        vec![
            strings("symbol", &["A", "B", "C"]),
            numbers("signal", &[Some(SCALE), Some(SCALE), Some(SCALE)]),
            numbers("price", &[Some(SCALE), Some(SCALE), Some(SCALE)]),
        ],
        3,
    );
    let mut run = signal_run(false, true, &t).ok().unwrap();
    assert_eq!(run.fill_loss, Some(LOSS_PER_SIGNAL_FILL));
    for _ in 0..2 {
        match run.step(&mut rm) {
            RunStep::Place(_) => run.filled(&mut rm),
            _ => panic!("expected an order to place"),
        }
    }
    assert_eq!(rm.current_loss, 20 * SCALE);
    assert!(rm.kill_switch_triggered);
    match run.step(&mut rm) {
        RunStep::Rejected(o, v) => {
            assert_eq!(o.symbol, "C");
            assert_eq!(v, OrderCheck::KillSwitchActive);
        }
        _ => panic!("expected a refusal"),
    }
    assert!(matches!(run.step(&mut rm), RunStep::Done));
    assert_eq!(rm.position("A"), SCALE);
    assert_eq!(rm.position("C"), 0);
}

#[test]
fn failed_placement_records_nothing() {
    let mut rm = RiskManager::new(1_000 * SCALE, 10_000 * SCALE, 20 * SCALE, 100, 60);
    let t = table(
        vec![strings("symbol", &["A"]), numbers("signal", &[Some(SCALE)]), numbers("price", &[Some(SCALE)])],
        1,
    );
    let mut run = signal_run(false, true, &t).ok().unwrap();
    assert!(matches!(run.step(&mut rm), RunStep::Place(_)));
    assert!(matches!(run.step(&mut rm), RunStep::Done));
    assert_eq!(rm.position("A"), 0);
    assert_eq!(rm.current_loss, 0);
    // Once the run moved on, a late fill report changes nothing.
    run.filled(&mut rm);
    assert_eq!(rm.position("A"), 0);
}

#[test]
fn zero_quantity_is_skipped() {
    let mut rm = RiskManager::new(1_000 * SCALE, 10_000 * SCALE, 20 * SCALE, 100, 60);
    let mut run = OrderRun::new(
        vec![jegal::execution::OrderRequest { symbol: "A".to_string(), quantity: 0, price: SCALE }],
        None,
    );
    assert!(matches!(run.step(&mut rm), RunStep::Skipped));
    assert!(rm.order_history.is_empty());
    assert!(matches!(run.step(&mut rm), RunStep::Done));
}
