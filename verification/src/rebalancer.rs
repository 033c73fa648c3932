//! Portfolio rebalancing: from the account balance, the current positions
//! and a table of target weights, the trades that bring every asset whose
//! weight is off by more than a tolerance back to its target, sells first.

use vstd::prelude::*;
use crate::amounts::{abs, clamp_i64, SCALE};
use crate::batch::{number_values, text_values, BatchError, BatchErrorKind, ColumnData, RecordTable};
use crate::execution::{OrderRequest, OrderRun};
use crate::holdings::{
    amount_for, amount_of, distinct_symbols, find_symbol, holdings_map, holds_symbol,
    lemma_holding_in_map, lemma_map_after_insert, lemma_map_after_push, lemma_map_after_set, Holding,
};
use crate::risk::RiskManager;

verus! {

/// Price at which rebalancing trades are checked and placed: one unit.
pub const REBALANCE_PRICE: i64 = 1_000_000;

/// `x / SCALE`, rounded toward zero.
pub open spec fn unscale(x: int) -> int {
    if x >= 0 {
        x / (SCALE as int)
    } else {
        -((-x) / (SCALE as int))
    }
}

/// The weight `quantity / balance` of a position differs from the target
/// `weight` by more than `tolerance` (weights in `SCALE` units; with no
/// positive balance the current weight counts as zero).
pub open spec fn needs_trade(balance: int, quantity: int, weight: int, tolerance: int) -> bool {
    if balance > 0 {
        abs(weight * balance - quantity * SCALE) > tolerance * balance
    } else {
        abs(weight) > tolerance
    }
}

/// The trade that moves a position of `quantity` to `weight` of `balance`:
/// `(weight - quantity / balance) * balance`, rounded toward zero and held in `i64`.
pub open spec fn trade_quantity(balance: int, quantity: int, weight: int) -> int {
    if balance > 0 {
        clamp_i64(unscale(weight * balance) - quantity)
    } else {
        clamp_i64(unscale(weight * balance))
    }
}

/// Target weights of the first `k` rows: a later row for a ticker replaces an earlier one.
pub open spec fn target_map(tickers: Seq<Seq<char>>, weights: Seq<i64>, k: nat) -> Map<Seq<char>, int>
    decreases k,
{
    if k == 0 {
        Map::empty()
    } else {
        target_map(tickers, weights, (k - 1) as nat).insert(tickers[k - 1], weights[k - 1] as int)
    }
}

/// The trades owed: for each asset held or targeted whose weight is off, the
/// trade that brings it to its target.
pub open spec fn planned_trades(
    balance: int,
    positions: Map<Seq<char>, int>,
    targets: Map<Seq<char>, int>,
    tolerance: int,
) -> Map<Seq<char>, int> {
    let pos = |a: Seq<char>| if positions.dom().contains(a) { positions[a] } else { 0 };
    let tgt = |a: Seq<char>| if targets.dom().contains(a) { targets[a] } else { 0 };
    Map::new(
        |a: Seq<char>|
            (positions.dom().contains(a) || targets.dom().contains(a)) && needs_trade(
                balance,
                pos(a),
                tgt(a),
                tolerance,
            ),
        |a: Seq<char>| trade_quantity(balance, pos(a), tgt(a)),
    )
}

/// Trades are listed by quantity, smallest (the largest sale) first.
pub open spec fn sorted_by_quantity(h: Seq<Holding>) -> bool {
    forall|i: int, j: int| 0 <= i < j < h.len() ==> h[i].quantity <= h[j].quantity
}

/// What the weight table gives: an error for a missing or mistyped "ticker"
/// or "weight" column, else the target weights.
pub open spec fn weight_table(t: &RecordTable) -> Result<Map<Seq<char>, int>, (BatchErrorKind, Seq<char>)> {
    match t.column_data("ticker"@) {
        None => Err((BatchErrorKind::NotFound, "ticker"@)),
        Some(td) => if !(td is Utf8) {
            Err((BatchErrorKind::NotStringArray, "ticker"@))
        } else {
            match t.column_data("weight"@) {
                None => Err((BatchErrorKind::NotFound, "weight"@)),
                Some(wd) => if !(wd is Float64) {
                    Err((BatchErrorKind::NotFloat64Array, "weight"@))
                } else {
                    Ok(target_map(text_values(td), number_values(wd), t.num_rows as nat))
                },
            }
        },
    }
}

/// `a * b`, exactly.
fn wide_mul(a: i64, b: i64) -> (r: i128)
    ensures
        r == a * b,
        -0x4000_0000_0000_0000_0000_0000_0000_0000 <= r <= 0x4000_0000_0000_0000_0000_0000_0000_0000,
{
    let x: i128 = a as i128;
    let y: i128 = b as i128;
    assert(-0x4000_0000_0000_0000_0000_0000_0000_0000 <= x * y <= 0x4000_0000_0000_0000_0000_0000_0000_0000)
        by (nonlinear_arith)
        requires
            -0x8000_0000_0000_0000 <= x < 0x8000_0000_0000_0000,
            -0x8000_0000_0000_0000 <= y < 0x8000_0000_0000_0000,
    ;
    x * y
}

/// Whether the position of `quantity` is off its target `weight` by more than `tolerance`.
pub fn off_target(balance: i64, quantity: i64, weight: i64, tolerance: i64) -> (r: bool)
    ensures
        r == needs_trade(balance as int, quantity as int, weight as int, tolerance as int),
{
    if balance > 0 {
        let qs = wide_mul(quantity, SCALE);
        assert(-0x10_0000_0000_0000_0000_0000 <= quantity * 1_000_000 <= 0x10_0000_0000_0000_0000_0000)
            by (nonlinear_arith)
            requires
                -0x8000_0000_0000_0000 <= quantity < 0x8000_0000_0000_0000,
        ;
        let x: i128 = wide_mul(weight, balance) - qs;
        let ax: i128 = if x < 0 { -x } else { x };
        ax > wide_mul(tolerance, balance)
    } else {
        let w: i128 = weight as i128;
        let aw: i128 = if w < 0 { -w } else { w };
        aw > tolerance as i128
    }
}

/// The trade that brings a position of `quantity` to `weight` of `balance`.
pub fn trade_for(balance: i64, quantity: i64, weight: i64) -> (r: i64)
    ensures
        r == trade_quantity(balance as int, quantity as int, weight as int),
{
    let x: i128 = wide_mul(weight, balance);
    let u: i128 = if x >= 0 {
        ((x as u128) / 1_000_000u128) as i128
    } else {
        -((((-x) as u128) / 1_000_000u128) as i128)
    };
    let d: i128 = if balance > 0 { u - quantity as i128 } else { u };
    if d > i64::MAX as i128 {
        i64::MAX
    } else if d < i64::MIN as i128 {
        i64::MIN
    } else {
        d as i64
    }
}

/// Inserts `x` into a list kept in order of quantity, after the entries of
/// equal quantity.
fn insert_sorted(trades: &mut Vec<Holding>, x: Holding)
    requires
        distinct_symbols(old(trades)@),
        sorted_by_quantity(old(trades)@),
        !holds_symbol(old(trades)@, x.symbol@),
    ensures
        distinct_symbols(final(trades)@),
        sorted_by_quantity(final(trades)@),
        holdings_map(final(trades)@) == holdings_map(old(trades)@).insert(x.symbol@, x.quantity as int),
{
    let n = trades.len();
    let mut k: usize = 0;
    while k < n && trades[k].quantity <= x.quantity
        invariant
            n == trades@.len(),
            k <= n,
            forall|i: int| 0 <= i < k ==> trades@[i].quantity <= x.quantity,
        decreases n - k,
    {
        k = k + 1;
    }
    proof {
        lemma_map_after_insert(trades@, k as int, x);
        let h2 = trades@.insert(k as int, x);
        assert forall|i: int, j: int| 0 <= i < j < h2.len() implies h2[i].quantity <= h2[j].quantity by {
            if j < k {
            } else if j == k {
            } else if i < k {
                assert(h2[j] == trades@[j - 1]);
                if k < n {
                    assert(trades@[k as int].quantity > x.quantity);
                }
            } else if i == k {
                assert(h2[j] == trades@[j - 1]);
                assert(trades@[k as int].quantity > x.quantity);
            } else {
                assert(h2[i] == trades@[i - 1] && h2[j] == trades@[j - 1]);
            }
        }
    }
    trades.insert(k, x);
}

/// The target weights of the table's rows, one entry per ticker, a later row
/// for a ticker replacing an earlier one.
fn collect_targets(tickers: &Vec<String>, weights: &Vec<i64>) -> (r: Vec<Holding>)
    requires
        tickers@.len() == weights@.len(),
    ensures
        distinct_symbols(r@),
        holdings_map(r@) == target_map(
            tickers@.map_values(|s: String| s@),
            weights@,
            tickers@.len() as nat,
        ),
{
    let ghost names = tickers@.map_values(|s: String| s@);
    let mut out: Vec<Holding> = Vec::new();
    let n = tickers.len();
    assert(holdings_map(out@) =~= target_map(names, weights@, 0));
    for i in 0..n
        invariant
            n == tickers@.len(),
            n == weights@.len(),
            names == tickers@.map_values(|s: String| s@),
            distinct_symbols(out@),
            holdings_map(out@) == target_map(names, weights@, i as nat),
    {
        let entry = Holding { symbol: tickers[i].clone(), quantity: weights[i] };
        match find_symbol(&out, &tickers[i]) {
            Some(k) => {
                proof {
                    lemma_map_after_set(out@, k as int, entry);
                }
                out.set(k, entry);
            },
            None => {
                proof {
                    lemma_map_after_push(out@, entry);
                }
                out.push(entry);
            },
        }
    }
    out
}

/// The symbols of the first `k` entries.
pub open spec fn symbols_upto(h: Seq<Holding>, k: int) -> Set<Seq<char>> {
    Set::new(|a: Seq<char>| exists|i: int| 0 <= i < k && h[i].symbol@ == a)
}

proof fn lemma_symbols_upto_step(h: Seq<Holding>, k: int)
    requires
        0 <= k < h.len(),
    ensures
        symbols_upto(h, k + 1) == symbols_upto(h, k).insert(h[k].symbol@),
{
    assert forall|a: Seq<char>| symbols_upto(h, k + 1).contains(a) <==> symbols_upto(h, k).insert(
        h[k].symbol@,
    ).contains(a) by {
        if symbols_upto(h, k).contains(a) {
            let i = choose|i: int| 0 <= i < k && h[i].symbol@ == a;
            assert(0 <= i < k + 1 && h[i].symbol@ == a);
        }
        if a == h[k].symbol@ {
            assert(0 <= k < k + 1 && h[k].symbol@ == a);
        }
    }
    assert(symbols_upto(h, k + 1) =~= symbols_upto(h, k).insert(h[k].symbol@));
}

proof fn lemma_symbols_upto_all(h: Seq<Holding>)
    ensures
        symbols_upto(h, h.len() as int) == holdings_map(h).dom(),
{
    assert(symbols_upto(h, h.len() as int) =~= holdings_map(h).dom());
}

/// The trades that rebalance the account: for every asset held (`positions`,
/// one entry per asset) or given a target in the weight table whose weight is
/// off its target by more than `tolerance`, one trade that brings it back,
/// ordered by quantity so that sales come first. Errors when the "ticker" or
/// "weight" column is missing or mistyped.
pub fn plan_trades(balance: i64, positions: &Vec<Holding>, t: &RecordTable, tolerance: i64) -> (r: Result<
    Vec<Holding>,
    BatchError,
>)
    requires
        t.wf(),
        distinct_symbols(positions@),
    ensures
        match (r, weight_table(t)) {
            (Ok(trades), Ok(targets)) => {
                &&& distinct_symbols(trades@)
                &&& sorted_by_quantity(trades@)
                &&& holdings_map(trades@) == planned_trades(
                    balance as int,
                    holdings_map(positions@),
                    targets,
                    tolerance as int,
                )
            },
            (Err(e), Err((k, c))) => e.kind == k && e.column@ == c,
            _ => false,
        },
{
    let ti = match t.string_column("ticker") {
        Ok(i) => i,
        Err(e) => return Err(e),
    };
    let wi = match t.number_column("weight") {
        Ok(i) => i,
        Err(e) => return Err(e),
    };
    let tickers: &Vec<String> = match &t.columns[ti].data {
        ColumnData::Utf8(v) => v,
        _ => {
            proof {
                assert(false);
            }
            return Ok(Vec::new());
        },
    };
    let weights: &Vec<i64> = match &t.columns[wi].data {
        ColumnData::Float64 { values, .. } => values,
        _ => {
            proof {
                assert(false);
            }
            return Ok(Vec::new());
        },
    };
    assert(t.columns@[ti as int].data == t.column_data("ticker"@).unwrap());
    assert(t.columns@[wi as int].data == t.column_data("weight"@).unwrap());
    let targets = collect_targets(tickers, weights);
    let ghost tmap = holdings_map(targets@);
    let ghost pmap = holdings_map(positions@);
    let ghost plan = planned_trades(balance as int, pmap, tmap, tolerance as int);
    let mut trades: Vec<Holding> = Vec::new();
    assert(holdings_map(trades@) =~= plan.restrict(symbols_upto(positions@, 0)));
    let np = positions.len();
    for i in 0..np
        invariant
            np == positions@.len(),
            distinct_symbols(positions@),
            distinct_symbols(targets@),
            tmap == holdings_map(targets@),
            pmap == holdings_map(positions@),
            plan == planned_trades(balance as int, pmap, tmap, tolerance as int),
            distinct_symbols(trades@),
            sorted_by_quantity(trades@),
            holdings_map(trades@) == plan.restrict(symbols_upto(positions@, i as int)),
    {
        let sym = &positions[i].symbol;
        let q = positions[i].quantity;
        let w = amount_for(&targets, sym);
        proof {
            lemma_holding_in_map(positions@, i as int);
            lemma_symbols_upto_step(positions@, i as int);
            assert(!symbols_upto(positions@, i as int).contains(sym@)) by {
                if symbols_upto(positions@, i as int).contains(sym@) {
                    let j = choose|j: int| 0 <= j < i && positions@[j].symbol@ == sym@;
                    assert(positions@[j].symbol@ == positions@[i as int].symbol@);
                }
            }
            assert(!holds_symbol(trades@, sym@)) by {
                if holds_symbol(trades@, sym@) {
                    let j = choose|j: int| 0 <= j < trades@.len() && trades@[j].symbol@ == sym@;
                    lemma_holding_in_map(trades@, j);
                }
            }
        }
        if off_target(balance, q, w, tolerance) {
            let x = Holding { symbol: sym.clone(), quantity: trade_for(balance, q, w) };
            insert_sorted(&mut trades, x);
            proof {
                assert(holdings_map(trades@) =~= plan.restrict(symbols_upto(positions@, i + 1)));
            }
        } else {
            proof {
                assert(holdings_map(trades@) =~= plan.restrict(symbols_upto(positions@, i + 1)));
            }
        }
    }
    proof {
        lemma_symbols_upto_all(positions@);
    }
    let nt = targets.len();
    for j in 0..nt
        invariant
            nt == targets@.len(),
            distinct_symbols(positions@),
            distinct_symbols(targets@),
            tmap == holdings_map(targets@),
            pmap == holdings_map(positions@),
            plan == planned_trades(balance as int, pmap, tmap, tolerance as int),
            distinct_symbols(trades@),
            sorted_by_quantity(trades@),
            holdings_map(trades@) == plan.restrict(pmap.dom() + symbols_upto(targets@, j as int)),
    {
        let sym = &targets[j].symbol;
        let w = targets[j].quantity;
        proof {
            lemma_holding_in_map(targets@, j as int);
            lemma_symbols_upto_step(targets@, j as int);
        }
        match find_symbol(positions, sym) {
            Some(k) => {
                proof {
                    lemma_holding_in_map(positions@, k as int);
                    assert(holdings_map(trades@) =~= plan.restrict(
                        pmap.dom() + symbols_upto(targets@, j + 1),
                    ));
                }
            },
            None => {
                proof {
                    assert(!(pmap.dom() + symbols_upto(targets@, j as int)).contains(sym@)) by {
                        if symbols_upto(targets@, j as int).contains(sym@) {
                            let m = choose|m: int| 0 <= m < j && targets@[m].symbol@ == sym@;
                            assert(targets@[m].symbol@ == targets@[j as int].symbol@);
                        }
                    }
                    assert(!holds_symbol(trades@, sym@)) by {
                        if holds_symbol(trades@, sym@) {
                            let m = choose|m: int| 0 <= m < trades@.len() && trades@[m].symbol@ == sym@;
                            lemma_holding_in_map(trades@, m);
                        }
                    }
                }
                if off_target(balance, 0, w, tolerance) {
                    let x = Holding { symbol: sym.clone(), quantity: trade_for(balance, 0, w) };
                    insert_sorted(&mut trades, x);
                    proof {
                        assert(holdings_map(trades@) =~= plan.restrict(
                            pmap.dom() + symbols_upto(targets@, j + 1),
                        ));
                    }
                } else {
                    proof {
                        assert(holdings_map(trades@) =~= plan.restrict(
                            pmap.dom() + symbols_upto(targets@, j + 1),
                        ));
                    }
                }
            },
        }
    }
    proof {
        lemma_symbols_upto_all(targets@);
        assert(holdings_map(trades@) =~= plan);
    }
    Ok(trades)
}

/// The rebalancing run refuses to start while the kill switch is set.
pub fn rebalance_gate(rm: &RiskManager) -> (r: Result<(), String>)
    ensures
        r is Ok <==> !rm.kill_switch_triggered,
        r matches Err(m) ==> m@ == "Rebalancer: Kill switch is active. Aborting."@,
{
    if rm.kill_switch_triggered {
        Err(String::from_str("Rebalancer: Kill switch is active. Aborting."))
    } else {
        Ok(())
    }
}

/// The orders of a rebalancing: one per planned trade, in the planned order,
/// each at `REBALANCE_PRICE`; fills book no loss.
pub fn rebalance_run(trades: &Vec<Holding>) -> (r: OrderRun)
    ensures
        r.wf(),
        r.next == 0,
        r.placed is None,
        r.fill_loss is None,
        r.orders@.len() == trades@.len(),
        forall|i: int|
            0 <= i < trades@.len() ==> #[trigger] r.orders@[i]@ == (
                trades@[i].symbol@,
                trades@[i].quantity,
                REBALANCE_PRICE,
            ),
{
    let mut orders: Vec<OrderRequest> = Vec::new();
    let n = trades.len();
    for i in 0..n
        invariant
            n == trades@.len(),
            orders@.len() == i,
            forall|k: int|
                0 <= k < i ==> #[trigger] orders@[k]@ == (trades@[k].symbol@, trades@[k].quantity, REBALANCE_PRICE),
    {
        orders.push(
            OrderRequest {
                symbol: trades[i].symbol.clone(),
                quantity: trades[i].quantity,
                price: REBALANCE_PRICE,
            },
        );
    }
    OrderRun::new(orders, None)
}

/// Rounding toward zero to whole units loses less than one unit.
proof fn lemma_unscale_error(x: int)
    ensures
        abs(x - unscale(x) * SCALE) < SCALE,
{
    if x >= 0 {
        assert(x - (x / 1_000_000) * 1_000_000 == x % 1_000_000);
    } else {
        let y = -x;
        assert(y - (y / 1_000_000) * 1_000_000 == y % 1_000_000);
    }
}

/// Once a planned trade is filled, the asset's weight is within the tolerance
/// of its target, so a second rebalancing plans no trade for it: this holds
/// whenever the tolerance covers the rounding of the trade to whole units
/// (`tolerance * balance >= SCALE`) and the trade fits in `i64`.
pub proof fn law_trade_reaches_target(balance: int, quantity: int, weight: int, tolerance: int)
    requires
        balance > 0,
        tolerance * balance >= SCALE,
        i64::MIN <= unscale(weight * balance) - quantity <= i64::MAX,
    ensures
        !needs_trade(balance, quantity + trade_quantity(balance, quantity, weight), weight, tolerance),
{
    lemma_unscale_error(weight * balance);
}

/// Rounding toward zero to whole units stays on the same side of a whole
/// number `q` as the exact quotient.
proof fn lemma_unscale_side(x: int, q: int)
    ensures
        x < q * SCALE ==> unscale(x) <= q,
        x > q * SCALE ==> unscale(x) >= q,
{
    if x >= 0 {
        assert(x - (x / 1_000_000) * 1_000_000 == x % 1_000_000);
    } else {
        let y = -x;
        assert(y - (y / 1_000_000) * 1_000_000 == y % 1_000_000);
    }
}

/// With a positive balance, an asset held or targeted is traded exactly when
/// its weight is off its target by more than the tolerance, in either
/// direction; a traded over-weight position is sold down (a trade of at most
/// zero), a traded under-weight one is bought up (a trade of at least zero).
pub proof fn law_trade_when_off_target(
    balance: int,
    positions: Map<Seq<char>, int>,
    targets: Map<Seq<char>, int>,
    tolerance: int,
    a: Seq<char>,
)
    requires
        balance > 0,
        positions.dom().contains(a) || targets.dom().contains(a),
    ensures
        ({
            let q = if positions.dom().contains(a) { positions[a] } else { 0 };
            let w = if targets.dom().contains(a) { targets[a] } else { 0 };
            let plan = planned_trades(balance, positions, targets, tolerance);
            &&& plan.dom().contains(a) <==> (q * SCALE - w * balance > tolerance * balance || w * balance
                - q * SCALE > tolerance * balance)
            &&& plan.dom().contains(a) && q * SCALE > w * balance ==> plan[a] <= 0
            &&& plan.dom().contains(a) && q * SCALE < w * balance ==> plan[a] >= 0
        }),
{
    let q = if positions.dom().contains(a) { positions[a] } else { 0 };
    let w = if targets.dom().contains(a) { targets[a] } else { 0 };
    let plan = planned_trades(balance, positions, targets, tolerance);
    lemma_unscale_side(w * balance, q);
    assert(plan.dom().contains(a) == needs_trade(balance, q, w, tolerance));
    if plan.dom().contains(a) {
        assert(plan[a] == trade_quantity(balance, q, w));
    }
    let x = w * balance;
    let y = q * SCALE;
    let t = tolerance * balance;
    assert(needs_trade(balance, q, w, tolerance) == (abs(x - y) > t));
}

} // verus!
