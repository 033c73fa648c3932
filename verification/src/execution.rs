//! Turning a batch of trading signals into orders, and running a list of
//! orders through the risk checks one at a time.
//!
//! An `OrderRun` is a state machine: `step` takes the next order, checks it
//! against the risk manager and says whether to place it; the caller places
//! it with the broker and, when the broker accepts it, reports the fill with
//! `filled`.

use vstd::prelude::*;
use crate::amounts::SCALE;
use crate::batch::{number_valid, number_values, text_values, BatchError, BatchErrorKind, ColumnData, RecordTable};
use crate::risk::{OrderCheck, RiskManager};

verus! {

/// Price assumed for a signal whose row gives none: 50000 units.
pub const DEFAULT_PRICE: i64 = 50_000_000_000;

/// Loss booked against the drawdown limit for each order the broker fills
/// from a signal batch: 10 units.
pub const LOSS_PER_SIGNAL_FILL: i64 = 10_000_000;

/// An order to buy `quantity` (to sell, when negative) of `symbol` at `price`.
pub struct OrderRequest {
    pub symbol: String,
    pub quantity: i64,
    pub price: i64,
}

impl View for OrderRequest {
    type V = (Seq<char>, i64, i64);

    open spec fn view(&self) -> (Seq<char>, i64, i64) {
        (self.symbol@, self.quantity, self.price)
    }
}

pub open spec fn orders_view(v: Seq<OrderRequest>) -> Seq<(Seq<char>, i64, i64)> {
    v.map_values(|o: OrderRequest| o@)
}

impl OrderRequest {
    /// A copy of the order.
    pub fn duplicate(&self) -> (r: OrderRequest)
        ensures
            r@ == self@,
    {
        OrderRequest { symbol: self.symbol.clone(), quantity: self.quantity, price: self.price }
    }
}

/// The price of row `i`: the row's price when there is a price column and the
/// row is not null there, else `DEFAULT_PRICE`.
pub open spec fn row_price(prices: Option<ColumnData>, i: int) -> i64 {
    match prices {
        Some(d) => if number_valid(d)[i] {
            number_values(d)[i]
        } else {
            DEFAULT_PRICE
        },
        None => DEFAULT_PRICE,
    }
}

/// The orders of the first `k` rows: one for each row whose signal is not null
/// and not zero, for the signal's quantity of the row's symbol at the row's price.
pub open spec fn signal_rows(
    symbols: Seq<Seq<char>>,
    signals: ColumnData,
    prices: Option<ColumnData>,
    k: nat,
) -> Seq<(Seq<char>, i64, i64)>
    decreases k,
{
    if k == 0 {
        Seq::empty()
    } else {
        let prev = signal_rows(symbols, signals, prices, (k - 1) as nat);
        let i = k - 1;
        if number_valid(signals)[i] && number_values(signals)[i] != 0 {
            prev.push((symbols[i], number_values(signals)[i], row_price(prices, i)))
        } else {
            prev
        }
    }
}

/// The column named "price" when it holds numbers.
pub open spec fn price_data(t: &RecordTable) -> Option<ColumnData> {
    match t.column_data("price"@) {
        Some(d) => if d is Float64 {
            Some(d)
        } else {
            None
        },
        None => None,
    }
}

/// What reading the orders of a signal batch gives: an error for a missing or
/// mistyped "symbol" or "signal" column, else the orders of all rows.
pub open spec fn signal_batch(t: &RecordTable) -> Result<Seq<(Seq<char>, i64, i64)>, (BatchErrorKind, Seq<char>)> {
    match t.column_data("symbol"@) {
        None => Err((BatchErrorKind::NotFound, "symbol"@)),
        Some(sd) => if !(sd is Utf8) {
            Err((BatchErrorKind::NotStringArray, "symbol"@))
        } else {
            match t.column_data("signal"@) {
                None => Err((BatchErrorKind::NotFound, "signal"@)),
                Some(gd) => if !(gd is Float64) {
                    Err((BatchErrorKind::NotFloat64Array, "signal"@))
                } else {
                    Ok(signal_rows(text_values(sd), gd, price_data(t), t.num_rows as nat))
                },
            }
        },
    }
}

/// `r` is what `signal_batch` gives, with errors by kind and column name.
pub open spec fn matches_batch(
    r: Result<Vec<OrderRequest>, BatchError>,
    s: Result<Seq<(Seq<char>, i64, i64)>, (BatchErrorKind, Seq<char>)>,
) -> bool {
    match (r, s) {
        (Ok(v), Ok(w)) => orders_view(v@) == w,
        (Err(e), Err((k, c))) => e.kind == k && e.column@ == c,
        _ => false,
    }
}

/// The orders of a batch of signals: one per row whose "signal" is neither
/// null nor zero, for that quantity of the row's "symbol", at the row's
/// "price" (or `DEFAULT_PRICE`), in row order.
pub fn signal_orders(t: &RecordTable) -> (r: Result<Vec<OrderRequest>, BatchError>)
    requires
        t.wf(),
    ensures
        matches_batch(r, signal_batch(t)),
{
    let si = match t.string_column("symbol") {
        Ok(i) => i,
        Err(e) => return Err(e),
    };
    let gi = match t.number_column("signal") {
        Ok(i) => i,
        Err(e) => return Err(e),
    };
    let pi = t.optional_number_column("price");
    let symbols: &Vec<String> = match &t.columns[si].data {
        ColumnData::Utf8(v) => v,
        _ => {
            proof {
                assert(false);
            }
            return Ok(Vec::new());
        },
    };
    let (signals, signal_ok): (&Vec<i64>, &Vec<bool>) = match &t.columns[gi].data {
        ColumnData::Float64 { values, valid } => (values, valid),
        _ => {
            proof {
                assert(false);
            }
            return Ok(Vec::new());
        },
    };
    assert(t.columns@[si as int].data == t.column_data("symbol"@).unwrap());
    assert(t.columns@[gi as int].data == t.column_data("signal"@).unwrap());
    let ghost sd = t.columns@[si as int].data;
    let ghost gd = t.columns@[gi as int].data;
    let ghost pd = price_data(t);
    let mut price_values: Option<(&Vec<i64>, &Vec<bool>)> = None;
    if let Some(p) = pi {
        match &t.columns[p].data {
            ColumnData::Float64 { values, valid } => {
                price_values = Some((values, valid));
            },
            _ => {},
        }
    }
    let n = t.num_rows;
    let mut out: Vec<OrderRequest> = Vec::new();
    for i in 0..n
        invariant
            n == t.num_rows,
            t.wf(),
            symbols@.len() == n,
            signals@.len() == n,
            signal_ok@.len() == n,
            text_values(sd) == symbols@.map_values(|s: String| s@),
            number_values(gd) == signals@,
            number_valid(gd) == signal_ok@,
            match pd {
                Some(d) => price_values matches Some((v, ok)) && number_values(d) == v@
                    && number_valid(d) == ok@ && v@.len() == n && ok@.len() == n,
                None => price_values is None,
            },
            orders_view(out@) == signal_rows(text_values(sd), gd, pd, i as nat),
    {
        if signal_ok[i] {
            let q = signals[i];
            if q != 0 {
                let price: i64 = match price_values {
                    Some((v, ok)) => if ok[i] {
                        v[i]
                    } else {
                        DEFAULT_PRICE
                    },
                    None => DEFAULT_PRICE,
                };
                let o = OrderRequest { symbol: symbols[i].clone(), quantity: q, price };
                out.push(o);
            }
        }
        proof {
            assert(orders_view(out@) =~= signal_rows(text_values(sd), gd, pd, (i + 1) as nat));
        }
    }
    Ok(out)
}

/// What one step of an order run did.
pub enum RunStep {
    /// The order passed the risk checks: place it with the broker.
    Place(OrderRequest),
    /// The risk checks refused the order.
    Rejected(OrderRequest, OrderCheck),
    /// The order is for a zero quantity and was passed over unchecked.
    Skipped,
    /// No orders are left.
    Done,
}

/// `r` is the step for order `o` on the verdict `v`.
pub open spec fn step_outcome(r: RunStep, o: OrderRequest, v: OrderCheck) -> bool {
    match r {
        RunStep::Place(p) => v == OrderCheck::Accepted && p@ == o@,
        RunStep::Rejected(p, w) => v != OrderCheck::Accepted && w == v && p@ == o@,
        _ => false,
    }
}

/// A list of orders being worked through, in order.
pub struct OrderRun {
    pub orders: Vec<OrderRequest>,
    /// Index of the next order to check.
    pub next: usize,
    /// The order last handed out for placing and not yet reported filled.
    pub placed: Option<usize>,
    /// Loss booked for each fill, if any.
    pub fill_loss: Option<i64>,
}

impl OrderRun {
    pub open spec fn wf(&self) -> bool {
        &&& self.next <= self.orders@.len()
        &&& self.placed matches Some(k) ==> k < self.orders@.len()
    }

    /// A run over `orders`, booking `fill_loss` for each fill when given.
    pub fn new(orders: Vec<OrderRequest>, fill_loss: Option<i64>) -> (r: OrderRun)
        ensures
            r.wf(),
            r.orders@ == orders@,
            r.next == 0,
            r.placed is None,
            r.fill_loss == fill_loss,
    {
        OrderRun { orders, next: 0, placed: None, fill_loss }
    }

    /// An empty run: nothing to do.
    pub fn empty() -> (r: OrderRun)
        ensures
            r.wf(),
            r.orders@.len() == 0,
            r.next == 0,
            r.placed is None,
            r.fill_loss is None,
    {
        OrderRun { orders: Vec::new(), next: 0, placed: None, fill_loss: None }
    }

    /// Takes the next order: a zero quantity is passed over; any other order
    /// goes through the risk checks, and is handed out for placing when it
    /// passes. An order handed out earlier can no longer be reported filled.
    pub fn step(&mut self, rm: &mut RiskManager) -> (r: RunStep)
        requires
            old(self).wf(),
            old(rm).wf(),
        ensures
            final(self).wf(),
            final(self).orders@ == old(self).orders@,
            final(self).fill_loss == old(self).fill_loss,
            old(self).next == old(self).orders@.len() ==> {
                &&& r is Done
                &&& final(self).next == old(self).next
                &&& final(self).placed is None
                &&& *final(rm) == *old(rm)
            },
            old(self).next < old(self).orders@.len() ==> {
                let o = old(self).orders@[old(self).next as int];
                &&& final(self).next == old(self).next + 1
                &&& o.quantity == 0 ==> r is Skipped && *final(rm) == *old(rm)
                &&& o.quantity != 0 ==> exists|v: OrderCheck, now: u128|
                    #[trigger] RiskManager::checked(
                        old(rm),
                        final(rm),
                        o.symbol@,
                        o.quantity as int,
                        o.price as int,
                        now,
                        v,
                    ) && step_outcome(r, o, v)
                &&& final(self).placed == if r is Place {
                    Some(old(self).next)
                } else {
                    None::<usize>
                }
            },
    {
        self.placed = None;
        if self.next == self.orders.len() {
            return RunStep::Done;
        }
        let k = self.next;
        self.next = k + 1;
        if self.orders[k].quantity == 0 {
            return RunStep::Skipped;
        }
        let o = self.orders[k].duplicate();
        let v = rm.check_order(o.symbol.as_str(), o.quantity, o.price);
        if v == OrderCheck::Accepted {
            self.placed = Some(k);
            RunStep::Place(o)
        } else {
            RunStep::Rejected(o, v)
        }
    }

    /// Reports that the broker filled the order last handed out: its position
    /// is recorded, and the run's loss per fill, if any, is booked.
    pub fn filled(&mut self, rm: &mut RiskManager)
        requires
            old(self).wf(),
            old(rm).wf(),
        ensures
            final(self).wf(),
            final(self).orders@ == old(self).orders@,
            final(self).next == old(self).next,
            final(self).fill_loss == old(self).fill_loss,
            final(self).placed is None,
            match old(self).placed {
                None => *final(rm) == *old(rm),
                Some(k) => {
                    let o = old(self).orders@[k as int];
                    match old(self).fill_loss {
                        None => RiskManager::fill_recorded(
                            old(rm),
                            final(rm),
                            o.symbol@,
                            o.quantity as int,
                            o.price as int,
                        ),
                        Some(l) => exists|mid: RiskManager|
                            #[trigger] RiskManager::fill_recorded(
                                old(rm),
                                &mid,
                                o.symbol@,
                                o.quantity as int,
                                o.price as int,
                            ) && RiskManager::loss_recorded(&mid, final(rm), l as int),
                    }
                },
            },
    {
        match self.placed {
            None => {},
            Some(k) => {
                rm.update_position(self.orders[k].symbol.as_str(), self.orders[k].quantity, self.orders[k].price);
                match self.fill_loss {
                    None => {},
                    Some(l) => {
                        let ghost mid = *rm;
                        rm.update_loss(l);
                        assert(RiskManager::fill_recorded(
                            old(rm),
                            &mid,
                            self.orders@[k as int].symbol@,
                            self.orders@[k as int].quantity as int,
                            self.orders@[k as int].price as int,
                        ));
                    },
                }
                self.placed = None;
            },
        }
    }
}

/// The run for a batch of signals: nothing to do when the kill switch is set
/// or there is no broker to send orders to; else the batch's orders (or the
/// error of a missing or mistyped column), each fill booking
/// `LOSS_PER_SIGNAL_FILL`.
pub fn signal_run(kill_switch_triggered: bool, has_broker: bool, t: &RecordTable) -> (r: Result<
    OrderRun,
    BatchError,
>)
    requires
        t.wf(),
    ensures
        kill_switch_triggered || !has_broker ==> (r matches Ok(run) && run.wf() && run.orders@.len() == 0
            && run.next == 0),
        !kill_switch_triggered && has_broker ==> match (r, signal_batch(t)) {
            (Ok(run), Ok(w)) => run.wf() && orders_view(run.orders@) == w && run.next == 0
                && run.placed is None && run.fill_loss == Some(LOSS_PER_SIGNAL_FILL),
            (Err(e), Err((k, c))) => e.kind == k && e.column@ == c,
            _ => false,
        },
{
    if kill_switch_triggered || !has_broker {
        return Ok(OrderRun::empty());
    }
    match signal_orders(t) {
        Ok(orders) => Ok(OrderRun::new(orders, Some(LOSS_PER_SIGNAL_FILL))),
        Err(e) => Err(e),
    }
}

/// The orders of the first `k` rows of a signal batch correspond to its rows
/// whose signal is neither null nor zero: each order carries one such row's
/// symbol, its signal as the quantity and its own price (`DEFAULT_PRICE`
/// where that row's price is null or there is no price column), and each
/// such row gives an order.
pub proof fn law_orders_come_from_rows(
    symbols: Seq<Seq<char>>,
    signals: ColumnData,
    prices: Option<ColumnData>,
    k: nat,
)
    requires
        k <= symbols.len(),
        k <= number_values(signals).len(),
        k <= number_valid(signals).len(),
        prices matches Some(d) ==> k <= number_values(d).len() && k <= number_valid(d).len(),
    ensures
        ({
            let out = signal_rows(symbols, signals, prices, k);
            let price_at = |i: int|
                match prices {
                    Some(d) => if number_valid(d)[i] {
                        number_values(d)[i]
                    } else {
                        DEFAULT_PRICE
                    },
                    None => DEFAULT_PRICE,
                };
            &&& forall|j: int|
                #![trigger out[j]]
                0 <= j < out.len() ==> exists|i: int|
                    #![trigger symbols[i]]
                    0 <= i < k && number_valid(signals)[i] && number_values(signals)[i] != 0 && out[j] == (
                    symbols[i],
                    number_values(signals)[i],
                    price_at(i),
                )
            &&& forall|i: int|
                0 <= i < k && number_valid(signals)[i] && number_values(signals)[i] != 0 ==> exists|j: int|
                    0 <= j < out.len() && #[trigger] out[j] == (
                        symbols[i],
                        number_values(signals)[i],
                        price_at(i),
                    )
        }),
    decreases k,
{
    let out = signal_rows(symbols, signals, prices, k);
    let price_at = |i: int|
        match prices {
            Some(d) => if number_valid(d)[i] {
                number_values(d)[i]
            } else {
                DEFAULT_PRICE
            },
            None => DEFAULT_PRICE,
        };
    if k > 0 {
        law_orders_come_from_rows(symbols, signals, prices, (k - 1) as nat);
        let prev = signal_rows(symbols, signals, prices, (k - 1) as nat);
        let i0 = k - 1;
        let active = number_valid(signals)[i0] && number_values(signals)[i0] != 0;
        assert(row_price(prices, i0) == price_at(i0));
        assert forall|j: int| #![trigger out[j]] 0 <= j < out.len() implies exists|i: int|
            #![trigger symbols[i]]
            0 <= i < k && number_valid(signals)[i] && number_values(signals)[i] != 0 && out[j] == (
            symbols[i],
            number_values(signals)[i],
            price_at(i),
        ) by {
            if j < prev.len() {
                assert(out[j] == prev[j]);
            } else {
                assert(active && out[j] == (symbols[i0], number_values(signals)[i0], price_at(i0)));
                assert(symbols[i0] == symbols[i0]);
            }
        }
        assert forall|i: int|
            0 <= i < k && number_valid(signals)[i] && number_values(signals)[i] != 0 implies exists|j: int|
            0 <= j < out.len() && #[trigger] out[j] == (symbols[i], number_values(signals)[i], price_at(i)) by {
            if i < i0 {
                let j = choose|j: int|
                    0 <= j < prev.len() && #[trigger] prev[j] == (symbols[i], number_values(signals)[i], price_at(i));
                assert(out[j] == prev[j]);
            } else {
                assert(out[prev.len() as int] == (symbols[i0], number_values(signals)[i0], price_at(i0)));
            }
        }
    }
}

} // verus!
