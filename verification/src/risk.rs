//! Pre-trade risk checks: a kill switch, an order-velocity limit and exposure
//! limits per symbol and in total, with the positions they are checked against.

use vstd::prelude::*;
use std::time::{Duration, Instant};
use crate::holdings::{
    distinct_symbols, find_symbol, holdings_map, holds_symbol, lemma_holding_in_map, lemma_map_after_push,
    lemma_map_after_set, Holding,
};
use crate::amounts::{
    SCALE, abs, add_clamped_i128, add_clamped_i64, clamp_i128, clamp_i64, limit_as_notional, limit_notional,
    notional, notional_of,
};

verus! {

#[verifier::external_type_specification]
#[verifier::external_body]
pub struct ExInstant(std::time::Instant);

/// `std::time::Instant::now`: a reading of the monotonic clock. Nothing is
/// stated of the reading.
#[verifier::external_body]
fn instant_now() -> Instant {
    Instant::now()
}

/// `std::time::Instant::elapsed`: the time that passed since `origin` was read.
/// It depends on the clock, so nothing is stated of it.
#[verifier::external_body]
fn elapsed_since(origin: &Instant) -> Duration {
    origin.elapsed()
}

/// `std::time::Duration::as_nanos`: the whole nanoseconds of a duration. The
/// durations handed to it here are clock readings, so nothing is stated of it.
#[verifier::external_body]
fn duration_nanos(d: &Duration) -> u128 {
    d.as_nanos()
}

/// Why an order was refused, or that it was accepted.
#[derive(Debug, Clone, Copy, PartialEq, Eq, Structural)]
pub enum OrderCheck {
    /// The kill switch is set: no order passes.
    KillSwitchActive,
    /// The window already holds the allowed number of orders; the kill switch is now set.
    VelocityLimit,
    /// The position in the symbol would exceed the per-symbol exposure limit.
    SymbolLimit,
    /// The total exposure would exceed its limit.
    TotalLimit,
    /// The order passes every check and has been logged in the velocity history.
    Accepted,
}

/// Length of the velocity window in nanoseconds.
pub open spec fn window_nanos(secs: u64) -> int {
    secs * 1_000_000_000
}

/// An order logged at `t` still counts at `now`: less than the window has
/// passed (a reading earlier than `t` counts as no time passed).
pub open spec fn within_window(now: u128, t: u128, secs: u64) -> bool {
    (if now >= t { now - t } else { 0 }) < window_nanos(secs)
}

pub open spec fn recent_pred(now: u128, secs: u64) -> spec_fn(u128) -> bool {
    |t: u128| within_window(now, t, secs)
}

/// The position after buying `quantity` (selling, when negative) on top of `current`.
pub open spec fn next_quantity(current: int, quantity: int) -> int {
    clamp_i64(current + quantity)
}

/// The total exposure after the position in one symbol moves from `current`
/// to `next` at `price`.
pub open spec fn next_total(total: int, current: int, next: int, price: int) -> int {
    clamp_i128(total - notional(current, price) + notional(next, price))
}

/// Risk state of the execution engine.
///
/// Limits and losses are in `SCALE` units of currency; `total_exposure` is a
/// notional in `SCALE * SCALE` units. The order history holds the clock
/// readings, in nanoseconds since the manager was made, of the orders that
/// passed the checks.
pub struct RiskManager {
    pub max_exposure_per_symbol: i64,
    pub max_total_exposure: i64,
    pub drawdown_limit: i64,
    pub current_loss: i64,
    pub kill_switch_triggered: bool,
    pub max_orders_per_window: usize,
    pub velocity_window_seconds: u64,
    pub order_history: Vec<u128>,
    pub total_exposure: i128,
    pub positions: Vec<Holding>,
    pub clock_origin: Instant,
}

impl RiskManager {
    /// The positions are kept with one entry per symbol.
    pub open spec fn wf(&self) -> bool {
        distinct_symbols(self.positions@)
    }

    /// Position per symbol; symbols never traded are absent.
    pub open spec fn positions_view(&self) -> Map<Seq<char>, int> {
        holdings_map(self.positions@)
    }

    /// The position in `s`, zero when there is none.
    pub open spec fn position_of(&self, s: Seq<char>) -> int {
        if self.positions_view().dom().contains(s) {
            self.positions_view()[s]
        } else {
            0
        }
    }

    /// The configured limits of `self` and `other` agree.
    pub open spec fn same_limits(&self, other: &RiskManager) -> bool {
        &&& self.max_exposure_per_symbol == other.max_exposure_per_symbol
        &&& self.max_total_exposure == other.max_total_exposure
        &&& self.drawdown_limit == other.drawdown_limit
        &&& self.max_orders_per_window == other.max_orders_per_window
        &&& self.velocity_window_seconds == other.velocity_window_seconds
    }

    /// The orders of the history that still count at `now`.
    pub open spec fn recent_orders(&self, now: u128) -> Seq<u128> {
        self.order_history@.filter(recent_pred(now, self.velocity_window_seconds))
    }

    /// The verdict on an order for `quantity` of `symbol` at `price`, checked at `now`.
    pub open spec fn order_check(&self, symbol: Seq<char>, quantity: int, price: int, now: u128) -> OrderCheck {
        if self.kill_switch_triggered {
            OrderCheck::KillSwitchActive
        } else if self.recent_orders(now).len() >= self.max_orders_per_window {
            OrderCheck::VelocityLimit
        } else {
            let current = self.position_of(symbol);
            let next = next_quantity(current, quantity);
            if notional(next, price) > limit_notional(self.max_exposure_per_symbol as int) {
                OrderCheck::SymbolLimit
            } else if next_total(self.total_exposure as int, current, next, price)
                > limit_notional(self.max_total_exposure as int) {
                OrderCheck::TotalLimit
            } else {
                OrderCheck::Accepted
            }
        }
    }

    /// `post` is `pre` after the check of an order at `now` that gave `r`.
    pub open spec fn checked(
        pre: &RiskManager,
        post: &RiskManager,
        symbol: Seq<char>,
        quantity: int,
        price: int,
        now: u128,
        r: OrderCheck,
    ) -> bool {
        &&& r == pre.order_check(symbol, quantity, price, now)
        &&& post.order_history@ == match r {
            OrderCheck::KillSwitchActive => pre.order_history@,
            OrderCheck::Accepted => pre.recent_orders(now).push(now),
            _ => pre.recent_orders(now),
        }
        &&& post.kill_switch_triggered == (pre.kill_switch_triggered || r == OrderCheck::VelocityLimit)
        &&& post.same_limits(pre)
        &&& post.current_loss == pre.current_loss
        &&& post.total_exposure == pre.total_exposure
        &&& post.positions_view() == pre.positions_view()
        &&& post.wf()
    }

    /// A risk manager with the given limits, no positions, no loss and no orders.
    pub fn new(
        max_exposure_per_symbol: i64,
        max_total_exposure: i64,
        drawdown_limit: i64,
        max_orders_per_window: usize,
        velocity_window_seconds: u64,
    ) -> (r: RiskManager)
        ensures
            r.wf(),
            r.max_exposure_per_symbol == max_exposure_per_symbol,
            r.max_total_exposure == max_total_exposure,
            r.drawdown_limit == drawdown_limit,
            r.max_orders_per_window == max_orders_per_window,
            r.velocity_window_seconds == velocity_window_seconds,
            r.current_loss == 0,
            !r.kill_switch_triggered,
            r.order_history@ == Seq::<u128>::empty(),
            r.total_exposure == 0,
            r.positions_view() == Map::<Seq<char>, int>::empty(),
    {
        let r = RiskManager {
            max_exposure_per_symbol,
            max_total_exposure,
            drawdown_limit,
            current_loss: 0,
            kill_switch_triggered: false,
            max_orders_per_window,
            velocity_window_seconds,
            order_history: Vec::new(),
            total_exposure: 0,
            positions: Vec::new(),
            clock_origin: instant_now(),
        };
        assert(holdings_map(r.positions@) =~= Map::<Seq<char>, int>::empty());
        r
    }

    /// The position held in `symbol`, zero when there is none.
    pub fn position(&self, symbol: &str) -> (r: i64)
        requires
            self.wf(),
        ensures
            r == self.position_of(symbol@),
    {
        let sym = String::from_str(symbol);
        match find_symbol(&self.positions, &sym) {
            Some(i) => {
                proof {
                    lemma_holding_in_map(self.positions@, i as int);
                }
                self.positions[i].quantity
            },
            None => 0,
        }
    }

    /// Drops from the history the orders that no longer count at `now`.
    fn prune_history(&mut self, now: u128)
        ensures
            final(self).order_history@ == old(self).recent_orders(now),
            final(self).kill_switch_triggered == old(self).kill_switch_triggered,
            final(self).same_limits(old(self)),
            final(self).current_loss == old(self).current_loss,
            final(self).total_exposure == old(self).total_exposure,
            final(self).positions@ == old(self).positions@,
    {
        let secs = self.velocity_window_seconds;
        let ghost pred = recent_pred(now, secs);
        let s: u128 = secs as u128;
        assert(s * 1_000_000_000 <= 0x1_0000_0000_0000_0000 * 1_000_000_000) by (nonlinear_arith)
            requires
                s < 0x1_0000_0000_0000_0000,
        ;
        let window: u128 = s * 1_000_000_000;
        let mut kept: Vec<u128> = Vec::new();
        let n = self.order_history.len();
        for i in 0..n
            invariant
                n == self.order_history@.len(),
                window == window_nanos(secs),
                secs == self.velocity_window_seconds,
                pred == recent_pred(now, secs),
                kept@ == self.order_history@.take(i as int).filter(pred),
        {
            let t = self.order_history[i];
            let age: u128 = if now >= t { now - t } else { 0 };
            if age < window {
                kept.push(t);
            }
            proof {
                reveal_with_fuel(Seq::<_>::filter, 1);
                assert(self.order_history@.take(i + 1).drop_last() =~= self.order_history@.take(i as int));
            }
        }
        assert(self.order_history@.take(n as int) =~= self.order_history@);
        self.order_history = kept;
    }

    /// Checks an order for `quantity` of `symbol` at `price` against the risk
    /// limits at the clock reading `now`, and logs it in the velocity history
    /// when it passes.
    pub fn check_order_at(&mut self, symbol: &str, quantity: i64, price: i64, now: u128) -> (r: OrderCheck)
        requires
            old(self).wf(),
        ensures
            RiskManager::checked(old(self), final(self), symbol@, quantity as int, price as int, now, r),
    {
        if self.kill_switch_triggered {
            return OrderCheck::KillSwitchActive;
        }
        self.prune_history(now);
        if self.order_history.len() >= self.max_orders_per_window {
            self.kill_switch_triggered = true;
            return OrderCheck::VelocityLimit;
        }
        let current = self.position(symbol);
        let next = add_clamped_i64(current, quantity);
        let new_exposure = notional_of(next, price);
        if new_exposure > limit_as_notional(self.max_exposure_per_symbol) {
            return OrderCheck::SymbolLimit;
        }
        let delta = exposure_change(current, next, price);
        let new_total = add_clamped_i128(self.total_exposure, delta);
        if new_total > limit_as_notional(self.max_total_exposure) {
            return OrderCheck::TotalLimit;
        }
        self.order_history.push(now);
        OrderCheck::Accepted
    }

    /// Checks an order against the risk limits at `now`; true when it passes.
    pub fn validate_order_at(&mut self, symbol: &str, quantity: i64, price: i64, now: u128) -> (r: bool)
        requires
            old(self).wf(),
        ensures
            RiskManager::checked(
                old(self),
                final(self),
                symbol@,
                quantity as int,
                price as int,
                now,
                old(self).order_check(symbol@, quantity as int, price as int, now),
            ),
            r == (old(self).order_check(symbol@, quantity as int, price as int, now) == OrderCheck::Accepted),
    {
        let c = self.check_order_at(symbol, quantity, price, now);
        c == OrderCheck::Accepted
    }

    /// The clock reading used to date orders: nanoseconds since the manager was made.
    pub fn clock(&self) -> u128 {
        let d = elapsed_since(&self.clock_origin);
        duration_nanos(&d)
    }

    /// Checks an order against the risk limits at the current clock reading.
    /// Whatever the clock reads, the outcome is that of `check_order_at` at
    /// some reading.
    pub fn check_order(&mut self, symbol: &str, quantity: i64, price: i64) -> (r: OrderCheck)
        requires
            old(self).wf(),
        ensures
            exists|now: u128|
                #[trigger] RiskManager::checked(
                    old(self),
                    final(self),
                    symbol@,
                    quantity as int,
                    price as int,
                    now,
                    r,
                ),
    {
        let now = self.clock();
        self.check_order_at(symbol, quantity, price, now)
    }

    /// Checks an order against the risk limits at the current clock reading;
    /// true when it passes. Whatever the clock reads, the outcome is that of
    /// `check_order_at` at some reading.
    pub fn validate_order(&mut self, symbol: &str, quantity: i64, price: i64) -> (r: bool)
        requires
            old(self).wf(),
        ensures
            exists|v: OrderCheck, now: u128|
                #[trigger] RiskManager::checked(
                    old(self),
                    final(self),
                    symbol@,
                    quantity as int,
                    price as int,
                    now,
                    v,
                ) && r == (v == OrderCheck::Accepted),
    {
        let c = self.check_order(symbol, quantity, price);
        c == OrderCheck::Accepted
    }

    /// `post` is `pre` after a fill of `quantity` of `symbol` at `price`: the
    /// position moves by `quantity` and the total exposure by the change of
    /// the position's notional; nothing else changes.
    pub open spec fn fill_recorded(
        pre: &RiskManager,
        post: &RiskManager,
        symbol: Seq<char>,
        quantity: int,
        price: int,
    ) -> bool {
        let next = next_quantity(pre.position_of(symbol), quantity);
        &&& post.wf()
        &&& post.positions_view() == pre.positions_view().insert(symbol, next)
        &&& post.total_exposure == next_total(pre.total_exposure as int, pre.position_of(symbol), next, price)
        &&& post.same_limits(pre)
        &&& post.current_loss == pre.current_loss
        &&& post.kill_switch_triggered == pre.kill_switch_triggered
        &&& post.order_history@ == pre.order_history@
    }

    /// `post` is `pre` after `loss` is added to the running loss: the kill
    /// switch is set once the loss reaches the drawdown limit; nothing else changes.
    pub open spec fn loss_recorded(pre: &RiskManager, post: &RiskManager, loss: int) -> bool {
        &&& post.current_loss == clamp_i64(pre.current_loss + loss)
        &&& post.kill_switch_triggered == (pre.kill_switch_triggered || post.current_loss
            >= pre.drawdown_limit)
        &&& post.same_limits(pre)
        &&& post.total_exposure == pre.total_exposure
        &&& post.positions@ == pre.positions@
        &&& post.order_history@ == pre.order_history@
    }

    /// Records a fill of `quantity` of `symbol` at `price`.
    pub fn update_position(&mut self, symbol: &str, quantity: i64, price: i64)
        requires
            old(self).wf(),
        ensures
            RiskManager::fill_recorded(old(self), final(self), symbol@, quantity as int, price as int),
    {
        let sym = String::from_str(symbol);
        let found = find_symbol(&self.positions, &sym);
        let current: i64 = match found {
            Some(i) => {
                proof {
                    lemma_holding_in_map(self.positions@, i as int);
                }
                self.positions[i].quantity
            },
            None => 0,
        };
        let next = add_clamped_i64(current, quantity);
        let delta = exposure_change(current, next, price);
        self.total_exposure = add_clamped_i128(self.total_exposure, delta);
        let entry = Holding { symbol: sym, quantity: next };
        match found {
            Some(i) => {
                proof {
                    lemma_map_after_set(self.positions@, i as int, entry);
                }
                self.positions.set(i, entry);
            },
            None => {
                proof {
                    lemma_map_after_push(self.positions@, entry);
                }
                self.positions.push(entry);
            },
        }
    }

    /// Adds `loss` to the running loss; the kill switch is set once the loss
    /// reaches the drawdown limit.
    pub fn update_loss(&mut self, loss: i64)
        ensures
            RiskManager::loss_recorded(old(self), final(self), loss as int),
    {
        self.current_loss = add_clamped_i64(self.current_loss, loss);
        if self.current_loss >= self.drawdown_limit {
            self.kill_switch_triggered = true;
        }
    }

    /// Clears the kill switch and the running loss.
    pub fn reset_kill_switch(&mut self)
        ensures
            !final(self).kill_switch_triggered,
            final(self).current_loss == 0,
            final(self).same_limits(old(self)),
            final(self).total_exposure == old(self).total_exposure,
            final(self).positions@ == old(self).positions@,
            final(self).order_history@ == old(self).order_history@,
    {
        self.kill_switch_triggered = false;
        self.current_loss = 0;
    }

    /// The total exposure, a notional in `SCALE * SCALE` units.
    pub fn total_exposure(&self) -> (r: i128)
        ensures
            r == self.total_exposure,
    {
        self.total_exposure
    }
}

/// `notional(next, price) - notional(current, price)`, computed without overflow.
fn exposure_change(current: i64, next: i64, price: i64) -> (r: i128)
    ensures
        r == notional(next as int, price as int) - notional(current as int, price as int),
{
    let c: i128 = current as i128;
    let n: i128 = next as i128;
    let ac: i128 = if c < 0 { -c } else { c };
    let an: i128 = if n < 0 { -n } else { n };
    let d: i128 = an - ac;
    let p: i128 = price as i128;
    assert(-0x4000_0000_0000_0000_0000_0000_0000_0000 <= d * p <= 0x4000_0000_0000_0000_0000_0000_0000_0000)
        by (nonlinear_arith)
        requires
            -0x8000_0000_0000_0000 <= d <= 0x8000_0000_0000_0000,
            -0x8000_0000_0000_0000 <= p < 0x8000_0000_0000_0000,
    ;
    assert(d * p == an * p - ac * p) by (nonlinear_arith)
        requires
            d == an - ac,
    ;
    d * p
}

/// While the kill switch is set, every order is refused, and checking it
/// changes nothing: not the history, the positions, the exposure or the switch.
pub proof fn law_kill_switch_blocks_orders(
    pre: RiskManager,
    post: RiskManager,
    symbol: Seq<char>,
    quantity: int,
    price: int,
    now: u128,
    r: OrderCheck,
)
    requires
        pre.kill_switch_triggered,
        RiskManager::checked(&pre, &post, symbol, quantity, price, now, r),
    ensures
        r == OrderCheck::KillSwitchActive,
        post.kill_switch_triggered,
        post.order_history@ == pre.order_history@,
        post.positions_view() == pre.positions_view(),
        post.total_exposure == pre.total_exposure,
        post.current_loss == pre.current_loss,
{
}

/// Once set, the kill switch stays set through order checks, fills and
/// losses; only `reset_kill_switch` clears it.
pub proof fn law_kill_switch_latches(
    pre: RiskManager,
    post: RiskManager,
    symbol: Seq<char>,
    quantity: int,
    price: int,
    now: u128,
    r: OrderCheck,
    loss: int,
)
    requires
        pre.kill_switch_triggered,
        RiskManager::checked(&pre, &post, symbol, quantity, price, now, r)
            || RiskManager::fill_recorded(&pre, &post, symbol, quantity, price)
            || RiskManager::loss_recorded(&pre, &post, loss),
    ensures
        post.kill_switch_triggered,
{
}

/// An order that passes the checks and is then filled at the checked price
/// leaves the position in its symbol within the per-symbol exposure limit and
/// the total exposure within its limit.
pub proof fn law_accepted_fill_within_limits(
    pre: RiskManager,
    mid: RiskManager,
    post: RiskManager,
    symbol: Seq<char>,
    quantity: int,
    price: int,
    now: u128,
)
    requires
        pre.wf(),
        RiskManager::checked(&pre, &mid, symbol, quantity, price, now, OrderCheck::Accepted),
        RiskManager::fill_recorded(&mid, &post, symbol, quantity, price),
    ensures
        notional(post.position_of(symbol), price) <= limit_notional(post.max_exposure_per_symbol as int),
        post.total_exposure <= limit_notional(post.max_total_exposure as int),
{
    assert(post.positions_view().dom().contains(symbol));
}

/// An accepted order leaves no more orders in the velocity window than the
/// limit allows; an order that finds the window full sets the kill switch.
pub proof fn law_velocity_limit(
    pre: RiskManager,
    post: RiskManager,
    symbol: Seq<char>,
    quantity: int,
    price: int,
    now: u128,
    r: OrderCheck,
)
    requires
        RiskManager::checked(&pre, &post, symbol, quantity, price, now, r),
    ensures
        r == OrderCheck::Accepted ==> post.order_history@.len() <= post.max_orders_per_window,
        r == OrderCheck::VelocityLimit ==> post.kill_switch_triggered,
{
}

/// A loss that brings the running loss to the drawdown limit sets the kill switch.
pub proof fn law_drawdown_trips_kill_switch(pre: RiskManager, post: RiskManager, loss: int)
    requires
        RiskManager::loss_recorded(&pre, &post, loss),
        post.current_loss >= post.drawdown_limit,
    ensures
        post.kill_switch_triggered,
{
}

/// Filtering a sequence with one more element at the end keeps that element
/// exactly when it passes.
proof fn lemma_filter_push(s: Seq<u128>, x: u128, p: spec_fn(u128) -> bool)
    ensures
        s.push(x).filter(p) == if p(x) {
            s.filter(p).push(x)
        } else {
            s.filter(p)
        },
{
    reveal_with_fuel(Seq::<_>::filter, 1);
    assert(s.push(x).drop_last() =~= s);
}

/// Orders are dated by a clock that does not run backwards. Two orders
/// accepted at readings `t1 <= t2`, followed by a third at `t3 >= t2` while
/// the first still lies inside the velocity window, reach a limit of two
/// orders per window (or less): the third is refused and the kill switch is
/// set, whatever the symbols, quantities and prices.
pub proof fn law_velocity_window(
    s0: RiskManager,
    s1: RiskManager,
    s2: RiskManager,
    s3: RiskManager,
    sym1: Seq<char>,
    q1: int,
    p1: int,
    t1: u128,
    sym2: Seq<char>,
    q2: int,
    p2: int,
    t2: u128,
    sym3: Seq<char>,
    q3: int,
    p3: int,
    t3: u128,
    r3: OrderCheck,
)
    requires
        s0.max_orders_per_window <= 2,
        RiskManager::checked(&s0, &s1, sym1, q1, p1, t1, OrderCheck::Accepted),
        RiskManager::checked(&s1, &s2, sym2, q2, p2, t2, OrderCheck::Accepted),
        RiskManager::checked(&s2, &s3, sym3, q3, p3, t3, r3),
        t1 <= t2 <= t3,
        t3 - t1 < window_nanos(s0.velocity_window_seconds),
    ensures
        r3 == OrderCheck::VelocityLimit,
        s3.kill_switch_triggered,
{
    let secs = s0.velocity_window_seconds;
    let pa = recent_pred(t2, secs);
    let pb = recent_pred(t3, secs);
    let b = s0.recent_orders(t1);
    lemma_filter_push(b, t1, pa);
    let a = s1.order_history@.filter(pa);
    assert(a == b.filter(pa).push(t1));
    lemma_filter_push(a, t2, pb);
    lemma_filter_push(b.filter(pa), t1, pb);
    assert(s2.recent_orders(t3) == b.filter(pa).filter(pb).push(t1).push(t2));
    assert(s2.recent_orders(t3).len() >= 2);
}

/// Buying `quantity` of a symbol and then selling it again at the same price
/// gives back the position held before (zero when there was none, the symbol
/// staying listed) and the total exposure from before, while no amount leaves
/// the range of its fixed-point type.
pub proof fn law_fill_round_trip(
    s0: RiskManager,
    s1: RiskManager,
    s2: RiskManager,
    symbol: Seq<char>,
    quantity: int,
    price: int,
)
    requires
        s0.wf(),
        RiskManager::fill_recorded(&s0, &s1, symbol, quantity, price),
        RiskManager::fill_recorded(&s1, &s2, symbol, -quantity, price),
        i64::MIN <= s0.position_of(symbol) + quantity <= i64::MAX,
        i128::MIN <= s0.total_exposure - notional(s0.position_of(symbol), price) + notional(
            s0.position_of(symbol) + quantity,
            price,
        ) <= i128::MAX,
    ensures
        s2.position_of(symbol) == s0.position_of(symbol),
        s2.positions_view().dom().contains(symbol),
        s2.total_exposure == s0.total_exposure,
{
    let c = s0.position_of(symbol);
    assert(s1.positions_view().dom().contains(symbol));
    assert(s1.position_of(symbol) == c + quantity);
    assert(s2.positions_view().dom().contains(symbol));
    assert(s2.position_of(symbol) == c);
}

/// An order is refused for a limit only when that limit would really be
/// exceeded by the position and total exposure it leads to; with the kill
/// switch off, room in the velocity window and both limits respected, it is
/// accepted and logged at `now`. Closing or shrinking a position within the
/// limits is therefore never refused for exposure, however large the order.
pub proof fn law_refusal_only_over_limits(
    pre: RiskManager,
    post: RiskManager,
    symbol: Seq<char>,
    quantity: int,
    price: int,
    now: u128,
    r: OrderCheck,
)
    requires
        RiskManager::checked(&pre, &post, symbol, quantity, price, now, r),
    ensures
        ({
            let next = clamp_i64(pre.position_of(symbol) + quantity);
            let total = clamp_i128(
                pre.total_exposure - abs(pre.position_of(symbol)) * price + abs(next) * price,
            );
            &&& r == OrderCheck::SymbolLimit ==> abs(next) * price > pre.max_exposure_per_symbol * SCALE
            &&& r == OrderCheck::TotalLimit ==> total > pre.max_total_exposure * SCALE
            &&& (!pre.kill_switch_triggered && pre.recent_orders(now).len() < pre.max_orders_per_window
                && abs(next) * price <= pre.max_exposure_per_symbol * SCALE && total
                <= pre.max_total_exposure * SCALE) ==> (r == OrderCheck::Accepted
                && post.order_history@ == pre.recent_orders(now).push(now))
        }),
{
}

} // verus!
