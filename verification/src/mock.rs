//! A simulated broker for local runs and tests: every call succeeds.

use vstd::prelude::*;
use crate::amounts::SCALE;
use crate::holdings::Holding;

verus! {

/// Price the simulated broker quotes for every symbol: 100 units.
pub const MOCK_PRICE: i64 = 100_000_000;

/// A simulated broker with a fixed account balance (in `SCALE` units).
pub struct MockBroker {
    pub balance: i64,
}

impl MockBroker {
    pub fn new(balance: i64) -> (r: MockBroker)
        ensures
            r.balance == balance,
    {
        MockBroker { balance }
    }

    /// Connecting always succeeds.
    pub fn connect(&mut self) -> (r: Result<(), String>)
        ensures
            r is Ok,
            final(self).balance == old(self).balance,
    {
        Ok(())
    }

    /// The configured balance.
    pub fn get_account_balance(&self) -> (r: Result<i64, String>)
        ensures
            r == Ok::<i64, String>(self.balance),
    {
        Ok(self.balance)
    }

    /// No positions are held.
    pub fn get_positions(&self) -> (r: Result<Vec<Holding>, String>)
        ensures
            r matches Ok(v) && v@.len() == 0,
    {
        Ok(Vec::new())
    }

    /// Every symbol is quoted at `MOCK_PRICE`.
    pub fn get_price(&self, symbol: &str) -> (r: Result<i64, String>)
        ensures
            r == Ok::<i64, String>(MOCK_PRICE),
    {
        Ok(MOCK_PRICE)
    }

    /// Every order is accepted, with the reference `MOCK-ORD-<symbol>`.
    pub fn place_order(&self, symbol: &str, quantity: i64, price: i64) -> (r: Result<String, String>)
        ensures
            r matches Ok(id) && id@ == "MOCK-ORD-"@ + symbol@,
    {
        let mut id = String::from_str("MOCK-ORD-");
        id.append(symbol);
        Ok(id)
    }
}

} // verus!
