//! Execution and risk layer of an automated trading system: order risk checks,
//! signal-batch execution, portfolio rebalancing and the broker wire protocol.

pub mod amounts;
pub mod batch;
pub mod engine;
pub mod execution;
pub mod holdings;
pub mod ibkr;
pub mod mock;
pub mod questrade;
pub mod rebalancer;
pub mod risk;
pub mod secret;
pub mod text;

use vstd::prelude::*;

verus! {

} // verus!
