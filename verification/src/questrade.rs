//! Questrade account settings; the connection itself is not implemented, and
//! its calls answer with fixed values.

use vstd::prelude::*;
use crate::secret::{credential_new, credential_text, Credential};

verus! {

/// Balance reported for a Questrade account: 50000 units.
pub const QUESTRADE_BALANCE: i64 = 50_000_000_000;

/// A Questrade account with its API tokens.
pub struct QuestradeBroker {
    pub account_id: String,
    pub access_token: Credential,
    pub refresh_token: Credential,
    pub server_url: String,
}

impl QuestradeBroker {
    /// An account with the given settings; the tokens are held as secrets.
    pub fn new(account_id: String, access_token: String, refresh_token: String, server_url: String) -> (r:
        QuestradeBroker)
        ensures
            r.account_id@ == account_id@,
            credential_text(r.access_token) == access_token@,
            credential_text(r.refresh_token) == refresh_token@,
            r.server_url@ == server_url@,
    {
        QuestradeBroker {
            account_id,
            access_token: credential_new(access_token),
            refresh_token: credential_new(refresh_token),
            server_url,
        }
    }

    /// Connecting always succeeds.
    pub fn connect(&mut self) -> (r: Result<(), String>)
        ensures
            r is Ok,
    {
        Ok(())
    }

    /// The balance, fixed at `QUESTRADE_BALANCE`.
    pub fn get_account_balance(&self) -> (r: Result<i64, String>)
        ensures
            r == Ok::<i64, String>(QUESTRADE_BALANCE),
    {
        Ok(QUESTRADE_BALANCE)
    }

    /// Every order is acknowledged with the reference `QT-ORD-999`.
    pub fn place_order(&self, symbol: &str, quantity: i64, price: i64) -> (r: Result<String, String>)
        ensures
            r matches Ok(id) && id@ == "QT-ORD-999"@,
    {
        Ok(String::from_str("QT-ORD-999"))
    }
}

} // verus!
