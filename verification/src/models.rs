//! The data model: the managed account and the value objects handed to the
//! HTTP layer. All fields are plain text and integers; amounts in the
//! display unit travel as exact decimal strings, never as floating point,
//! and timestamps as Unix seconds supplied by the caller.

use vstd::prelude::*;

verus! {

/// The sole managed identity: a secret key, its public key, and the address
/// derived from the public key, each in canonical textual form.
#[derive(Debug)]
pub struct Account {
    pub secret_key: String,
    pub public_key: String,
    pub public_address: String,
}

/// Field-wise equality of two accounts.
pub open spec fn account_eq(a: Account, b: Account) -> bool {
    &&& a.secret_key@ == b.secret_key@
    &&& a.public_key@ == b.public_key@
    &&& a.public_address@ == b.public_address@
}

impl Account {
    /// A new account value holding the given textual forms.
    pub fn new(secret_key: &str, public_key: &str, public_address: &str) -> (a: Account)
        ensures
            a.secret_key@ == secret_key@,
            a.public_key@ == public_key@,
            a.public_address@ == public_address@,
    {
        Account {
            secret_key: secret_key.to_owned(),
            public_key: public_key.to_owned(),
            public_address: public_address.to_owned(),
        }
    }

    /// The public face of the account: everything but the secret key,
    /// stamped with the caller's clock reading.
    pub fn to_account_info(&self, now_unix: i64) -> (info: AccountInfo)
        ensures
            info.public_key@ == self.public_key@,
            info.address@ == self.public_address@,
            info.created_at == Some(now_unix),
    {
        AccountInfo {
            public_key: self.public_key.clone(),
            address: self.public_address.clone(),
            created_at: Some(now_unix),
        }
    }
}

impl Clone for Account {
    /// A clone carries the same three fields.
    fn clone(&self) -> (a: Account)
        ensures
            account_eq(a, *self),
    {
        Account {
            secret_key: self.secret_key.clone(),
            public_key: self.public_key.clone(),
            public_address: self.public_address.clone(),
        }
    }
}

impl PartialEq for Account {
    fn eq(&self, other: &Account) -> (r: bool) {
        self.secret_key == other.secret_key && self.public_key == other.public_key
            && self.public_address == other.public_address
    }
}

impl vstd::std_specs::cmp::PartialEqSpecImpl for Account {
    open spec fn obeys_eq_spec() -> bool {
        true
    }

    open spec fn eq_spec(&self, other: &Account) -> bool {
        account_eq(*self, *other)
    }
}

/// Account information returned to callers: public key, address, and an
/// optional creation timestamp in Unix seconds.
#[derive(Debug)]
pub struct AccountInfo {
    pub public_key: String,
    pub address: String,
    pub created_at: Option<i64>,
}

/// A balance read from the chain: the queried address, the exact balance in
/// the smallest unit as decimal text, the same balance in the display unit
/// as exact decimal text, and the network it was read from.
#[derive(Debug)]
pub struct BalanceInfo {
    pub address: String,
    pub balance_wei: String,
    pub balance_eth: String,
    pub network_id: u64,
}

/// A caller-supplied transfer request: destination, amount in the display
/// unit as decimal text, and optional gas overrides, which are carried but
/// presently inert (documented future work).
#[derive(Debug)]
pub struct TransactionRequest {
    pub to: String,
    pub amount_eth: String,
    pub gas_price: Option<u64>,
    pub gas_limit: Option<u64>,
}

/// The record returned for a submitted transfer.
#[derive(Debug)]
pub struct TransactionInfo {
    pub transaction_hash: String,
    pub from: String,
    pub to: String,
    pub amount_eth: String,
    pub gas_price: Option<String>,
    pub gas_limit: Option<u64>,
    pub status: TransactionStatus,
    pub timestamp: i64,
}

/// Lifecycle status of a submitted transfer. This service only ever
/// produces `Pending`; confirmation tracking is not implemented.
#[derive(Debug, PartialEq, Eq, Structural, Clone, Copy)]
pub enum TransactionStatus {
    Pending,
    Confirmed,
    Failed,
}

/// A snapshot of the connected network: identifier, a human-readable name
/// from a fixed lookup, the node endpoint, and the latest block height if
/// that sub-query succeeded.
#[derive(Debug)]
pub struct NetworkInfo {
    pub network_id: u64,
    pub network_name: String,
    pub rpc_url: String,
    pub block_number: Option<u64>,
}

} // verus!
