//! The chain client's decision logic. The node itself is reached over an
//! asynchronous transport outside this crate; what stands here is every
//! decision around those calls: whether a connection exists, whether an
//! address or an amount is acceptable, what is sent, and how node results
//! are assembled into the value objects handed back to callers.
//!
//! The split follows one pattern: a `*_query`/`prepare_*` function decides,
//! from the recorded connection state and the request, whether a node call
//! may proceed and with what parameters — failing exactly as specified
//! before anything leaves the process — and a companion function assembles
//! the node's answer into the returned object.

use vstd::prelude::*;
use crate::errors::AppError;
use crate::models::{BalanceInfo, NetworkInfo, TransactionInfo, TransactionRequest,
    TransactionStatus};
use crate::text::{is_hex_digit, is_hex_digit_exec, spec_dec_str, u128_to_dec_string};
use crate::units::{spec_eth_display, spec_amount_wei, wei_to_eth_string, parse_eth_amount};

verus! {

/// A textual chain address: the 0x prefix followed by exactly forty hex
/// digits.
pub open spec fn valid_eth_address(s: Seq<char>) -> bool {
    &&& s.len() == 42
    &&& s[0] == '0'
    &&& s[1] == 'x'
    &&& forall|i: int| 2 <= i < 42 ==> is_hex_digit(#[trigger] s[i])
}

/// Executable test for a textual chain address.
pub fn is_valid_eth_address(s: &str) -> (b: bool)
    ensures
        b == valid_eth_address(s@),
{
    let n = s.unicode_len();
    if n != 42 {
        return false;
    }
    if !(s.get_char(0) == '0') || !(s.get_char(1) == 'x') {
        return false;
    }
    let mut i: usize = 2;
    while i < 42
        invariant
            2 <= i <= 42,
            s@.len() == 42,
            forall|t: int| 2 <= t < i ==> is_hex_digit(#[trigger] s@[t]),
        decreases 42 - i,
    {
        if !is_hex_digit_exec(s.get_char(i)) {
            return false;
        }
        i = i + 1;
    }
    true
}

/// The fixed lookup from network identifier to human-readable name.
pub open spec fn spec_network_name(network_id: u64) -> Seq<char> {
    if network_id == 1 {
        "Mainnet"@
    } else if network_id == 3 {
        "Ropsten"@
    } else if network_id == 4 {
        "Rinkeby"@
    } else if network_id == 5 {
        "Goerli"@
    } else if network_id == 11155111 {
        "Sepolia"@
    } else {
        "Unknown"@
    }
}

/// The human-readable name of a network identifier.
pub fn network_name_of(network_id: u64) -> (r: String)
    ensures
        r@ == spec_network_name(network_id),
{
    if network_id == 1 {
        "Mainnet".to_owned()
    } else if network_id == 3 {
        "Ropsten".to_owned()
    } else if network_id == 4 {
        "Rinkeby".to_owned()
    } else if network_id == 5 {
        "Goerli".to_owned()
    } else if network_id == 11155111 {
        "Sepolia".to_owned()
    } else {
        "Unknown".to_owned()
    }
}

/// The assembled parameters of a transfer: destination, exact value in the
/// smallest unit, and the caller's gas overrides. The overrides are carried
/// so nothing is silently dropped, but they are presently inert: no
/// override is applied to the submitted transaction (documented future
/// work).
#[derive(Debug)]
pub struct TransactionParameters {
    pub to: String,
    pub value_wei: u128,
    pub gas_price: Option<u64>,
    pub gas_limit: Option<u64>,
}

/// The chain client's recorded state: the endpoint and network it was
/// configured with, and whether a live connection has been established.
/// The connection object itself lives with the transport, outside this
/// crate; callers record the outcome of connecting here.
pub struct Web3Service {
    pub connected: bool,
    pub network_id: u64,
    pub rpc_url: String,
}

impl Web3Service {
    /// A client for the given endpoint and network, not yet connected.
    pub fn new(rpc_url: String, network_id: u64) -> (s: Web3Service)
        ensures
            !s.connected,
            s.network_id == network_id,
            s.rpc_url@ == rpc_url@,
    {
        Web3Service { connected: false, network_id, rpc_url }
    }

    /// Records the outcome of the transport's connection attempt. Success
    /// marks the client connected; failure leaves the state as it was and
    /// reports a connection error carrying the transport's message.
    pub fn record_connection(&mut self, outcome: Result<(), String>) -> (r: Result<(), AppError>)
        ensures
            final(self).network_id == old(self).network_id,
            final(self).rpc_url@ == old(self).rpc_url@,
            outcome is Ok ==> final(self).connected && r is Ok,
            outcome matches Err(m) ==> {
                &&& final(self).connected == old(self).connected
                &&& (r matches Err(e) && e matches AppError::Web3ConnectionFailed(mm) && mm@ == m@)
            },
    {
        match outcome {
            Ok(()) => {
                self.connected = true;
                Ok(())
            },
            Err(m) => Err(AppError::Web3ConnectionFailed(m)),
        }
    }

    /// Whether a live connection has been recorded.
    pub fn is_connected(&self) -> (b: bool)
        ensures
            b == self.connected,
    {
        self.connected
    }

    /// Assembles the network snapshot. Requires a connection; the latest
    /// block height is whatever the caller's sub-query produced, and its
    /// absence degrades only that field, never the whole snapshot.
    pub fn get_network_info(&self, block_number: Option<u64>) -> (r: Result<NetworkInfo, AppError>)
        ensures
            r is Ok <==> self.connected,
            r matches Ok(info) ==> {
                &&& info.network_id == self.network_id
                &&& info.network_name@ == spec_network_name(self.network_id)
                &&& info.rpc_url@ == self.rpc_url@
                &&& info.block_number == block_number
            },
            r matches Err(e) ==> e matches AppError::Web3NotAvailable,
    {
        if !self.connected {
            return Err(AppError::Web3NotAvailable);
        }
        Ok(NetworkInfo {
            network_id: self.network_id,
            network_name: network_name_of(self.network_id),
            rpc_url: self.rpc_url.clone(),
            block_number,
        })
    }

    /// Decides whether a balance query may be sent: there must be a live
    /// connection and the address must parse. A malformed address is
    /// rejected here, before any node call is attempted.
    pub fn balance_query(&self, address: &str) -> (r: Result<(), AppError>)
        ensures
            r is Ok <==> self.connected && valid_eth_address(address@),
            !self.connected ==> (r matches Err(e) && e matches AppError::Web3NotAvailable),
            self.connected && !valid_eth_address(address@) ==> (r matches Err(e)
                && e matches AppError::InvalidAddress(m) && m@ == address@),
    {
        if !self.connected {
            return Err(AppError::Web3NotAvailable);
        }
        if !is_valid_eth_address(address) {
            return Err(AppError::InvalidAddress(address.to_owned()));
        }
        Ok(())
    }

    /// Assembles the balance snapshot from the node's answer: the exact
    /// smallest-unit balance as decimal text, its exact display-unit
    /// rendering, and the network it came from. A failed query is never
    /// turned into a zero balance; callers surface the node's error.
    pub fn make_balance_info(&self, address: &str, balance_wei: u128) -> (r: BalanceInfo)
        ensures
            r.address@ == address@,
            r.balance_wei@ == spec_dec_str(balance_wei as int),
            r.balance_eth@ == spec_eth_display(balance_wei as int),
            r.network_id == self.network_id,
    {
        BalanceInfo {
            address: address.to_owned(),
            balance_wei: u128_to_dec_string(balance_wei),
            balance_eth: wei_to_eth_string(balance_wei),
            network_id: self.network_id,
        }
    }

    /// Builds the parameters of a transfer: the destination must parse and
    /// the display amount must be a well-formed decimal that fits the
    /// smallest unit's range; the value is the exact conversion. The gas
    /// overrides are carried unchanged and unapplied.
    pub fn create_transaction(
        &self,
        to: &str,
        amount_eth: &str,
        gas_price: Option<u64>,
        gas_limit: Option<u64>,
    ) -> (r: Result<TransactionParameters, AppError>)
        ensures
            r is Ok <==> valid_eth_address(to@) && spec_amount_wei(amount_eth@) is Some,
            !valid_eth_address(to@) ==> (r matches Err(e) && e matches AppError::InvalidAddress(m)
                && m@ == to@),
            valid_eth_address(to@) && spec_amount_wei(amount_eth@) is None ==> (r matches Err(e)
                && e matches AppError::ValidationError(_)),
            r matches Ok(tx) ==> {
                &&& tx.to@ == to@
                &&& tx.value_wei as int == spec_amount_wei(amount_eth@).unwrap()
                &&& tx.gas_price == gas_price
                &&& tx.gas_limit == gas_limit
            },
    {
        if !is_valid_eth_address(to) {
            return Err(AppError::InvalidAddress(to.to_owned()));
        }
        let value_wei = match parse_eth_amount(amount_eth) {
            Some(v) => v,
            None => {
                return Err(AppError::ValidationError("invalid amount format".to_owned()));
            },
        };
        Ok(TransactionParameters { to: to.to_owned(), value_wei, gas_price, gas_limit })
    }

    /// Decides a transfer submission: without a live connection nothing is
    /// built or signed and the failure is unavailability, never a
    /// submission error; with one, the parameters are built as in
    /// `create_transaction`. The caller then signs them with the secret
    /// key — which this client never stores — and submits the raw bytes.
    pub fn prepare_transaction(&self, request: &TransactionRequest) -> (r: Result<
        TransactionParameters,
        AppError,
    >)
        ensures
            !self.connected ==> (r matches Err(e) && e matches AppError::Web3NotAvailable),
            r is Ok <==> self.connected && valid_eth_address(request.to@) && spec_amount_wei(
                request.amount_eth@,
            ) is Some,
            self.connected && !valid_eth_address(request.to@) ==> (r matches Err(e)
                && e matches AppError::InvalidAddress(_)),
            self.connected && valid_eth_address(request.to@) && spec_amount_wei(
                request.amount_eth@,
            ) is None ==> (r matches Err(e) && e matches AppError::ValidationError(_)),
            r matches Ok(tx) ==> {
                &&& tx.to@ == request.to@
                &&& tx.value_wei as int == spec_amount_wei(request.amount_eth@).unwrap()
                &&& tx.gas_price == request.gas_price
                &&& tx.gas_limit == request.gas_limit
            },
    {
        if !self.connected {
            return Err(AppError::Web3NotAvailable);
        }
        self.create_transaction(
            request.to.as_str(),
            request.amount_eth.as_str(),
            request.gas_price,
            request.gas_limit,
        )
    }

    /// Assembles the record of a submitted transfer from the node-assigned
    /// hash. The status is always pending — confirmation tracking is not
    /// implemented — and no gas price is recorded because no override is
    /// applied.
    pub fn complete_transaction(
        &self,
        request: &TransactionRequest,
        from: &str,
        transaction_hash: String,
        timestamp: i64,
    ) -> (t: TransactionInfo)
        ensures
            t.transaction_hash@ == transaction_hash@,
            t.from@ == from@,
            t.to@ == request.to@,
            t.amount_eth@ == request.amount_eth@,
            t.gas_price is None,
            t.gas_limit is None,
            t.status == TransactionStatus::Pending,
            t.timestamp == timestamp,
    {
        TransactionInfo {
            transaction_hash,
            from: from.to_owned(),
            to: request.to.clone(),
            amount_eth: request.amount_eth.clone(),
            gas_price: None,
            gas_limit: None,
            status: TransactionStatus::Pending,
            timestamp,
        }
    }

    /// Decides a gas estimation: requires a connection and both addresses,
    /// and converts the display amount exactly; the returned value is the
    /// smallest-unit amount for the node's call request.
    pub fn estimate_gas(&self, to: &str, amount_eth: &str, from: &str) -> (r: Result<
        u128,
        AppError,
    >)
        ensures
            !self.connected ==> (r matches Err(e) && e matches AppError::Web3NotAvailable),
            r is Ok <==> self.connected && valid_eth_address(to@) && valid_eth_address(from@)
                && spec_amount_wei(amount_eth@) is Some,
            self.connected && !valid_eth_address(to@) ==> (r matches Err(e)
                && e matches AppError::InvalidAddress(m) && m@ == to@),
            self.connected && valid_eth_address(to@) && !valid_eth_address(from@) ==> (
            r matches Err(e) && e matches AppError::InvalidAddress(m) && m@ == from@),
            self.connected && valid_eth_address(to@) && valid_eth_address(from@)
                && spec_amount_wei(amount_eth@) is None ==> (r matches Err(e)
                && e matches AppError::ValidationError(_)),
            r matches Ok(v) ==> v as int == spec_amount_wei(amount_eth@).unwrap(),
    {
        if !self.connected {
            return Err(AppError::Web3NotAvailable);
        }
        if !is_valid_eth_address(to) {
            return Err(AppError::InvalidAddress(to.to_owned()));
        }
        if !is_valid_eth_address(from) {
            return Err(AppError::InvalidAddress(from.to_owned()));
        }
        match parse_eth_amount(amount_eth) {
            Some(v) => Ok(v),
            None => Err(AppError::ValidationError("invalid amount format".to_owned())),
        }
    }

    /// Decides a gas price query: it needs nothing but a live connection.
    pub fn gas_price_query(&self) -> (r: Result<(), AppError>)
        ensures
            r is Ok <==> self.connected,
            r matches Err(e) ==> e matches AppError::Web3NotAvailable,
    {
        if self.connected {
            Ok(())
        } else {
            Err(AppError::Web3NotAvailable)
        }
    }
}

} // verus!
