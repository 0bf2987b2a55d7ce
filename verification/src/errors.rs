//! Closed error taxonomy of the wallet core.
//!
//! Every failure the core can report is one of these variants, each carrying
//! enough context (the offending value or the underlying error text) to be
//! actionable. Each variant maps to a fixed machine-readable kind and an
//! HTTP status code; the mappings are stated exactly in the contracts.

use vstd::prelude::*;

verus! {

/// All errors of the wallet core, grouped by origin: account lifecycle,
/// chain connectivity, chain operations, input validation, and a catch-all.
#[derive(Debug)]
pub enum AppError {
    WalletNotFound,
    WalletCreationFailed(String),
    WalletLoadFailed(String),
    InvalidPrivateKey(String),
    InvalidPublicKey(String),
    Web3ConnectionFailed(String),
    Web3NotAvailable,
    InvalidAddress(String),
    TransactionFailed(String),
    BalanceQueryFailed(String),
    ConfigurationError(String),
    InternalError(String),
    ValidationError(String),
    NotFound(String),
}

/// The failure envelope handed to the HTTP layer: machine-readable kind,
/// human-readable message, numeric status code.
pub struct ErrorResponse {
    pub error: String,
    pub message: String,
    pub code: u16,
}

/// The HTTP status code of each error: validation errors map to the client
/// error class, connectivity errors to service-unavailable, missing resources
/// to not-found, and everything else to the server error class.
pub open spec fn spec_status_code(e: AppError) -> u16 {
    match e {
        AppError::WalletNotFound => 404,
        AppError::WalletCreationFailed(_) => 500,
        AppError::WalletLoadFailed(_) => 500,
        AppError::InvalidPrivateKey(_) => 400,
        AppError::InvalidPublicKey(_) => 400,
        AppError::Web3ConnectionFailed(_) => 503,
        AppError::Web3NotAvailable => 503,
        AppError::InvalidAddress(_) => 400,
        AppError::TransactionFailed(_) => 500,
        AppError::BalanceQueryFailed(_) => 500,
        AppError::ConfigurationError(_) => 500,
        AppError::InternalError(_) => 500,
        AppError::ValidationError(_) => 400,
        AppError::NotFound(_) => 404,
    }
}

/// The machine-readable kind of each error; the kinds are pairwise distinct.
pub open spec fn spec_error_kind(e: AppError) -> Seq<char> {
    match e {
        AppError::WalletNotFound => "WALLET_NOT_FOUND"@,
        AppError::WalletCreationFailed(_) => "WALLET_CREATION_FAILED"@,
        AppError::WalletLoadFailed(_) => "WALLET_LOAD_FAILED"@,
        AppError::InvalidPrivateKey(_) => "INVALID_PRIVATE_KEY"@,
        AppError::InvalidPublicKey(_) => "INVALID_PUBLIC_KEY"@,
        AppError::Web3ConnectionFailed(_) => "WEB3_CONNECTION_FAILED"@,
        AppError::Web3NotAvailable => "WEB3_NOT_AVAILABLE"@,
        AppError::InvalidAddress(_) => "INVALID_ADDRESS"@,
        AppError::TransactionFailed(_) => "TRANSACTION_FAILED"@,
        AppError::BalanceQueryFailed(_) => "BALANCE_QUERY_FAILED"@,
        AppError::ConfigurationError(_) => "CONFIGURATION_ERROR"@,
        AppError::InternalError(_) => "INTERNAL_ERROR"@,
        AppError::ValidationError(_) => "VALIDATION_ERROR"@,
        AppError::NotFound(_) => "NOT_FOUND"@,
    }
}

/// The human-readable message of each error: a fixed prefix naming the
/// failure, followed by the carried context where there is one.
pub open spec fn spec_message(e: AppError) -> Seq<char> {
    match e {
        AppError::WalletNotFound => "Wallet not found"@,
        AppError::WalletCreationFailed(m) => "Wallet creation failed: "@ + m@,
        AppError::WalletLoadFailed(m) => "Failed to load wallet: "@ + m@,
        AppError::InvalidPrivateKey(m) => "Invalid private key: "@ + m@,
        AppError::InvalidPublicKey(m) => "Invalid public key: "@ + m@,
        AppError::Web3ConnectionFailed(m) => "Web3 connection failed: "@ + m@,
        AppError::Web3NotAvailable => "Web3 connection not available"@,
        AppError::InvalidAddress(m) => "Invalid address: "@ + m@,
        AppError::TransactionFailed(m) => "Transaction failed: "@ + m@,
        AppError::BalanceQueryFailed(m) => "Balance query failed: "@ + m@,
        AppError::ConfigurationError(m) => "Configuration error: "@ + m@,
        AppError::InternalError(m) => "Internal error: "@ + m@,
        AppError::ValidationError(m) => "Validation error: "@ + m@,
        AppError::NotFound(m) => "Resource not found: "@ + m@,
    }
}

impl AppError {
    /// The HTTP status code this error maps to.
    pub fn status_code(&self) -> (code: u16)
        ensures
            code == spec_status_code(*self),
    {
        match self {
            AppError::WalletNotFound => 404,
            AppError::WalletCreationFailed(_) => 500,
            AppError::WalletLoadFailed(_) => 500,
            AppError::InvalidPrivateKey(_) => 400,
            AppError::InvalidPublicKey(_) => 400,
            AppError::Web3ConnectionFailed(_) => 503,
            AppError::Web3NotAvailable => 503,
            AppError::InvalidAddress(_) => 400,
            AppError::TransactionFailed(_) => 500,
            AppError::BalanceQueryFailed(_) => 500,
            AppError::ConfigurationError(_) => 500,
            AppError::InternalError(_) => 500,
            AppError::ValidationError(_) => 400,
            AppError::NotFound(_) => 404,
        }
    }

    /// The machine-readable kind this error maps to.
    pub fn error_kind(&self) -> (kind: String)
        ensures
            kind@ == spec_error_kind(*self),
    {
        match self {
            AppError::WalletNotFound => "WALLET_NOT_FOUND".to_owned(),
            AppError::WalletCreationFailed(_) => "WALLET_CREATION_FAILED".to_owned(),
            AppError::WalletLoadFailed(_) => "WALLET_LOAD_FAILED".to_owned(),
            AppError::InvalidPrivateKey(_) => "INVALID_PRIVATE_KEY".to_owned(),
            AppError::InvalidPublicKey(_) => "INVALID_PUBLIC_KEY".to_owned(),
            AppError::Web3ConnectionFailed(_) => "WEB3_CONNECTION_FAILED".to_owned(),
            AppError::Web3NotAvailable => "WEB3_NOT_AVAILABLE".to_owned(),
            AppError::InvalidAddress(_) => "INVALID_ADDRESS".to_owned(),
            AppError::TransactionFailed(_) => "TRANSACTION_FAILED".to_owned(),
            AppError::BalanceQueryFailed(_) => "BALANCE_QUERY_FAILED".to_owned(),
            AppError::ConfigurationError(_) => "CONFIGURATION_ERROR".to_owned(),
            AppError::InternalError(_) => "INTERNAL_ERROR".to_owned(),
            AppError::ValidationError(_) => "VALIDATION_ERROR".to_owned(),
            AppError::NotFound(_) => "NOT_FOUND".to_owned(),
        }
    }

    /// The human-readable message this error maps to.
    pub fn message(&self) -> (msg: String)
        ensures
            msg@ == spec_message(*self),
    {
        match self {
            AppError::WalletNotFound => "Wallet not found".to_owned(),
            AppError::WalletCreationFailed(m) => "Wallet creation failed: ".to_owned().concat(m.as_str()),
            AppError::WalletLoadFailed(m) => "Failed to load wallet: ".to_owned().concat(m.as_str()),
            AppError::InvalidPrivateKey(m) => "Invalid private key: ".to_owned().concat(m.as_str()),
            AppError::InvalidPublicKey(m) => "Invalid public key: ".to_owned().concat(m.as_str()),
            AppError::Web3ConnectionFailed(m) => "Web3 connection failed: ".to_owned().concat(m.as_str()),
            AppError::Web3NotAvailable => "Web3 connection not available".to_owned(),
            AppError::InvalidAddress(m) => "Invalid address: ".to_owned().concat(m.as_str()),
            AppError::TransactionFailed(m) => "Transaction failed: ".to_owned().concat(m.as_str()),
            AppError::BalanceQueryFailed(m) => "Balance query failed: ".to_owned().concat(m.as_str()),
            AppError::ConfigurationError(m) => "Configuration error: ".to_owned().concat(m.as_str()),
            AppError::InternalError(m) => "Internal error: ".to_owned().concat(m.as_str()),
            AppError::ValidationError(m) => "Validation error: ".to_owned().concat(m.as_str()),
            AppError::NotFound(m) => "Resource not found: ".to_owned().concat(m.as_str()),
        }
    }

    /// The complete failure envelope for the HTTP layer.
    pub fn to_error_response(&self) -> (resp: ErrorResponse)
        ensures
            resp.error@ == spec_error_kind(*self),
            resp.message@ == spec_message(*self),
            resp.code == spec_status_code(*self),
    {
        ErrorResponse {
            error: self.error_kind(),
            message: self.message(),
            code: self.status_code(),
        }
    }
}

/// Alias kept for callers of the wallet core.
pub type AppResult<T> = Result<T, AppError>;

} // verus!
