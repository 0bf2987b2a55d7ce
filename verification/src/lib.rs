//! Server-side wallet core: a single secp256k1 keypair, its derived
//! Ethereum-style address, at-rest persistence with integrity validation,
//! exact unit conversions, and the decision logic of a chain client that
//! queries balances and submits signed transfers through a remote node.
//!
//! All I/O (files, HTTP, the node connection) lives outside this crate;
//! the functions here compute, decide and assemble values, and their
//! behaviour is stated in contracts.
//!
//! Security note: the persisted account file carries the secret key in
//! cleartext at a predictable path. That is a deliberate simplification
//! and a real risk — protect the file, or add encryption at rest, before
//! any production use.

pub mod errors;
pub mod text;
pub mod units;
pub mod keys;
pub mod models;
pub mod wallet;
pub mod codec;
pub mod chain;
pub mod config;

pub use chain::TransactionParameters;
pub use chain::Web3Service;
pub use config::AppConfig;
pub use config::EthereumConfig;
pub use config::ServerConfig;
pub use config::WalletConfig;
pub use errors::AppError;
pub use errors::AppResult;
pub use errors::ErrorResponse;
pub use models::Account;
pub use models::AccountInfo;
pub use models::BalanceInfo;
pub use models::NetworkInfo;
pub use models::TransactionInfo;
pub use models::TransactionRequest;
pub use models::TransactionStatus;
pub use wallet::WalletService;
