use eth_wallet::AppConfig;
use eth_wallet::AppError;

#[test]
fn default_configuration_values() {
    let config = AppConfig::default();
    assert_eq!(config.server.host, "0.0.0.0");
    assert_eq!(config.server.port, 3000);
    assert_eq!(config.ethereum.network_id, 1);
    assert_eq!(config.wallet.config_file, "account_config.json");
    assert!(config.ethereum.rpc_url.starts_with("wss://"));
}

#[test]
fn server_address_joins_host_and_port() {
    let config = AppConfig::default();
    assert_eq!(config.server_address(), "0.0.0.0:3000");
}

#[test]
fn status_codes_by_error_class() {
    // Validation failures are client errors.
    assert_eq!(AppError::InvalidAddress(String::from("x")).status_code(), 400);
    assert_eq!(AppError::InvalidPrivateKey(String::from("x")).status_code(), 400);
    assert_eq!(AppError::InvalidPublicKey(String::from("x")).status_code(), 400);
    assert_eq!(AppError::ValidationError(String::from("x")).status_code(), 400);
    // Connectivity failures are service-unavailable.
    assert_eq!(AppError::Web3NotAvailable.status_code(), 503);
    assert_eq!(AppError::Web3ConnectionFailed(String::from("x")).status_code(), 503);
    // Missing resources are not-found.
    assert_eq!(AppError::WalletNotFound.status_code(), 404);
    assert_eq!(AppError::NotFound(String::from("x")).status_code(), 404);
    // Everything else is a server error.
    assert_eq!(AppError::WalletCreationFailed(String::from("x")).status_code(), 500);
    assert_eq!(AppError::WalletLoadFailed(String::from("x")).status_code(), 500);
    assert_eq!(AppError::TransactionFailed(String::from("x")).status_code(), 500);
    assert_eq!(AppError::BalanceQueryFailed(String::from("x")).status_code(), 500);
    assert_eq!(AppError::ConfigurationError(String::from("x")).status_code(), 500);
    assert_eq!(AppError::InternalError(String::from("x")).status_code(), 500);
}

#[test]
fn error_kinds_are_distinct_and_stable() {
    assert_eq!(AppError::WalletNotFound.error_kind(), "WALLET_NOT_FOUND");
    assert_eq!(AppError::Web3NotAvailable.error_kind(), "WEB3_NOT_AVAILABLE");
    assert_eq!(
        AppError::InvalidAddress(String::from("x")).error_kind(),
        "INVALID_ADDRESS"
    );
    let kinds = [
        AppError::WalletNotFound.error_kind(),
        AppError::WalletCreationFailed(String::new()).error_kind(),
        AppError::WalletLoadFailed(String::new()).error_kind(),
        AppError::InvalidPrivateKey(String::new()).error_kind(),
        AppError::InvalidPublicKey(String::new()).error_kind(),
        AppError::Web3ConnectionFailed(String::new()).error_kind(),
        AppError::Web3NotAvailable.error_kind(),
        AppError::InvalidAddress(String::new()).error_kind(),
        AppError::TransactionFailed(String::new()).error_kind(),
        AppError::BalanceQueryFailed(String::new()).error_kind(),
        AppError::ConfigurationError(String::new()).error_kind(),
        AppError::InternalError(String::new()).error_kind(),
        AppError::ValidationError(String::new()).error_kind(),
        AppError::NotFound(String::new()).error_kind(),
    ];
    for (i, a) in kinds.iter().enumerate() {
        for (j, b) in kinds.iter().enumerate() {
            if i != j {
                assert_ne!(a, b);
            }
        }
    }
}

#[test]
fn messages_carry_their_context() {
    assert_eq!(AppError::WalletNotFound.message(), "Wallet not found");
    assert_eq!(
        AppError::InvalidAddress(String::from("0xzz")).message(),
        "Invalid address: 0xzz"
    );
    assert_eq!(
        AppError::TransactionFailed(String::from("nonce conflict")).message(),
        "Transaction failed: nonce conflict"
    );
}

#[test]
fn error_response_envelope() {
    let resp = AppError::Web3NotAvailable.to_error_response();
    assert_eq!(resp.error, "WEB3_NOT_AVAILABLE");
    assert_eq!(resp.message, "Web3 connection not available");
    assert_eq!(resp.code, 503);
}
