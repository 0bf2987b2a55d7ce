use eth_wallet::chain::network_name_of;
use eth_wallet::AppError;
use eth_wallet::TransactionRequest;
use eth_wallet::TransactionStatus;
use eth_wallet::Web3Service;

const GOOD_ADDR: &str = "0x7e5f4552091a69125d5dfcb7b8c2659029395bdf";

fn connected_service() -> Web3Service {
    let mut svc = Web3Service::new(String::from("ws://localhost:8546"), 5);
    svc.record_connection(Ok(())).unwrap();
    svc
}

fn transfer_request(to: &str, amount: &str) -> TransactionRequest {
    TransactionRequest {
        to: String::from(to),
        amount_eth: String::from(amount),
        gas_price: None,
        gas_limit: None,
    }
}

#[test]
fn starts_disconnected() {
    let svc = Web3Service::new(String::from("ws://localhost:8546"), 1);
    assert!(!svc.is_connected());
}

#[test]
fn records_connection_outcome() {
    let mut svc = Web3Service::new(String::from("ws://localhost:8546"), 1);
    let failed = svc.record_connection(Err(String::from("connection refused")));
    assert!(matches!(failed, Err(AppError::Web3ConnectionFailed(_))));
    assert!(!svc.is_connected());
    svc.record_connection(Ok(())).unwrap();
    assert!(svc.is_connected());
}

#[test]
fn network_names_follow_the_fixed_lookup() {
    assert_eq!(network_name_of(1), "Mainnet");
    assert_eq!(network_name_of(3), "Ropsten");
    assert_eq!(network_name_of(4), "Rinkeby");
    assert_eq!(network_name_of(5), "Goerli");
    assert_eq!(network_name_of(11155111), "Sepolia");
    assert_eq!(network_name_of(1337), "Unknown");
}

#[test]
fn network_info_needs_a_connection() {
    let svc = Web3Service::new(String::from("ws://localhost:8546"), 1);
    assert!(matches!(
        svc.get_network_info(Some(100)),
        Err(AppError::Web3NotAvailable)
    ));
}

#[test]
fn network_info_degrades_only_the_block_height() {
    let svc = connected_service();
    let with_height = svc.get_network_info(Some(1234)).unwrap();
    assert_eq!(with_height.network_id, 5);
    assert_eq!(with_height.network_name, "Goerli");
    assert_eq!(with_height.rpc_url, "ws://localhost:8546");
    assert_eq!(with_height.block_number, Some(1234));
    let without_height = svc.get_network_info(None).unwrap();
    assert_eq!(without_height.block_number, None);
}

#[test]
fn balance_query_rejects_malformed_address_before_any_node_call() {
    let svc = connected_service();
    let r = svc.balance_query("not-a-valid-address");
    assert!(matches!(r, Err(AppError::InvalidAddress(_))));
}

#[test]
fn balance_query_needs_a_connection_first() {
    let svc = Web3Service::new(String::from("ws://localhost:8546"), 1);
    assert!(matches!(
        svc.balance_query(GOOD_ADDR),
        Err(AppError::Web3NotAvailable)
    ));
}

#[test]
fn balance_query_accepts_a_proper_address() {
    let svc = connected_service();
    assert!(svc.balance_query(GOOD_ADDR).is_ok());
}

#[test]
fn balance_info_carries_exact_values() {
    let svc = connected_service();
    let info = svc.make_balance_info(GOOD_ADDR, 1_500_000_000_000_000_000);
    assert_eq!(info.address, GOOD_ADDR);
    assert_eq!(info.balance_wei, "1500000000000000000");
    assert_eq!(info.balance_eth, "1.500000000000000000");
    assert_eq!(info.network_id, 5);
}

#[test]
fn transaction_value_is_the_exact_conversion() {
    let svc = connected_service();
    let tx = svc
        .create_transaction(GOOD_ADDR, "1.5", None, None)
        .unwrap();
    assert_eq!(tx.to, GOOD_ADDR);
    assert_eq!(tx.value_wei, 1_500_000_000_000_000_000);
}

#[test]
fn gas_overrides_are_carried_but_inert() {
    let svc = connected_service();
    let tx = svc
        .create_transaction(GOOD_ADDR, "0.25", Some(7), Some(21000))
        .unwrap();
    assert_eq!(tx.gas_price, Some(7));
    assert_eq!(tx.gas_limit, Some(21000));
    // The record of a submission shows that no override was applied.
    let request = transfer_request(GOOD_ADDR, "0.25");
    let record = svc.complete_transaction(&request, GOOD_ADDR, String::from("0xabc"), 1);
    assert_eq!(record.gas_price, None);
    assert_eq!(record.gas_limit, None);
}

#[test]
fn transaction_rejects_bad_destination_and_amount() {
    let svc = connected_service();
    assert!(matches!(
        svc.create_transaction("0x123", "1.5", None, None),
        Err(AppError::InvalidAddress(_))
    ));
    assert!(matches!(
        svc.create_transaction(GOOD_ADDR, "1.2.3", None, None),
        Err(AppError::ValidationError(_))
    ));
}

#[test]
fn submission_without_connection_is_unavailability_not_failure() {
    let svc = Web3Service::new(String::from("ws://localhost:8546"), 1);
    let request = transfer_request(GOOD_ADDR, "1.5");
    let r = svc.prepare_transaction(&request);
    assert!(matches!(r, Err(AppError::Web3NotAvailable)));
    assert!(!matches!(r, Err(AppError::TransactionFailed(_))));
}

#[test]
fn prepared_submission_builds_the_parameters() {
    let svc = connected_service();
    let request = transfer_request(GOOD_ADDR, "1.5");
    let tx = svc.prepare_transaction(&request).unwrap();
    assert_eq!(tx.value_wei, 1_500_000_000_000_000_000);
    let record = svc.complete_transaction(&request, GOOD_ADDR, String::from("0xfeed"), 1700000000);
    assert_eq!(record.transaction_hash, "0xfeed");
    assert_eq!(record.from, GOOD_ADDR);
    assert_eq!(record.to, GOOD_ADDR);
    assert_eq!(record.amount_eth, "1.5");
    assert!(matches!(record.status, TransactionStatus::Pending));
    assert_eq!(record.timestamp, 1700000000);
}

#[test]
fn gas_estimation_checks_in_order() {
    let disconnected = Web3Service::new(String::from("ws://localhost:8546"), 1);
    assert!(matches!(
        disconnected.estimate_gas(GOOD_ADDR, "1", GOOD_ADDR),
        Err(AppError::Web3NotAvailable)
    ));
    let svc = connected_service();
    assert!(matches!(
        svc.estimate_gas("bad", "1", GOOD_ADDR),
        Err(AppError::InvalidAddress(_))
    ));
    assert!(matches!(
        svc.estimate_gas(GOOD_ADDR, "1", "bad"),
        Err(AppError::InvalidAddress(_))
    ));
    assert!(matches!(
        svc.estimate_gas(GOOD_ADDR, "x", GOOD_ADDR),
        Err(AppError::ValidationError(_))
    ));
    assert_eq!(
        svc.estimate_gas(GOOD_ADDR, "1", GOOD_ADDR).unwrap(),
        1_000_000_000_000_000_000
    );
}

#[test]
fn gas_price_query_needs_only_a_connection() {
    let svc = connected_service();
    assert!(svc.gas_price_query().is_ok());
    let disconnected = Web3Service::new(String::from("ws://localhost:8546"), 1);
    assert!(matches!(
        disconnected.gas_price_query(),
        Err(AppError::Web3NotAvailable)
    ));
}
