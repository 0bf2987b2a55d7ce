use eth_wallet::codec::{decode_account, encode_account};
use eth_wallet::AppError;
use eth_wallet::Account;
use eth_wallet::WalletService;

// The keypair of the smallest valid secret scalar is a fixed, well-known
// test vector; it exercises the whole derivation chain end to end.
const SK_ONE: &str = "0000000000000000000000000000000000000000000000000000000000000001";
const PK_ONE: &str = "0279be667ef9dcbbac55a06295ce870b07029bfcdb2dce28d959f2815b16f81798";
const ADDR_ONE: &str = "0x7e5f4552091a69125d5dfcb7b8c2659029395bdf";

#[test]
fn derives_known_address_from_known_key() {
    let svc = WalletService::new();
    let addr = svc.public_key_to_address(PK_ONE).unwrap();
    assert_eq!(addr, ADDR_ONE);
}

#[test]
fn rejects_text_that_is_not_a_public_key() {
    let svc = WalletService::new();
    let r = svc.public_key_to_address("not hex at all");
    assert!(matches!(r, Err(AppError::InvalidPublicKey(_))));
}

#[test]
fn generated_account_is_consistent_and_well_shaped() {
    let svc = WalletService::new();
    let account = svc.create_account().unwrap();
    assert_eq!(account.secret_key.len(), 64);
    assert_eq!(account.public_key.len(), 66);
    assert_eq!(account.public_address.len(), 42);
    assert!(account.public_address.starts_with("0x"));
    assert_eq!(svc.validate_account(&account).unwrap(), true);
}

#[test]
fn derivation_is_a_function_of_the_public_key() {
    let svc = WalletService::new();
    let account = svc.create_account().unwrap();
    // Validation recomputes the public key from the secret key and the
    // address from the public key; success means both agree.
    assert_eq!(svc.validate_account(&account).unwrap(), true);
    let addr_from_stored = svc.public_key_to_address(&account.public_key).unwrap();
    assert_eq!(addr_from_stored, account.public_address);
}

#[test]
fn encode_decode_roundtrip_returns_the_account() {
    let account = Account::new(SK_ONE, PK_ONE, ADDR_ONE);
    let text = encode_account(&account);
    let back = decode_account(&text).unwrap();
    assert!(back == account);
}

#[test]
fn decode_rejects_malformed_text() {
    assert!(matches!(
        decode_account("not an account at all"),
        Err(AppError::WalletLoadFailed(_))
    ));
    assert!(matches!(
        decode_account("{\"secret_key\":\"abc\""),
        Err(AppError::WalletLoadFailed(_))
    ));
    assert!(matches!(decode_account(""), Err(AppError::WalletLoadFailed(_))));
}

#[test]
fn load_without_stored_text_is_not_found() {
    let svc = WalletService::new();
    assert!(matches!(svc.load_account(None), Err(AppError::WalletNotFound)));
}

#[test]
fn initialize_twice_returns_byte_identical_account() {
    let svc = WalletService::new();
    // First start: nothing persisted yet.
    let (first, to_persist) = svc.initialize_wallet(None).unwrap();
    let text = to_persist.expect("a fresh account comes with text to persist");
    assert_eq!(first.public_address.len(), 42);
    assert!(first.public_address.starts_with("0x"));
    // Second start: the persisted text exists now.
    let (second, nothing_to_persist) = svc.initialize_wallet(Some(&text)).unwrap();
    assert!(nothing_to_persist.is_none());
    assert!(second == first);
    assert_eq!(second.secret_key, first.secret_key);
    assert_eq!(second.public_key, first.public_key);
    assert_eq!(second.public_address, first.public_address);
}

#[test]
fn validation_detects_tampered_public_key() {
    let svc = WalletService::new();
    let account = svc.create_account().unwrap();
    // Another parseable public key that is not the account's own.
    let tampered = Account::new(&account.secret_key, PK_ONE, &account.public_address);
    if account.public_key != PK_ONE {
        assert!(matches!(
            svc.validate_account(&tampered),
            Err(AppError::ValidationError(_))
        ));
    }
}

#[test]
fn validation_detects_tampered_address() {
    let svc = WalletService::new();
    let account = svc.create_account().unwrap();
    let tampered = Account::new(&account.secret_key, &account.public_key, ADDR_ONE);
    if account.public_address != ADDR_ONE {
        assert!(matches!(
            svc.validate_account(&tampered),
            Err(AppError::ValidationError(_))
        ));
    }
}

#[test]
fn validation_rejects_unparseable_keys() {
    let svc = WalletService::new();
    let bad_secret = Account::new("zz", PK_ONE, ADDR_ONE);
    assert!(matches!(
        svc.validate_account(&bad_secret),
        Err(AppError::InvalidPrivateKey(_))
    ));
    let bad_public = Account::new(SK_ONE, "zz", ADDR_ONE);
    assert!(matches!(
        svc.validate_account(&bad_public),
        Err(AppError::InvalidPublicKey(_))
    ));
}

#[test]
fn validate_accepts_the_known_vector() {
    let svc = WalletService::new();
    let account = Account::new(SK_ONE, PK_ONE, ADDR_ONE);
    assert_eq!(svc.validate_account(&account).unwrap(), true);
}

#[test]
fn get_secret_key_hands_out_only_parseable_keys() {
    let svc = WalletService::new();
    let account = Account::new(SK_ONE, PK_ONE, ADDR_ONE);
    assert_eq!(svc.get_secret_key(&account).unwrap(), SK_ONE);
    assert_eq!(svc.get_public_key(&account).unwrap(), PK_ONE);
    let broken = Account::new("0123", PK_ONE, ADDR_ONE);
    assert!(matches!(
        svc.get_secret_key(&broken),
        Err(AppError::InvalidPrivateKey(_))
    ));
}

#[test]
fn account_info_carries_public_fields_only() {
    let account = Account::new(SK_ONE, PK_ONE, ADDR_ONE);
    let info = account.to_account_info(1700000000);
    assert_eq!(info.public_key, PK_ONE);
    assert_eq!(info.address, ADDR_ONE);
    assert_eq!(info.created_at, Some(1700000000));
}
