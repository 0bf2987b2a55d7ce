//! The account service: keypair generation, address derivation, and
//! integrity validation of a stored account.
//!
//! An account is consistent when its public key is the one derived from its
//! secret key and its address is the one derived from its public key.
//! Validation recomputes both and reports exactly where a stored account
//! deviates.

use vstd::prelude::*;
use vstd::slice::slice_subrange;
use crate::errors::AppError;
use crate::models::Account;
use crate::keys::{
    keccak256_of, pubkey_hex_of, pubkey_uncompressed_of, is_secret_key_hex,
    is_public_key_hex, spec_address_of, lemma_address_is_function_of_public_key,
    keccak256_digest, generate_keypair_hex, check_secret_key, check_public_key,
    derive_public_hex, pubkey_uncompressed_bytes,
};
use crate::text::{
    spec_hex_str, push_char, push_hex_range, lemma_hex_str_len, lemma_hex_str_digits,
    all_hex_digits, is_hex_digit,
};
use crate::codec::{
    quote_free, encodable, spec_encode_account, encode_account, decode_account,
};
use crate::models::account_eq;

verus! {

/// A fully consistent account: both stored keys parse, the public key is
/// the one derived from the secret key, and the address is the one derived
/// from the public key.
pub open spec fn account_consistent(a: Account) -> bool {
    &&& is_secret_key_hex(a.secret_key@)
    &&& is_public_key_hex(a.public_key@)
    &&& a.public_key@ == pubkey_hex_of(a.secret_key@)
    &&& a.public_address@ == spec_address_of(a.public_key@)
}

/// The account service. It holds no state of its own; every operation is a
/// function of its arguments (and, for generation, of fresh randomness).
pub struct WalletService {
}

impl WalletService {
    pub fn new() -> (s: WalletService) {
        WalletService {  }
    }

    /// Generates a fresh keypair from the operating system's randomness
    /// source. On success the public key is exactly the one derived from
    /// the secret key; if the randomness source is unavailable, this fails
    /// with a creation error rather than falling back to anything weaker.
    pub fn generate_keypair(&self) -> (r: Result<(String, String), AppError>)
        ensures
            r matches Ok(kp) ==> {
                &&& is_secret_key_hex(kp.0@)
                &&& kp.0@.len() == 64
                &&& all_hex_digits(kp.0@)
                &&& kp.1@ == pubkey_hex_of(kp.0@)
                &&& is_public_key_hex(kp.1@)
                &&& kp.1@.len() == 66
                &&& all_hex_digits(kp.1@)
            },
            r matches Err(e) ==> e matches AppError::WalletCreationFailed(_),
    {
        match generate_keypair_hex() {
            Ok(kp) => Ok(kp),
            Err(msg) => Err(AppError::WalletCreationFailed(msg)),
        }
    }

    /// Derives the chain address of a public key given in hex: keccak-256
    /// over the untagged uncompressed point, low-order 20 bytes, 0x-prefixed
    /// hex. Fails exactly on text that is not a public key.
    pub fn public_key_to_address(&self, public_key: &str) -> (r: Result<String, AppError>)
        ensures
            r is Ok <==> is_public_key_hex(public_key@),
            r matches Ok(addr) ==> {
                &&& addr@ == spec_address_of(public_key@)
                &&& addr@.len() == 42
            },
            r matches Err(e) ==> e matches AppError::InvalidPublicKey(m) && m@ == public_key@,
    {
        let bytes = match pubkey_uncompressed_bytes(public_key) {
            Some(b) => b,
            None => {
                return Err(AppError::InvalidPublicKey(public_key.to_owned()));
            },
        };
        let tail = slice_subrange(bytes.as_slice(), 1, 65);
        let digest = keccak256_digest(tail);
        let mut addr = String::new();
        push_char(&mut addr, '0');
        push_char(&mut addr, 'x');
        push_hex_range(&mut addr, &digest, 12, 32);
        proof {
            lemma_hex_str_len(digest@.subrange(12, 32));
            assert(addr@ =~= spec_address_of(public_key@));
        }
        Ok(addr)
    }

    /// Composes generation and derivation into a fresh, consistent account,
    /// ready to be persisted.
    pub fn create_account(&self) -> (r: Result<Account, AppError>)
        ensures
            r matches Ok(a) ==> {
                &&& account_consistent(a)
                &&& encodable(a)
                &&& a.secret_key@.len() == 64
                &&& a.public_key@.len() == 66
                &&& a.public_address@.len() == 42
            },
            r matches Err(e) ==> e matches AppError::WalletCreationFailed(_),
    {
        let (secret_key, public_key) = match self.generate_keypair() {
            Ok(kp) => kp,
            Err(e) => {
                return Err(e);
            },
        };
        proof {
            lemma_address_is_function_of_public_key(secret_key@, public_key@);
        }
        let address = match self.public_key_to_address(public_key.as_str()) {
            Ok(a) => a,
            Err(_) => {
                // Unreachable: a freshly derived public key always parses.
                return Err(AppError::WalletCreationFailed(
                    "derived public key did not parse".to_owned(),
                ));
            },
        };
        proof {
            lemma_hex_quote_free(secret_key@);
            lemma_hex_quote_free(public_key@);
            lemma_address_quote_free(public_key@);
        }
        Ok(Account::new(secret_key.as_str(), public_key.as_str(), address.as_str()))
    }

    /// The text to persist for an account; the caller writes it to storage,
    /// atomically replacing any previous content.
    pub fn save_account(&self, account: &Account) -> (r: String)
        ensures
            r@ == spec_encode_account(*account),
    {
        encode_account(account)
    }

    /// Reads an account back from what storage held: an absent file is
    /// not-found, text in the canonical form yields exactly the account
    /// that was persisted, and any other text is a load failure.
    pub fn load_account(&self, stored: Option<&str>) -> (r: Result<Account, AppError>)
        ensures
            stored is None ==> (r matches Err(e) && e matches AppError::WalletNotFound),
            stored matches Some(text) ==> {
                &&& (r matches Ok(a) ==> encodable(a) && text@ == spec_encode_account(a))
                &&& (forall|a: Account| (encodable(a) && text@ == #[trigger] spec_encode_account(
                    a,
                )) ==> r is Ok && account_eq(r.unwrap(), a))
                &&& (r matches Err(e) ==> e matches AppError::WalletLoadFailed(_))
            },
    {
        match stored {
            None => Err(AppError::WalletNotFound),
            Some(text) => decode_account(text),
        }
    }

    /// The single bootstrap entry point, split from storage: the caller
    /// hands in the persisted text where the configured path existed.
    /// With stored text this loads it; with none it creates a fresh
    /// account and hands back the text to persist beside it. Loading text
    /// persisted by an earlier run returns that run's account unchanged,
    /// so bootstrap is idempotent across restarts.
    pub fn initialize_wallet(&self, stored: Option<&str>) -> (r: Result<
        (Account, Option<String>),
        AppError,
    >)
        ensures
            stored matches Some(text) ==> {
                &&& (r matches Ok(p) ==> p.1 is None && encodable(p.0) && text@
                    == spec_encode_account(p.0))
                &&& (forall|a: Account| (encodable(a) && text@ == #[trigger] spec_encode_account(
                    a,
                )) ==> r is Ok && account_eq(r.unwrap().0, a))
                &&& (r matches Err(e) ==> e matches AppError::WalletLoadFailed(_))
            },
            stored is None ==> {
                &&& (r matches Ok(p) ==> {
                    &&& account_consistent(p.0)
                    &&& encodable(p.0)
                    &&& p.1 matches Some(enc) && enc@ == spec_encode_account(p.0)
                })
                &&& (r matches Err(e) ==> e matches AppError::WalletCreationFailed(_))
            },
    {
        match stored {
            Some(text) => match decode_account(text) {
                Ok(account) => Ok((account, None)),
                Err(e) => Err(e),
            },
            None => {
                let account = match self.create_account() {
                    Ok(a) => a,
                    Err(e) => {
                        return Err(e);
                    },
                };
                let encoded = encode_account(&account);
                Ok((account, Some(encoded)))
            },
        }
    }

    /// Hands out the stored secret key after checking that it parses.
    pub fn get_secret_key(&self, account: &Account) -> (r: Result<String, AppError>)
        ensures
            r is Ok <==> is_secret_key_hex(account.secret_key@),
            r matches Ok(sk) ==> sk@ == account.secret_key@,
            r matches Err(e) ==> e matches AppError::InvalidPrivateKey(_),
    {
        if check_secret_key(account.secret_key.as_str()) {
            Ok(account.secret_key.clone())
        } else {
            Err(AppError::InvalidPrivateKey("stored secret key does not parse".to_owned()))
        }
    }

    /// Hands out the stored public key after checking that it parses.
    pub fn get_public_key(&self, account: &Account) -> (r: Result<String, AppError>)
        ensures
            r is Ok <==> is_public_key_hex(account.public_key@),
            r matches Ok(pk) ==> pk@ == account.public_key@,
            r matches Err(e) ==> e matches AppError::InvalidPublicKey(_),
    {
        if check_public_key(account.public_key.as_str()) {
            Ok(account.public_key.clone())
        } else {
            Err(AppError::InvalidPublicKey("stored public key does not parse".to_owned()))
        }
    }

    /// Validates a stored account: both keys must parse, the public key
    /// must be the one recomputed from the secret key, and the address the
    /// one recomputed from the public key. Succeeds exactly on consistent
    /// accounts; a mismatch of recomputed values is a validation error,
    /// a key that does not parse an invalid-key error.
    pub fn validate_account(&self, account: &Account) -> (r: Result<bool, AppError>)
        ensures
            r is Ok <==> account_consistent(*account),
            r matches Ok(b) ==> b,
            !is_secret_key_hex(account.secret_key@) ==> (r matches Err(e)
                && e matches AppError::InvalidPrivateKey(_)),
            is_secret_key_hex(account.secret_key@) && !is_public_key_hex(account.public_key@)
                ==> (r matches Err(e) && e matches AppError::InvalidPublicKey(_)),
            is_secret_key_hex(account.secret_key@) && is_public_key_hex(account.public_key@)
                && account.public_key@ != pubkey_hex_of(account.secret_key@) ==> (
            r matches Err(e) && e matches AppError::ValidationError(_)),
            is_secret_key_hex(account.secret_key@) && is_public_key_hex(account.public_key@)
                && account.public_key@ == pubkey_hex_of(account.secret_key@)
                && account.public_address@ != spec_address_of(account.public_key@) ==> (
            r matches Err(e) && e matches AppError::ValidationError(_)),
    {
        if !check_secret_key(account.secret_key.as_str()) {
            return Err(AppError::InvalidPrivateKey("stored secret key does not parse".to_owned()));
        }
        if !check_public_key(account.public_key.as_str()) {
            return Err(AppError::InvalidPublicKey("stored public key does not parse".to_owned()));
        }
        let derived_public = match derive_public_hex(account.secret_key.as_str()) {
            Some(pk) => pk,
            None => {
                return Err(AppError::InvalidPrivateKey(
                    "stored secret key does not parse".to_owned(),
                ));
            },
        };
        if !(account.public_key == derived_public) {
            return Err(AppError::ValidationError(
                "public key does not match secret key".to_owned(),
            ));
        }
        let derived_address = match self.public_key_to_address(account.public_key.as_str()) {
            Ok(a) => a,
            Err(e) => {
                return Err(e);
            },
        };
        if !(account.public_address == derived_address) {
            return Err(AppError::ValidationError(
                "address does not match public key".to_owned(),
            ));
        }
        Ok(true)
    }
}

impl Default for WalletService {
    fn default() -> (s: WalletService) {
        WalletService::new()
    }
}

/// Text made of hex digits cannot carry a double quote.
proof fn lemma_hex_quote_free(s: Seq<char>)
    requires
        all_hex_digits(s),
    ensures
        quote_free(s),
{
    assert forall|i: int| 0 <= i < s.len() implies #[trigger] s[i] != '"' by {
        assert(is_hex_digit(s[i]));
    }
}

/// A derived address is the 0x prefix followed by hex digits, so it cannot
/// carry a double quote either.
proof fn lemma_address_quote_free(pk: Seq<char>)
    ensures
        quote_free(spec_address_of(pk)),
{
    let digest_part = keccak256_of(pubkey_uncompressed_of(pk).subrange(1, 65)).subrange(12, 32);
    let h = spec_hex_str(digest_part);
    lemma_hex_str_digits(digest_part);
    let addr = spec_address_of(pk);
    assert forall|i: int| 0 <= i < addr.len() implies #[trigger] addr[i] != '"' by {
        if i >= 2 {
            assert(addr[i] == h[i - 2]);
            assert(is_hex_digit(h[i - 2]));
        }
    }
}

/// Idempotent bootstrap: if a first initialization created account `a` and
/// persisted its canonical text, then any account a later initialization
/// accepts from that same text is `a` itself.
pub proof fn lemma_bootstrap_idempotent(a: Account, b: Account)
    ensures
        (encodable(a) && encodable(b) && spec_encode_account(b) == spec_encode_account(a))
            ==> account_eq(a, b),
{
    crate::codec::lemma_encoding_injective(a, b);
}

/// Tampering is detected: starting from a consistent account, changing the
/// stored public key (to any other text the key parser accepts) or the
/// stored address, while leaving the secret key alone, yields an account
/// that validation rejects as a mismatch of recomputed values.
pub proof fn lemma_validate_detects_tampering(a: Account, b: Account)
    ensures
        (account_consistent(a) && b.secret_key@ == a.secret_key@ && is_public_key_hex(
            b.public_key@,
        ) && (b.public_key@ != a.public_key@ || b.public_address@ != a.public_address@)) ==> {
            &&& is_secret_key_hex(b.secret_key@)
            &&& is_public_key_hex(b.public_key@)
            &&& (b.public_key@ != pubkey_hex_of(b.secret_key@) || b.public_address@
                != spec_address_of(b.public_key@))
            &&& !account_consistent(b)
        },
{
}

} // verus!
