//! The at-rest form of an account: a JSON object with the three textual
//! fields, written and read by this module alone. Encoding is canonical
//! (fixed key order, no added whitespace) and decoding accepts exactly the
//! canonical form, so an account round-trips through persistence unchanged.
//! The secret key is stored in cleartext: protect the file, or add
//! encryption at rest, before any production use.

use vstd::prelude::*;
use crate::errors::AppError;
use crate::models::{Account, account_eq};

verus! {

/// Whether a field value is free of double quotes, the one character the
/// canonical form cannot carry. Key and address text is hex and always is.
pub open spec fn quote_free(s: Seq<char>) -> bool {
    forall|i: int| 0 <= i < s.len() ==> #[trigger] s[i] != '"'
}

/// Whether an account can be written in the canonical form.
pub open spec fn encodable(a: Account) -> bool {
    &&& quote_free(a.secret_key@)
    &&& quote_free(a.public_key@)
    &&& quote_free(a.public_address@)
}

/// The canonical persisted text of an account.
pub open spec fn spec_encode_account(a: Account) -> Seq<char> {
    "{\"secret_key\":\""@ + a.secret_key@ + "\",\"public_key\":\""@ + a.public_key@
        + "\",\"public_address\":\""@ + a.public_address@ + "\"}"@
}

/// The lengths and leading characters of the four fixed framing pieces.
proof fn lemma_framing_literals()
    ensures
        "{\"secret_key\":\""@.len() == 15,
        "\",\"public_key\":\""@.len() == 16,
        "\",\"public_address\":\""@.len() == 20,
        "\"}"@.len() == 2,
        "\",\"public_key\":\""@[0] == '"',
        "\",\"public_address\":\""@[0] == '"',
        "\"}"@[0] == '"',
{
    reveal_strlit("{\"secret_key\":\"");
    reveal_strlit("\",\"public_key\":\"");
    reveal_strlit("\",\"public_address\":\"");
    reveal_strlit("\"}");
}

/// How the canonical text of an encodable account decomposes: the framing
/// pieces stand at fixed offsets around the fields, each field is free of
/// quotes, and each field is followed by a quote.
proof fn lemma_encoding_shape(s: Seq<char>, a: Account)
    requires
        encodable(a),
        s == spec_encode_account(a),
    ensures
        ({
            let k1 = 15 + a.secret_key@.len() as int;
            let k2 = k1 + 16 + a.public_key@.len() as int;
            let k3 = k2 + 20 + a.public_address@.len() as int;
            &&& s.len() == k3 + 2
            &&& s.subrange(0, 15) == "{\"secret_key\":\""@
            &&& s.subrange(15, k1) == a.secret_key@
            &&& (forall|t: int| 15 <= t < k1 ==> #[trigger] s[t] != '"')
            &&& s[k1] == '"'
            &&& s.subrange(k1, k1 + 16) == "\",\"public_key\":\""@
            &&& s.subrange(k1 + 16, k2) == a.public_key@
            &&& (forall|t: int| k1 + 16 <= t < k2 ==> #[trigger] s[t] != '"')
            &&& s[k2] == '"'
            &&& s.subrange(k2, k2 + 20) == "\",\"public_address\":\""@
            &&& s.subrange(k2 + 20, k3) == a.public_address@
            &&& (forall|t: int| k2 + 20 <= t < k3 ==> #[trigger] s[t] != '"')
            &&& s[k3] == '"'
            &&& s.subrange(k3, k3 + 2) == "\"}"@
        }),
{
    lemma_framing_literals();
    let pre = "{\"secret_key\":\""@;
    let sep1 = "\",\"public_key\":\""@;
    let sep2 = "\",\"public_address\":\""@;
    let suf = "\"}"@;
    let k1 = 15 + a.secret_key@.len() as int;
    let k2 = k1 + 16 + a.public_key@.len() as int;
    let k3 = k2 + 20 + a.public_address@.len() as int;
    assert(s.len() == k3 + 2);
    assert(s.subrange(0, 15) =~= pre);
    assert(s.subrange(15, k1) =~= a.secret_key@);
    assert(s.subrange(k1, k1 + 16) =~= sep1);
    assert(s.subrange(k1 + 16, k2) =~= a.public_key@);
    assert(s.subrange(k2, k2 + 20) =~= sep2);
    assert(s.subrange(k2 + 20, k3) =~= a.public_address@);
    assert(s.subrange(k3, k3 + 2) =~= suf);
    assert(s[k1] == sep1[0]);
    assert(s[k2] == sep2[0]);
    assert(s[k3] == suf[0]);
    assert forall|t: int| 15 <= t < k1 implies #[trigger] s[t] != '"' by {
        assert(s[t] == a.secret_key@[t - 15]);
    }
    assert forall|t: int| k1 + 16 <= t < k2 implies #[trigger] s[t] != '"' by {
        assert(s[t] == a.public_key@[t - (k1 + 16)]);
    }
    assert forall|t: int| k2 + 20 <= t < k3 implies #[trigger] s[t] != '"' by {
        assert(s[t] == a.public_address@[t - (k2 + 20)]);
    }
}

/// Round-trip uniqueness: the persisted text determines the account. Two
/// encodable accounts with the same canonical text are field-wise equal,
/// so loading what was persisted recovers exactly the persisted account.
pub proof fn lemma_encoding_injective(a: Account, b: Account)
    ensures
        (encodable(a) && encodable(b) && spec_encode_account(a) == spec_encode_account(b))
            ==> account_eq(a, b),
{
    if encodable(a) && encodable(b) && spec_encode_account(a) == spec_encode_account(b) {
        let s = spec_encode_account(a);
        lemma_encoding_shape(s, a);
        lemma_encoding_shape(s, b);
        let ka1 = 15 + a.secret_key@.len() as int;
        let kb1 = 15 + b.secret_key@.len() as int;
        assert(ka1 == kb1) by {
            if ka1 < kb1 {
                assert(s[ka1] == '"');
                assert(s[ka1] != '"');
            }
            if kb1 < ka1 {
                assert(s[kb1] == '"');
                assert(s[kb1] != '"');
            }
        }
        assert(a.secret_key@ == b.secret_key@);
        let ka2 = ka1 + 16 + a.public_key@.len() as int;
        let kb2 = kb1 + 16 + b.public_key@.len() as int;
        assert(ka2 == kb2) by {
            if ka2 < kb2 {
                assert(s[ka2] == '"');
                assert(s[ka2] != '"');
            }
            if kb2 < ka2 {
                assert(s[kb2] == '"');
                assert(s[kb2] != '"');
            }
        }
        assert(a.public_key@ == b.public_key@);
        let ka3 = ka2 + 20 + a.public_address@.len() as int;
        let kb3 = kb2 + 20 + b.public_address@.len() as int;
        assert(ka3 == kb3);
        assert(a.public_address@ == b.public_address@);
    }
}

/// Writes an account in the canonical persisted form.
pub fn encode_account(account: &Account) -> (r: String)
    ensures
        r@ == spec_encode_account(*account),
{
    let mut s = String::new();
    s.append("{\"secret_key\":\"");
    s.append(account.secret_key.as_str());
    s.append("\",\"public_key\":\"");
    s.append(account.public_key.as_str());
    s.append("\",\"public_address\":\"");
    s.append(account.public_address.as_str());
    s.append("\"}");
    assert(s@ =~= spec_encode_account(*account));
    s
}

/// Whether `lit` occurs in `s` starting at `at`, as an executable test.
fn match_lit(s: &str, at: usize, lit: &str) -> (b: bool)
    ensures
        b == (at + lit@.len() <= s@.len() && s@.subrange(
            at as int,
            at as int + lit@.len() as int,
        ) == lit@),
{
    let n = s.unicode_len();
    let llen = lit.unicode_len();
    if at > n || llen > n - at {
        return false;
    }
    let mut i: usize = 0;
    while i < llen
        invariant
            i <= llen,
            at + llen <= n,
            n == s@.len(),
            llen == lit@.len(),
            forall|t: int| 0 <= t < i ==> s@[at + t] == #[trigger] lit@[t],
        decreases llen - i,
    {
        let sc = s.get_char(at + i);
        let lc = lit.get_char(i);
        if !(sc == lc) {
            proof {
                let sub = s@.subrange(at as int, at as int + lit@.len() as int);
                assert(sub[i as int] == s@[at + i]);
            }
            return false;
        }
        i = i + 1;
    }
    proof {
        assert(s@.subrange(at as int, at as int + lit@.len() as int) =~= lit@);
    }
    true
}

/// The position of the first double quote at or after `from`, if any.
fn find_quote(s: &str, from: usize) -> (r: Option<usize>)
    ensures
        r matches Some(q) ==> {
            &&& from <= q < s@.len()
            &&& s@[q as int] == '"'
            &&& forall|t: int| from <= t < q ==> #[trigger] s@[t] != '"'
        },
        r is None ==> forall|t: int| from <= t < s@.len() ==> #[trigger] s@[t] != '"',
{
    let n = s.unicode_len();
    let mut i: usize = from;
    while i < n
        invariant
            from <= i,
            n == s@.len(),
            i <= n || from > n,
            forall|t: int| from <= t < i ==> #[trigger] s@[t] != '"',
        decreases n - i,
    {
        if s.get_char(i) == '"' {
            return Some(i);
        }
        i = i + 1;
    }
    None
}

/// Copies the characters of `s[from..to]` into a fresh string.
fn substring_of(s: &str, from: usize, to: usize) -> (r: String)
    requires
        from <= to <= s@.len(),
    ensures
        r@ == s@.subrange(from as int, to as int),
{
    s.substring_char(from, to).to_owned()
}

/// Reads an account from persisted text. Succeeds exactly on the canonical
/// text of an encodable account, and then returns that account; any other
/// text is rejected as malformed.
pub fn decode_account(s: &str) -> (r: Result<Account, AppError>)
    ensures
        r matches Ok(a) ==> encodable(a) && s@ == spec_encode_account(a),
        forall|a: Account| (encodable(a) && s@ == #[trigger] spec_encode_account(a)) ==> (
        r is Ok && account_eq(r.unwrap(), a)),
        r matches Err(e) ==> e matches AppError::WalletLoadFailed(_),
{
    let n = s.unicode_len();
    proof {
        lemma_framing_literals();
    }
    if !match_lit(s, 0, "{\"secret_key\":\"") {
        proof {
            assert forall|a: Account| !(encodable(a) && s@ == #[trigger] spec_encode_account(
                a,
            )) by {
                if encodable(a) && s@ == spec_encode_account(a) {
                    lemma_encoding_shape(s@, a);
                }
            }
        }
        return Err(AppError::WalletLoadFailed("unrecognized account format".to_owned()));
    }
    let q1 = match find_quote(s, 15) {
        Some(q) => q,
        None => {
            proof {
                assert forall|a: Account| !(encodable(a) && s@ == #[trigger] spec_encode_account(
                    a,
                )) by {
                    if encodable(a) && s@ == spec_encode_account(a) {
                        lemma_encoding_shape(s@, a);
                    }
                }
            }
            return Err(AppError::WalletLoadFailed("unrecognized account format".to_owned()));
        },
    };
    if !match_lit(s, q1, "\",\"public_key\":\"") {
        proof {
            assert forall|a: Account| !(encodable(a) && s@ == #[trigger] spec_encode_account(
                a,
            )) by {
                if encodable(a) && s@ == spec_encode_account(a) {
                    lemma_encoding_shape(s@, a);
                    lemma_quote_pins(s@, 15, q1 as int, 15 + a.secret_key@.len() as int);
                }
            }
        }
        return Err(AppError::WalletLoadFailed("unrecognized account format".to_owned()));
    }
    let q2 = match find_quote(s, q1 + 16) {
        Some(q) => q,
        None => {
            proof {
                assert forall|a: Account| !(encodable(a) && s@ == #[trigger] spec_encode_account(
                    a,
                )) by {
                    if encodable(a) && s@ == spec_encode_account(a) {
                        lemma_encoding_shape(s@, a);
                        lemma_quote_pins(s@, 15, q1 as int, 15 + a.secret_key@.len() as int);
                    }
                }
            }
            return Err(AppError::WalletLoadFailed("unrecognized account format".to_owned()));
        },
    };
    if !match_lit(s, q2, "\",\"public_address\":\"") {
        proof {
            assert forall|a: Account| !(encodable(a) && s@ == #[trigger] spec_encode_account(
                a,
            )) by {
                if encodable(a) && s@ == spec_encode_account(a) {
                    lemma_encoding_shape(s@, a);
                    let k1 = 15 + a.secret_key@.len() as int;
                    lemma_quote_pins(s@, 15, q1 as int, k1);
                    lemma_quote_pins(s@, q1 + 16, q2 as int, k1 + 16 + a.public_key@.len() as int);
                }
            }
        }
        return Err(AppError::WalletLoadFailed("unrecognized account format".to_owned()));
    }
    let q3 = match find_quote(s, q2 + 20) {
        Some(q) => q,
        None => {
            proof {
                assert forall|a: Account| !(encodable(a) && s@ == #[trigger] spec_encode_account(
                    a,
                )) by {
                    if encodable(a) && s@ == spec_encode_account(a) {
                        lemma_encoding_shape(s@, a);
                        let k1 = 15 + a.secret_key@.len() as int;
                        lemma_quote_pins(s@, 15, q1 as int, k1);
                        lemma_quote_pins(
                            s@,
                            q1 + 16,
                            q2 as int,
                            k1 + 16 + a.public_key@.len() as int,
                        );
                    }
                }
            }
            return Err(AppError::WalletLoadFailed("unrecognized account format".to_owned()));
        },
    };
    if !match_lit(s, q3, "\"}") || q3 + 2 != n {
        proof {
            assert forall|a: Account| !(encodable(a) && s@ == #[trigger] spec_encode_account(
                a,
            )) by {
                if encodable(a) && s@ == spec_encode_account(a) {
                    lemma_encoding_shape(s@, a);
                    let k1 = 15 + a.secret_key@.len() as int;
                    let k2 = k1 + 16 + a.public_key@.len() as int;
                    lemma_quote_pins(s@, 15, q1 as int, k1);
                    lemma_quote_pins(s@, q1 + 16, q2 as int, k2);
                    lemma_quote_pins(s@, q2 + 20, q3 as int, k2 + 20 + a.public_address@.len() as int);
                }
            }
        }
        return Err(AppError::WalletLoadFailed("unrecognized account format".to_owned()));
    }

    let secret_key = substring_of(s, 15, q1);
    let public_key = substring_of(s, q1 + 16, q2);
    let public_address = substring_of(s, q2 + 20, q3);
    let account = Account { secret_key, public_key, public_address };
    proof {
        assert(s@.subrange(0, q1 as int) =~= s@.subrange(0, 15) + account.secret_key@);
        assert(s@.subrange(0, q1 + 16) =~= s@.subrange(0, q1 as int) + s@.subrange(
            q1 as int,
            q1 + 16,
        ));
        assert(s@.subrange(0, q2 as int) =~= s@.subrange(0, q1 + 16) + account.public_key@);
        assert(s@.subrange(0, q2 + 20) =~= s@.subrange(0, q2 as int) + s@.subrange(
            q2 as int,
            q2 + 20,
        ));
        assert(s@.subrange(0, q3 as int) =~= s@.subrange(0, q2 + 20) + account.public_address@);
        assert(s@ =~= s@.subrange(0, q3 as int) + s@.subrange(q3 as int, q3 + 2));
        assert(s@ == spec_encode_account(account));
        assert(encodable(account));
        assert forall|a: Account| (encodable(a) && s@ == #[trigger] spec_encode_account(a))
            implies account_eq(account, a) by {
            lemma_encoding_injective(account, a);
        }
    }
    Ok(account)
}

/// When a field region known to be quote-free ends in a quote, the first
/// quote found at or after the region's start is exactly the field's end.
proof fn lemma_quote_pins(s: Seq<char>, start: int, q: int, k: int)
    requires
        start <= q < s.len(),
        s[q] == '"',
        forall|t: int| start <= t < q ==> #[trigger] s[t] != '"',
        start <= k < s.len(),
        s[k] == '"',
        forall|t: int| start <= t < k ==> #[trigger] s[t] != '"',
    ensures
        q == k,
{
    if q < k {
        assert(s[q] != '"');
    }
    if k < q {
        assert(s[k] != '"');
    }
}

} // verus!
