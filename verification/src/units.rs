//! Exact conversion between the chain's smallest unit (wei) and the
//! human-scaled display unit (ether, `10^18` wei).
//!
//! Everything here is integer and text arithmetic: a balance is rendered as
//! an exact decimal string, and a display amount is parsed from a decimal
//! string with at most eighteen fractional digits. Callers that hold a
//! floating-point amount must render it to decimal text first; this module
//! never loses precision.

use vstd::prelude::*;
use vstd::arithmetic::div_mod::lemma_fundamental_div_mod;
use vstd::arithmetic::mul::{
    lemma_mul_inequality, lemma_mul_is_commutative, lemma_mul_is_associative,
    lemma_mul_nonnegative, lemma_mul_is_distributive_sub_other_way,
};
use crate::text::{
    spec_dec_str, spec_dec_padded, pow10, push_dec, push_dec_padded, push_char,
    is_dec_digit, dec_digit_val, all_dec_digits, spec_dec_val,
    lemma_pow10_pos, lemma_dec_val_bound, lemma_dec_val_prefix_mono, lemma_dec_str_val,
    lemma_dec_padded_val,
    is_dec_digit_exec, dec_value_exec,
};

verus! {

/// Number of wei in one ether.
pub const WEI_PER_ETH: u128 = 1000000000000000000;

/// Number of decimal digits of the unit scale.
pub const ETH_DECIMALS: u32 = 18;

/// The unit scale is ten to the eighteenth.
pub proof fn lemma_wei_per_eth_is_pow10()
    ensures
        WEI_PER_ETH as int == pow10(ETH_DECIMALS as nat),
{
    reveal_with_fuel(pow10, 19);
}

/// Splits a wei amount into whole ether and the wei remainder.
pub fn wei_to_eth_parts(wei: u128) -> (r: (u128, u128))
    ensures
        r.0 == wei as int / WEI_PER_ETH as int,
        r.1 == wei as int % WEI_PER_ETH as int,
        wei == r.0 * WEI_PER_ETH + r.1,
        r.1 < WEI_PER_ETH,
{
    let whole = wei / WEI_PER_ETH;
    let frac = wei % WEI_PER_ETH;
    proof {
        lemma_fundamental_div_mod(wei as int, WEI_PER_ETH as int);
    }
    (whole, frac)
}

/// Recombines whole ether and a wei remainder into a wei amount.
pub fn eth_parts_to_wei(whole: u128, frac: u128) -> (r: Option<u128>)
    ensures
        match r {
            Some(wei) => wei == whole * WEI_PER_ETH + frac,
            None => whole * WEI_PER_ETH + frac > u128::MAX,
        },
{
    proof {
        lemma_fundamental_div_mod(u128::MAX as int, WEI_PER_ETH as int);
    }
    if whole > u128::MAX / WEI_PER_ETH {
        proof {
            lemma_mul_inequality(
                u128::MAX as int / WEI_PER_ETH as int + 1,
                whole as int,
                WEI_PER_ETH as int,
            );
        }
        None
    } else {
        proof {
            lemma_mul_inequality(
                whole as int,
                u128::MAX as int / WEI_PER_ETH as int,
                WEI_PER_ETH as int,
            );
        }
        let base = whole * WEI_PER_ETH;
        if frac > u128::MAX - base {
            None
        } else {
            Some(base + frac)
        }
    }
}

/// Splitting a wei amount into display parts and recombining them is exact:
/// no wei amount is changed by a round trip through the display form.
pub proof fn lemma_eth_parts_roundtrip(wei: u128)
    ensures
        (wei as int / WEI_PER_ETH as int) * WEI_PER_ETH as int
            + wei as int % WEI_PER_ETH as int == wei,
{
    lemma_fundamental_div_mod(wei as int, WEI_PER_ETH as int);
}

/// The exact decimal rendering of a wei amount in ether: the whole part,
/// a dot, and all eighteen fractional digits.
pub open spec fn spec_eth_display(wei: int) -> Seq<char> {
    spec_dec_str(wei / WEI_PER_ETH as int) + seq!['.']
        + spec_dec_padded(wei % WEI_PER_ETH as int, ETH_DECIMALS as nat)
}

/// Renders a wei amount as an exact decimal ether string, such as
/// "1.500000000000000000" for three halves of an ether.
pub fn wei_to_eth_string(wei: u128) -> (r: String)
    ensures
        r@ == spec_eth_display(wei as int),
{
    let mut s = String::new();
    push_dec(&mut s, wei / WEI_PER_ETH);
    push_char(&mut s, '.');
    push_dec_padded(&mut s, wei % WEI_PER_ETH, ETH_DECIMALS);
    assert(s@ =~= spec_eth_display(wei as int));
    s
}

/// Ten to the sum is the product of the powers.
pub proof fn lemma_pow10_add(a: nat, b: nat)
    ensures
        pow10(a + b) == pow10(a) * pow10(b),
    decreases a,
{
    if a == 0 {
    } else {
        lemma_pow10_add((a - 1) as nat, b);
        lemma_mul_is_associative(10, pow10((a - 1) as nat), pow10(b));
    }
}

/// Ten to a larger exponent is at least ten to a smaller one.
pub proof fn lemma_pow10_mono(a: nat, b: nat)
    requires
        a <= b,
    ensures
        pow10(a) <= pow10(b),
{
    lemma_pow10_add(a, (b - a) as nat);
    lemma_pow10_pos(a);
    lemma_pow10_pos((b - a) as nat);
    lemma_mul_inequality(1, pow10((b - a) as nat), pow10(a));
    lemma_mul_is_commutative(pow10(a), pow10((b - a) as nat));
}

/// Ten to the `k`, executable, for exponents up to the unit scale.
pub fn pow10_exec(k: u32) -> (r: u128)
    requires
        k <= ETH_DECIMALS,
    ensures
        r as int == pow10(k as nat),
{
    let mut r: u128 = 1;
    let mut i: u32 = 0;
    while i < k
        invariant
            i <= k <= ETH_DECIMALS,
            r as int == pow10(i as nat),
        decreases k - i,
    {
        proof {
            lemma_pow10_mono((i + 1) as nat, ETH_DECIMALS as nat);
            lemma_wei_per_eth_is_pow10();
        }
        r = r * 10;
        i = i + 1;
    }
    r
}

/// The number of leading decimal-digit characters.
pub open spec fn digit_prefix_len(s: Seq<char>) -> int
    decreases s.len(),
{
    if s.len() == 0 || !is_dec_digit(s.first()) {
        0
    } else {
        1 + digit_prefix_len(s.drop_first())
    }
}

/// Characterizes the digit prefix length: `k` leading digits followed by
/// the end of the string or a non-digit.
pub proof fn lemma_digit_prefix_len_is(s: Seq<char>, k: int)
    requires
        0 <= k <= s.len(),
        forall|t: int| 0 <= t < k ==> is_dec_digit(#[trigger] s[t]),
        k < s.len() ==> !is_dec_digit(s[k]),
    ensures
        digit_prefix_len(s) == k,
    decreases s.len(),
{
    if s.len() == 0 {
    } else if k == 0 {
        assert(!is_dec_digit(s.first()));
    } else {
        assert(is_dec_digit(s.first()));
        let t = s.drop_first();
        assert(forall|u: int| 0 <= u < k - 1 ==> t[u] == #[trigger] s[u + 1]);
        assert(k - 1 < t.len() ==> !is_dec_digit(t[k - 1]));
        lemma_digit_prefix_len_is(t, k - 1);
    }
}

/// Whether `s` is a well-formed display amount: a non-empty run of digits,
/// optionally followed by a dot and one to eighteen fractional digits.
pub open spec fn valid_amount_str(s: Seq<char>) -> bool {
    let k = digit_prefix_len(s);
    if k == s.len() {
        s.len() > 0
    } else {
        &&& k > 0
        &&& s[k] == '.'
        &&& s.len() - k - 1 >= 1
        &&& s.len() - k - 1 <= ETH_DECIMALS
        &&& all_dec_digits(s.subrange(k + 1, s.len() as int))
    }
}

/// The wei value of a well-formed display amount, as an unbounded integer.
pub open spec fn spec_amount_wei_int(s: Seq<char>) -> int {
    let k = digit_prefix_len(s);
    if k == s.len() {
        spec_dec_val(s) * WEI_PER_ETH as int
    } else {
        let flen = s.len() - k - 1;
        spec_dec_val(s.subrange(0, k)) * WEI_PER_ETH as int
            + spec_dec_val(s.subrange(k + 1, s.len() as int))
                * pow10((ETH_DECIMALS - flen) as nat)
    }
}

/// The wei value of a display amount: the exact value for a well-formed
/// amount that fits the smallest-unit range, and nothing otherwise.
pub open spec fn spec_amount_wei(s: Seq<char>) -> Option<int> {
    if valid_amount_str(s) && 0 <= spec_amount_wei_int(s) <= u128::MAX as int {
        Some(spec_amount_wei_int(s))
    } else {
        None
    }
}

/// A well-formed amount is worth at least its whole part read as wei digits.
proof fn lemma_amount_int_lower(s: Seq<char>)
    requires
        valid_amount_str(s),
    ensures
        spec_amount_wei_int(s) >= spec_dec_val(s.subrange(0, digit_prefix_len(s))),
        spec_amount_wei_int(s) >= 0,
{
    let k = digit_prefix_len(s);
    lemma_digit_prefix_digits(s);
    let w = s.subrange(0, k);
    assert(all_dec_digits(w)) by {
        assert(forall|t: int| 0 <= t < w.len() ==> w[t] == #[trigger] s[t]);
    }
    lemma_dec_val_bound(w);
    let wv = spec_dec_val(w);
    lemma_mul_inequality(1, WEI_PER_ETH as int, wv);
    lemma_mul_is_commutative(wv, WEI_PER_ETH as int);
    if k == s.len() {
        assert(w =~= s);
    } else {
        let f = s.subrange(k + 1, s.len() as int);
        lemma_dec_val_bound(f);
        lemma_pow10_pos((ETH_DECIMALS - (s.len() - k - 1)) as nat);
        lemma_mul_nonnegative(
            spec_dec_val(f),
            pow10((ETH_DECIMALS - (s.len() - k - 1)) as nat),
        );
    }
}

/// The digit prefix really is made of digits.
proof fn lemma_digit_prefix_digits(s: Seq<char>)
    ensures
        0 <= digit_prefix_len(s) <= s.len(),
        forall|t: int| 0 <= t < digit_prefix_len(s) ==> is_dec_digit(#[trigger] s[t]),
    decreases s.len(),
{
    if s.len() == 0 || !is_dec_digit(s.first()) {
    } else {
        let t = s.drop_first();
        lemma_digit_prefix_digits(t);
        assert(digit_prefix_len(s) == 1 + digit_prefix_len(t));
        assert forall|u: int| 0 <= u < digit_prefix_len(s) implies is_dec_digit(
            #[trigger] s[u],
        ) by {
            if u > 0 {
                assert(t[u - 1] == s[u]);
                assert(is_dec_digit(t[u - 1]));
            }
        }
    }
}

/// Parses a display amount into wei, exactly. Returns the value for every
/// well-formed amount that fits the smallest unit's range, and nothing for
/// a malformed or oversized one.
pub fn parse_eth_amount(s: &str) -> (r: Option<u128>)
    ensures
        r is Some <==> spec_amount_wei(s@) is Some,
        r is Some ==> r.unwrap() as int == spec_amount_wei(s@).unwrap(),
{
    let n = s.unicode_len();
    let mut k: usize = 0;
    loop
        invariant
            n == s@.len(),
            k <= n,
            forall|t: int| 0 <= t < k ==> is_dec_digit(#[trigger] s@[t]),
        ensures
            n == s@.len(),
            k <= n,
            forall|t: int| 0 <= t < k ==> is_dec_digit(#[trigger] s@[t]),
            k == n || !is_dec_digit(s@[k as int]),
        decreases n - k,
    {
        if k == n {
            break;
        }
        if !is_dec_digit_exec(s.get_char(k)) {
            break;
        }
        k = k + 1;
    }
    proof {
        lemma_digit_prefix_len_is(s@, k as int);
    }

    // Read the whole part, watching for values beyond the smallest unit's
    // range: once the prefix alone is too large the amount cannot fit.
    let mut acc: u128 = 0;
    let mut i: usize = 0;
    assert(s@.subrange(0, 0) =~= Seq::<char>::empty());
    while i < k
        invariant
            i <= k <= n,
            n == s@.len(),
            digit_prefix_len(s@) == k,
            forall|t: int| 0 <= t < k ==> is_dec_digit(#[trigger] s@[t]),
            acc as int == spec_dec_val(s@.subrange(0, i as int)),
        decreases k - i,
    {
        let d = dec_value_exec(s.get_char(i));
        if acc > (u128::MAX - d as u128) / 10 {
            proof {
                lemma_fundamental_div_mod((u128::MAX - d as u128) as int, 10);
                let q = (u128::MAX - d as u128) as int / 10;
                lemma_mul_inequality(q + 1, acc as int, 10);
                lemma_overflow_means_none(s@, i as int, acc as int, d as int);
            }
            return None;
        }
        proof {
            lemma_fundamental_div_mod((u128::MAX - d as u128) as int, 10);
            assert(s@.subrange(0, i + 1).drop_last() =~= s@.subrange(0, i as int));
        }
        acc = acc * 10 + d as u128;
        i = i + 1;
    }
    assert(acc as int == spec_dec_val(s@.subrange(0, k as int)));

    if k == n {
        if n == 0 {
            assert(!valid_amount_str(s@));
            return None;
        }
        assert(s@.subrange(0, k as int) =~= s@);
        proof {
            lemma_fundamental_div_mod(u128::MAX as int, WEI_PER_ETH as int);
        }
        if acc > u128::MAX / WEI_PER_ETH {
            proof {
                let q = u128::MAX as int / WEI_PER_ETH as int;
                lemma_mul_inequality(q + 1, acc as int, WEI_PER_ETH as int);
                assert((q + 1) * WEI_PER_ETH as int == q * WEI_PER_ETH as int + WEI_PER_ETH as int);
            }
            return None;
        }
        proof {
            let q = u128::MAX as int / WEI_PER_ETH as int;
            lemma_mul_inequality(acc as int, q, WEI_PER_ETH as int);
        }
        return Some(acc * WEI_PER_ETH);
    }

    // There is a non-digit at position k: the only well-formed shape now is
    // a dot followed by one to eighteen fractional digits.
    let c = s.get_char(k);
    if !(c == '.') {
        assert(!valid_amount_str(s@));
        return None;
    }
    if k == 0 {
        assert(!valid_amount_str(s@));
        return None;
    }
    let flen = n - k - 1;
    if flen < 1 || flen > 18 {
        assert(!valid_amount_str(s@));
        return None;
    }

    let mut facc: u128 = 0;
    let mut j: usize = 0;
    assert(s@.subrange(k + 1, k + 1) =~= Seq::<char>::empty());
    while j < flen
        invariant
            j <= flen,
            flen == n - k - 1,
            1 <= flen <= 18,
            k < n,
            n == s@.len(),
            digit_prefix_len(s@) == k,
            s@[k as int] == '.',
            k >= 1,
            forall|t: int| k + 1 <= t < k + 1 + j ==> is_dec_digit(#[trigger] s@[t]),
            facc as int == spec_dec_val(s@.subrange(k + 1, k + 1 + j)),
        decreases flen - j,
    {
        let c2 = s.get_char(k + 1 + j);
        if !is_dec_digit_exec(c2) {
            proof {
                let f = s@.subrange(k + 1, n as int);
                assert(f[j as int] == s@[k + 1 + j]);
                assert(!all_dec_digits(f));
                assert(!valid_amount_str(s@));
            }
            return None;
        }
        let d = dec_value_exec(c2);
        proof {
            let p = s@.subrange(k + 1, k + 1 + j);
            assert(all_dec_digits(p)) by {
                assert(forall|t: int| 0 <= t < p.len() ==> p[t] == #[trigger] s@[k + 1 + t]);
            }
            lemma_dec_val_bound(p);
            lemma_pow10_mono(j as nat, 17);
            assert(pow10(17) * 10 == pow10(18)) by {
                lemma_mul_is_commutative(pow10(17), 10);
            }
            lemma_wei_per_eth_is_pow10();
            lemma_mul_inequality(facc as int, pow10(17) - 1, 10);
            assert(s@.subrange(k + 1, k + 1 + (j + 1)).drop_last() =~= s@.subrange(
                k + 1,
                k + 1 + j,
            ));
        }
        facc = facc * 10 + d as u128;
        j = j + 1;
    }
    assert(k + 1 + flen == n);
    assert(facc as int == spec_dec_val(s@.subrange(k + 1, n as int)));
    assert(valid_amount_str(s@)) by {
        assert(all_dec_digits(s@.subrange(k + 1, n as int))) by {
            let f = s@.subrange(k + 1, n as int);
            assert(forall|t: int| 0 <= t < f.len() ==> f[t] == #[trigger] s@[k + 1 + t]);
        }
    }

    let p = pow10_exec(ETH_DECIMALS - flen as u32);
    proof {
        let f = s@.subrange(k + 1, n as int);
        lemma_dec_val_bound(f);
        lemma_pow10_add(flen as nat, (18 - flen) as nat);
        lemma_wei_per_eth_is_pow10();
        lemma_pow10_pos((18 - flen) as nat);
        lemma_mul_inequality(facc as int, pow10(flen as nat) - 1, pow10((18 - flen) as nat));
        lemma_mul_is_distributive_sub_other_way(
            pow10((18 - flen) as nat),
            pow10(flen as nat),
            1,
        );
    }
    let fw = facc * p;
    assert(fw < WEI_PER_ETH);

    proof {
        lemma_fundamental_div_mod((u128::MAX - fw) as int, WEI_PER_ETH as int);
    }
    if acc > (u128::MAX - fw) / WEI_PER_ETH {
        proof {
            let q = (u128::MAX - fw) as int / WEI_PER_ETH as int;
            lemma_mul_inequality(q + 1, acc as int, WEI_PER_ETH as int);
            assert((q + 1) * WEI_PER_ETH as int == q * WEI_PER_ETH as int + WEI_PER_ETH as int);
        }
        return None;
    }
    proof {
        let q = (u128::MAX - fw) as int / WEI_PER_ETH as int;
        lemma_mul_inequality(acc as int, q, WEI_PER_ETH as int);
    }
    Some(acc * WEI_PER_ETH + fw)
}

/// Converting a smallest-unit amount to its display rendering and parsing
/// that rendering back yields exactly the original amount: the round trip
/// through the display unit is exact for every representable value, not
/// merely within an epsilon.
pub proof fn lemma_display_roundtrip_exact(wei: u128)
    ensures
        spec_amount_wei(spec_eth_display(wei as int)) == Some(wei as int),
{
    let q = wei as int / WEI_PER_ETH as int;
    let r = wei as int % WEI_PER_ETH as int;
    lemma_fundamental_div_mod(wei as int, WEI_PER_ETH as int);
    lemma_wei_per_eth_is_pow10();
    lemma_dec_str_val(q);
    lemma_dec_padded_val(r, ETH_DECIMALS as nat);
    let w = spec_dec_str(q);
    let f = spec_dec_padded(r, ETH_DECIMALS as nat);
    let s = spec_eth_display(wei as int);
    let ll = w.len() as int;
    assert(s.len() == ll + 19);
    assert forall|t: int| 0 <= t < ll implies is_dec_digit(#[trigger] s[t]) by {
        assert(s[t] == w[t]);
    }
    assert(s[ll] == '.');
    assert(!is_dec_digit('.'));
    lemma_digit_prefix_len_is(s, ll);
    assert(s.subrange(0, ll) =~= w);
    assert(s.subrange(ll + 1, s.len() as int) =~= f);
    assert(valid_amount_str(s));
    assert(spec_amount_wei_int(s) == spec_dec_val(w) * WEI_PER_ETH as int + spec_dec_val(f)
        * pow10(0));
    assert(pow10(0) == 1);
    assert(spec_amount_wei_int(s) == q * WEI_PER_ETH as int + r);
}

/// When the digit prefix read so far no longer fits, the whole amount is
/// out of range, whatever follows.
proof fn lemma_overflow_means_none(s: Seq<char>, i: int, acc: int, d: int)
    requires
        0 <= i < digit_prefix_len(s) <= s.len(),
        forall|t: int| 0 <= t < digit_prefix_len(s) ==> is_dec_digit(#[trigger] s[t]),
        acc == spec_dec_val(s.subrange(0, i)),
        d == dec_digit_val(s[i]),
        acc * 10 + d > u128::MAX as int,
    ensures
        spec_amount_wei(s) is None,
{
    let k = digit_prefix_len(s);
    assert(s.subrange(0, i + 1).drop_last() =~= s.subrange(0, i));
    assert(spec_dec_val(s.subrange(0, i + 1)) == acc * 10 + d);
    lemma_dec_val_prefix_mono(s, i + 1, k);
    if valid_amount_str(s) {
        lemma_amount_int_lower(s);
        assert(spec_amount_wei_int(s) > u128::MAX as int);
    }
}

} // verus!
