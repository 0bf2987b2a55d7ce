//! Decimal and hexadecimal text: exact specifications of digit strings and
//! verified routines that format unsigned integers and byte strings.
//!
//! Everything here is pure text manipulation; the one trusted item is the
//! single-character append on `String`.

use vstd::prelude::*;

verus! {

/// The decimal digit character of `d`, for `0 <= d < 10`.
pub open spec fn dec_digit_char(d: int) -> char {
    if d == 0 { '0' }
    else if d == 1 { '1' }
    else if d == 2 { '2' }
    else if d == 3 { '3' }
    else if d == 4 { '4' }
    else if d == 5 { '5' }
    else if d == 6 { '6' }
    else if d == 7 { '7' }
    else if d == 8 { '8' }
    else { '9' }
}

/// The lower-case hexadecimal digit character of `d`, for `0 <= d < 16`.
pub open spec fn hex_digit_char(d: int) -> char {
    if d < 10 { dec_digit_char(d) }
    else if d == 10 { 'a' }
    else if d == 11 { 'b' }
    else if d == 12 { 'c' }
    else if d == 13 { 'd' }
    else if d == 14 { 'e' }
    else { 'f' }
}

/// The shortest decimal rendering of `n >= 0` (no leading zeros except "0").
pub open spec fn spec_dec_str(n: int) -> Seq<char>
    decreases n,
{
    if n < 10 {
        seq![dec_digit_char(n)]
    } else {
        spec_dec_str(n / 10).push(dec_digit_char(n % 10))
    }
}

/// The decimal rendering of `n` in exactly `width` digits, zero-padded.
pub open spec fn spec_dec_padded(n: int, width: nat) -> Seq<char>
    decreases width,
{
    if width <= 1 {
        seq![dec_digit_char(n % 10)]
    } else {
        spec_dec_padded(n / 10, (width - 1) as nat).push(dec_digit_char(n % 10))
    }
}

/// The lower-case hex rendering of a byte string, two digits per byte.
pub open spec fn spec_hex_str(bytes: Seq<u8>) -> Seq<char>
    decreases bytes.len(),
{
    if bytes.len() == 0 {
        seq![]
    } else {
        seq![
            hex_digit_char(bytes.first() as int / 16),
            hex_digit_char(bytes.first() as int % 16),
        ] + spec_hex_str(bytes.drop_first())
    }
}

pub open spec fn is_dec_digit(c: char) -> bool {
    '0' <= c && c <= '9'
}

pub open spec fn is_hex_digit(c: char) -> bool {
    ('0' <= c && c <= '9') || ('a' <= c && c <= 'f') || ('A' <= c && c <= 'F')
}

/// The numeric value of a decimal digit character.
pub open spec fn dec_digit_val(c: char) -> int {
    c as int - '0' as int
}

pub open spec fn all_dec_digits(s: Seq<char>) -> bool {
    forall|i: int| 0 <= i < s.len() ==> is_dec_digit(#[trigger] s[i])
}

pub open spec fn all_hex_digits(s: Seq<char>) -> bool {
    forall|i: int| 0 <= i < s.len() ==> is_hex_digit(#[trigger] s[i])
}

/// The numeric value of a decimal digit string (0 when empty).
pub open spec fn spec_dec_val(s: Seq<char>) -> int
    decreases s.len(),
{
    if s.len() == 0 {
        0
    } else {
        spec_dec_val(s.drop_last()) * 10 + dec_digit_val(s.last())
    }
}

/// Ten to the `k`.
pub open spec fn pow10(k: nat) -> int
    decreases k,
{
    if k == 0 { 1 } else { 10 * pow10((k - 1) as nat) }
}

pub proof fn lemma_pow10_pos(k: nat)
    ensures
        pow10(k) >= 1,
    decreases k,
{
    if k > 0 {
        lemma_pow10_pos((k - 1) as nat);
    }
}

/// A digit string's value is bounded by ten to its length.
pub proof fn lemma_dec_val_bound(s: Seq<char>)
    requires
        all_dec_digits(s),
    ensures
        0 <= spec_dec_val(s) < pow10(s.len()),
    decreases s.len(),
{
    if s.len() > 0 {
        assert(all_dec_digits(s.drop_last())) by {
            assert(forall|i: int| 0 <= i < s.len() - 1 ==> s.drop_last()[i] == #[trigger] s[i]);
        }
        lemma_dec_val_bound(s.drop_last());
        assert(is_dec_digit(s.last()));
    }
}

/// The shortest decimal rendering consists of digits and reads back to `n`.
pub proof fn lemma_dec_str_val(n: int)
    requires
        n >= 0,
    ensures
        spec_dec_str(n).len() >= 1,
        all_dec_digits(spec_dec_str(n)),
        spec_dec_val(spec_dec_str(n)) == n,
    decreases n,
{
    if n < 10 {
        let s = spec_dec_str(n);
        assert(s.drop_last() =~= Seq::<char>::empty());
        assert(spec_dec_val(s.drop_last()) == 0);
        assert(spec_dec_val(s) == dec_digit_val(dec_digit_char(n)));
    } else {
        lemma_dec_str_val(n / 10);
        let p = spec_dec_str(n / 10);
        let w = p.push(dec_digit_char(n % 10));
        assert(w.drop_last() =~= p);
        assert(all_dec_digits(w)) by {
            assert(forall|i: int| 0 <= i < p.len() ==> w[i] == #[trigger] p[i]);
            assert(is_dec_digit(w[w.len() - 1]));
        }
        assert(spec_dec_val(w) == spec_dec_val(p) * 10 + dec_digit_val(dec_digit_char(n % 10)));
    }
}

/// The padded rendering has exactly `width` digits and reads back to `n`,
/// provided `n` fits in `width` digits.
pub proof fn lemma_dec_padded_val(n: int, width: nat)
    requires
        0 <= n < pow10(width),
        width >= 1,
    ensures
        spec_dec_padded(n, width).len() == width,
        all_dec_digits(spec_dec_padded(n, width)),
        spec_dec_val(spec_dec_padded(n, width)) == n,
    decreases width,
{
    if width <= 1 {
        assert(pow10(width) == 10 * pow10((width - 1) as nat));
        assert(pow10((width - 1) as nat) == 1);
        assert(n < 10);
        assert(n % 10 == n);
        let w = spec_dec_padded(n, width);
        assert(w.drop_last() =~= Seq::<char>::empty());
        assert(spec_dec_val(w.drop_last()) == 0);
        assert(spec_dec_val(w) == dec_digit_val(dec_digit_char(n)));
        assert(is_dec_digit(w[0]));
    } else {
        assert(pow10(width) == 10 * pow10((width - 1) as nat));
        lemma_pow10_pos((width - 1) as nat);
        assert(n / 10 < pow10((width - 1) as nat));
        lemma_dec_padded_val(n / 10, (width - 1) as nat);
        let p = spec_dec_padded(n / 10, (width - 1) as nat);
        let w = p.push(dec_digit_char(n % 10));
        assert(w.drop_last() =~= p);
        assert(all_dec_digits(w)) by {
            assert(forall|i: int| 0 <= i < p.len() ==> w[i] == #[trigger] p[i]);
            assert(is_dec_digit(w[w.len() - 1]));
        }
        assert(spec_dec_val(w) == spec_dec_val(p) * 10 + dec_digit_val(dec_digit_char(n % 10)));
    }
}

/// Reading more digits of a digit string never decreases the value read
/// so far.
pub proof fn lemma_dec_val_prefix_mono(s: Seq<char>, i: int, j: int)
    requires
        0 <= i <= j <= s.len(),
        forall|t: int| 0 <= t < j ==> is_dec_digit(#[trigger] s[t]),
    ensures
        spec_dec_val(s.subrange(0, i)) <= spec_dec_val(s.subrange(0, j)),
    decreases j - i,
{
    if i < j {
        lemma_dec_val_prefix_mono(s, i, j - 1);
        let p = s.subrange(0, j - 1);
        let w = s.subrange(0, j);
        assert(w.drop_last() =~= p);
        assert(all_dec_digits(p)) by {
            assert(forall|t: int| 0 <= t < p.len() ==> p[t] == #[trigger] s[t]);
        }
        lemma_dec_val_bound(p);
        assert(is_dec_digit(s[j - 1]));
        assert(spec_dec_val(w) == spec_dec_val(p) * 10 + dec_digit_val(s[j - 1]));
    }
}

/// Appending a byte extends the hex rendering by that byte's two digits.
pub proof fn lemma_hex_str_push(bytes: Seq<u8>, b: u8)
    ensures
        spec_hex_str(bytes.push(b)) == spec_hex_str(bytes) + seq![
            hex_digit_char(b as int / 16),
            hex_digit_char(b as int % 16),
        ],
    decreases bytes.len(),
{
    let w = bytes.push(b);
    let pair = seq![hex_digit_char(b as int / 16), hex_digit_char(b as int % 16)];
    if bytes.len() == 0 {
        assert(w.first() == b);
        assert(w.drop_first() =~= Seq::<u8>::empty());
        assert(spec_hex_str(w.drop_first()) == Seq::<char>::empty());
        assert(spec_hex_str(w) =~= spec_hex_str(bytes) + pair);
    } else {
        assert(w.first() == bytes.first());
        assert(w.drop_first() =~= bytes.drop_first().push(b));
        lemma_hex_str_push(bytes.drop_first(), b);
        assert(spec_hex_str(w) == seq![
            hex_digit_char(w.first() as int / 16),
            hex_digit_char(w.first() as int % 16),
        ] + spec_hex_str(w.drop_first()));
        assert(spec_hex_str(w) =~= spec_hex_str(bytes) + pair);
    }
}

/// Every character of a hex rendering is a hex digit.
pub proof fn lemma_hex_str_digits(bytes: Seq<u8>)
    ensures
        all_hex_digits(spec_hex_str(bytes)),
    decreases bytes.len(),
{
    if bytes.len() > 0 {
        lemma_hex_str_digits(bytes.drop_first());
        let h = spec_hex_str(bytes);
        let rest = spec_hex_str(bytes.drop_first());
        assert(is_hex_digit(hex_digit_char(bytes.first() as int / 16)));
        assert(is_hex_digit(hex_digit_char(bytes.first() as int % 16)));
        assert forall|i: int| 0 <= i < h.len() implies is_hex_digit(#[trigger] h[i]) by {
            if i >= 2 {
                assert(h[i] == rest[i - 2]);
            }
        }
    }
}

/// The hex rendering has two characters per byte.
pub proof fn lemma_hex_str_len(bytes: Seq<u8>)
    ensures
        spec_hex_str(bytes).len() == 2 * bytes.len(),
    decreases bytes.len(),
{
    if bytes.len() > 0 {
        lemma_hex_str_len(bytes.drop_first());
    }
}

/// Relies on `String::push` from std: appends one character at the end.
#[verifier::external_body]
pub fn push_char(s: &mut String, c: char)
    ensures
        final(s)@ == old(s)@.push(c),
{
    s.push(c);
}

/// The decimal digit character of `d < 10`, as an executable value.
pub fn dec_char_of(d: u8) -> (c: char)
    requires
        d < 10,
    ensures
        c == dec_digit_char(d as int),
{
    match d {
        0 => '0',
        1 => '1',
        2 => '2',
        3 => '3',
        4 => '4',
        5 => '5',
        6 => '6',
        7 => '7',
        8 => '8',
        _ => '9',
    }
}

/// The lower-case hex digit character of `d < 16`, as an executable value.
pub fn hex_char_of(d: u8) -> (c: char)
    requires
        d < 16,
    ensures
        c == hex_digit_char(d as int),
{
    if d < 10 {
        dec_char_of(d)
    } else {
        match d {
            10 => 'a',
            11 => 'b',
            12 => 'c',
            13 => 'd',
            14 => 'e',
            _ => 'f',
        }
    }
}

/// Appends the shortest decimal rendering of `n`.
pub fn push_dec(s: &mut String, n: u128)
    ensures
        final(s)@ == old(s)@ + spec_dec_str(n as int),
    decreases n,
{
    if n < 10 {
        push_char(s, dec_char_of(n as u8));
        assert(final(s)@ =~= old(s)@ + spec_dec_str(n as int));
    } else {
        push_dec(s, n / 10);
        push_char(s, dec_char_of((n % 10) as u8));
        assert(final(s)@ =~= old(s)@ + spec_dec_str(n as int));
    }
}

/// Appends the decimal rendering of `n` zero-padded to `width` digits.
pub fn push_dec_padded(s: &mut String, n: u128, width: u32)
    requires
        width >= 1,
    ensures
        final(s)@ == old(s)@ + spec_dec_padded(n as int, width as nat),
    decreases width,
{
    if width == 1 {
        push_char(s, dec_char_of((n % 10) as u8));
        assert(final(s)@ =~= old(s)@ + spec_dec_padded(n as int, width as nat));
    } else {
        push_dec_padded(s, n / 10, width - 1);
        push_char(s, dec_char_of((n % 10) as u8));
        assert(final(s)@ =~= old(s)@ + spec_dec_padded(n as int, width as nat));
    }
}

/// The shortest decimal rendering of `n` as a fresh string.
pub fn u128_to_dec_string(n: u128) -> (r: String)
    ensures
        r@ == spec_dec_str(n as int),
{
    let mut s = String::new();
    push_dec(&mut s, n);
    assert(s@ =~= spec_dec_str(n as int));
    s
}

/// Appends the lower-case hex rendering of `bytes[from..to]`.
pub fn push_hex_range(s: &mut String, bytes: &Vec<u8>, from: usize, to: usize)
    requires
        from <= to <= bytes@.len(),
    ensures
        final(s)@ == old(s)@ + spec_hex_str(bytes@.subrange(from as int, to as int)),
{
    let mut i: usize = from;
    assert(bytes@.subrange(from as int, from as int) =~= seq![]);
    assert(s@ =~= old(s)@ + spec_hex_str(bytes@.subrange(from as int, from as int)));
    while i < to
        invariant
            from <= i <= to <= bytes@.len(),
            s@ == old(s)@ + spec_hex_str(bytes@.subrange(from as int, i as int)),
        decreases to - i,
    {
        let b = bytes[i];
        push_char(s, hex_char_of(b / 16));
        push_char(s, hex_char_of(b % 16));
        proof {
            let pre = bytes@.subrange(from as int, i as int);
            assert(bytes@.subrange(from as int, i + 1) =~= pre.push(b));
            lemma_hex_str_push(pre, b);
            assert(s@ =~= old(s)@ + spec_hex_str(bytes@.subrange(from as int, i + 1)));
        }
        i = i + 1;
    }
    assert(s@ == old(s)@ + spec_hex_str(bytes@.subrange(from as int, to as int)));
}

/// The numeric value of a decimal digit character, as an executable value.
pub fn dec_value_exec(c: char) -> (d: u8)
    requires
        is_dec_digit(c),
    ensures
        d as int == dec_digit_val(c),
        d < 10,
{
    ((c as u32) - 48) as u8
}

/// Whether `c` is a decimal digit, as an executable test.
pub fn is_dec_digit_exec(c: char) -> (r: bool)
    ensures
        r == is_dec_digit(c),
{
    let u = c as u32;
    48 <= u && u <= 57
}

/// Whether `c` is a hex digit (either case), as an executable test.
pub fn is_hex_digit_exec(c: char) -> (r: bool)
    ensures
        r == is_hex_digit(c),
{
    let u = c as u32;
    (48 <= u && u <= 57) || (97 <= u && u <= 102) || (65 <= u && u <= 70)
}

} // verus!
