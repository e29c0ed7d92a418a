//! Exact-decimal monetary values.
//!
//! Balances and stakes are held in whole cents (two decimal places), odds in
//! hundredths, and payouts in ten-thousandths of a unit, so that every
//! arithmetic step of the placement pipeline is exact integer arithmetic and
//! no value is ever created or destroyed by rounding.

use vstd::prelude::*;

verus! {

/// A monetary amount in whole cents. `1.00` unit is `100` cents.
#[derive(Clone, Copy, Debug, PartialEq, Eq, Structural)]
pub struct Amount {
    pub cents: u64,
}

/// Decimal odds in hundredths: odds of `2.50` are `250` hundredths.
#[derive(Clone, Copy, Debug, PartialEq, Eq, Structural)]
pub struct Odds {
    pub hundredths: u64,
}

/// A potential payout in ten-thousandths of a unit, so that
/// `stake * odds` (cents times hundredths) is represented exactly.
#[derive(Clone, Copy, Debug, PartialEq, Eq, Structural)]
pub struct Payout {
    pub myriadths: u128,
}

/// The ASCII byte of a single decimal digit.
pub open spec fn digit_byte(d: int) -> u8 {
    (48 + d) as u8
}

pub open spec fn is_digit_byte(b: u8) -> bool {
    48 <= b <= 57
}

pub open spec fn digit_val(b: u8) -> int {
    b - 48
}

/// The decimal digits of `n`, most significant first, with no leading zeros
/// (`0` is written as the single digit `0`).
pub open spec fn dec_digits(n: nat) -> Seq<u8>
    decreases n,
{
    if n < 10 {
        seq![digit_byte(n as int)]
    } else {
        dec_digits(n / 10).push(digit_byte((n % 10) as int))
    }
}

/// The value of a big-endian digit sequence.
pub open spec fn digits_value(s: Seq<u8>) -> int
    decreases s.len(),
{
    if s.len() == 0 {
        0
    } else {
        digits_value(s.drop_last()) * 10 + digit_val(s.last())
    }
}

pub open spec fn all_digits(s: Seq<u8>) -> bool {
    forall|i: int| 0 <= i < s.len() ==> is_digit_byte(#[trigger] s[i])
}

pub open spec fn pow10(k: nat) -> int
    decreases k,
{
    if k == 0 {
        1
    } else {
        10 * pow10((k - 1) as nat)
    }
}

/// The canonical decimal serialization of an amount held as `cents`:
/// the whole units without leading zeros, a dot, then exactly two
/// fraction digits, e.g. `1234.56`.
pub open spec fn canonical_cents(cents: u64) -> Seq<u8> {
    dec_digits((cents / 100) as nat) + seq![
        46u8,
        digit_byte(((cents % 100) / 10) as int),
        digit_byte((cents % 10) as int),
    ]
}

pub proof fn lemma_pow10_pos(k: nat)
    ensures
        pow10(k) >= 1,
    decreases k,
{
    if k > 0 {
        lemma_pow10_pos((k - 1) as nat);
    }
}

pub proof fn lemma_pow10_mono(j: nat, k: nat)
    requires
        j <= k,
    ensures
        pow10(j) <= pow10(k),
    decreases k,
{
    if j < k {
        lemma_pow10_mono(j, (k - 1) as nat);
        lemma_pow10_pos((k - 1) as nat);
    }
}

pub proof fn lemma_pow10_20()
    ensures
        pow10(18) == 1000000000000000000,
        pow10(20) == 100000000000000000000,
{
    reveal_with_fuel(pow10, 21);
}

/// Basic shape of `dec_digits`: nonempty, all digits, no leading zero
/// except for the single digit `0`, and one digit exactly when `n < 10`.
pub proof fn lemma_dec_digits_shape(n: nat)
    ensures
        dec_digits(n).len() >= 1,
        all_digits(dec_digits(n)),
        n >= 10 ==> dec_digits(n).len() >= 2,
        n < 10 ==> dec_digits(n).len() == 1,
        n >= 1 ==> dec_digits(n)[0] != 48,
    decreases n,
{
    if n >= 10 {
        lemma_dec_digits_shape(n / 10);
        let s = dec_digits(n / 10);
        let t = dec_digits(n);
        assert(t == s.push(digit_byte((n % 10) as int)));
        assert forall|i: int| 0 <= i < t.len() implies is_digit_byte(#[trigger] t[i]) by {
            if i < s.len() {
                assert(t[i] == s[i]);
            }
        }
        assert(t[0] == s[0]);
    }
}

/// Reading the digits of `n` back yields `n`.
pub proof fn lemma_dec_digits_value(n: nat)
    ensures
        digits_value(dec_digits(n)) == n,
    decreases n,
{
    if n < 10 {
        let s = dec_digits(n);
        assert(s =~= seq![digit_byte(n as int)]);
        assert(s.last() == digit_byte(n as int));
        assert(s.drop_last() =~= Seq::<u8>::empty());
        assert(digits_value(s.drop_last()) == 0);
        assert(digit_val(digit_byte(n as int)) == n);
    } else {
        lemma_dec_digits_value(n / 10);
        let s = dec_digits(n / 10);
        let t = dec_digits(n);
        assert(t.drop_last() =~= s);
        assert(t.last() == digit_byte((n % 10) as int));
        assert(digit_val(digit_byte((n % 10) as int)) == n % 10);
    }
}

/// The value of an `L`-digit sequence lies below `pow10(L)`, and at or
/// above `pow10(L-1)` when there is no leading zero.
pub proof fn lemma_digits_value_bounds(s: Seq<u8>)
    requires
        all_digits(s),
    ensures
        0 <= digits_value(s) < pow10(s.len()),
        s.len() >= 1 && s[0] != 48 ==> digits_value(s) >= pow10((s.len() - 1) as nat),
    decreases s.len(),
{
    if s.len() == 0 {
    } else {
        let p = s.drop_last();
        assert(all_digits(p)) by {
            assert(forall|i: int| 0 <= i < p.len() ==> p[i] == s[i]);
        }
        lemma_digits_value_bounds(p);
        assert(is_digit_byte(s.last())) by {
            assert(s.last() == s[s.len() - 1]);
        }
        if s.len() >= 1 && s[0] != 48 {
            if p.len() >= 1 {
                assert(p[0] == s[0]);
                lemma_pow10_pos((p.len() - 1) as nat);
            } else {
                assert(digits_value(s) == digit_val(s.last()));
                assert(s.last() == s[0]);
            }
        }
    }
}

/// A nonempty all-digit sequence with no leading zero is exactly the
/// canonical digit string of its own value.
pub proof fn lemma_digits_of_value(s: Seq<u8>)
    requires
        all_digits(s),
        s.len() >= 1,
        s.len() >= 2 ==> s[0] != 48,
    ensures
        digits_value(s) >= 0,
        dec_digits(digits_value(s) as nat) == s,
    decreases s.len(),
{
    lemma_digits_value_bounds(s);
    let v = digits_value(s) as nat;
    if s.len() == 1 {
        assert(s.drop_last() =~= Seq::<u8>::empty());
        assert(digits_value(s.drop_last()) == 0);
        assert(digits_value(s) == digit_val(s.last()));
        assert(s.last() == s[0]);
        assert(is_digit_byte(s[0]));
        assert(v < 10);
        assert(dec_digits(v) == seq![digit_byte(v as int)]);
        assert(digit_byte(digit_val(s.last())) == s.last());
        assert(dec_digits(v) =~= s);
    } else {
        let p = s.drop_last();
        assert(all_digits(p)) by {
            assert(forall|i: int| 0 <= i < p.len() ==> p[i] == s[i]);
        }
        assert(p[0] == s[0]);
        lemma_digits_value_bounds(p);
        lemma_pow10_pos((p.len() - 1) as nat);
        assert(digits_value(p) >= 1);
        assert(is_digit_byte(s.last())) by {
            assert(s.last() == s[s.len() - 1]);
        }
        assert(v == digits_value(p) * 10 + digit_val(s.last()));
        assert(v >= 10);
        lemma_digits_of_value(p);
        assert(v % 10 == digit_val(s.last()) && v / 10 == digits_value(p)) by {
            assert(v == digits_value(p) * 10 + digit_val(s.last()));
        }
        assert(dec_digits(v) == dec_digits(v / 10).push(digit_byte((v % 10) as int)));
        assert(digit_byte(digit_val(s.last())) == s.last());
        assert(dec_digits(v) =~= s);
    }
}

/// Digit strings of `u64` values have at most 20 digits.
pub proof fn lemma_dec_digits_len_u64(v: u64)
    ensures
        dec_digits(v as nat).len() <= 20,
{
    lemma_dec_digits_shape(v as nat);
    lemma_dec_digits_value(v as nat);
    let s = dec_digits(v as nat);
    if s.len() > 20 {
        lemma_digits_value_bounds(s);
        if v >= 1 {
            lemma_pow10_mono(20, (s.len() - 1) as nat);
            lemma_pow10_20();
        } else {
            assert(s.len() == 1);
        }
    }
}

/// The layout of a canonical amount string: the digit run of the whole
/// units, then a dot and the two fraction digits.
pub proof fn lemma_canonical_fields(a: Amount)
    ensures
        a.canonical_bytes().len() == dec_digits((a.cents / 100) as nat).len() + 3,
        a.canonical_bytes().len() >= 4,
        a.canonical_bytes().subrange(0, a.canonical_bytes().len() - 3) == dec_digits(
            (a.cents / 100) as nat,
        ),
        a.canonical_bytes()[a.canonical_bytes().len() - 3] == 46u8,
        a.canonical_bytes()[a.canonical_bytes().len() - 2] == digit_byte(
            ((a.cents % 100) / 10) as int,
        ),
        a.canonical_bytes()[a.canonical_bytes().len() - 1] == digit_byte((a.cents % 10) as int),
{
    lemma_dec_digits_shape((a.cents / 100) as nat);
    let d = dec_digits((a.cents / 100) as nat);
    let b = a.canonical_bytes();
    assert(b.subrange(0, b.len() - 3) =~= d);
    assert(b[b.len() - 3] == 46u8);
}

/// Appends the decimal digits of `n` to `out`.
fn push_dec_digits(out: &mut Vec<u8>, n: u64)
    ensures
        final(out)@ == old(out)@ + dec_digits(n as nat),
    decreases n,
{
    if n >= 10 {
        push_dec_digits(out, n / 10);
        let d: u8 = (n % 10) as u8;
        out.push(48 + d);
        assert(final(out)@ =~= old(out)@ + dec_digits(n as nat));
    } else {
        let d: u8 = n as u8;
        out.push(48 + d);
        assert(final(out)@ =~= old(out)@ + dec_digits(n as nat));
    }
}

impl Amount {
    pub open spec fn canonical_bytes(self) -> Seq<u8> {
        canonical_cents(self.cents)
    }

    /// Serializes the amount as its canonical decimal byte string,
    /// e.g. `1234.56`.
    pub fn to_decimal_bytes(&self) -> (r: Vec<u8>)
        ensures
            r@ == self.canonical_bytes(),
            r@.len() <= 23,
    {
        let mut out: Vec<u8> = Vec::new();
        push_dec_digits(&mut out, self.cents / 100);
        let tens: u8 = ((self.cents % 100) / 10) as u8;
        let ones: u8 = (self.cents % 10) as u8;
        out.push(46);
        out.push(48 + tens);
        out.push(48 + ones);
        proof {
            lemma_dec_digits_len_u64((self.cents / 100) as u64);
            assert(out@ =~= self.canonical_bytes());
        }
        out
    }

    /// Parses the canonical decimal form and nothing else: digits with no
    /// leading zero, a dot, then exactly two fraction digits. Returns
    /// `None` exactly when `bytes` is not the canonical form of any amount.
    #[verifier::rlimit(40)]
    pub fn from_canonical_bytes(bytes: &[u8]) -> (r: Option<Amount>)
        ensures
            r matches Some(a) ==> bytes@ == a.canonical_bytes(),
            r is None ==> forall|a: Amount| bytes@ != a.canonical_bytes(),
    {
        let n = bytes.len();
        if n < 4 {
            assert forall|a: Amount| bytes@ != a.canonical_bytes() by {
                lemma_canonical_fields(a);
            }
            return None;
        }
        if bytes[n - 3] != 46 {
            assert forall|a: Amount| bytes@ != a.canonical_bytes() by {
                lemma_canonical_fields(a);
            }
            return None;
        }
        let tens = bytes[n - 2];
        let ones = bytes[n - 1];
        if tens < 48 || tens > 57 || ones < 48 || ones > 57 {
            assert forall|a: Amount| bytes@ != a.canonical_bytes() by {
                lemma_canonical_fields(a);
            }
            return None;
        }
        let ip = parse_uint_prefix(bytes, n - 3);
        let value = match ip {
            Some(v) => v,
            None => {
                assert forall|a: Amount| bytes@ != a.canonical_bytes() by {
                    lemma_canonical_fields(a);
                }
                return None;
            },
        };
        let frac: u64 = ((tens - 48) as u64) * 10 + ((ones - 48) as u64);
        let total: u128 = (value as u128) * 100 + (frac as u128);
        if total > 0xffff_ffff_ffff_ffffu128 {
            assert forall|a: Amount| bytes@ != a.canonical_bytes() by {
                if bytes@ == a.canonical_bytes() {
                    lemma_canonical_fields(a);
                    lemma_dec_digits_value((a.cents / 100) as nat);
                    lemma_dec_digits_value(value as nat);
                    assert(a.cents / 100 == value);
                    assert((a.cents % 100) / 10 == (tens - 48));
                    assert(a.cents % 10 == (ones - 48));
                    assert(a.cents % 100 == ((a.cents % 100) / 10) * 10 + (a.cents % 100) % 10);
                    assert(a.cents % 100 == frac);
                    assert(a.cents == (a.cents / 100) * 100 + a.cents % 100);
                }
            }
            return None;
        }
        let cents: u64 = total as u64;
        let a = Amount { cents };
        proof {
            let d = dec_digits(value as nat);
            assert(cents / 100 == value && cents % 100 == frac) by {
                assert(total == value * 100 + frac);
            }
            assert(cents % 10 == (ones - 48) && (cents % 100) / 10 == (tens - 48)) by {
                assert(cents % 100 == ((tens - 48) as int) * 10 + (ones - 48));
            }
            assert(digit_byte(((cents % 100) / 10) as int) == tens);
            assert(digit_byte((cents % 10) as int) == ones);
            assert(bytes@.subrange(0, n - 3) =~= d);
            assert(bytes@ =~= a.canonical_bytes());
        }
        Some(a)
    }
}

/// Parses `bytes[0..k]` as a bare decimal integer with no sign, no
/// leading zeros and no separators; `None` exactly when no `u64` prints
/// as that prefix.
fn parse_uint_prefix(bytes: &[u8], k: usize) -> (r: Option<u64>)
    requires
        k <= bytes@.len(),
    ensures
        r matches Some(v) ==> bytes@.subrange(0, k as int) == dec_digits(v as nat),
        r is None ==> forall|v: u64| bytes@.subrange(0, k as int) != dec_digits(v as nat),
{
    let n = k;
    if n == 0 || n > 20 {
        assert forall|v: u64| bytes@.subrange(0, k as int) != dec_digits(v as nat) by {
            lemma_dec_digits_shape(v as nat);
            lemma_dec_digits_len_u64(v);
        }
        return None;
    }
    if n > 1 && bytes[0] == 48 {
        assert forall|v: u64| bytes@.subrange(0, k as int) != dec_digits(v as nat) by {
            lemma_dec_digits_shape(v as nat);
            if bytes@.subrange(0, k as int) == dec_digits(v as nat) {
                assert(bytes@.subrange(0, k as int)[0] == bytes@[0]);
            }
        }
        return None;
    }
    let ghost full = bytes@.subrange(0, k as int);
    let mut value: u128 = 0;
    let mut i: usize = 0;
    while i < n
        invariant
            n == k <= bytes@.len(),
            1 <= n <= 20,
            0 <= i <= n,
            full == bytes@.subrange(0, k as int),
            n > 1 ==> full[0] != 48,
            all_digits(full.subrange(0, i as int)),
            value == digits_value(full.subrange(0, i as int)),
            0 <= value < pow10(i as nat),
        decreases n - i,
    {
        let b = bytes[i];
        proof {
            assert(full[i as int] == bytes@[i as int]);
        }
        if b < 48 || b > 57 {
            assert forall|v: u64| full != dec_digits(v as nat) by {
                lemma_dec_digits_shape(v as nat);
                if full == dec_digits(v as nat) {
                    assert(is_digit_byte(full[i as int]));
                }
            }
            return None;
        }
        proof {
            lemma_pow10_mono(i as nat, 19);
            lemma_pow10_20();
            assert(pow10(19) * 10 == pow10(20));
            lemma_pow10_pos(i as nat);
        }
        let d: u8 = b - 48;
        proof {
            let pre = full.subrange(0, i as int);
            let cur = full.subrange(0, i + 1 as int);
            assert(cur.drop_last() =~= pre);
            assert(cur.last() == full[i as int]);
            assert forall|j: int| 0 <= j < cur.len() implies is_digit_byte(#[trigger] cur[j]) by {
                if j < i {
                    assert(cur[j] == pre[j]);
                }
            }
        }
        value = value * 10 + (d as u128);
        i += 1;
    }
    assert(full.subrange(0, n as int) =~= full);
    if value > 0xffff_ffff_ffff_ffffu128 {
        assert forall|v: u64| full != dec_digits(v as nat) by {
            if full == dec_digits(v as nat) {
                lemma_dec_digits_value(v as nat);
            }
        }
        return None;
    }
    proof {
        lemma_digits_of_value(full);
    }
    Some(value as u64)
}

} // verus!
