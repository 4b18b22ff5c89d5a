//! The denomination converter: exact movement of token amounts between the
//! human-facing decimal (major) representation and the integer base-unit
//! (minor) representation, with six fractional digits separating the two.
//!
//! Conversion never rounds: a major-unit string with more fractional digits
//! than the exponent supports is rejected, as are negative amounts and values
//! beyond the minor-unit integer width.

use vstd::prelude::*;
use vstd::string::StrSliceExecFns;

use crate::digits::all_dec_digits;
use crate::digits::append_dec;
use crate::digits::append_padded;
use crate::digits::append_str;
use crate::digits::dec_digits;
use crate::digits::dec_value;
use crate::digits::digit_char;
use crate::digits::digit_val;
use crate::digits::is_dec_digit;
use crate::digits::lemma_dec_digits;
use crate::digits::lemma_dec_value_bound;
use crate::digits::lemma_dec_value_prefix;
use crate::digits::lemma_dec_value_concat;
use crate::digits::lemma_dec_value_take_step;
use crate::digits::lemma_digit_char;
use crate::digits::lemma_padded_digits;
use crate::digits::lemma_pow10_add;
use crate::digits::lemma_pow10_le;
use crate::digits::lemma_pow10_pos;
use crate::digits::padded_digits;
use crate::digits::pow10;
use crate::digits::trim_trailing_zeros;

verus! {

/// Number of fractional digits separating major and minor units.
pub const MINOR_EXPONENT: u32 = 6;

/// Minor units per major unit: ten to the `MINOR_EXPONENT`.
pub const MINOR_PER_MAJOR: u128 = 1000000;

/// Rejection reasons of the converter and of amount arithmetic.
#[derive(Clone, Copy, Debug, PartialEq, Eq, Structural)]
pub enum ValidationError {
    /// The major-unit input has more fractional digits than the exponent
    /// supports; never rounded silently.
    AmountPrecisionExceeded,
    /// The amount is negative or exceeds the representable minor-unit range.
    NegativeOrOverflowAmount,
    /// The input is not a decimal numeral at all.
    MalformedAmount,
    /// Amounts of two different denominations were combined.
    DenomMismatch,
}

/// A monetary value: a non-negative integer magnitude in minor units and a
/// denomination token.
#[derive(Clone, Debug, PartialEq, Eq)]
pub struct Amount {
    pub value: u128,
    pub denom: String,
}

/// The characters before the first `'.'`; the whole string if it has none.
pub open spec fn before_dot(s: Seq<char>) -> Seq<char>
    decreases s.len(),
{
    if s.len() == 0 || s[0] == '.' {
        Seq::empty()
    } else {
        seq![s[0]] + before_dot(s.skip(1))
    }
}

/// The characters after the first `'.'`; empty if the string has none.
pub open spec fn after_dot(s: Seq<char>) -> Seq<char>
    decreases s.len(),
{
    if s.len() == 0 {
        Seq::empty()
    } else if s[0] == '.' {
        s.skip(1)
    } else {
        after_dot(s.skip(1))
    }
}

/// A syntactically valid major-unit numeral: digits with at most one dot and
/// at least one digit. The fractional part may still be too long.
pub open spec fn well_formed_major(s: Seq<char>) -> bool {
    &&& all_dec_digits(before_dot(s))
    &&& all_dec_digits(after_dot(s))
    &&& before_dot(s).len() + after_dot(s).len() >= 1
}

/// Number of fractional digits of a major-unit numeral.
pub open spec fn frac_len(s: Seq<char>) -> nat {
    after_dot(s).len()
}

/// The minor-unit value a well-formed major numeral with at most six
/// fractional digits denotes: the integer part scaled by a million plus the
/// fractional digits scaled to their place value.
pub open spec fn major_value(s: Seq<char>) -> nat {
    dec_value(before_dot(s)) * 1000000 + dec_value(after_dot(s)) * pow10(
        (6 - after_dot(s).len()) as nat,
    )
}

/// A minus sign followed by a well-formed major numeral.
pub open spec fn is_negative_decimal(s: Seq<char>) -> bool {
    s.len() >= 1 && s[0] == '-' && well_formed_major(s.skip(1))
}

/// What `major_to_minor` guarantees: success exactly on well-formed,
/// precision-respecting, representable input, and each rejection tied to its
/// cause.
pub open spec fn major_to_minor_post(
    s: Seq<char>,
    denom: Seq<char>,
    r: Result<Amount, ValidationError>,
) -> bool {
    match r {
        Ok(a) => well_formed_major(s) && frac_len(s) <= 6 && major_value(s) <= u128::MAX
            && a.value as nat == major_value(s) && a.denom@ == denom,
        Err(e) => match e {
            ValidationError::AmountPrecisionExceeded => well_formed_major(s) && frac_len(s) > 6,
            ValidationError::NegativeOrOverflowAmount => is_negative_decimal(s) || (
            well_formed_major(s) && frac_len(s) <= 6 && major_value(s) > u128::MAX),
            ValidationError::MalformedAmount => !well_formed_major(s) && !is_negative_decimal(s),
            ValidationError::DenomMismatch => false,
        },
    }
}

/// The canonical major-unit rendering of a minor-unit value: the integer
/// part without leading zeros, then, if the fractional part is nonzero, a
/// dot and the six fractional digits with trailing zeros trimmed.
pub open spec fn major_string(v: nat) -> Seq<char> {
    if v % 1000000 == 0 {
        dec_digits(v / 1000000)
    } else {
        dec_digits(v / 1000000) + seq!['.'] + trim_trailing_zeros(padded_digits(v % 1000000, 6))
    }
}

/// Locating the first dot splits a string at it.
proof fn lemma_dot_split(s: Seq<char>, k: int)
    requires
        0 <= k < s.len(),
        s[k] == '.',
        forall|j: int| 0 <= j < k ==> (#[trigger] s[j]) != '.',
    ensures
        before_dot(s) == s.take(k),
        after_dot(s) == s.skip(k + 1),
    decreases k,
{
    if k == 0 {
        assert(before_dot(s) =~= s.take(0));
        assert(after_dot(s) =~= s.skip(1));
    } else {
        assert(s[0] != '.');
        assert(forall|j: int| 0 <= j < k - 1 ==> (#[trigger] s.skip(1)[j]) == s[j + 1]);
        lemma_dot_split(s.skip(1), k - 1);
        assert(seq![s[0]] + s.skip(1).take(k - 1) =~= s.take(k));
        assert(s.skip(1).skip(k) =~= s.skip(k + 1));
    }
}

/// A string without a dot is all integer part.
proof fn lemma_no_dot(s: Seq<char>)
    requires
        forall|j: int| 0 <= j < s.len() ==> (#[trigger] s[j]) != '.',
    ensures
        before_dot(s) == s,
        after_dot(s) == Seq::<char>::empty(),
    decreases s.len(),
{
    if s.len() == 0 {
        assert(before_dot(s) =~= s);
    } else {
        assert(forall|j: int| 0 <= j < s.len() - 1 ==> (#[trigger] s.skip(1)[j]) == s[j + 1]);
        lemma_no_dot(s.skip(1));
        assert(seq![s[0]] + s.skip(1) =~= s);
    }
}

/// Digit characters are never a dot or a minus sign.
proof fn lemma_digit_not_punct(c: char)
    requires
        is_dec_digit(c),
    ensures
        c != '.',
        c != '-',
{
    assert(('.' as u32) == 46);
    assert(('-' as u32) == 45);
    if c == '.' {
        assert(c as u32 == 46);
    }
    if c == '-' {
        assert(c as u32 == 45);
    }
}

/// Digitness of a subrange, phrased over the enclosing string's indices.
proof fn lemma_digits_subrange(s: Seq<char>, a: int, b: int)
    requires
        0 <= a <= b <= s.len(),
    ensures
        all_dec_digits(s.subrange(a, b)) <==> (forall|j: int|
            a <= j < b ==> is_dec_digit(#[trigger] s[j])),
{
    let sub = s.subrange(a, b);
    if all_dec_digits(sub) {
        assert forall|j: int| a <= j < b implies is_dec_digit(#[trigger] s[j]) by {
            assert(sub[j - a] == s[j]);
            assert(is_dec_digit(sub[j - a]));
        }
    }
    if forall|j: int| a <= j < b ==> is_dec_digit(#[trigger] s[j]) {
        assert forall|i: int| 0 <= i < sub.len() implies is_dec_digit(#[trigger] sub[i]) by {
            assert(sub[i] == s[i + a]);
        }
    }
}

/// Ten to the power of each exponent up to the converter's own.
proof fn lemma_pow10_small()
    ensures
        pow10(0) == 1,
        pow10(1) == 10,
        pow10(2) == 100,
        pow10(3) == 1000,
        pow10(4) == 10000,
        pow10(5) == 100000,
        pow10(6) == 1000000,
{
    assert(pow10(0) == 1);
    assert(pow10(1) == 10);
    assert(pow10(2) == 100);
    assert(pow10(3) == 1000);
    assert(pow10(4) == 10000);
    assert(pow10(5) == 100000);
    assert(pow10(6) == 1000000);
}

/// First index at or after `start` holding a `'.'`, if any.
fn find_dot(s: &str, start: usize) -> (r: Option<usize>)
    requires
        start <= s@.len(),
    ensures
        match r {
            Some(k) => start <= k < s@.len() && s@[k as int] == '.' && (forall|j: int|
                start <= j < k ==> (#[trigger] s@[j]) != '.'),
            None => forall|j: int| start <= j < s@.len() ==> (#[trigger] s@[j]) != '.',
        },
{
    let n = s.unicode_len();
    let mut i: usize = start;
    while i < n
        invariant
            start <= i <= n,
            n == s@.len(),
            forall|j: int| start <= j < i ==> (#[trigger] s@[j]) != '.',
        decreases n - i,
    {
        if s.get_char(i) == '.' {
            return Some(i);
        }
        i = i + 1;
    }
    None
}

/// Whether every character in `[a, b)` is a decimal digit.
fn all_digits_range(s: &str, a: usize, b: usize) -> (r: bool)
    requires
        a <= b <= s@.len(),
    ensures
        r <==> (forall|j: int| a <= j < b ==> is_dec_digit(#[trigger] s@[j])),
{
    let mut i: usize = a;
    while i < b
        invariant
            a <= i <= b <= s@.len(),
            forall|j: int| a <= j < i ==> is_dec_digit(#[trigger] s@[j]),
        decreases b - i,
    {
        let c = s.get_char(i);
        let code = c as u32;
        if code < 48 || code > 57 {
            assert(!is_dec_digit(s@[i as int]));
            return false;
        }
        i = i + 1;
    }
    true
}

/// Parses the digit range `[a, b)` as an integer, reporting overflow of the
/// minor-unit width.
fn parse_digits_range(s: &str, a: usize, b: usize) -> (r: Option<u128>)
    requires
        a <= b <= s@.len(),
        forall|j: int| a <= j < b ==> is_dec_digit(#[trigger] s@[j]),
    ensures
        match r {
            Some(v) => v as nat == dec_value(s@.subrange(a as int, b as int)),
            None => dec_value(s@.subrange(a as int, b as int)) > u128::MAX,
        },
{
    let ghost sub = s@.subrange(a as int, b as int);
    let mut i: usize = a;
    let mut acc: u128 = 0;
    while i < b
        invariant
            a <= i <= b <= s@.len(),
            sub == s@.subrange(a as int, b as int),
            forall|j: int| a <= j < b ==> is_dec_digit(#[trigger] s@[j]),
            acc as nat == dec_value(sub.take(i as int - a as int)),
        decreases b - i,
    {
        let c = s.get_char(i);
        proof {
            assert(sub[i as int - a as int] == s@[i as int]);
            assert(is_dec_digit(s@[i as int]));
        }
        let code = c as u32;
        let d = (code - 48) as u128;
        let ghost pos = i as int - a as int;
        if acc > (u128::MAX - d) / 10 {
            proof {
                lemma_dec_value_take_step(sub, pos);
                assert(dec_value(sub.take(pos + 1)) > u128::MAX) by (nonlinear_arith)
                    requires
                        dec_value(sub.take(pos + 1)) == dec_value(sub.take(pos)) * 10 + digit_val(
                            sub[pos],
                        ),
                        dec_value(sub.take(pos)) > (u128::MAX - digit_val(sub[pos])) / 10,
                        digit_val(sub[pos]) < 10,
                ;
                lemma_dec_value_prefix(sub, pos + 1);
            }
            return None;
        }
        proof {
            lemma_dec_value_take_step(sub, pos);
            assert(dec_value(sub.take(pos)) * 10 + digit_val(sub[pos]) <= u128::MAX)
                by (nonlinear_arith)
                requires
                    dec_value(sub.take(pos)) <= (u128::MAX - digit_val(sub[pos])) / 10,
                    digit_val(sub[pos]) < 10,
            ;
        }
        acc = acc * 10 + d;
        i = i + 1;
    }
    proof {
        assert(sub.take(b as int - a as int) =~= sub);
    }
    Some(acc)
}

/// Ten to a small power, exactly.
fn pow10_small(k: u32) -> (r: u128)
    requires
        k <= 6,
    ensures
        r as nat == pow10(k as nat),
{
    proof {
        lemma_pow10_small();
    }
    match k {
        0 => 1,
        1 => 10,
        2 => 100,
        3 => 1000,
        4 => 10000,
        5 => 100000,
        _ => 1000000,
    }
}

/// Parses a major-unit decimal numeral into an `Amount` carrying the given
/// denomination, in exact integer arithmetic.
///
/// More than six fractional digits is a precision failure, never a silent
/// rounding; a leading minus or a value beyond the minor-unit width is a
/// range failure; anything that is not a decimal numeral is malformed.
pub fn major_to_minor(amount: &str, denom: &str) -> (r: Result<Amount, ValidationError>)
    ensures
        major_to_minor_post(amount@, denom@, r),
{
    let n = amount.unicode_len();
    let neg = if n >= 1 {
        amount.get_char(0) == '-'
    } else {
        false
    };
    let start: usize = if neg {
        1
    } else {
        0
    };
    let ghost t = amount@.skip(start as int);
    proof {
        if !neg {
            assert(t =~= amount@);
        }
        assert(forall|j: int|
            0 <= j < t.len() ==> (#[trigger] t[j]) == amount@[j + start as int]);
    }
    let dot = find_dot(amount, start);
    let ip_end: usize;
    let fp_start: usize;
    match dot {
        Some(k) => {
            ip_end = k;
            fp_start = k + 1;
            proof {
                lemma_dot_split(t, k - start as int);
                assert(t.take(k - start as int) =~= amount@.subrange(start as int, k as int));
                assert(t.skip(k - start as int + 1) =~= amount@.subrange(k as int + 1, n as int));
            }
        },
        None => {
            ip_end = n;
            fp_start = n;
            proof {
                lemma_no_dot(t);
                assert(t =~= amount@.subrange(start as int, n as int));
                assert(after_dot(t) =~= amount@.subrange(n as int, n as int));
            }
        },
    }
    proof {
        assert(before_dot(t) == amount@.subrange(start as int, ip_end as int));
        assert(after_dot(t) == amount@.subrange(fp_start as int, n as int));
        lemma_digits_subrange(amount@, start as int, ip_end as int);
        lemma_digits_subrange(amount@, fp_start as int, n as int);
    }
    let ip_ok = all_digits_range(amount, start, ip_end);
    let fp_ok = all_digits_range(amount, fp_start, n);
    let nonempty = (ip_end - start) + (n - fp_start) >= 1;
    let shape_ok = ip_ok && fp_ok && nonempty;
    proof {
        assert(shape_ok <==> well_formed_major(t));
    }
    if neg {
        proof {
            assert(amount@[0] == '-');
            assert(before_dot(amount@).len() >= 1 && before_dot(amount@)[0] == '-');
            assert(('-' as u32) == 45);
            assert(!is_dec_digit(amount@[0]));
            assert(!well_formed_major(amount@));
        }
        if shape_ok {
            Err(ValidationError::NegativeOrOverflowAmount)
        } else {
            proof {
                assert(!is_negative_decimal(amount@));
            }
            Err(ValidationError::MalformedAmount)
        }
    } else if !shape_ok {
        proof {
            assert(!is_negative_decimal(amount@));
        }
        Err(ValidationError::MalformedAmount)
    } else {
        let flen = n - fp_start;
        if flen > 6 {
            return Err(ValidationError::AmountPrecisionExceeded);
        }
        let vi = match parse_digits_range(amount, start, ip_end) {
            Some(v) => v,
            None => {
                proof {
                    lemma_pow10_pos((6 - after_dot(t).len()) as nat);
                    assert(major_value(t) > u128::MAX) by (nonlinear_arith)
                        requires
                            major_value(t) == dec_value(before_dot(t)) * 1000000 + dec_value(
                                after_dot(t),
                            ) * pow10((6 - after_dot(t).len()) as nat),
                            dec_value(before_dot(t)) > u128::MAX,
                    ;
                }
                return Err(ValidationError::NegativeOrOverflowAmount);
            },
        };
        let vf = match parse_digits_range(amount, fp_start, n) {
            Some(v) => v,
            None => {
                proof {
                    lemma_dec_value_bound(after_dot(t));
                    lemma_pow10_le(after_dot(t).len(), 6);
                    lemma_pow10_small();
                    assert(false);
                }
                return Err(ValidationError::MalformedAmount);
            },
        };
        let scale = pow10_small(6 - flen as u32);
        proof {
            lemma_dec_value_bound(after_dot(t));
            lemma_pow10_add(after_dot(t).len(), (6 - after_dot(t).len()) as nat);
            lemma_pow10_small();
            lemma_pow10_pos((6 - after_dot(t).len()) as nat);
            assert(vf as nat * pow10((6 - after_dot(t).len()) as nat) < pow10(6))
                by (nonlinear_arith)
                requires
                    (vf as nat) < pow10(after_dot(t).len()),
                    pow10((6 - after_dot(t).len()) as nat) >= 1,
                    pow10(after_dot(t).len()) * pow10((6 - after_dot(t).len()) as nat) == pow10(6),
            ;
        }
        let frac_part = vf * scale;
        let int_part = match vi.checked_mul(MINOR_PER_MAJOR) {
            Some(m) => m,
            None => {
                proof {
                    lemma_pow10_pos((6 - after_dot(t).len()) as nat);
                    assert(major_value(t) > u128::MAX) by (nonlinear_arith)
                        requires
                            major_value(t) == dec_value(before_dot(t)) * 1000000 + dec_value(
                                after_dot(t),
                            ) * pow10((6 - after_dot(t).len()) as nat),
                            dec_value(before_dot(t)) * 1000000 > u128::MAX,
                    ;
                }
                return Err(ValidationError::NegativeOrOverflowAmount);
            },
        };
        match int_part.checked_add(frac_part) {
            Some(total) => Ok(Amount { value: total, denom: denom.to_owned() }),
            None => Err(ValidationError::NegativeOrOverflowAmount),
        }
    }
}

/// Renders a minor-unit magnitude as its canonical major-unit string.
fn render_major(v: u128) -> (r: String)
    ensures
        r@ == major_string(v as nat),
{
    let mut out = String::new();
    append_dec(&mut out, v / MINOR_PER_MAJOR);
    let frac = v % MINOR_PER_MAJOR;
    if frac != 0 {
        append_str(&mut out, ".");
        let ghost orig = frac as nat;
        let mut f = frac;
        let mut k: u32 = 6;
        proof {
            lemma_pow10_small();
            reveal_strlit(".");
            assert("."@ =~= seq!['.']);
        }
        while f % 10 == 0
            invariant
                1 <= k <= 6,
                (f as nat) < pow10(k as nat),
                f != 0,
                trim_trailing_zeros(padded_digits(orig, 6)) == trim_trailing_zeros(
                    padded_digits(f as nat, k as nat),
                ),
            decreases k,
        {
            proof {
                lemma_pow10_small();
                assert(padded_digits(f as nat, k as nat).last() == digit_char((f % 10) as nat));
                assert(digit_char(0) == '0');
                assert(padded_digits(f as nat, k as nat).drop_last() =~= padded_digits(
                    (f / 10) as nat,
                    (k - 1) as nat,
                ));
                assert(k >= 2) by {
                    if k == 1 {
                        assert(pow10(1) == 10);
                        assert(false);
                    }
                }
                assert(pow10(k as nat) == 10 * pow10((k - 1) as nat));
            }
            f = f / 10;
            k = k - 1;
        }
        proof {
            assert(padded_digits(f as nat, k as nat).last() == digit_char((f % 10) as nat));
            lemma_digit_char((f % 10) as nat);
            assert(digit_val(digit_char((f % 10) as nat)) == (f % 10) as nat);
            assert(digit_char((f % 10) as nat) != '0') by {
                if digit_char((f % 10) as nat) == '0' {
                    assert(digit_val('0') == 0);
                }
            }
            assert(trim_trailing_zeros(padded_digits(f as nat, k as nat)) == padded_digits(
                f as nat,
                k as nat,
            ));
        }
        append_padded(&mut out, f, k);
        proof {
            reveal_strlit(".");
            assert("."@ =~= seq!['.']);
            assert(out@ =~= dec_digits((v / 1000000) as nat) + seq!['.'] + trim_trailing_zeros(
                padded_digits((v % 1000000) as nat, 6),
            ));
        }
    }
    out
}

/// Renders an amount's minor-unit magnitude as the exact major-unit decimal
/// string: bit-exact with the stored integer, trailing fractional zeros
/// trimmed.
pub fn to_major(a: &Amount) -> (r: String)
    ensures
        r@ == major_string(a.value as nat),
{
    render_major(a.value)
}

/// What `minor_to_major` guarantees over its integer-numeral input.
pub open spec fn minor_to_major_post(s: Seq<char>, r: Result<String, ValidationError>) -> bool {
    match r {
        Ok(m) => all_dec_digits(s) && s.len() >= 1 && dec_value(s) <= u128::MAX && m@
            == major_string(dec_value(s)),
        Err(e) => match e {
            ValidationError::NegativeOrOverflowAmount => (s.len() >= 2 && s[0] == '-'
                && all_dec_digits(s.skip(1))) || (all_dec_digits(s) && s.len() >= 1 && dec_value(s)
                > u128::MAX),
            ValidationError::MalformedAmount => !(all_dec_digits(s) && s.len() >= 1) && !(s.len()
                >= 2 && s[0] == '-' && all_dec_digits(s.skip(1))),
            _ => false,
        },
    }
}

/// Converts a minor-unit integer numeral to the canonical major-unit decimal
/// string it denotes.
pub fn minor_to_major(amount: &str) -> (r: Result<String, ValidationError>)
    ensures
        minor_to_major_post(amount@, r),
{
    let n = amount.unicode_len();
    if n == 0 {
        return Err(ValidationError::MalformedAmount);
    }
    if amount.get_char(0) == '-' {
        proof {
            assert(('-' as u32) == 45);
            assert(!is_dec_digit(amount@[0]));
            if n >= 2 {
                lemma_digits_subrange(amount@, 1, n as int);
                assert(amount@.skip(1) =~= amount@.subrange(1, n as int));
            }
        }
        if n >= 2 && all_digits_range(amount, 1, n) {
            return Err(ValidationError::NegativeOrOverflowAmount);
        } else {
            return Err(ValidationError::MalformedAmount);
        }
    }
    if !all_digits_range(amount, 0, n) {
        proof {
            lemma_digits_subrange(amount@, 0, n as int);
            assert(amount@.subrange(0, n as int) =~= amount@);
        }
        return Err(ValidationError::MalformedAmount);
    }
    proof {
        lemma_digits_subrange(amount@, 0, n as int);
        assert(amount@.subrange(0, n as int) =~= amount@);
    }
    match parse_digits_range(amount, 0, n) {
        Some(v) => Ok(render_major(v)),
        None => Err(ValidationError::NegativeOrOverflowAmount),
    }
}

/// Copies an amount field for field, exactly.
pub fn clone_amount(a: &Amount) -> (r: Amount)
    ensures
        r.value == a.value,
        r.denom@ == a.denom@,
{
    Amount { value: a.value, denom: a.denom.clone() }
}

impl Amount {
    /// Adds two amounts of the same denomination; a differing denomination
    /// or an overflowing sum is a failure, never a silent wrap.
    pub fn checked_add(&self, other: &Amount) -> (r: Result<Amount, ValidationError>)
        ensures
            match r {
                Ok(a) => self.denom@ == other.denom@ && self.value + other.value <= u128::MAX
                    && a.value == self.value + other.value && a.denom@ == self.denom@,
                Err(e) => match e {
                    ValidationError::DenomMismatch => self.denom@ != other.denom@,
                    ValidationError::NegativeOrOverflowAmount => self.denom@ == other.denom@
                        && self.value + other.value > u128::MAX,
                    _ => false,
                },
            },
    {
        if self.denom == other.denom {
            match self.value.checked_add(other.value) {
                Some(v) => Ok(Amount { value: v, denom: self.denom.clone() }),
                None => Err(ValidationError::NegativeOrOverflowAmount),
            }
        } else {
            Err(ValidationError::DenomMismatch)
        }
    }
}

/// Trimming trailing zeros keeps the scaled fractional value, keeps every
/// character a digit, and never lengthens.
proof fn lemma_trim(s: Seq<char>)
    requires
        all_dec_digits(s),
        s.len() <= 6,
    ensures
        trim_trailing_zeros(s).len() <= s.len(),
        all_dec_digits(trim_trailing_zeros(s)),
        dec_value(trim_trailing_zeros(s)) * pow10((6 - trim_trailing_zeros(s).len()) as nat)
            == dec_value(s) * pow10((6 - s.len()) as nat),
    decreases s.len(),
{
    if s.len() > 0 && s.last() == '0' {
        assert(all_dec_digits(s.drop_last())) by {
            assert(forall|j: int|
                0 <= j < s.len() - 1 ==> (#[trigger] s.drop_last()[j]) == s[j]);
        }
        lemma_trim(s.drop_last());
        assert(digit_val('0') == 0);
        assert(dec_value(s) == dec_value(s.drop_last()) * 10);
        assert(pow10((6 - s.len() + 1) as nat) == 10 * pow10((6 - s.len()) as nat));
        assert(dec_value(s.drop_last()) * pow10((6 - s.drop_last().len()) as nat) == (dec_value(
            s.drop_last(),
        ) * 10) * pow10((6 - s.len()) as nat)) by (nonlinear_arith)
            requires
                pow10((6 - s.drop_last().len()) as nat) == 10 * pow10((6 - s.len()) as nat),
                s.drop_last().len() == s.len() - 1,
        ;
    }
}

/// Round trip: the canonical major rendering of any minor-unit value is a
/// well-formed major numeral with at most six fractional digits, and its
/// value is the rendered one. With `major_to_minor_post` this pins
/// `major_to_minor(to_major(a), d)` to `Ok` with `a`'s value and `d`.
pub proof fn lemma_major_round_trip(v: nat)
    ensures
        well_formed_major(major_string(v)),
        frac_len(major_string(v)) <= 6,
        major_value(major_string(v)) == v,
{
    lemma_pow10_small();
    lemma_dec_digits(v / 1000000);
    let ip = dec_digits(v / 1000000);
    assert forall|j: int| 0 <= j < ip.len() implies (#[trigger] ip[j]) != '.' by {
        lemma_digit_not_punct(ip[j]);
    }
    if v % 1000000 == 0 {
        lemma_no_dot(ip);
        assert(major_value(major_string(v)) == dec_value(ip) * 1000000 + dec_value(
            Seq::<char>::empty(),
        ) * pow10(6));
        assert(dec_value(ip) * 1000000 + 0 * pow10(6) == v) by (nonlinear_arith)
            requires
                dec_value(ip) == v / 1000000,
                v % 1000000 == 0,
                pow10(6) == 1000000,
        ;
    } else {
        lemma_padded_digits(v % 1000000, 6);
        vstd::arithmetic::div_mod::lemma_small_mod(v % 1000000, pow10(6));
        let fp0 = padded_digits(v % 1000000, 6);
        lemma_trim(fp0);
        let fp = trim_trailing_zeros(fp0);
        let s = ip + seq!['.'] + fp;
        assert(major_string(v) == s);
        assert(s[ip.len() as int] == '.');
        assert(forall|j: int| 0 <= j < ip.len() ==> (#[trigger] s[j]) == ip[j]);
        lemma_dot_split(s, ip.len() as int);
        assert(s.take(ip.len() as int) =~= ip);
        assert(s.skip(ip.len() as int + 1) =~= fp);
        assert(dec_value(fp) * pow10((6 - fp.len()) as nat) == dec_value(fp0) * pow10(0));
        assert(dec_value(fp0) * 1 == v % 1000000);
        assert(fp.len() >= 1) by {
            if fp.len() == 0 {
                assert(dec_value(fp) == 0);
                assert(dec_value(fp) * pow10((6 - fp.len()) as nat) == 0) by (nonlinear_arith)
                    requires
                        dec_value(fp) == 0,
                ;
                assert(v % 1000000 == 0);
            }
        }
        assert(major_value(s) == dec_value(ip) * 1000000 + (v % 1000000));
        assert(dec_value(ip) * 1000000 + v % 1000000 == v) by (nonlinear_arith)
            requires
                dec_value(ip) == v / 1000000,
        ;
    }
}


/// `s` with leading zeros removed; an empty or all-zero integer part
/// normalizes to `"0"`.
pub open spec fn strip_leading_zeros(s: Seq<char>) -> Seq<char>
    decreases s.len(),
{
    if s.len() >= 2 && s[0] == '0' {
        strip_leading_zeros(s.skip(1))
    } else if s.len() == 0 {
        seq!['0']
    } else {
        s
    }
}

/// The zero-trimmed normalization of a well-formed major numeral: leading
/// zeros of the integer part and trailing zeros of the fractional part
/// removed, the dot kept only if fractional digits remain.
pub open spec fn normalize_major(s: Seq<char>) -> Seq<char> {
    let ip = strip_leading_zeros(before_dot(s));
    let fp = trim_trailing_zeros(after_dot(s));
    if fp.len() == 0 {
        ip
    } else {
        ip + seq!['.'] + fp
    }
}

/// A sequence of `j` zero characters.
pub open spec fn zero_chars(j: nat) -> Seq<char> {
    Seq::new(j, |i: int| '0')
}

/// The canonical rendering of a digit sequence's value is the sequence with
/// its leading zeros stripped.
proof fn lemma_dec_digits_of_digits(d: Seq<char>)
    requires
        all_dec_digits(d),
    ensures
        dec_digits(dec_value(d)) == strip_leading_zeros(d),
    decreases d.len(),
{
    if d.len() == 0 {
        assert(dec_value(d) == 0);
        assert(dec_digits(0) =~= seq!['0']);
    } else if d.len() >= 2 && d[0] == '0' {
        assert(d =~= seq![d[0]] + d.skip(1));
        lemma_dec_value_concat(seq![d[0]], d.skip(1));
        crate::digits::lemma_dec_value_singleton(d[0]);
        assert(digit_val('0') == 0);
        assert(dec_value(seq![d[0]]) == 0);
        assert(all_dec_digits(d.skip(1))) by {
            assert(forall|j: int|
                0 <= j < d.len() - 1 ==> (#[trigger] d.skip(1)[j]) == d[j + 1]);
        }
        lemma_dec_digits_of_digits(d.skip(1));
        assert(dec_value(seq![d[0]] + d.skip(1)) == dec_value(seq![d[0]]) * pow10(
            d.skip(1).len(),
        ) + dec_value(d.skip(1)));
        assert(dec_value(seq![d[0]]) * pow10(d.skip(1).len()) == 0) by (nonlinear_arith)
            requires
                dec_value(seq![d[0]]) == 0,
        ;
        assert(dec_value(d) == dec_value(d.skip(1)));
    } else if d.len() == 1 {
        assert(d =~= seq![d[0]]);
        crate::digits::lemma_dec_value_singleton(d[0]);
        assert(dec_value(d) == digit_val(d[0]));
        assert(digit_val(d[0]) < 10);
        crate::digits::lemma_digit_char_of_val(d[0]);
        assert(dec_digits(dec_value(d)) =~= d);
        assert(strip_leading_zeros(d) == d);
    } else {
        lemma_dec_digits_exact(d);
        assert(strip_leading_zeros(d) == d);
    }
}

/// A digit sequence without a leading zero is reproduced exactly by the
/// canonical rendering of its value.
proof fn lemma_dec_digits_exact(d: Seq<char>)
    requires
        all_dec_digits(d),
        d.len() >= 1,
        d[0] != '0',
    ensures
        dec_digits(dec_value(d)) == d,
    decreases d.len(),
{
    if d.len() == 1 {
        assert(d =~= seq![d[0]]);
        crate::digits::lemma_dec_value_singleton(d[0]);
        assert(dec_value(d) == digit_val(d[0]));
        crate::digits::lemma_digit_char_of_val(d[0]);
        assert(dec_digits(dec_value(d)) =~= d);
    } else {
        let dd = d.drop_last();
        assert(all_dec_digits(dd)) by {
            assert(forall|j: int| 0 <= j < d.len() - 1 ==> (#[trigger] dd[j]) == d[j]);
        }
        assert(dd[0] == d[0]);
        lemma_dec_digits_exact(dd);
        assert(dd =~= seq![dd[0]] + dd.skip(1));
        lemma_dec_value_concat(seq![dd[0]], dd.skip(1));
        crate::digits::lemma_dec_value_singleton(dd[0]);
        assert(digit_val(dd[0]) >= 1) by {
            if digit_val(dd[0]) == 0 {
                crate::digits::lemma_digit_char_of_val(dd[0]);
                assert(dd[0] == digit_char(0));
            }
        }
        lemma_pow10_pos(dd.skip(1).len());
        assert(digit_val(dd[0]) * pow10(dd.skip(1).len()) >= 1) by (nonlinear_arith)
            requires
                digit_val(dd[0]) >= 1,
                pow10(dd.skip(1).len()) >= 1,
        ;
        assert(dec_value(dd) >= 1);
        let v = dec_value(d);
        assert(v == dec_value(dd) * 10 + digit_val(d.last()));
        assert(v >= 10);
        assert(v / 10 == dec_value(dd) && v % 10 == digit_val(d.last())) by (nonlinear_arith)
            requires
                v == dec_value(dd) * 10 + digit_val(d.last()),
                digit_val(d.last()) < 10,
        ;
        crate::digits::lemma_digit_char_of_val(d.last());
        assert(dec_digits(v) == dec_digits(dec_value(dd)).push(d.last()));
        assert(dec_digits(dec_value(dd)).push(d.last()) =~= d);
    }
}

/// A digit sequence is reproduced exactly by the padded rendering of its
/// value at its own length.
proof fn lemma_padded_exact(d: Seq<char>)
    requires
        all_dec_digits(d),
    ensures
        padded_digits(dec_value(d), d.len()) == d,
    decreases d.len(),
{
    if d.len() == 0 {
        assert(padded_digits(dec_value(d), 0) =~= d);
    } else {
        let dd = d.drop_last();
        assert(all_dec_digits(dd)) by {
            assert(forall|j: int| 0 <= j < d.len() - 1 ==> (#[trigger] dd[j]) == d[j]);
        }
        lemma_padded_exact(dd);
        let v = dec_value(d);
        assert(v == dec_value(dd) * 10 + digit_val(d.last()));
        assert(v / 10 == dec_value(dd) && v % 10 == digit_val(d.last())) by (nonlinear_arith)
            requires
                v == dec_value(dd) * 10 + digit_val(d.last()),
                digit_val(d.last()) < 10,
        ;
        crate::digits::lemma_digit_char_of_val(d.last());
        assert(padded_digits(v, d.len()) == padded_digits(dec_value(dd), dd.len()).push(
            d.last(),
        ));
        assert(padded_digits(dec_value(dd), dd.len()).push(d.last()) =~= d);
    }
}

/// Scaling by a power of ten appends that many zeros to the padded
/// rendering.
proof fn lemma_padded_scale(x: nat, j: nat, m: nat)
    ensures
        padded_digits(x * pow10(j), m + j) == padded_digits(x, m) + zero_chars(j),
    decreases j,
{
    if j == 0 {
        assert(pow10(0) == 1);
        assert(padded_digits(x * 1, m + 0) =~= padded_digits(x, m) + zero_chars(0));
    } else {
        let y = x * pow10((j - 1) as nat);
        assert(x * pow10(j) == y * 10) by (nonlinear_arith)
            requires
                pow10(j) == 10 * pow10((j - 1) as nat),
                y == x * pow10((j - 1) as nat),
        ;
        assert(pow10(j) == 10 * pow10((j - 1) as nat));
        assert((y * 10) / 10 == y && (y * 10) % 10 == 0) by (nonlinear_arith);
        lemma_padded_scale(x, (j - 1) as nat, m);
        assert(padded_digits(x * pow10(j), m + j) == padded_digits(y, (m + j - 1) as nat).push(
            digit_char(0),
        ));
        assert(digit_char(0) == '0');
        assert((padded_digits(x, m) + zero_chars((j - 1) as nat)).push('0') =~= padded_digits(
            x,
            m,
        ) + zero_chars(j));
    }
}

/// Trailing zeros vanish under trimming.
proof fn lemma_trim_zero_suffix(s: Seq<char>, j: nat)
    ensures
        trim_trailing_zeros(s + zero_chars(j)) == trim_trailing_zeros(s),
    decreases j,
{
    if j == 0 {
        assert(s + zero_chars(0) =~= s);
    } else {
        assert((s + zero_chars(j)).last() == '0');
        assert((s + zero_chars(j)).drop_last() =~= s + zero_chars((j - 1) as nat));
        lemma_trim_zero_suffix(s, (j - 1) as nat);
    }
}

/// A digit sequence trims to nothing exactly when it denotes zero.
proof fn lemma_trim_empty(s: Seq<char>)
    requires
        all_dec_digits(s),
    ensures
        (trim_trailing_zeros(s).len() == 0) <==> (dec_value(s) == 0),
    decreases s.len(),
{
    if s.len() == 0 {
    } else if s.last() == '0' {
        assert(all_dec_digits(s.drop_last())) by {
            assert(forall|j: int|
                0 <= j < s.len() - 1 ==> (#[trigger] s.drop_last()[j]) == s[j]);
        }
        lemma_trim_empty(s.drop_last());
        assert(digit_val('0') == 0);
        assert(dec_value(s) == dec_value(s.drop_last()) * 10);
    } else {
        assert(trim_trailing_zeros(s) == s);
        assert(digit_val(s.last()) >= 1) by {
            crate::digits::lemma_digit_char_of_val(s.last());
            if digit_val(s.last()) == 0 {
                assert(s.last() == digit_char(0));
            }
        }
        assert(dec_value(s) >= 1);
    }
}

/// Round trip, string side: rendering the value of any well-formed major
/// numeral with at most six fractional digits reproduces the numeral up to
/// zero-trimming normalization.
pub proof fn lemma_string_round_trip(s: Seq<char>)
    requires
        well_formed_major(s),
        frac_len(s) <= 6,
    ensures
        major_string(major_value(s)) == normalize_major(s),
{
    lemma_pow10_small();
    let ip = before_dot(s);
    let fp = after_dot(s);
    let j = (6 - fp.len()) as nat;
    let v = major_value(s);
    let frac = dec_value(fp) * pow10(j);
    lemma_dec_value_bound(fp);
    lemma_pow10_add(fp.len(), j);
    lemma_pow10_pos(j);
    assert(frac < pow10(6)) by (nonlinear_arith)
        requires
            frac == dec_value(fp) * pow10(j),
            dec_value(fp) < pow10(fp.len()),
            pow10(j) >= 1,
            pow10(fp.len()) * pow10(j) == pow10(6),
    ;
    assert(v == dec_value(ip) * 1000000 + frac);
    vstd::arithmetic::div_mod::lemma_fundamental_div_mod_converse(
        v as int,
        1000000,
        dec_value(ip) as int,
        frac as int,
    );
    assert(v / 1000000 == dec_value(ip));
    assert(v % 1000000 == frac);
    lemma_dec_digits_of_digits(ip);
    lemma_padded_exact(fp);
    lemma_padded_scale(dec_value(fp), j, fp.len());
    assert(padded_digits(frac, 6) == fp + zero_chars(j));
    lemma_trim_zero_suffix(fp, j);
    assert(trim_trailing_zeros(padded_digits(frac, 6)) == trim_trailing_zeros(fp));
    lemma_trim_empty(fp);
    if v % 1000000 == 0 {
        assert(dec_value(fp) == 0) by (nonlinear_arith)
            requires
                frac == dec_value(fp) * pow10(j),
                frac == 0,
                pow10(j) >= 1,
        ;
        assert(trim_trailing_zeros(fp).len() == 0);
        assert(normalize_major(s) == strip_leading_zeros(ip));
    } else {
        assert(dec_value(fp) != 0);
        assert(trim_trailing_zeros(fp).len() != 0);
        assert(major_string(v) == dec_digits(v / 1000000) + seq!['.'] + trim_trailing_zeros(
            padded_digits(v % 1000000, 6),
        ));
        assert(normalize_major(s) == strip_leading_zeros(ip) + seq!['.']
            + trim_trailing_zeros(fp));
    }
}

/// Round trip, both sides closed: feeding the rendering of any
/// representable minor-unit value back into the parser must succeed and
/// return exactly that value with the requested denomination.
pub proof fn lemma_round_trip_accepted(
    v: nat,
    denom: Seq<char>,
    r: Result<Amount, ValidationError>,
)
    requires
        v <= u128::MAX,
        major_to_minor_post(major_string(v), denom, r),
    ensures
        match r {
            Ok(a) => a.value as nat == v && a.denom@ == denom,
            Err(_) => false,
        },
{
    lemma_major_round_trip(v);
    let s = major_string(v);
    assert(!is_negative_decimal(s)) by {
        if is_negative_decimal(s) {
            lemma_dec_digits(v / 1000000);
            let ip = dec_digits(v / 1000000);
            assert(s[0] == ip[0]);
            lemma_digit_not_punct(ip[0]);
        }
    }
}

/// Precision rejection: an otherwise well-formed major numeral with more
/// than six fractional digits is always refused with the precision error,
/// never rounded.
pub proof fn lemma_precision_rejection(
    s: Seq<char>,
    denom: Seq<char>,
    r: Result<Amount, ValidationError>,
)
    requires
        major_to_minor_post(s, denom, r),
        well_formed_major(s),
        frac_len(s) > 6,
    ensures
        r == Result::<Amount, ValidationError>::Err(ValidationError::AmountPrecisionExceeded),
{
    if is_negative_decimal(s) {
        assert(s[0] == '-');
        assert(before_dot(s).len() >= 1 && before_dot(s)[0] == '-');
        assert(is_dec_digit('-') == false) by {
            assert(('-' as u32) == 45);
        }
    }
}

} // verus!
