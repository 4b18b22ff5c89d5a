//! Decimal digit sequences: the mathematical model of base-10 rendering and
//! parsing shared by the denomination converter, delegation display strings,
//! and pagination cursors.

use vstd::prelude::*;
use vstd::string::StrSliceExecFns;
use vstd::string::StringExecFns;

verus! {

/// A character is a decimal digit `'0'..='9'`.
pub open spec fn is_dec_digit(c: char) -> bool {
    48 <= c as u32 <= 57
}

/// Numeric value of a digit character.
pub open spec fn digit_val(c: char) -> nat {
    (c as u32 - 48) as nat
}

/// Digit character for a value below ten.
pub open spec fn digit_char(d: nat) -> char {
    if d == 0 {
        '0'
    } else if d == 1 {
        '1'
    } else if d == 2 {
        '2'
    } else if d == 3 {
        '3'
    } else if d == 4 {
        '4'
    } else if d == 5 {
        '5'
    } else if d == 6 {
        '6'
    } else if d == 7 {
        '7'
    } else if d == 8 {
        '8'
    } else {
        '9'
    }
}

/// Every character of `s` is a decimal digit.
pub open spec fn all_dec_digits(s: Seq<char>) -> bool {
    forall|i: int| 0 <= i < s.len() ==> is_dec_digit(#[trigger] s[i])
}

/// The canonical decimal rendering of `n`: no leading zeros, `"0"` for zero.
pub open spec fn dec_digits(n: nat) -> Seq<char>
    decreases n,
{
    if n < 10 {
        seq![digit_char(n)]
    } else {
        dec_digits(n / 10).push(digit_char(n % 10))
    }
}

/// The number denoted by a digit sequence, most significant digit first;
/// an empty sequence denotes zero.
pub open spec fn dec_value(s: Seq<char>) -> nat
    decreases s.len(),
{
    if s.len() == 0 {
        0
    } else {
        dec_value(s.drop_last()) * 10 + digit_val(s.last())
    }
}

/// Ten to the power `k`.
pub open spec fn pow10(k: nat) -> nat
    decreases k,
{
    if k == 0 {
        1
    } else {
        10 * pow10((k - 1) as nat)
    }
}

/// Ten to any power is positive.
pub proof fn lemma_pow10_pos(k: nat)
    ensures
        pow10(k) >= 1,
    decreases k,
{
    if k > 0 {
        lemma_pow10_pos((k - 1) as nat);
    }
}

/// The `k`-character zero-padded decimal rendering of `n mod 10^k`.
pub open spec fn padded_digits(n: nat, k: nat) -> Seq<char>
    decreases k,
{
    if k == 0 {
        Seq::empty()
    } else {
        padded_digits(n / 10, (k - 1) as nat).push(digit_char(n % 10))
    }
}

/// `s` with every trailing `'0'` removed.
pub open spec fn trim_trailing_zeros(s: Seq<char>) -> Seq<char>
    decreases s.len(),
{
    if s.len() > 0 && s.last() == '0' {
        trim_trailing_zeros(s.drop_last())
    } else {
        s
    }
}

/// The digit character of a value below ten is a decimal digit, and the two
/// maps invert each other.
pub proof fn lemma_digit_char(d: nat)
    requires
        d < 10,
    ensures
        is_dec_digit(digit_char(d)),
        digit_val(digit_char(d)) == d,
{
}

/// A digit character is reproduced from its value.
pub proof fn lemma_digit_char_of_val(c: char)
    requires
        is_dec_digit(c),
    ensures
        digit_char(digit_val(c)) == c,
{
    let d = digit_char(digit_val(c));
    assert(d as u32 == c as u32);
    vstd::utf8::char_u32_cast(c, c as u32);
    vstd::utf8::char_u32_cast(d, d as u32);
}

/// The canonical rendering consists of digits, is nonempty, denotes `n`
/// back, and never starts with `'0'` unless it is exactly `"0"`.
pub proof fn lemma_dec_digits(n: nat)
    ensures
        all_dec_digits(dec_digits(n)),
        dec_digits(n).len() >= 1,
        dec_value(dec_digits(n)) == n,
        n > 0 ==> dec_digits(n)[0] != '0',
        n < pow10(dec_digits(n).len()),
    decreases n,
{
    if n < 10 {
        lemma_digit_char(n);
        assert(dec_digits(n) =~= seq![digit_char(n)]);
        assert(dec_digits(n).drop_last() =~= Seq::<char>::empty());
        assert(dec_digits(n).last() == digit_char(n));
        assert(dec_value(dec_digits(n)) == dec_value(Seq::<char>::empty()) * 10 + digit_val(
            digit_char(n),
        ));
        assert(pow10(0) == 1);
        assert(pow10(1) == 10);
    } else {
        lemma_dec_digits(n / 10);
        lemma_digit_char(n % 10);
        assert(dec_digits(n).drop_last() =~= dec_digits(n / 10));
        assert(dec_digits(n).last() == digit_char(n % 10));
        let l = dec_digits(n / 10).len();
        assert(pow10(l + 1) == 10 * pow10(l));
        assert(n <= 10 * (n / 10) + 9);
        assert(10 * (n / 10) + 9 < 10 * pow10(l)) by (nonlinear_arith)
            requires
                n / 10 < pow10(l),
        ;
    }
}

/// The padded rendering has exactly `k` digit characters and denotes
/// `n mod 10^k`.
pub proof fn lemma_padded_digits(n: nat, k: nat)
    ensures
        all_dec_digits(padded_digits(n, k)),
        padded_digits(n, k).len() == k,
        dec_value(padded_digits(n, k)) == n % pow10(k),
    decreases k,
{
    if k == 0 {
        assert(pow10(0) == 1);
        assert(n % 1 == 0) by (nonlinear_arith);
    } else {
        lemma_padded_digits(n / 10, (k - 1) as nat);
        lemma_digit_char(n % 10);
        lemma_pow10_pos((k - 1) as nat);
        assert(padded_digits(n, k).drop_last() =~= padded_digits(n / 10, (k - 1) as nat));
        assert(dec_value(padded_digits(n, k)) == ((n / 10) % pow10((k - 1) as nat)) * 10 + n
            % 10);
        vstd::arithmetic::div_mod::lemma_breakdown(n as int, 10, pow10((k - 1) as nat) as int);
        assert(n % (10 * pow10((k - 1) as nat)) == 10 * ((n / 10) % pow10((k - 1) as nat)) + n
            % 10);
    }
}

/// A digit sequence denotes a value below `10^len`.
pub proof fn lemma_dec_value_bound(s: Seq<char>)
    requires
        all_dec_digits(s),
    ensures
        dec_value(s) < pow10(s.len()),
    decreases s.len(),
{
    if s.len() > 0 {
        lemma_dec_value_bound(s.drop_last());
        assert(is_dec_digit(s.last()));
        assert(digit_val(s.last()) <= 9);
        assert(dec_value(s.drop_last()) * 10 <= (pow10((s.len() - 1) as nat) - 1) * 10)
            by (nonlinear_arith)
            requires
                dec_value(s.drop_last()) <= pow10((s.len() - 1) as nat) - 1,
        ;
    }
}

/// A single digit character denotes its own value.
pub proof fn lemma_dec_value_singleton(c: char)
    ensures
        dec_value(seq![c]) == digit_val(c),
{
    assert(seq![c].drop_last() =~= Seq::<char>::empty());
    assert(seq![c].last() == c);
    assert(dec_value(Seq::<char>::empty()) == 0);
}

/// Taking one more character multiplies the prefix value by ten and adds
/// the new digit.
pub proof fn lemma_dec_value_take_step(s: Seq<char>, i: int)
    requires
        0 <= i < s.len(),
    ensures
        dec_value(s.take(i + 1)) == dec_value(s.take(i)) * 10 + digit_val(s[i]),
{
    assert(s.take(i + 1).drop_last() =~= s.take(i));
    assert(s.take(i + 1).last() == s[i]);
}

/// The value of a whole digit sequence is at least the value of any prefix.
pub proof fn lemma_dec_value_prefix(s: Seq<char>, i: int)
    requires
        0 <= i <= s.len(),
    ensures
        dec_value(s) >= dec_value(s.take(i)),
    decreases s.len() - i,
{
    if i == s.len() {
        assert(s.take(i) =~= s);
    } else {
        lemma_dec_value_prefix(s, i + 1);
        lemma_dec_value_take_step(s, i);
    }
}

/// Splitting a digit sequence: the whole denotes the front shifted by the
/// length of the back, plus the back.
pub proof fn lemma_dec_value_concat(a: Seq<char>, b: Seq<char>)
    ensures
        dec_value(a + b) == dec_value(a) * pow10(b.len()) + dec_value(b),
    decreases b.len(),
{
    if b.len() == 0 {
        assert(a + b =~= a);
        assert(pow10(0) == 1);
    } else {
        lemma_dec_value_concat(a, b.drop_last());
        assert((a + b).drop_last() =~= a + b.drop_last());
        assert((a + b).last() == b.last());
        let x = dec_value(a);
        let p = pow10((b.len() - 1) as nat);
        let y = dec_value(b.drop_last());
        let d = digit_val(b.last());
        assert(dec_value(a + b) == (x * p + y) * 10 + d);
        assert((x * p + y) * 10 == x * (10 * p) + y * 10) by (nonlinear_arith);
        assert(pow10(b.len()) == 10 * p);
        assert(dec_value(b) == y * 10 + d);
    }
}

/// Ten to a sum of powers is the product of the powers.
pub proof fn lemma_pow10_add(a: nat, b: nat)
    ensures
        pow10(a + b) == pow10(a) * pow10(b),
    decreases b,
{
    if b == 0 {
        assert(pow10(0) == 1);
    } else {
        lemma_pow10_add(a, (b - 1) as nat);
        assert(pow10(a + b) == 10 * pow10((a + b - 1) as nat));
        assert(pow10(a) * (10 * pow10((b - 1) as nat)) == 10 * (pow10(a) * pow10(
            (b - 1) as nat,
        ))) by (nonlinear_arith);
    }
}

/// Ten to a power is monotone in the exponent.
pub proof fn lemma_pow10_le(a: nat, b: nat)
    requires
        a <= b,
    ensures
        pow10(a) <= pow10(b),
    decreases b,
{
    if a < b {
        lemma_pow10_le(a, (b - 1) as nat);
        lemma_pow10_pos((b - 1) as nat);
    }
}

/// Appends a string slice to `out`.
pub fn append_str(out: &mut String, s: &str)
    ensures
        final(out)@ == old(out)@ + s@,
{
    out.append(s);
}

/// Appends one digit character to `out`.
fn append_digit(out: &mut String, d: u8)
    requires
        d < 10,
    ensures
        final(out)@ == old(out)@ + seq![digit_char(d as nat)],
{
    proof {
        reveal_strlit("0");
        reveal_strlit("1");
        reveal_strlit("2");
        reveal_strlit("3");
        reveal_strlit("4");
        reveal_strlit("5");
        reveal_strlit("6");
        reveal_strlit("7");
        reveal_strlit("8");
        reveal_strlit("9");
    }
    match d {
        0 => out.append("0"),
        1 => out.append("1"),
        2 => out.append("2"),
        3 => out.append("3"),
        4 => out.append("4"),
        5 => out.append("5"),
        6 => out.append("6"),
        7 => out.append("7"),
        8 => out.append("8"),
        _ => out.append("9"),
    }
    proof {
        assert(out@ =~= old(out)@ + seq![digit_char(d as nat)]);
    }
}

/// Appends the canonical decimal rendering of `n` to `out`.
pub fn append_dec(out: &mut String, n: u128)
    ensures
        final(out)@ == old(out)@ + dec_digits(n as nat),
    decreases n,
{
    if n >= 10 {
        append_dec(out, n / 10);
        append_digit(out, (n % 10) as u8);
        proof {
            assert(out@ =~= old(out)@ + dec_digits(n as nat));
        }
    } else {
        append_digit(out, n as u8);
    }
}

/// Appends the `k`-digit zero-padded rendering of `n` to `out`.
pub fn append_padded(out: &mut String, n: u128, k: u32)
    ensures
        final(out)@ == old(out)@ + padded_digits(n as nat, k as nat),
    decreases k,
{
    if k > 0 {
        append_padded(out, n / 10, k - 1);
        append_digit(out, (n % 10) as u8);
        proof {
            assert(out@ =~= old(out)@ + padded_digits(n as nat, k as nat));
        }
    } else {
        proof {
            assert(old(out)@ + padded_digits(n as nat, 0) =~= old(out)@);
        }
    }
}

/// Renders `n` as its canonical decimal string.
pub fn dec_string(n: u128) -> (r: String)
    ensures
        r@ == dec_digits(n as nat),
{
    let mut out = String::new();
    append_dec(&mut out, n);
    proof {
        assert(out@ =~= dec_digits(n as nat));
    }
    out
}

/// Parses an all-digit string as an integer, reporting overflow of the
/// target width; rejects empty and non-digit input.
pub fn parse_dec(s: &str) -> (r: Option<u128>)
    ensures
        match r {
            Some(v) => all_dec_digits(s@) && s@.len() >= 1 && v as nat == dec_value(s@),
            None => !(all_dec_digits(s@) && s@.len() >= 1 && dec_value(s@) <= u128::MAX),
        },
{
    let n = s.unicode_len();
    if n == 0 {
        return None;
    }
    let mut i: usize = 0;
    let mut acc: u128 = 0;
    while i < n
        invariant
            0 <= i <= n,
            n == s@.len(),
            all_dec_digits(s@.take(i as int)),
            acc as nat == dec_value(s@.take(i as int)),
        decreases n - i,
    {
        let c = s.get_char(i);
        let code = c as u32;
        if code < 48 || code > 57 {
            proof {
                assert(!is_dec_digit(s@[i as int]));
            }
            return None;
        }
        let d = (code - 48) as u128;
        if acc > (u128::MAX - d) / 10 {
            proof {
                lemma_dec_value_take_step(s@, i as int);
                assert(dec_value(s@.take(i as int + 1)) > u128::MAX) by (nonlinear_arith)
                    requires
                        dec_value(s@.take(i as int + 1)) == dec_value(s@.take(i as int)) * 10
                            + digit_val(s@[i as int]),
                        dec_value(s@.take(i as int)) > (u128::MAX - digit_val(s@[i as int])) / 10,
                        digit_val(s@[i as int]) < 10,
                ;
                lemma_dec_value_prefix(s@, i as int + 1);
            }
            return None;
        }
        proof {
            lemma_dec_value_take_step(s@, i as int);
            assert(dec_value(s@.take(i as int)) * 10 + digit_val(s@[i as int]) <= u128::MAX)
                by (nonlinear_arith)
                requires
                    dec_value(s@.take(i as int)) <= (u128::MAX - digit_val(s@[i as int])) / 10,
                    digit_val(s@[i as int]) < 10,
            ;
            assert(s@.take(i as int + 1) =~= s@.take(i as int).push(s@[i as int]));
        }
        acc = acc * 10 + d;
        i = i + 1;
    }
    proof {
        assert(s@.take(n as int) =~= s@);
    }
    Some(acc)
}

} // verus!
