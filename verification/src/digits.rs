//! Decimal rendering of machine integers and the digit-string facts the
//! window-state codec and window-label generator rely on.

use vstd::prelude::*;

verus! {

/// True for the ten ASCII digit characters.
pub open spec fn is_digit_char(c: char) -> bool {
    48 <= c as u32 && c as u32 <= 57
}

/// Numeric value of an ASCII digit character.
pub open spec fn digit_val(c: char) -> nat {
    ((c as u32) - 48) as nat
}

/// The character for a single decimal digit value below ten.
pub open spec fn dec_digit_char(d: nat) -> char {
    if d == 0 {
        '0'
    } else if d == 1 {
        '1'
    } else if d == 2 {
        '2'
    } else if d == 3 {
        '3'
    } else if d == 4 {
        '4'
    } else if d == 5 {
        '5'
    } else if d == 6 {
        '6'
    } else if d == 7 {
        '7'
    } else if d == 8 {
        '8'
    } else {
        '9'
    }
}

/// Decimal rendering of `n`: most significant digit first, no leading zeros.
pub open spec fn dec_str(n: nat) -> Seq<char>
    decreases n,
{
    if n < 10 {
        seq![dec_digit_char(n)]
    } else {
        dec_str(n / 10) + seq![dec_digit_char(n % 10)]
    }
}

/// Decimal rendering of a signed value: a minus sign before the magnitude.
pub open spec fn dec_int_str(x: int) -> Seq<char> {
    if x < 0 {
        seq!['-'] + dec_str((-x) as nat)
    } else {
        dec_str(x as nat)
    }
}

/// Numeric value of a digit string, most significant digit first.
pub open spec fn digits_val(s: Seq<char>) -> nat
    decreases s.len(),
{
    if s.len() == 0 {
        0
    } else {
        digits_val(s.drop_last()) * 10 + digit_val(s.last())
    }
}

/// Powers of ten.
pub open spec fn pow10(k: nat) -> nat
    decreases k,
{
    if k == 0 {
        1
    } else {
        10 * pow10((k - 1) as nat)
    }
}

/// Rendering a digit below ten gives a digit character with the same value.
pub proof fn lemma_dec_digit_char(d: nat)
    requires
        d < 10,
    ensures
        is_digit_char(dec_digit_char(d)),
        digit_val(dec_digit_char(d)) == d,
        d != 0 ==> dec_digit_char(d) != '0',
{
}

/// Every character of a decimal rendering is a digit, the rendering is
/// non-empty, and a non-zero value never starts with the zero digit.
pub proof fn lemma_dec_str_digits(n: nat)
    ensures
        dec_str(n).len() >= 1,
        forall|i: int| 0 <= i < dec_str(n).len() ==> is_digit_char(#[trigger] dec_str(n)[i]),
        n >= 1 ==> dec_str(n)[0] != '0',
    decreases n,
{
    if n < 10 {
        lemma_dec_digit_char(n);
    } else {
        lemma_dec_str_digits(n / 10);
        lemma_dec_digit_char(n % 10);
        assert forall|i: int| 0 <= i < dec_str(n).len() implies is_digit_char(
            #[trigger] dec_str(n)[i],
        ) by {
            if i < dec_str(n / 10).len() {
                assert(dec_str(n)[i] == dec_str(n / 10)[i]);
            } else {
                assert(dec_str(n)[i] == dec_digit_char(n % 10));
            }
        }
        assert(dec_str(n)[0] == dec_str(n / 10)[0]);
    }
}

/// Reading a decimal rendering back as digits recovers the value.
pub proof fn lemma_digits_val_dec_str(n: nat)
    ensures
        digits_val(dec_str(n)) == n,
    decreases n,
{
    if n < 10 {
        lemma_dec_digit_char(n);
        assert(dec_str(n).drop_last() =~= Seq::<char>::empty());
        assert(dec_str(n).last() == dec_digit_char(n));
        assert(digits_val(Seq::<char>::empty()) == 0);
        assert(digits_val(dec_str(n)) == digits_val(dec_str(n).drop_last()) * 10 + digit_val(
            dec_str(n).last(),
        ));
    } else {
        lemma_digits_val_dec_str(n / 10);
        lemma_dec_digit_char(n % 10);
        assert(dec_str(n).drop_last() =~= dec_str(n / 10));
        assert(dec_str(n).last() == dec_digit_char(n % 10));
        assert(digits_val(dec_str(n)) == digits_val(dec_str(n).drop_last()) * 10 + digit_val(
            dec_str(n).last(),
        ));
        assert(n / 10 * 10 + n % 10 == n) by {
            vstd::arithmetic::div_mod::lemma_fundamental_div_mod(n as int, 10);
        };
    }
}

/// A value below `pow10(k)` renders in at most `k` digits.
pub proof fn lemma_dec_str_len(n: nat, k: nat)
    requires
        k >= 1,
        n < pow10(k),
    ensures
        dec_str(n).len() <= k,
    decreases n,
{
    if n < 10 {
    } else {
        assert(pow10(k) == 10 * pow10((k - 1) as nat));
        assert(n / 10 < pow10((k - 1) as nat)) by {
            if n / 10 >= pow10((k - 1) as nat) {
                assert(n >= (n / 10) * 10) by {
                    vstd::arithmetic::div_mod::lemma_fundamental_div_mod(n as int, 10);
                };
                assert((n / 10) * 10 >= pow10((k - 1) as nat) * 10) by (nonlinear_arith)
                    requires
                        n / 10 >= pow10((k - 1) as nat),
                ;
            }
        };
        assert((k - 1) as nat >= 1) by {
            if k == 1 {
                assert(pow10(0nat) == 1);
                assert(n / 10 < 1);
                assert(n < 10) by {
                    vstd::arithmetic::div_mod::lemma_fundamental_div_mod(n as int, 10);
                };
            }
        };
        lemma_dec_str_len(n / 10, (k - 1) as nat);
    }
}

/// Fixed small powers of ten, spelled out for use at call sites.
pub proof fn lemma_pow10_10()
    ensures
        pow10(10) == 10_000_000_000,
{
    assert(pow10(0) == 1);
    assert(pow10(1) == 10);
    assert(pow10(2) == 100);
    assert(pow10(3) == 1000);
    assert(pow10(4) == 10000);
    assert(pow10(5) == 100000);
    assert(pow10(6) == 1000000);
    assert(pow10(7) == 10000000);
    assert(pow10(8) == 100000000);
    assert(pow10(9) == 1000000000);
}

/// Number of leading digit characters of `s`.
pub open spec fn digit_count(s: Seq<char>) -> nat
    decreases s.len(),
{
    if s.len() == 0 || !is_digit_char(s[0]) {
        0
    } else {
        1 + digit_count(s.skip(1))
    }
}

/// Leading digits parsed as a number: their value and how many there are.
/// Refused: no digits at all, a leading zero before more digits, and more
/// digits than any 32-bit value needs.
pub open spec fn spec_parse_digits(t: Seq<char>) -> Option<(nat, nat)> {
    let c = digit_count(t);
    if c == 0 || c > 10 || (c > 1 && t[0] == '0') {
        None
    } else {
        Some((digits_val(t.take(c as int)), c))
    }
}

/// The digit count found by a left-to-right scan: every position before it
/// holds a digit and the position after it, if any, does not.
pub proof fn lemma_digit_count_at(s: Seq<char>, j: int)
    requires
        0 <= j <= s.len(),
        forall|i: int| 0 <= i < j ==> is_digit_char(#[trigger] s[i]),
        j == s.len() || !is_digit_char(s[j]),
    ensures
        digit_count(s) == j,
    decreases s.len(),
{
    if s.len() == 0 {
    } else if !is_digit_char(s[0]) {
        assert(j == 0);
    } else {
        assert(j >= 1);
        assert(forall|i: int| 0 <= i < j - 1 ==> is_digit_char(#[trigger] s.skip(1)[i]) == is_digit_char(
            s[i + 1],
        ));
        if j < s.len() {
            assert(s.skip(1)[j - 1] == s[j]);
        }
        lemma_digit_count_at(s.skip(1), j - 1);
    }
}

/// Appending a tail that starts with a non-digit does not change where the
/// leading digits end.
pub proof fn lemma_digit_count_concat(d: Seq<char>, rest: Seq<char>)
    requires
        forall|i: int| 0 <= i < d.len() ==> is_digit_char(#[trigger] d[i]),
        rest.len() >= 1,
        !is_digit_char(rest[0]),
    ensures
        digit_count(d + rest) == d.len(),
{
    assert forall|i: int| 0 <= i < d.len() implies is_digit_char(#[trigger] (d + rest)[i]) by {
        assert((d + rest)[i] == d[i]);
    }
    assert((d + rest)[d.len() as int] == rest[0]);
    lemma_digit_count_at(d + rest, d.len() as int);
}

/// One accumulation step of reading digits left to right.
pub proof fn lemma_digits_val_step(t: Seq<char>, i: int)
    requires
        0 <= i < t.len(),
    ensures
        digits_val(t.take(i + 1)) == digits_val(t.take(i)) * 10 + digit_val(t[i]),
{
    assert(t.take(i + 1).drop_last() =~= t.take(i));
    assert(t.take(i + 1).last() == t[i]);
}

/// Powers of ten grow with the exponent.
pub proof fn lemma_pow10_monotone(a: nat, b: nat)
    requires
        a <= b,
    ensures
        pow10(a) <= pow10(b),
    decreases b,
{
    if a < b {
        lemma_pow10_monotone(a, (b - 1) as nat);
        assert(pow10(b) == 10 * pow10((b - 1) as nat));
    }
}

/// The leading digits of a decimal rendering followed by a non-digit tail
/// parse back to the rendered value, leaving exactly the tail.
pub proof fn lemma_parse_digits_dec_str(n: nat, rest: Seq<char>)
    requires
        n < pow10(10),
        rest.len() >= 1,
        !is_digit_char(rest[0]),
    ensures
        spec_parse_digits(dec_str(n) + rest) == Some((n, dec_str(n).len())),
        (dec_str(n) + rest).skip(dec_str(n).len() as int) == rest,
        (dec_str(n) + rest).len() >= 1,
        is_digit_char((dec_str(n) + rest)[0]),
{
    let d = dec_str(n);
    lemma_dec_str_digits(n);
    lemma_dec_str_len(n, 10);
    lemma_digit_count_concat(d, rest);
    assert((d + rest).take(d.len() as int) =~= d);
    assert((d + rest).skip(d.len() as int) =~= rest);
    lemma_digits_val_dec_str(n);
    assert((d + rest)[0] == d[0]);
    if d.len() > 1 {
        assert(n >= 10);
        assert(d[0] != '0');
    }
}

/// Digit test on one character.
pub fn is_digit(c: char) -> (r: bool)
    ensures
        r == is_digit_char(c),
{
    let u = c as u32;
    48 <= u && u <= 57
}

/// The one-character string for a digit value.
pub fn digit_str(d: u64) -> (r: &'static str)
    requires
        d < 10,
    ensures
        r@ =~= seq![dec_digit_char(d as nat)],
{
    proof {
        reveal_strlit("0");
        reveal_strlit("1");
        reveal_strlit("2");
        reveal_strlit("3");
        reveal_strlit("4");
        reveal_strlit("5");
        reveal_strlit("6");
        reveal_strlit("7");
        reveal_strlit("8");
        reveal_strlit("9");
    }
    if d == 0 {
        "0"
    } else if d == 1 {
        "1"
    } else if d == 2 {
        "2"
    } else if d == 3 {
        "3"
    } else if d == 4 {
        "4"
    } else if d == 5 {
        "5"
    } else if d == 6 {
        "6"
    } else if d == 7 {
        "7"
    } else if d == 8 {
        "8"
    } else {
        "9"
    }
}

/// Appends the decimal rendering of `n` to `s`.
pub fn push_dec(s: &mut String, n: u64)
    ensures
        final(s)@ == old(s)@ + dec_str(n as nat),
    decreases n,
{
    if n >= 10 {
        push_dec(s, n / 10);
        let d = digit_str(n % 10);
        s.append(d);
        proof {
            assert((old(s)@ + dec_str((n / 10) as nat)) + seq![dec_digit_char((n % 10) as nat)]
                =~= old(s)@ + dec_str(n as nat));
        }
    } else {
        let d = digit_str(n);
        s.append(d);
    }
}

/// Appends the decimal rendering of a signed value to `s`.
pub fn push_dec_signed(s: &mut String, x: i32)
    ensures
        final(s)@ == old(s)@ + dec_int_str(x as int),
{
    proof {
        reveal_strlit("-");
    }
    if x < 0 {
        s.append("-");
        let mag: u64 = (-(x as i64)) as u64;
        push_dec(s, mag);
        proof {
            assert((old(s)@ + "-"@) + dec_str(mag as nat) =~= old(s)@ + dec_int_str(x as int));
        }
    } else {
        push_dec(s, x as u64);
    }
}

} // verus!
