//! Decimal rendering of integers into text.

use vstd::prelude::*;

verus! {

/// The character that spells the decimal digit `d` (`0 <= d < 10`).
pub open spec fn digit_char(d: nat) -> char {
    (d + 48) as char
}

/// The decimal spelling of a natural number: no sign and no leading zero
/// (zero itself is spelled `"0"`).
pub open spec fn decimal(n: nat) -> Seq<char>
    decreases n,
{
    if n < 10 {
        seq![digit_char(n)]
    } else {
        decimal(n / 10).push(digit_char(n % 10))
    }
}

/// The decimal spelling of an integer, with a leading `-` when it is negative,
/// as Rust's `Display` and `Debug` print integers.
pub open spec fn signed_decimal(i: int) -> Seq<char> {
    if i < 0 {
        seq!['-'].add(decimal((-i) as nat))
    } else {
        decimal(i as nat)
    }
}

/// Whether `c` is one of the ten decimal digit characters.
pub open spec fn is_digit(c: char) -> bool {
    '0' <= c <= '9'
}

/// The number a digit character stands for.
pub open spec fn digit_value(c: char) -> int {
    (c as int) - ('0' as int)
}

/// The number that the digit characters `s` spell in base ten, most
/// significant first.
pub open spec fn read_decimal(s: Seq<char>) -> int
    decreases s.len(),
{
    if s.len() == 0 {
        0
    } else {
        read_decimal(s.drop_last()) * 10 + digit_value(s.last())
    }
}

/// `s` is a well-formed decimal numeral: at least one character, only digits,
/// and no leading zero unless it is the single digit `0`.
pub open spec fn is_numeral(s: Seq<char>) -> bool {
    &&& s.len() > 0
    &&& forall|k: int| 0 <= k < s.len() ==> is_digit(#[trigger] s[k])
    &&& s.len() > 1 ==> s[0] != '0'
}

proof fn lemma_digit_roundtrip(d: nat)
    requires
        d < 10,
    ensures
        is_digit(digit_char(d)),
        digit_value(digit_char(d)) == d,
        d > 0 ==> digit_char(d) != '0',
{
}

proof fn lemma_char_of_value(c: char)
    requires
        is_digit(c),
    ensures
        0 <= digit_value(c) < 10,
        digit_char(digit_value(c) as nat) == c,
{
}

proof fn lemma_read_digits_bounds(s: Seq<char>)
    requires
        s.len() > 0,
        forall|k: int| 0 <= k < s.len() ==> is_digit(#[trigger] s[k]),
    ensures
        read_decimal(s) >= 0,
        s[0] != '0' ==> read_decimal(s) > 0,
    decreases s.len(),
{
    assert(read_decimal(s) == read_decimal(s.drop_last()) * 10 + digit_value(s.last()));
    assert(is_digit(s[s.len() - 1]));
    if s.len() == 1 {
        assert(s.drop_last().len() == 0);
        assert(read_decimal(s.drop_last()) == 0);
        assert(s.last() == s[0]);
    } else {
        let t = s.drop_last();
        assert forall|k: int| 0 <= k < t.len() implies is_digit(#[trigger] t[k]) by {
            assert(t[k] == s[k]);
        }
        assert(t[0] == s[0]);
        lemma_read_digits_bounds(t);
    }
}

/// The decimal spelling of `n` is a well-formed numeral (digits only, no
/// leading zero, no sign) that reads back as `n`; a number below ten is
/// spelled by its single digit, and a positive number never starts with `0`.
pub proof fn lemma_decimal_is_numeral(n: nat)
    ensures
        is_numeral(decimal(n)),
        read_decimal(decimal(n)) == n,
        n < 10 ==> decimal(n) == seq![digit_char(n)],
        n > 0 ==> decimal(n)[0] != '0',
    decreases n,
{
    if n < 10 {
        lemma_digit_roundtrip(n);
        let s = decimal(n);
        assert(s.drop_last().len() == 0);
        assert(read_decimal(s) == read_decimal(s.drop_last()) * 10 + digit_value(s.last()));
    } else {
        let q = n / 10;
        let r = n % 10;
        lemma_decimal_is_numeral(q);
        lemma_digit_roundtrip(r);
        let p = decimal(q);
        let s = decimal(n);
        assert(s == p.push(digit_char(r)));
        assert(s.drop_last() =~= p);
        assert(s[0] == p[0]);
        assert forall|k: int| 0 <= k < s.len() implies is_digit(#[trigger] s[k]) by {
            if k < p.len() {
                assert(s[k] == p[k]);
            }
        }
        assert(n == q * 10 + r);
    }
}

/// A well-formed numeral is the decimal spelling of the number it reads as:
/// every number has exactly one decimal spelling.
pub proof fn lemma_numeral_is_decimal(s: Seq<char>)
    requires
        is_numeral(s),
    ensures
        read_decimal(s) >= 0,
        s == decimal(read_decimal(s) as nat),
    decreases s.len(),
{
    lemma_read_digits_bounds(s);
    let n = read_decimal(s) as nat;
    if s.len() == 1 {
        assert(s.drop_last().len() == 0);
        assert(read_decimal(s) == read_decimal(s.drop_last()) * 10 + digit_value(s.last()));
        lemma_char_of_value(s[0]);
        assert(decimal(n) =~= s);
    } else {
        let t = s.drop_last();
        let d = digit_value(s.last());
        assert(is_digit(s[s.len() - 1]));
        lemma_char_of_value(s.last());
        assert forall|k: int| 0 <= k < t.len() implies is_digit(#[trigger] t[k]) by {
            assert(t[k] == s[k]);
        }
        assert(t[0] == s[0]);
        lemma_read_digits_bounds(t);
        lemma_numeral_is_decimal(t);
        let q = read_decimal(t);
        assert(n == q * 10 + d);
        assert(q > 0);
        assert(n / 10 == q && n % 10 == d) by (nonlinear_arith)
            requires
                n == q * 10 + d,
                0 <= d < 10,
                q >= 0,
        ;
        assert(s =~= t.push(s.last()));
    }
}

/// The signed spelling of `i` has a `-` in front exactly when `i` is
/// negative and no sign otherwise, and what follows the sign is the decimal
/// spelling of the magnitude of `i`.
pub proof fn lemma_signed_decimal_shape(i: int)
    ensures
        i >= 0 ==> signed_decimal(i) == decimal(i as nat),
        i < 0 ==> signed_decimal(i) == seq!['-'] + decimal((-i) as nat),
        (signed_decimal(i)[0] == '-') <==> i < 0,
        is_numeral(signed_decimal(i).skip(if i < 0 { 1 } else { 0 })),
        read_decimal(signed_decimal(i).skip(if i < 0 { 1 } else { 0 })) == (if i < 0 { -i } else { i }),
{
    if i < 0 {
        let m = (-i) as nat;
        lemma_decimal_is_numeral(m);
        assert((seq!['-'] + decimal(m)).skip(1) =~= decimal(m));
    } else {
        lemma_decimal_is_numeral(i as nat);
        assert(decimal(i as nat).skip(0) =~= decimal(i as nat));
        assert(is_digit(decimal(i as nat)[0]));
    }
}

/// Appends one character to a string.
///
/// Wraps `String::push`, which std documents as appending the given `char`
/// to the end of the `String`.
#[verifier::external_body]
fn push_char(s: &mut String, c: char)
    ensures
        final(s)@ == old(s)@.push(c),
{
    s.push(c);
}

fn digit(d: u64) -> (c: char)
    requires
        d < 10,
    ensures
        c == digit_char(d as nat),
{
    if d == 0 {
        '0'
    } else if d == 1 {
        '1'
    } else if d == 2 {
        '2'
    } else if d == 3 {
        '3'
    } else if d == 4 {
        '4'
    } else if d == 5 {
        '5'
    } else if d == 6 {
        '6'
    } else if d == 7 {
        '7'
    } else if d == 8 {
        '8'
    } else {
        '9'
    }
}

/// Appends the decimal spelling of `n` to `s`.
pub fn append_decimal(s: &mut String, n: u64)
    ensures
        final(s)@ == old(s)@ + decimal(n as nat),
    decreases n,
{
    if n >= 10 {
        append_decimal(s, n / 10);
    }
    push_char(s, digit(n % 10));
    assert(n >= 10 ==> decimal(n as nat) == decimal((n / 10) as nat).push(digit_char((n % 10) as nat)));
}

/// Appends the decimal spelling of `i` to `s`, with a `-` in front when `i`
/// is negative.
pub fn append_signed_decimal(s: &mut String, i: i64)
    ensures
        final(s)@ == old(s)@ + signed_decimal(i as int),
{
    if i < 0 {
        push_char(s, '-');
        let magnitude: u64 = if i == i64::MIN {
            9223372036854775808u64
        } else {
            (-i) as u64
        };
        append_decimal(s, magnitude);
        assert(old(s)@.push('-') + decimal(magnitude as nat) =~= old(s)@ + (seq!['-'] + decimal(magnitude as nat)));
    } else {
        append_decimal(s, i as u64);
    }
}

} // verus!
