//! Numbers written out in decimal digits.

use vstd::prelude::*;

verus! {

/// The character of the decimal digit `d`.
pub open spec fn digit_char(d: nat) -> char
    recommends
        d < 10,
{
    (48 + d) as char
}

/// The number that a digit character stands for.
pub open spec fn digit_value(c: char) -> int {
    (c as int) - 48
}

/// `n` written in decimal digits, without a leading zero.
pub open spec fn decimal(n: nat) -> Seq<char>
    decreases n,
{
    if n < 10 {
        seq![digit_char(n)]
    } else {
        decimal(n / 10).push(digit_char(n % 10))
    }
}

/// `i` written in decimal digits, behind a minus sign if it is negative.
pub open spec fn signed_decimal(i: int) -> Seq<char> {
    if i < 0 {
        "-"@ + decimal((-i) as nat)
    } else {
        decimal(i as nat)
    }
}

/// `n` copies of the character `c`.
pub open spec fn repeated(c: char, n: nat) -> Seq<char> {
    Seq::new(n, |i: int| c)
}

/// `n` in decimal digits, with zeros in front up to `width` characters.
pub open spec fn padded(n: nat, width: nat) -> Seq<char> {
    let digits = decimal(n);
    if digits.len() < width {
        repeated('0', (width - digits.len()) as nat) + digits
    } else {
        digits
    }
}

/// The number that a sequence of digit characters stands for.
pub open spec fn digits_value(s: Seq<char>) -> int
    decreases s.len(),
{
    if s.len() == 0 {
        0
    } else {
        digits_value(s.drop_last()) * 10 + digit_value(s.last())
    }
}

/// Reading back the digits of a number gives that number.
pub proof fn decimal_reads_back(n: nat)
    ensures
        digits_value(decimal(n)) == n,
    decreases n,
{
    if n < 10 {
        assert(decimal(n).drop_last() =~= Seq::<char>::empty());
        assert(digits_value(Seq::<char>::empty()) == 0);
    } else {
        decimal_reads_back(n / 10);
        assert(decimal(n).drop_last() =~= decimal(n / 10));
    }
}

/// Zeros in front of digits do not change the number they stand for.
proof fn zeros_in_front(k: nat, s: Seq<char>)
    ensures
        digits_value(repeated('0', k) + s) == digits_value(s),
    decreases s.len(), k,
{
    let t = repeated('0', k) + s;
    if s.len() > 0 {
        zeros_in_front(k, s.drop_last());
        assert(t.drop_last() =~= repeated('0', k) + s.drop_last());
    } else if k > 0 {
        zeros_in_front((k - 1) as nat, s);
        assert(t.drop_last() =~= repeated('0', (k - 1) as nat) + s);
    } else {
        assert(t =~= s);
    }
}

/// Reading back the padded digits of a number gives that number, so two numbers that are padded
/// to one width have different texts.
pub proof fn padded_reads_back(n: nat, width: nat)
    ensures
        digits_value(padded(n, width)) == n,
{
    decimal_reads_back(n);
    let digits = decimal(n);
    if digits.len() < width {
        zeros_in_front((width - digits.len()) as nat, digits);
    }
}

/// A smaller number never has more digits.
pub proof fn decimal_len_monotone(a: nat, b: nat)
    requires
        a <= b,
    ensures
        1 <= decimal(a).len() <= decimal(b).len(),
    decreases b,
{
    if b >= 10 {
        decimal_len_monotone(a / 10, b / 10);
        if a < 10 {
            decimal_len_monotone(b / 10, b / 10);
        }
    }
}

/// `c` is a digit character.
pub open spec fn is_digit(c: char) -> bool {
    0 <= digit_value(c) < 10
}

/// All characters are digits.
pub open spec fn all_digits(s: Seq<char>) -> bool {
    forall|i: int| 0 <= i < s.len() ==> is_digit(#[trigger] s[i])
}

/// The texts agree before position `k`, where `a` has the smaller character.
pub open spec fn smaller_at(a: Seq<char>, b: Seq<char>, k: int) -> bool {
    &&& 0 <= k < a.len()
    &&& k < b.len()
    &&& (a[k] as int) < (b[k] as int)
    &&& forall|i: int| 0 <= i < k ==> a[i] == b[i]
}

/// `a` comes before `b` in the order of texts, by the first character in which they differ.
pub open spec fn sorts_before(a: Seq<char>, b: Seq<char>) -> bool {
    exists|k: int| smaller_at(a, b, k)
}

/// A number is written in digits.
proof fn decimal_is_digits(n: nat)
    ensures
        all_digits(decimal(n)),
    decreases n,
{
    if n >= 10 {
        decimal_is_digits(n / 10);
    }
}

/// `s` is how the number `n` is written: in digits that stand for it, without a zero in front unless
/// that is all.
pub open spec fn numeral(s: Seq<char>, n: int) -> bool {
    &&& s.len() > 0
    &&& all_digits(s)
    &&& digits_value(s) == n
    &&& s[0] == '0' ==> s.len() == 1
}

/// A number is written without a zero in front, and its digits stand for it.
pub proof fn decimal_is_numeral(n: nat)
    ensures
        numeral(decimal(n), n as int),
    decreases n,
{
    decimal_reads_back(n);
    decimal_is_digits(n);
    decimal_begins_above_zero(n);
}

/// The first digit of a positive number is no zero.
proof fn decimal_begins_above_zero(n: nat)
    ensures
        decimal(n).len() > 0,
        n > 0 ==> decimal(n)[0] != '0',
        n < 10 ==> decimal(n).len() == 1,
    decreases n,
{
    if n >= 10 {
        decimal_begins_above_zero(n / 10);
        assert(decimal(n)[0] == decimal(n / 10)[0]);
    }
}

/// Digits stand for no less than zero, and for more if the first is no zero.
proof fn digits_value_positive(s: Seq<char>)
    requires
        s.len() > 0,
        all_digits(s),
    ensures
        digits_value(s) >= 0,
        s[0] != '0' ==> digits_value(s) > 0,
    decreases s.len(),
{
    let before = s.drop_last();
    assert(is_digit(s.last()));
    assert(is_digit(s[0]));
    if before.len() > 0 {
        assert forall|i: int| 0 <= i < before.len() implies is_digit(#[trigger] before[i]) by {
            assert(is_digit(s[i]));
        }
        digits_value_positive(before);
    } else {
        assert(digits_value(before) == 0);
    }
}

/// There is one way only to write a number.
pub proof fn numeral_is_decimal(s: Seq<char>, n: nat)
    requires
        numeral(s, n as int),
    ensures
        s == decimal(n),
    decreases s.len(),
{
    let before = s.drop_last();
    assert(is_digit(s.last()));
    assert(s =~= before.push(s.last()));
    if before.len() == 0 {
        assert(digits_value(before) == 0);
        assert(s =~= decimal(n));
    } else {
        assert forall|i: int| 0 <= i < before.len() implies is_digit(#[trigger] before[i]) by {
            assert(is_digit(s[i]));
        }
        digits_value_positive(before);
        numeral_is_decimal(before, (n / 10) as nat);
        assert(s =~= decimal(n));
    }
}

/// `n` copies of a character are that character `n` times and nothing else.
pub proof fn repeated_is_uniform(c: char, n: nat)
    ensures
        repeated(c, n).len() == n,
        forall|i: int| 0 <= i < n ==> #[trigger] repeated(c, n)[i] == c,
{
}

/// A padded number is its numeral with zeros in front, and just as many as bring it to the width.
pub proof fn padded_is_filled_up(n: nat, width: nat)
    ensures
        exists|digits: Seq<char>| #[trigger]
            numeral(digits, n as int) && padded(n, width).len() == (if digits.len() < width {
                width
            } else {
                digits.len()
            }) && padded(n, width).skip(padded(n, width).len() - digits.len()) == digits && forall|
                i: int,
            |
                0 <= i < padded(n, width).len() - digits.len() ==> #[trigger] padded(n, width)[i]
                    == '0',
{
    let digits = decimal(n);
    let s = padded(n, width);
    decimal_is_numeral(n);
    assert(s.skip(s.len() - digits.len()) =~= digits);
    assert(numeral(digits, n as int));
}

/// A negative number is written as a minus sign and the numeral of its absolute value, and any other
/// number as its numeral.
pub proof fn signed_decimal_is_numeral(i: int)
    ensures
        i < 0 ==> signed_decimal(i).len() > 0 && signed_decimal(i)[0] == '-' && numeral(
            signed_decimal(i).skip(1),
            -i,
        ),
        i >= 0 ==> numeral(signed_decimal(i), i),
{
    reveal_strlit("-");
    if i < 0 {
        decimal_is_numeral((-i) as nat);
        assert(signed_decimal(i).skip(1) =~= decimal((-i) as nat));
    } else {
        decimal_is_numeral(i as nat);
    }
}

/// Digits of one length are ordered as the numbers that they stand for.
proof fn digits_order(s: Seq<char>, t: Seq<char>)
    requires
        s.len() == t.len(),
        all_digits(s),
        all_digits(t),
    ensures
        digits_value(s) == digits_value(t) ==> s == t,
        digits_value(s) < digits_value(t) ==> sorts_before(s, t),
    decreases s.len(),
{
    if s.len() == 0 {
        assert(s =~= t);
    } else {
        let last = s.len() - 1;
        let a = s.drop_last();
        let b = t.drop_last();
        assert forall|i: int| 0 <= i < a.len() implies is_digit(#[trigger] a[i]) by {
            assert(is_digit(s[i]));
        }
        assert forall|i: int| 0 <= i < b.len() implies is_digit(#[trigger] b[i]) by {
            assert(is_digit(t[i]));
        }
        digits_order(a, b);
        assert(is_digit(s[last]) && is_digit(t[last]));
        if digits_value(s) == digits_value(t) {
            assert(a == b && s[last] == t[last]);
            assert(s =~= a.push(s[last]));
            assert(t =~= b.push(t[last]));
        }
        if digits_value(s) < digits_value(t) {
            if digits_value(a) < digits_value(b) {
                let k = choose|k: int| smaller_at(a, b, k);
                assert(s[k] == a[k] && t[k] == b[k]);
                assert forall|i: int| 0 <= i < k implies s[i] == t[i] by {
                    assert(a[i] == b[i]);
                }
                assert(smaller_at(s, t, k));
            } else {
                assert forall|i: int| 0 <= i < last implies s[i] == t[i] by {
                    assert(a[i] == b[i]);
                }
                assert(smaller_at(s, t, last));
            }
        }
    }
}

/// Numbers that are padded to a width in which they have room sort as texts by their size.
pub proof fn padded_sorts(i: nat, j: nat, width: nat)
    requires
        i < j,
        decimal(j).len() <= width,
    ensures
        padded(i, width).len() == width,
        padded(j, width).len() == width,
        sorts_before(padded(i, width), padded(j, width)),
{
    decimal_len_monotone(i, j);
    decimal_is_digits(i);
    decimal_is_digits(j);
    padded_reads_back(i, width);
    padded_reads_back(j, width);
    digits_order(padded(i, width), padded(j, width));
}

/// A number below `2^128` has at most 39 digits.
proof fn decimal_len_bound(n: u128)
    ensures
        1 <= decimal(n as nat).len() <= 39,
{
    reveal_with_fuel(decimal, 40);
}

/// The text of one digit.
fn digit_str(d: u8) -> (r: &'static str)
    requires
        d < 10,
    ensures
        r@ =~= seq![digit_char(d as nat)],
{
    proof {
        reveal_strlit("0");
        reveal_strlit("1");
        reveal_strlit("2");
        reveal_strlit("3");
        reveal_strlit("4");
        reveal_strlit("5");
        reveal_strlit("6");
        reveal_strlit("7");
        reveal_strlit("8");
        reveal_strlit("9");
    }
    if d == 0 {
        "0"
    } else if d == 1 {
        "1"
    } else if d == 2 {
        "2"
    } else if d == 3 {
        "3"
    } else if d == 4 {
        "4"
    } else if d == 5 {
        "5"
    } else if d == 6 {
        "6"
    } else if d == 7 {
        "7"
    } else if d == 8 {
        "8"
    } else {
        "9"
    }
}

/// Appends `n` in decimal digits.
pub fn push_decimal(out: &mut String, n: u128)
    ensures
        final(out)@ == old(out)@ + decimal(n as nat),
    decreases n,
{
    if n < 10 {
        out.append(digit_str(n as u8));
    } else {
        push_decimal(out, n / 10);
        out.append(digit_str((n % 10) as u8));
        assert(out@ =~= old(out)@ + decimal(n as nat));
    }
}

/// The number of decimal digits of `n`.
pub fn decimal_len(n: u128) -> (r: usize)
    ensures
        r == decimal(n as nat).len(),
    decreases n,
{
    proof {
        decimal_len_bound(n);
    }
    if n < 10 {
        1
    } else {
        decimal_len(n / 10) + 1
    }
}

/// Appends `n` copies of the one-character text `c`.
pub fn push_repeated(out: &mut String, c: &str, n: usize)
    requires
        c@.len() == 1,
    ensures
        final(out)@ == old(out)@ + repeated(c@[0], n as nat),
{
    let mut i: usize = 0;
    assert(out@ =~= old(out)@ + repeated(c@[0], 0));
    while i < n
        invariant
            c@.len() == 1,
            i <= n,
            out@ == old(out)@ + repeated(c@[0], i as nat),
        decreases n - i,
    {
        out.append(c);
        i += 1;
        assert(out@ =~= old(out)@ + repeated(c@[0], i as nat));
    }
}

/// Appends `n` in decimal digits, with zeros in front up to `width` characters.
pub fn push_padded(out: &mut String, n: u128, width: usize)
    ensures
        final(out)@ == old(out)@ + padded(n as nat, width as nat),
{
    let len = decimal_len(n);
    if len < width {
        proof {
            reveal_strlit("0");
        }
        push_repeated(out, "0", width - len);
    }
    push_decimal(out, n);
    assert(out@ =~= old(out)@ + padded(n as nat, width as nat));
}

} // verus!
