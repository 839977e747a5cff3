//! Positional notation of unsigned integers with the digits `0-9a-z`.

use vstd::prelude::*;
use vstd::arithmetic::div_mod::{lemma_fundamental_div_mod, lemma_div_decreases};
use crate::text::push_char;

verus! {

/// The character of digit `d` (for `0 <= d < 36`): `0`..`9`, then `a`..`z`.
pub open spec fn digit_char(d: int) -> char {
    if d < 10 {
        (48 + d) as char
    } else {
        (87 + d) as char
    }
}

/// The value of a digit character, the inverse of [`digit_char`].
pub open spec fn char_digit(c: char) -> int {
    if (c as int) < 58 {
        c as int - 48
    } else {
        c as int - 87
    }
}

/// The digits of `n` in base `radix`, most significant first, with no
/// leading zero (empty for `n == 0`).
pub open spec fn significant_digits(n: nat, radix: nat) -> Seq<char>
    decreases n,
{
    if n == 0 || radix < 2 {
        Seq::empty()
    } else {
        proof {
            lemma_div_decreases(n as int, radix as int);
        }
        significant_digits(n / radix, radix).push(digit_char((n % radix) as int))
    }
}

/// The text of `n` in base `radix`: its significant digits, or `"0"` for zero.
pub open spec fn radix_text(n: nat, radix: nat) -> Seq<char> {
    if n == 0 {
        seq!['0']
    } else {
        significant_digits(n, radix)
    }
}

/// The number that a string of digits denotes in base `radix`.
pub open spec fn digits_value(s: Seq<char>, radix: nat) -> nat
    decreases s.len(),
{
    if s.len() == 0 {
        0
    } else {
        (digits_value(s.drop_last(), radix) * radix + char_digit(s.last())) as nat
    }
}

/// `c` is one of the first `radix` digit characters.
pub open spec fn is_radix_digit(c: char, radix: nat) -> bool {
    exists|d: int| 0 <= d < radix && c == digit_char(d)
}

/// A base-36 digit character: `0`-`9` or `a`-`z`.
pub open spec fn is_base36_char(c: char) -> bool {
    ('0' <= c && c <= '9') || ('a' <= c && c <= 'z')
}

/// Lower-case base-36 text of `n`, as [`to_base36`] returns it.
pub open spec fn base36_text(n: nat) -> Seq<char> {
    radix_text(n, 36)
}

/// Decimal text of `n`.
pub open spec fn decimal_text(n: nat) -> Seq<char> {
    radix_text(n, 10)
}

proof fn lemma_char_digit_inverse(d: int)
    requires
        0 <= d < 36,
    ensures
        char_digit(digit_char(d)) == d,
{
}

/// Reading back the digits of `n` gives `n`.
proof fn lemma_significant_digits_value(n: nat, radix: nat)
    requires
        2 <= radix <= 36,
    ensures
        digits_value(significant_digits(n, radix), radix) == n,
    decreases n,
{
    if n > 0 {
        lemma_div_decreases(n as int, radix as int);
        lemma_significant_digits_value(n / radix, radix);
        lemma_fundamental_div_mod(n as int, radix as int);
        let s = significant_digits(n, radix);
        let q = n / radix;
        let r = n % radix;
        assert(s.drop_last() == significant_digits(q, radix));
        assert(s.last() == digit_char(r as int));
        lemma_char_digit_inverse(r as int);
        assert(digits_value(s, radix) == q * radix + r);
        assert(q * radix == radix * q) by (nonlinear_arith);
    }
}

/// Every character of the digits of `n` is a digit of the radix, and the
/// first one is not zero.
proof fn lemma_significant_digits_shape(n: nat, radix: nat)
    requires
        2 <= radix <= 36,
    ensures
        forall|i: int|
            0 <= i < significant_digits(n, radix).len() ==> is_radix_digit(
                #[trigger] significant_digits(n, radix)[i],
                radix,
            ),
        n > 0 ==> significant_digits(n, radix).len() > 0 && significant_digits(n, radix)[0]
            != '0',
        n == 0 <==> significant_digits(n, radix).len() == 0,
    decreases n,
{
    if n > 0 {
        lemma_div_decreases(n as int, radix as int);
        lemma_significant_digits_shape(n / radix, radix);
        let s = significant_digits(n, radix);
        let d = (n % radix) as int;
        assert(is_radix_digit(digit_char(d), radix));
        assert forall|i: int| 0 <= i < s.len() implies is_radix_digit(#[trigger] s[i], radix) by {
            if i < s.len() - 1 {
                assert(s[i] == significant_digits(n / radix, radix)[i]);
            }
        }
        if n / radix == 0 {
            lemma_fundamental_div_mod(n as int, radix as int);
            assert(d == n);
            assert(s[0] == digit_char(d));
        } else {
            assert(s[0] == significant_digits(n / radix, radix)[0]);
        }
    }
}

/// The text of a number read back in the same radix is that number.
pub proof fn lemma_radix_text_value(n: nat, radix: nat)
    requires
        2 <= radix <= 36,
    ensures
        digits_value(radix_text(n, radix), radix) == n,
{
    if n == 0 {
        let s = radix_text(n, radix);
        assert(s.drop_last() =~= Seq::<char>::empty());
        assert(s.last() == '0');
        assert(digits_value(s.drop_last(), radix) == 0);
        assert(char_digit('0') == 0);
        assert(0 * radix == 0);
    } else {
        lemma_significant_digits_value(n, radix);
    }
}

/// The text of a number is non-empty, made of digits of its radix only, and
/// has no leading zero unless it is exactly `"0"`.
pub proof fn lemma_radix_text_canonical(n: nat, radix: nat)
    requires
        2 <= radix <= 36,
    ensures
        radix_text(n, radix).len() > 0,
        forall|i: int|
            0 <= i < radix_text(n, radix).len() ==> is_radix_digit(
                #[trigger] radix_text(n, radix)[i],
                radix,
            ),
        radix_text(n, radix)[0] == '0' ==> radix_text(n, radix) == seq!['0'],
{
    lemma_significant_digits_shape(n, radix);
    if n == 0 {
        assert(is_radix_digit(digit_char(0), radix));
    }
}

/// A digit of base 36 is a base-36 digit character.
pub proof fn lemma_base36_digit_char(c: char)
    requires
        is_radix_digit(c, 36),
    ensures
        is_base36_char(c),
{
    let d = choose|d: int| 0 <= d < 36 && c == digit_char(d);
    assert(c as int == (if d < 10 { 48 + d } else { 87 + d }));
}

/// Distinct numbers have distinct texts in the same radix.
pub proof fn lemma_radix_text_injective(m: nat, n: nat, radix: nat)
    requires
        2 <= radix <= 36,
        radix_text(m, radix) == radix_text(n, radix),
    ensures
        m == n,
{
    lemma_radix_text_value(m, radix);
    lemma_radix_text_value(n, radix);
}

/// `x` comes before `y` in dictionary order by character code, at a first
/// position where they differ.
pub open spec fn text_less(x: Seq<char>, y: Seq<char>) -> bool {
    exists|i: int|
        0 <= i < x.len() && i < y.len() && x.take(i) == y.take(i) && (#[trigger] x[i] as int) < (
        y[i] as int)
}

proof fn lemma_digit_char_increasing(d1: int, d2: int)
    requires
        0 <= d1 < d2 < 36,
    ensures
        (digit_char(d1) as int) < (digit_char(d2) as int),
{
}

proof fn lemma_significant_digits_len(n: nat, radix: nat)
    requires
        2 <= radix <= 36,
        n > 0,
    ensures
        significant_digits(n, radix).len() == significant_digits(n / radix, radix).len() + 1,
        n / radix == 0 <==> n < radix,
{
    lemma_fundamental_div_mod(n as int, radix as int);
    if n < radix {
        vstd::arithmetic::div_mod::lemma_basic_div(n as int, radix as int);
    } else {
        vstd::arithmetic::div_mod::lemma_div_pos_is_pos(n as int, radix as int);
    }
}

/// For positive numbers, the digits of the smaller one are fewer, or as many
/// and before in dictionary order.
proof fn lemma_significant_digits_order(a: nat, b: nat, radix: nat)
    requires
        2 <= radix <= 36,
        0 < a < b,
    ensures
        significant_digits(a, radix).len() < significant_digits(b, radix).len() || (
        significant_digits(a, radix).len() == significant_digits(b, radix).len() && text_less(
            significant_digits(a, radix),
            significant_digits(b, radix),
        )),
    decreases b,
{
    let x = significant_digits(a, radix);
    let y = significant_digits(b, radix);
    let qa = a / radix;
    let qb = b / radix;
    let ra = (a % radix) as int;
    let rb = (b % radix) as int;
    lemma_fundamental_div_mod(a as int, radix as int);
    lemma_fundamental_div_mod(b as int, radix as int);
    lemma_significant_digits_len(a, radix);
    lemma_significant_digits_len(b, radix);
    vstd::arithmetic::div_mod::lemma_div_is_ordered(a as int, b as int, radix as int);
    assert(x == significant_digits(qa, radix).push(digit_char(ra)));
    assert(y == significant_digits(qb, radix).push(digit_char(rb)));
    if qa == qb {
        assert(ra < rb) by (nonlinear_arith)
            requires
                a == radix * qa + ra,
                b == radix * qb + rb,
                qa == qb,
                a < b,
        ;
        lemma_digit_char_increasing(ra, rb);
        let i = x.len() - 1;
        assert(x.len() == y.len());
        assert(x.take(i) =~= y.take(i));
        assert(x[i] == digit_char(ra));
        assert(y[i] == digit_char(rb));
        assert((x[i] as int) < (y[i] as int));
        assert(text_less(x, y));
    } else if qa == 0 {
        lemma_significant_digits_len(qb, radix);
    } else {
        lemma_div_decreases(b as int, radix as int);
        lemma_significant_digits_order(qa, qb, radix);
        let xs = significant_digits(qa, radix);
        let ys = significant_digits(qb, radix);
        if xs.len() == ys.len() {
            let i = choose|i: int|
                0 <= i < xs.len() && i < ys.len() && xs.take(i) == ys.take(i) && (#[trigger] xs[i] as int)
                    < (ys[i] as int);
            assert(x.take(i) =~= xs.take(i));
            assert(y.take(i) =~= ys.take(i));
            assert(x[i] == xs[i]);
            assert(y[i] == ys[i]);
            assert(text_less(x, y));
        }
    }
}

/// Texts follow the order of numbers: the text of the smaller number is
/// shorter, or as long and before in dictionary order by character code.
/// The digits are ASCII, so the order by character is the order by byte.
pub proof fn lemma_radix_text_order(a: nat, b: nat, radix: nat)
    requires
        2 <= radix <= 36,
        a < b,
    ensures
        radix_text(a, radix).len() < radix_text(b, radix).len() || (radix_text(a, radix).len()
            == radix_text(b, radix).len() && text_less(radix_text(a, radix), radix_text(b, radix))),
{
    let y = radix_text(b, radix);
    if a == 0 {
        lemma_significant_digits_len(b, radix);
        if y.len() == 1 {
            assert(b < radix) by {
                if b >= radix {
                    lemma_significant_digits_len(b / radix, radix);
                    vstd::arithmetic::div_mod::lemma_div_pos_is_pos(b as int, radix as int);
                }
            }
            lemma_fundamental_div_mod(b as int, radix as int);
            vstd::arithmetic::div_mod::lemma_small_mod(b, radix);
            assert(y[0] == digit_char(b as int));
            lemma_digit_char_increasing(0, b as int);
            let x = radix_text(a, radix);
            assert(x.take(0) =~= y.take(0));
            assert(x[0] == '0');
            assert(digit_char(0) == '0');
            assert((x[0] as int) < (y[0] as int));
            assert(text_less(x, y));
        }
    } else {
        lemma_significant_digits_order(a, b, radix);
    }
}

/// Writes `num` in base `radix` (between 2 and 36) with lower-case digits.
pub fn render_radix(num: u64, radix: u64) -> (res: String)
    requires
        2 <= radix <= 36,
    ensures
        res@ == radix_text(num as nat, radix as nat),
{
    let mut n = num;
    // digits collected least significant first
    let mut rev: Vec<char> = Vec::new();
    while n > 0
        invariant
            2 <= radix <= 36,
            significant_digits(num as nat, radix as nat) == significant_digits(n as nat, radix as nat)
                + rev@.reverse(),
        decreases n,
    {
        let d = n % radix;
        let c: char = if d < 10 {
            ((d as u8) + 48) as char
        } else {
            ((d as u8) + 87) as char
        };
        assert(c == digit_char(d as int));
        let ghost old_rev = rev@;
        rev.push(c);
        assert(rev@.reverse() =~= seq![c] + old_rev.reverse());
        assert(significant_digits(n as nat, radix as nat) == significant_digits(
            (n / radix) as nat,
            radix as nat,
        ).push(c));
        assert(significant_digits(n as nat, radix as nat) + old_rev.reverse() =~= significant_digits(
            (n / radix) as nat,
            radix as nat,
        ) + rev@.reverse());
        n = n / radix;
    }
    let mut out = String::new();
    if rev.len() == 0 {
        push_char(&mut out, '0');
    } else {
        let mut i = rev.len();
        while i > 0
            invariant
                i <= rev.len(),
                out@ =~= rev@.reverse().take((rev.len() - i) as int),
            decreases i,
        {
            i = i - 1;
            push_char(&mut out, rev[i]);
            assert(rev@.reverse().take((rev.len() - i) as int) =~= rev@.reverse().take(
                (rev.len() - i - 1) as int,
            ).push(rev@[i as int]));
        }
        assert(rev@.reverse().take(rev.len() as int) =~= rev@.reverse());
    }
    assert(n == 0);
    assert(significant_digits(0, radix as nat) =~= Seq::<char>::empty());
    assert(significant_digits(num as nat, radix as nat) =~= rev@.reverse());
    out
}

/// Converts a `u64` value into a lower-case base-36 string, used for short,
/// human-friendly directory hashes (for example `to_base36(35)` is `"z"` and
/// `to_base36(36)` is `"10"`).
pub fn to_base36(num: u64) -> (res: String)
    ensures
        res@ == base36_text(num as nat),
{
    render_radix(num, 36)
}

/// Writes `num` in decimal.
pub fn to_decimal(num: u64) -> (res: String)
    ensures
        res@ == decimal_text(num as nat),
{
    render_radix(num, 10)
}

} // verus!
