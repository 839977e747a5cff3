//! Reading a process id back from the text of a pid file: surrounding white
//! space is dropped, then the rest must be a decimal `u32` (an optional `+`
//! followed by digits), as `str::trim` and `u32::from_str` accept it.

use vstd::prelude::*;
use crate::radix::{char_digit, decimal_text, digits_value, lemma_radix_text_canonical,
    lemma_radix_text_value, is_radix_digit, digit_char, to_decimal};

verus! {

/// Unicode `White_Space`, the property that `str::trim` removes.
pub open spec fn is_white_space(c: char) -> bool {
    let x = c as int;
    ||| 9 <= x <= 13
    ||| x == 32
    ||| x == 0x85
    ||| x == 0xA0
    ||| x == 0x1680
    ||| 0x2000 <= x <= 0x200A
    ||| x == 0x2028
    ||| x == 0x2029
    ||| x == 0x202F
    ||| x == 0x205F
    ||| x == 0x3000
}

/// `s` without its leading white space.
pub open spec fn trim_start(s: Seq<char>) -> Seq<char>
    decreases s.len(),
{
    if s.len() > 0 && is_white_space(s[0]) {
        trim_start(s.drop_first())
    } else {
        s
    }
}

/// `s` without its trailing white space.
pub open spec fn trim_end(s: Seq<char>) -> Seq<char>
    decreases s.len(),
{
    if s.len() > 0 && is_white_space(s.last()) {
        trim_end(s.drop_last())
    } else {
        s
    }
}

/// `s` without leading and trailing white space.
pub open spec fn trimmed(s: Seq<char>) -> Seq<char> {
    trim_end(trim_start(s))
}

/// An ASCII decimal digit.
pub open spec fn is_decimal_digit(c: char) -> bool {
    '0' <= c && c <= '9'
}

/// The digits that follow an optional leading `+`.
pub open spec fn unsigned_body(s: Seq<char>) -> Seq<char> {
    if s.len() > 0 && s[0] == '+' {
        s.drop_first()
    } else {
        s
    }
}

/// The `u32` that `s` denotes: an optional `+`, then one or more decimal
/// digits whose value fits in 32 bits; `None` for any other text.
pub open spec fn parse_u32_text(s: Seq<char>) -> Option<u32> {
    let body = unsigned_body(s);
    if body.len() > 0 && (forall|i: int| 0 <= i < body.len() ==> is_decimal_digit(#[trigger] body[i]))
        && digits_value(body, 10) <= u32::MAX {
        Some(digits_value(body, 10) as u32)
    } else {
        None
    }
}

/// The process id that a pid file holding `contents` records.
pub open spec fn pid_of_contents(contents: Seq<char>) -> Option<u32> {
    parse_u32_text(trimmed(contents))
}

proof fn lemma_trim_start_skip(s: Seq<char>, i: int)
    requires
        0 <= i <= s.len(),
        forall|k: int| 0 <= k < i ==> is_white_space(#[trigger] s[k]),
    ensures
        trim_start(s) == trim_start(s.skip(i)),
    decreases i,
{
    if i > 0 {
        assert(is_white_space(s[0]));
        assert(s.drop_first().skip(i - 1) =~= s.skip(i));
        assert forall|k: int| 0 <= k < i - 1 implies is_white_space(#[trigger] s.drop_first()[k]) by {
            assert(s.drop_first()[k] == s[k + 1]);
        }
        lemma_trim_start_skip(s.drop_first(), i - 1);
    } else {
        assert(s.skip(0) =~= s);
    }
}

proof fn lemma_trim_end_take(s: Seq<char>, j: int)
    requires
        0 <= j <= s.len(),
        forall|k: int| j <= k < s.len() ==> is_white_space(#[trigger] s[k]),
    ensures
        trim_end(s) == trim_end(s.take(j)),
    decreases s.len() - j,
{
    if j < s.len() {
        assert(s.drop_last().take(j) =~= s.take(j));
        assert forall|k: int| j <= k < s.len() - 1 implies is_white_space(#[trigger] s.drop_last()[k]) by {
            assert(s.drop_last()[k] == s[k]);
        }
        lemma_trim_end_take(s.drop_last(), j);
    } else {
        assert(s.take(j) =~= s);
    }
}

/// Drops leading and trailing Unicode white space, as `str::trim` does.
pub fn trim(s: &str) -> (res: &str)
    ensures
        res@ == trimmed(s@),
{
    let n = s.unicode_len();
    let mut i: usize = 0;
    while i < n && is_white_space_char(s.get_char(i))
        invariant
            n == s@.len(),
            i <= n,
            forall|k: int| 0 <= k < i ==> is_white_space(#[trigger] s@[k]),
        decreases n - i,
    {
        i = i + 1;
    }
    proof {
        lemma_trim_start_skip(s@, i as int);
        assert(trim_start(s@.skip(i as int)) == s@.skip(i as int));
    }
    let ghost rest = s@.skip(i as int);
    let mut j: usize = n;
    while j > i && is_white_space_char(s.get_char(j - 1))
        invariant
            n == s@.len(),
            i <= j <= n,
            rest == s@.skip(i as int),
            forall|k: int| j - i <= k < rest.len() ==> is_white_space(#[trigger] rest[k]),
        decreases j,
    {
        j = j - 1;
        assert(rest[j - i] == s@[j as int]);
    }
    proof {
        lemma_trim_end_take(rest, (j - i) as int);
        assert(rest.take((j - i) as int) =~= s@.subrange(i as int, j as int));
        let t = rest.take((j - i) as int);
        if t.len() > 0 {
            assert(t.last() == s@[j - 1]);
        }
        assert(trim_end(t) == t);
    }
    s.substring_char(i, j)
}

/// Whether `c` is Unicode white space.
fn is_white_space_char(c: char) -> (res: bool)
    ensures
        res == is_white_space(c),
{
    let x = c as u32;
    (9 <= x && x <= 13) || x == 32 || x == 0x85 || x == 0xA0 || x == 0x1680 || (0x2000 <= x
        && x <= 0x200A) || x == 0x2028 || x == 0x2029 || x == 0x202F || x == 0x205F || x == 0x3000
}

proof fn lemma_digits_value_take_monotone(s: Seq<char>, k: int)
    requires
        0 <= k <= s.len(),
        forall|i: int| 0 <= i < s.len() ==> is_decimal_digit(#[trigger] s[i]),
    ensures
        digits_value(s.take(k), 10) <= digits_value(s, 10),
    decreases s.len() - k,
{
    if k < s.len() {
        lemma_digits_value_take_monotone(s, k + 1);
        let t = s.take(k + 1);
        assert(t.drop_last() =~= s.take(k));
        assert(is_decimal_digit(t.last()));
    } else {
        assert(s.take(k) =~= s);
    }
}

/// Reads a `u32` written as an optional `+` followed by decimal digits, as
/// `u32::from_str` does.
pub fn parse_u32(s: &str) -> (res: Option<u32>)
    ensures
        res == parse_u32_text(s@),
{
    let n = s.unicode_len();
    let mut start: usize = 0;
    if n > 0 && s.get_char(0) == '+' {
        start = 1;
    }
    let ghost body = unsigned_body(s@);
    assert(body =~= s@.skip(start as int));
    if start == n {
        return None;
    }
    let mut value: u64 = 0;
    let mut i: usize = start;
    while i < n
        invariant
            n == s@.len(),
            start <= i <= n,
            body == s@.skip(start as int),
            body == unsigned_body(s@),
            value <= u32::MAX,
            value == digits_value(body.take(i - start), 10),
            forall|k: int| 0 <= k < i - start ==> is_decimal_digit(#[trigger] body[k]),
        decreases n - i,
    {
        let c = s.get_char(i);
        assert(c == body[i - start]);
        if !('0' <= c && c <= '9') {
            assert(!is_decimal_digit(body[i - start]));
            assert(!(forall|k: int| 0 <= k < body.len() ==> is_decimal_digit(#[trigger] body[k])));
            assert(parse_u32_text(s@) is None);
            return None;
        }
        let d = (c as u32 - 48) as u64;
        let ghost prefix = body.take(i - start + 1);
        assert(prefix.drop_last() =~= body.take(i - start));
        assert(prefix.last() == c);
        assert(char_digit(c) == d);
        value = value * 10 + d;
        i = i + 1;
        if value > 0xFFFF_FFFF {
            proof {
                assert(value == digits_value(body.take(i - start), 10));
                if forall|k: int| 0 <= k < body.len() ==> is_decimal_digit(#[trigger] body[k]) {
                    lemma_digits_value_take_monotone(body, i - start);
                }
                assert(parse_u32_text(s@) is None);
            }
            return None;
        }
    }
    proof {
        assert(body.take(n - start) =~= body);
    }
    Some(value as u32)
}

/// Reads the process id recorded in a pid file's contents.
pub fn parse_pid(contents: &str) -> (res: Option<u32>)
    ensures
        res == pid_of_contents(contents@),
{
    parse_u32(trim(contents))
}

/// The text written into a pid file for process `pid`.
pub open spec fn pid_file_text(pid: u32) -> Seq<char> {
    decimal_text(pid as nat)
}

/// Renders the text of a pid file for process `pid`.
pub fn render_pid(pid: u32) -> (res: String)
    ensures
        res@ == pid_file_text(pid),
{
    to_decimal(pid as u64)
}

/// What a pid file records is read back unchanged: the text written for
/// `pid`, with or without a trailing line break, parses to `pid`.
pub proof fn lemma_pid_round_trip(pid: u32)
    ensures
        pid_of_contents(pid_file_text(pid)) == Some(pid),
        pid_of_contents(pid_file_text(pid).push('\n')) == Some(pid),
{
    let t = pid_file_text(pid);
    lemma_radix_text_canonical(pid as nat, 10);
    lemma_radix_text_value(pid as nat, 10);
    assert forall|i: int| 0 <= i < t.len() implies is_decimal_digit(#[trigger] t[i]) by {
        let d = choose|d: int| 0 <= d < 10 && t[i] == digit_char(d);
    }
    assert(is_decimal_digit(t[0]));
    assert(!is_white_space(t[0]));
    assert(!is_white_space(t.last()));
    assert(trim_start(t) == t);
    assert(trim_end(t) == t);
    let u = t.push('\n');
    assert(u[0] == t[0]);
    assert(trim_start(u) == u);
    assert(u.drop_last() =~= t);
    assert(trim_end(u) == trim_end(t));
    assert(unsigned_body(t) == t);
}

} // verus!
