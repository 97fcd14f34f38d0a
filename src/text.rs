//! Decimal numbers and plain string comparison, stated over character
//! sequences.

use vstd::prelude::*;
use vstd::string::StrSliceExecFns;
use vstd::string::StringExecFns;

verus! {

/// The character of a decimal digit.
pub open spec fn digit_char(d: nat) -> char {
    if d == 0 { '0' }
    else if d == 1 { '1' }
    else if d == 2 { '2' }
    else if d == 3 { '3' }
    else if d == 4 { '4' }
    else if d == 5 { '5' }
    else if d == 6 { '6' }
    else if d == 7 { '7' }
    else if d == 8 { '8' }
    else { '9' }
}

/// The decimal digits of a natural number, most significant first, with no
/// leading zeros.
pub open spec fn nat_digits(n: nat) -> Seq<char>
    decreases n,
{
    if n < 10 {
        seq![digit_char(n)]
    } else {
        nat_digits(n / 10) + seq![digit_char(n % 10)]
    }
}

/// An integer written in decimal, with a leading `-` when negative.
pub open spec fn int_text(i: int) -> Seq<char> {
    if i < 0 {
        seq!['-'] + nat_digits((-i) as nat)
    } else {
        nat_digits(i as nat)
    }
}

/// A boolean written as `true` or `false`.
pub open spec fn bool_text(b: bool) -> Seq<char> {
    if b { "true"@ } else { "false"@ }
}

fn digit_str(d: u64) -> (r: &'static str)
    requires
        d < 10,
    ensures
        r@ == seq![digit_char(d as nat)],
{
    let r = if d == 0 { "0" }
    else if d == 1 { "1" }
    else if d == 2 { "2" }
    else if d == 3 { "3" }
    else if d == 4 { "4" }
    else if d == 5 { "5" }
    else if d == 6 { "6" }
    else if d == 7 { "7" }
    else if d == 8 { "8" }
    else { "9" };
    proof {
        reveal_strlit("0");
        reveal_strlit("1");
        reveal_strlit("2");
        reveal_strlit("3");
        reveal_strlit("4");
        reveal_strlit("5");
        reveal_strlit("6");
        reveal_strlit("7");
        reveal_strlit("8");
        reveal_strlit("9");
        assert(r@ =~= seq![digit_char(d as nat)]);
    }
    r
}

/// Appends the decimal digits of `n`.
pub fn push_digits(n: u64, out: &mut String)
    ensures
        final(out)@ == old(out)@ + nat_digits(n as nat),
    decreases n,
{
    if n >= 10 {
        push_digits(n / 10, out);
    }
    out.append(digit_str(n % 10));
    assert(final(out)@ == old(out)@ + nat_digits(n as nat));
}

/// Appends `i` in decimal.
pub fn push_int(i: i64, out: &mut String)
    ensures
        final(out)@ == old(out)@ + int_text(i as int),
{
    if i < 0 {
        out.append("-");
        let m: u64 = ((-(i + 1)) as u64) + 1;
        push_digits(m, out);
        proof {
            reveal_strlit("-");
            assert(final(out)@ =~= old(out)@ + int_text(i as int));
        }
    } else {
        push_digits(i as u64, out);
    }
}

/// Appends `b` as `true` or `false`.
pub fn push_bool(b: bool, out: &mut String)
    ensures
        final(out)@ == old(out)@ + bool_text(b),
{
    if b {
        out.append("true");
    } else {
        out.append("false");
    }
}

/// Whether a character is a decimal digit.
pub open spec fn is_digit(c: char) -> bool {
    '0' <= c && c <= '9'
}

/// Whether every character is a decimal digit.
pub open spec fn all_digits(s: Seq<char>) -> bool {
    forall|i: int| 0 <= i < s.len() ==> is_digit(#[trigger] s[i])
}

/// The value of a string of decimal digits.
pub open spec fn digits_value(s: Seq<char>) -> int
    decreases s.len(),
{
    if s.len() == 0 {
        0
    } else {
        digits_value(s.drop_last()) * 10 + (s.last() as int - '0' as int)
    }
}

/// Whether a number text starts with a minus sign.
pub open spec fn has_minus(s: Seq<char>) -> bool {
    s.len() > 0 && s[0] == '-'
}

/// A number text without its sign, if it has one.
pub open spec fn unsigned_part(s: Seq<char>) -> Seq<char> {
    if s.len() > 0 && (s[0] == '-' || s[0] == '+') {
        s.skip(1)
    } else {
        s
    }
}

/// The `i32` that a text denotes: an optional sign, then one or more
/// decimal digits, with a value in the range of `i32`. Any other text
/// denotes none.
pub open spec fn decimal_i32(s: Seq<char>) -> Option<int> {
    let d = unsigned_part(s);
    if d.len() > 0 && all_digits(d) {
        let v = if has_minus(s) { -digits_value(d) } else { digits_value(d) };
        if i32::MIN <= v && v <= i32::MAX {
            Some(v)
        } else {
            None
        }
    } else {
        None
    }
}

proof fn lemma_prefix_value_grows(d: Seq<char>, k: int, m: int)
    requires
        all_digits(d),
        0 <= k <= m <= d.len(),
    ensures
        digits_value(d.take(k)) <= digits_value(d.take(m)),
    decreases m - k,
{
    if k < m {
        lemma_prefix_value_grows(d, k, m - 1);
        assert(d.take(m).drop_last() =~= d.take(m - 1));
        lemma_digits_value_nonneg(d.take(m - 1));
        assert(is_digit(d[m - 1]));
    }
}

proof fn lemma_digits_value_nonneg(d: Seq<char>)
    requires
        all_digits(d),
    ensures
        digits_value(d) >= 0,
    decreases d.len(),
{
    if d.len() > 0 {
        assert(all_digits(d.drop_last())) by {
            assert forall|i: int| 0 <= i < d.drop_last().len() implies is_digit(
                #[trigger] d.drop_last()[i],
            ) by {
                assert(is_digit(d[i]));
            }
        }
        lemma_digits_value_nonneg(d.drop_last());
        assert(is_digit(d[d.len() - 1]));
    }
}

/// Reads an `i32` written in decimal, as `str::parse::<i32>` does: an
/// optional sign and at least one digit, nothing else, and no overflow.
pub fn parse_i32(s: &str) -> (r: Option<i32>)
    ensures
        match r {
            Some(v) => decimal_i32(s@) == Some(v as int),
            None => decimal_i32(s@) is None,
        },
{
    let n = s.unicode_len();
    let mut start: usize = 0;
    let mut negative = false;
    if n > 0 {
        let c = s.get_char(0);
        if c == '-' {
            negative = true;
            start = 1;
        } else if c == '+' {
            start = 1;
        }
    }
    let ghost d = unsigned_part(s@);
    assert(d =~= s@.skip(start as int));
    assert(negative == has_minus(s@));
    if start == n {
        return None;
    }
    let mut acc: i64 = 0;
    let mut i: usize = start;
    while i < n
        invariant
            n == s@.len(),
            start <= i <= n,
            d == s@.skip(start as int),
            d == unsigned_part(s@),
            negative == has_minus(s@),
            all_digits(d.take(i - start)),
            acc == digits_value(d.take(i - start)),
            0 <= acc <= 2147483648,
        decreases n - i,
    {
        let c = s.get_char(i);
        if c < '0' || c > '9' {
            assert(d[i - start] == c);
            assert(!is_digit(d[i - start]));
            assert(!all_digits(d));
            assert(decimal_i32(s@) is None);
            return None;
        }
        let k: Ghost<int> = Ghost(i - start);
        assert(d.take(k@ + 1).drop_last() =~= d.take(k@));
        assert(d[k@] == c);
        acc = acc * 10 + (c as i64 - '0' as i64);
        i = i + 1;
        assert(all_digits(d.take(k@ + 1))) by {
            assert forall|j: int| 0 <= j < d.take(k@ + 1).len() implies is_digit(
                #[trigger] d.take(k@ + 1)[j],
            ) by {
                if j < k@ {
                    assert(d.take(k@ + 1)[j] == d.take(k@)[j]);
                }
            }
        }
        if acc > 2147483648 {
            proof {
                if all_digits(d) {
                    lemma_prefix_value_grows(d, i - start, d.len() as int);
                    assert(d.take(d.len() as int) =~= d);
                    lemma_digits_value_nonneg(d);
                }
                assert(decimal_i32(s@) is None);
            }
            return None;
        }
    }
    assert(d.take(n - start) =~= d);
    if negative {
        Some((-acc) as i32)
    } else if acc > 2147483647 {
        None
    } else {
        Some(acc as i32)
    }
}

/// Relies on `String::pop`: it takes the last character off a non-empty
/// string and leaves an empty one as it is.
#[verifier::external_body]
pub(crate) fn pop_char(s: &mut String)
    ensures
        old(s)@.len() > 0 ==> final(s)@ == old(s)@.drop_last(),
        old(s)@.len() == 0 ==> final(s)@ == old(s)@,
{
    s.pop();
}

/// Whether two strings hold the same characters.
pub fn str_eq(a: &str, b: &str) -> (r: bool)
    ensures
        r == (a@ == b@),
{
    let n = a.unicode_len();
    if n != b.unicode_len() {
        return false;
    }
    let mut i: usize = 0;
    while i < n
        invariant
            n == a@.len(),
            n == b@.len(),
            i <= n,
            a@.take(i as int) == b@.take(i as int),
        decreases n - i,
    {
        if a.get_char(i) != b.get_char(i) {
            return false;
        }
        assert(a@.take(i + 1) == a@.take(i as int).push(a@[i as int]));
        assert(b@.take(i + 1) == b@.take(i as int).push(b@[i as int]));
        i = i + 1;
    }
    assert(a@ == a@.take(n as int));
    assert(b@ == b@.take(n as int));
    true
}

} // verus!
