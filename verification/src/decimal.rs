//! Unsigned integers as decimal text.

use vstd::prelude::*;
use crate::text::chars_of;

verus! {

/// Whether `c` is one of the ten decimal digits.
pub open spec fn is_digit(c: char) -> bool {
    '0' <= c <= '9'
}

/// The number a digit stands for.
pub open spec fn digit_value(c: char) -> nat
    recommends
        is_digit(c),
{
    (c as u32 - '0' as u32) as nat
}

/// The digit that stands for `d`.
pub open spec fn digit_char(d: nat) -> char
    recommends
        d < 10,
{
    (d + 48) as u8 as char
}

/// Whether every character of `s` is a digit.
pub open spec fn all_digits(s: Seq<char>) -> bool {
    forall|i: int| 0 <= i < s.len() ==> is_digit(#[trigger] s[i])
}

/// The number that a row of digits stands for, the last digit counting ones.
pub open spec fn digits_value(s: Seq<char>) -> nat
    decreases s.len(),
{
    if s.len() == 0 {
        0
    } else {
        digits_value(s.drop_last()) * 10 + digit_value(s.last())
    }
}

/// Ten to the power of `n`.
pub open spec fn pow10(n: nat) -> nat
    decreases n,
{
    if n == 0 {
        1
    } else {
        10 * pow10((n - 1) as nat)
    }
}

/// Powers of ten multiply as their exponents add.
pub proof fn lemma_pow10_add(a: nat, b: nat)
    ensures
        pow10(a + b) == pow10(a) * pow10(b),
    decreases a,
{
    if a == 0 {
        assert(pow10(0) == 1);
        assert(1 * pow10(b) == pow10(b)) by (nonlinear_arith);
    } else {
        lemma_pow10_add((a - 1) as nat, b);
        let x = pow10((a - 1) as nat);
        let y = pow10(b);
        assert(pow10(a) == 10 * x);
        assert(pow10(a + b) == 10 * pow10((a - 1 + b) as nat));
        assert(10 * (x * y) == (10 * x) * y) by (nonlinear_arith);
    }
}

/// A row of digits stands for what its first part stands for, shifted by
/// the length of the rest, plus what the rest stands for.
pub proof fn lemma_value_of_joined(a: Seq<char>, b: Seq<char>)
    ensures
        digits_value(a + b) == digits_value(a) * pow10(b.len()) + digits_value(b),
    decreases b.len(),
{
    if b.len() == 0 {
        assert(a + b == a);
        assert(pow10(0) == 1);
        assert(digits_value(a) * 1 == digits_value(a)) by (nonlinear_arith);
    } else {
        let shorter = b.drop_last();
        assert((a + b).drop_last() == a + shorter);
        assert((a + b).last() == b.last());
        lemma_value_of_joined(a, shorter);
        let x = digits_value(a);
        let p = pow10(shorter.len());
        let y = digits_value(shorter);
        let d = digit_value(b.last());
        assert(pow10(b.len()) == 10 * p);
        assert(digits_value(b) == y * 10 + d);
        assert(digits_value(a + b) == (x * p + y) * 10 + d);
        assert((x * p + y) * 10 + d == x * (10 * p) + (y * 10 + d)) by (nonlinear_arith);
        assert(x * pow10(b.len()) == x * (10 * p));
    }
}

/// A power of ten is at least one, and the powers of ten grow.
pub proof fn lemma_pow10_grows(a: nat, b: nat)
    requires
        a <= b,
    ensures
        1 <= pow10(a) <= pow10(b),
    decreases b,
{
    if a == 0 && b == 0 {
    } else if a == b {
        lemma_pow10_grows((a - 1) as nat, (b - 1) as nat);
    } else {
        lemma_pow10_grows(a, (b - 1) as nat);
    }
}

/// A row of digits stands for less than ten to the power of its length.
pub proof fn lemma_value_below(s: Seq<char>)
    requires
        all_digits(s),
    ensures
        digits_value(s) < pow10(s.len()),
    decreases s.len(),
{
    if s.len() > 0 {
        let shorter = s.drop_last();
        assert forall|i: int| 0 <= i < shorter.len() implies is_digit(#[trigger] shorter[i]) by {
            assert(shorter[i] == s[i]);
        }
        lemma_value_below(shorter);
        assert(is_digit(s.last()));
        assert(digit_value(s.last()) < 10);
    }
}

/// A row of digits that does not start with a zero stands for at least ten
/// to the power of its length less one.
pub proof fn lemma_value_above(s: Seq<char>)
    requires
        all_digits(s),
        s.len() > 0,
        s[0] != '0',
    ensures
        digits_value(s) >= pow10((s.len() - 1) as nat),
    decreases s.len(),
{
    if s.len() == 1 {
        assert(s.drop_last() == Seq::<char>::empty());
        assert(is_digit(s[0]));
        assert(digit_value(s[0]) >= 1);
        assert(pow10(0) == 1);
    } else {
        let shorter = s.drop_last();
        assert forall|i: int| 0 <= i < shorter.len() implies is_digit(#[trigger] shorter[i]) by {
            assert(shorter[i] == s[i]);
        }
        assert(shorter[0] == s[0]);
        lemma_value_above(shorter);
    }
}

/// Rows of digits of one length that stand for one number are the same
/// row.
pub proof fn lemma_value_tells_digits(a: Seq<char>, b: Seq<char>)
    requires
        all_digits(a),
        all_digits(b),
        a.len() == b.len(),
        digits_value(a) == digits_value(b),
    ensures
        a == b,
    decreases a.len(),
{
    if a.len() == 0 {
        assert(a =~= b);
    } else {
        let x = a.drop_last();
        let y = b.drop_last();
        assert forall|i: int| 0 <= i < x.len() implies is_digit(#[trigger] x[i]) by {
            assert(x[i] == a[i]);
        }
        assert forall|i: int| 0 <= i < y.len() implies is_digit(#[trigger] y[i]) by {
            assert(y[i] == b[i]);
        }
        assert(is_digit(a.last()) && is_digit(b.last()));
        let da = digit_value(a.last());
        let db = digit_value(b.last());
        assert(da < 10 && db < 10);
        assert(digits_value(x) * 10 + da == digits_value(y) * 10 + db);
        assert(digits_value(x) == digits_value(y));
        assert(da == db);
        assert(a.last() == b.last());
        lemma_value_tells_digits(x, y);
        assert(a =~= x.push(a.last()));
        assert(b =~= y.push(b.last()));
    }
}

/// The decimal numeral of `n`: no leading zero, and `0` for zero.
pub open spec fn numeral(n: nat) -> Seq<char>
    decreases n,
{
    if n < 10 {
        seq![digit_char(n)]
    } else {
        numeral(n / 10).push(digit_char(n % 10))
    }
}

/// What a text means as an unsigned 32-bit integer: one or more digits whose
/// value fits. Leading zeros are accepted; a sign, a blank or any other
/// character is not.
pub open spec fn parse_u32_spec(s: Seq<char>) -> Option<u32> {
    if s.len() > 0 && all_digits(s) && digits_value(s) <= u32::MAX {
        Some(digits_value(s) as u32)
    } else {
        None
    }
}

/// A prefix of a row of digits never stands for more than the whole row.
pub proof fn lemma_prefix_value(s: Seq<char>, k: int)
    requires
        0 <= k <= s.len(),
    ensures
        digits_value(s.take(k)) <= digits_value(s),
    decreases s.len(),
{
    if k == s.len() {
        assert(s.take(k) == s);
    } else {
        assert(s.drop_last().take(k) == s.take(k));
        lemma_prefix_value(s.drop_last(), k);
    }
}

/// The numeral of a number is a row of digits that stands for that number.
pub proof fn lemma_numeral_value(n: nat)
    ensures
        numeral(n).len() > 0,
        all_digits(numeral(n)),
        digits_value(numeral(n)) == n,
    decreases n,
{
    if n < 10 {
        let s = numeral(n);
        assert(s.drop_last() == Seq::<char>::empty());
        assert(digits_value(s.drop_last()) == 0);
    } else {
        lemma_numeral_value(n / 10);
        let s = numeral(n);
        assert(s.drop_last() == numeral(n / 10));
        assert(s.last() == digit_char(n % 10));
    }
}

/// Reading back the numeral of a 32-bit number yields that number.
pub proof fn lemma_parse_numeral(n: u32)
    ensures
        parse_u32_spec(numeral(n as nat)) == Some(n),
{
    lemma_numeral_value(n as nat);
}

/// What the text of a field means as an unsigned 32-bit integer: as
/// `parse_u32_spec` says, with one leading `+` allowed.
pub open spec fn unsigned_field(s: Seq<char>) -> Option<u32> {
    if s.len() > 0 && s[0] == '+' {
        parse_u32_spec(s.skip(1))
    } else {
        parse_u32_spec(s)
    }
}

/// What the digits of `s` stand for where there is at least one digit,
/// nothing but digits, and a value of at most `limit`.
pub open spec fn bounded_value(s: Seq<char>, limit: nat) -> Option<nat> {
    if s.len() > 0 && all_digits(s) && digits_value(s) <= limit {
        Some(digits_value(s))
    } else {
        None
    }
}

/// Reads the number, of at most `limit`, that the digits stand for that
/// `chars` holds from `from` on.
pub(crate) fn parse_bounded(chars: &Vec<char>, from: usize, limit: u64) -> (r: Option<u64>)
    requires
        from <= chars.len(),
        limit <= u32::MAX,
    ensures
        match r {
            Some(n) => bounded_value(chars@.skip(from as int), limit as nat) == Some(n as nat),
            None => bounded_value(chars@.skip(from as int), limit as nat) is None,
        },
{
    let ghost s = chars@.skip(from as int);
    if chars.len() == from {
        return None;
    }
    let mut acc: u64 = 0;
    let mut i: usize = from;
    assert(s.take(0) == Seq::<char>::empty());
    while i < chars.len()
        invariant
            from <= i <= chars.len(),
            limit <= u32::MAX,
            s == chars@.skip(from as int),
            all_digits(s.take(i - from)),
            acc == digits_value(s.take(i - from)),
            acc <= limit,
        decreases chars.len() - i,
    {
        let c = chars[i];
        assert(s[i - from] == c);
        if !('0' <= c && c <= '9') {
            return None;
        }
        let d: u64 = (c as u32 - 48) as u64;
        proof {
            let next = s.take(i - from + 1);
            assert(next.drop_last() == s.take(i - from));
            assert(next.last() == c);
            assert(all_digits(next)) by {
                assert forall|j: int| 0 <= j < next.len() implies is_digit(#[trigger] next[j]) by {
                    if j < i - from {
                        assert(next[j] == s.take(i - from)[j]);
                    }
                }
            }
        }
        let next: u64 = acc * 10 + d;
        if next > limit {
            proof {
                lemma_prefix_value(s, i - from + 1);
            }
            return None;
        }
        acc = next;
        i += 1;
    }
    proof {
        assert(s.take(i - from) == s);
    }
    Some(acc)
}

/// Reads an unsigned 32-bit integer from the digits that `chars` holds from
/// `from` on.
fn parse_digits(chars: &Vec<char>, from: usize) -> (r: Option<u32>)
    requires
        from <= chars.len(),
    ensures
        r == parse_u32_spec(chars@.skip(from as int)),
{
    match parse_bounded(chars, from, 0xFFFF_FFFF) {
        Some(n) => Some(n as u32),
        None => None,
    }
}

/// Reads an unsigned 32-bit integer from decimal text.
pub fn parse_u32(s: &str) -> (r: Option<u32>)
    ensures
        r == parse_u32_spec(s@),
{
    let chars = chars_of(s);
    assert(chars@.skip(0) == s@);
    parse_digits(&chars, 0)
}

/// Reads an unsigned 32-bit integer from the text of a field.
pub fn parse_field_u32(s: &str) -> (r: Option<u32>)
    ensures
        r == unsigned_field(s@),
{
    let chars = chars_of(s);
    if chars.len() > 0 && chars[0] == '+' {
        parse_digits(&chars, 1)
    } else {
        assert(chars@.skip(0) == s@);
        parse_digits(&chars, 0)
    }
}

/// The digit for a number below ten.
fn digit_of(d: u64) -> (c: char)
    requires
        d < 10,
    ensures
        c == digit_char(d as nat),
{
    (d as u8 + 48) as char
}

/// The numeral of `n`, digit by digit.
pub fn numeral_chars(n: u64) -> (chars: Vec<char>)
    ensures
        chars@ == numeral(n as nat),
    decreases n,
{
    if n < 10 {
        let mut chars: Vec<char> = Vec::new();
        chars.push(digit_of(n));
        chars
    } else {
        let mut chars = numeral_chars(n / 10);
        chars.push(digit_of(n % 10));
        chars
    }
}

} // verus!
