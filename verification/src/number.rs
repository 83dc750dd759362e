//! The decimal number that a literal denotes, and why the plain form of a
//! literal is the one spelling of that number.

use vstd::prelude::*;
use crate::decimal::{
    all_digits, digit_value, digits_value, is_digit, lemma_pow10_add, lemma_pow10_grows,
    lemma_value_above, lemma_value_below, lemma_value_of_joined, lemma_value_tells_digits, pow10,
};
use crate::literal::{
    exponent_value, fraction_at, join, lemma_joined_digits, lemma_placed_digits,
    lemma_plain_digits, lemma_split_join, lemma_split_parts, lemma_trim_end, lemma_zeros, or_zero,
    plain_form, plain_fraction, plain_parts, plain_whole, point_place, split, trim_zeros,
    whole_at, zeros, Parts,
};

verus! {

/// A decimal number: `coefficient` times ten to the `power`, negative or
/// not. Zero has a sign too.
pub struct Decimal {
    pub negative: bool,
    pub coefficient: nat,
    pub power: int,
}

/// The decimal number that a literal with the given parts denotes: its
/// digits, whole and fraction, as the coefficient, and its exponent less
/// the number of fraction digits as the power of ten.
pub open spec fn denoted(p: Parts) -> Decimal {
    Decimal {
        negative: p.negative,
        coefficient: digits_value(p.whole + p.fraction),
        power: exponent_value(p.exponent) - p.fraction.len(),
    }
}

/// Whether two decimals are the same number with the same sign, whatever
/// their powers of ten.
pub open spec fn same_number(a: Decimal, b: Decimal) -> bool {
    &&& a.negative == b.negative
    &&& if a.power >= b.power {
        a.coefficient * pow10((a.power - b.power) as nat) == b.coefficient
    } else {
        b.coefficient * pow10((b.power - a.power) as nat) == a.coefficient
    }
}

/// Leading zeros do not count.
pub proof fn lemma_trimmed_value(w: Seq<char>)
    ensures
        digits_value(trim_zeros(w)) == digits_value(w),
    decreases w.len(),
{
    if w.len() > 1 && w[0] == '0' {
        let rest = w.drop_first();
        lemma_trimmed_value(rest);
        assert(w == seq!['0'] + rest);
        lemma_value_of_joined(seq!['0'], rest);
        assert(zeros(1) == seq!['0']);
        lemma_zeros(1);
    }
}

/// A lone zero in place of no digit at all does not count.
pub proof fn lemma_or_zero_value(w: Seq<char>)
    ensures
        digits_value(or_zero(w)) == digits_value(w),
{
    if w.len() == 0 {
        assert(zeros(1) == seq!['0']);
        lemma_zeros(1);
    }
}

/// Zeros in front do not count, and each zero behind counts for a factor
/// of ten.
pub proof fn lemma_value_with_zeros(x: Seq<char>, k: nat)
    ensures
        digits_value(zeros(k) + x) == digits_value(x),
        digits_value(x + zeros(k)) == digits_value(x) * pow10(k),
{
    lemma_zeros(k);
    lemma_value_of_joined(zeros(k), x);
    lemma_value_of_joined(x, zeros(k));
    assert(0 * pow10(x.len()) == 0) by (nonlinear_arith);
}

/// The plain form of parts denotes the number that the parts denote.
pub proof fn lemma_same_number(p: Parts)
    requires
        all_digits(p.whole),
        all_digits(p.fraction),
        p.whole.len() + p.fraction.len() > 0,
    ensures
        same_number(
            denoted(p),
            denoted(
                Parts {
                    negative: p.negative,
                    whole: plain_whole(p),
                    fraction: plain_fraction(p),
                    exponent: Seq::empty(),
                },
            ),
        ),
{
    let d = p.whole + p.fraction;
    let n = d.len() as int;
    let at = point_place(p);
    let w1 = whole_at(d, at);
    let f1 = fraction_at(d, at);
    let w2 = plain_whole(p);
    let f2 = plain_fraction(p);
    let q = Parts { negative: p.negative, whole: w2, fraction: f2, exponent: Seq::empty() };
    let c0 = digits_value(d);
    let c2 = digits_value(w2 + f2);
    let x = digits_value(w1);
    lemma_joined_digits(p.whole, p.fraction);
    lemma_placed_digits(d, at);
    lemma_or_zero_value(w1);
    lemma_trimmed_value(or_zero(w1));
    assert(digits_value(w2) == x);
    lemma_value_of_joined(w2, f2);
    assert(c2 == x * pow10(f2.len()) + digits_value(f2));
    assert(denoted(p).power == at - n);
    assert(denoted(q).power == -f2.len());
    if at >= n {
        let k = (at - n) as nat;
        assert(f1.len() == 0);
        assert(f2 == seq!['0']);
        assert(zeros(1) == seq!['0']);
        lemma_zeros(1);
        lemma_value_with_zeros(d, k);
        assert(x == c0 * pow10(k));
        assert(pow10(1) == 10) by {
            reveal_with_fuel(pow10, 2);
        }
        assert(pow10(k + 1) == 10 * pow10(k));
        assert(c2 == x * 10 + 0);
        assert(c0 * pow10(k + 1) == c2) by {
            assert(c0 * (10 * pow10(k)) == (c0 * pow10(k)) * 10) by (nonlinear_arith);
        }
        assert(denoted(p).power - denoted(q).power == k + 1);
    } else {
        assert(f1.len() == n - at) by {
            if at <= 0 {
                lemma_zeros((-at) as nat);
            }
        }
        assert(or_zero(f1) == f1);
        lemma_trim_end(f1);
        let k = (f1.len() - f2.len()) as nat;
        assert(f1 == f2 + zeros(k));
        lemma_value_with_zeros(f2, k);
        let y = digits_value(f2);
        assert(digits_value(f1) == y * pow10(k));
        lemma_value_of_joined(w1, f1);
        assert(w1 + f1 == if at <= 0 { f1 } else { d }) by {
            if at <= 0 {
                assert(w1 + f1 =~= f1);
            } else {
                assert(d.take(at) + d.skip(at) =~= d);
            }
        }
        if at <= 0 {
            lemma_value_with_zeros(d, (-at) as nat);
        }
        assert(digits_value(w1 + f1) == c0);
        assert(c0 == x * pow10(f1.len()) + y * pow10(k));
        lemma_pow10_add(f2.len(), k);
        let a = pow10(f2.len());
        let b = pow10(k);
        assert(pow10(f1.len()) == a * b);
        assert(c0 == c2 * b) by {
            assert(x * (a * b) + y * b == (x * a + y) * b) by (nonlinear_arith);
        }
        assert(denoted(q).power - denoted(p).power == k);
        if k == 0 {
            assert(pow10(0) == 1);
            assert(c0 == c2) by {
                assert(c2 * 1 == c2) by (nonlinear_arith);
            }
            assert(c0 * pow10(0) == c2) by {
                assert(c0 * 1 == c0) by (nonlinear_arith);
            }
        }
    }
}

/// The plain form of a literal denotes the number that the literal denotes:
/// working the exponent in and dropping idle zeros and a `+` changes the
/// spelling alone.
pub proof fn lemma_plain_form_same_number(s: Seq<char>)
    requires
        plain_form(s) is Some,
    ensures
        split(plain_form(s)->0) is Some,
        same_number(denoted(split(s)->0), denoted(split(plain_form(s)->0)->0)),
{
    let p = split(s)->0;
    lemma_split_parts(s);
    lemma_plain_digits(p);
    let q = Parts {
        negative: p.negative,
        whole: plain_whole(p),
        fraction: plain_fraction(p),
        exponent: Seq::empty(),
    };
    lemma_split_join(q);
    assert(join(q) == join(p));
    lemma_same_number(p);
}

/// A decimal brought to the power of ten `base`, which is no larger than
/// its own: the coefficient that it has there.
pub open spec fn scaled(a: Decimal, base: int) -> nat
    recommends
        base <= a.power,
{
    a.coefficient * pow10((a.power - base) as nat)
}

/// Two decimals are the same number exactly if they have the same sign and,
/// brought to one power of ten that is no larger than theirs, the same
/// coefficient.
pub proof fn lemma_same_number_scaled(a: Decimal, b: Decimal, base: int)
    requires
        base <= a.power,
        base <= b.power,
    ensures
        same_number(a, b) <==> (a.negative == b.negative && scaled(a, base) == scaled(b, base)),
{
    let i = (a.power - base) as nat;
    let j = (b.power - base) as nat;
    let x = a.coefficient;
    let y = b.coefficient;
    lemma_pow10_grows(0, i);
    lemma_pow10_grows(0, j);
    if a.power >= b.power {
        let k = (a.power - b.power) as nat;
        lemma_pow10_add(k, j);
        assert(k + j == i);
        let t = pow10(j);
        let u = pow10(k);
        assert(pow10(i) == u * t);
        assert(x * (u * t) == (x * u) * t) by (nonlinear_arith);
        assert((x * u == y) <==> ((x * u) * t == y * t)) by (nonlinear_arith)
            requires
                t >= 1,
        ;
    } else {
        let k = (b.power - a.power) as nat;
        lemma_pow10_add(k, i);
        assert(k + i == j);
        let t = pow10(i);
        let u = pow10(k);
        assert(pow10(j) == u * t);
        assert(y * (u * t) == (y * u) * t) by (nonlinear_arith);
        assert((y * u == x) <==> ((y * u) * t == x * t)) by (nonlinear_arith)
            requires
                t >= 1,
        ;
    }
}

/// Being the same number holds either way round.
pub proof fn lemma_same_number_turned(a: Decimal, b: Decimal)
    requires
        same_number(a, b),
    ensures
        same_number(b, a),
{
    let base = if a.power <= b.power { a.power } else { b.power };
    lemma_same_number_scaled(a, b, base);
    lemma_same_number_scaled(b, a, base);
}

/// What is the same number as a second, which is the same as a third, is
/// the same number as the third.
pub proof fn lemma_same_number_chained(a: Decimal, b: Decimal, c: Decimal)
    requires
        same_number(a, b),
        same_number(b, c),
    ensures
        same_number(a, c),
{
    let low = if a.power <= b.power { a.power } else { b.power };
    let base = if low <= c.power { low } else { c.power };
    lemma_same_number_scaled(a, b, base);
    lemma_same_number_scaled(b, c, base);
    lemma_same_number_scaled(a, c, base);
}

/// Of two plain forms of one number, the second has no more fraction
/// digits than the first.
proof fn lemma_plain_fraction_length(p: Parts, q: Parts)
    requires
        plain_parts(p),
        plain_parts(q),
        same_number(denoted(p), denoted(q)),
    ensures
        q.fraction.len() <= p.fraction.len(),
{
    if q.fraction.len() > p.fraction.len() {
        let k = (q.fraction.len() - p.fraction.len()) as nat;
        let cp = denoted(p).coefficient;
        let cq = denoted(q).coefficient;
        assert(denoted(p).power - denoted(q).power == k);
        assert(cp * pow10(k) == cq);
        assert(pow10(k) == 10 * pow10((k - 1) as nat));
        let rest = pow10((k - 1) as nat);
        assert(cq == (cp * rest) * 10) by {
            assert(cp * (10 * rest) == (cp * rest) * 10) by (nonlinear_arith);
        }
        let d = q.whole + q.fraction;
        assert(d.last() == q.fraction.last());
        assert(cq == digits_value(d.drop_last()) * 10 + digit_value(d.last()));
        assert(is_digit(d.last()));
        assert(digit_value(d.last()) < 10);
        assert(digit_value(d.last()) == 0);
        assert(d.last() == '0');
    }
}

/// Plain forms of one number are one plain form.
pub proof fn lemma_plain_parts_agree(p: Parts, q: Parts)
    requires
        plain_parts(p),
        plain_parts(q),
        same_number(denoted(p), denoted(q)),
    ensures
        p == q,
{
    lemma_same_number_turned(denoted(p), denoted(q));
    lemma_plain_fraction_length(p, q);
    lemma_plain_fraction_length(q, p);
    let m = p.fraction.len();
    assert(q.fraction.len() == m);
    assert(pow10(0) == 1);
    let cp = denoted(p).coefficient;
    let cq = denoted(q).coefficient;
    assert(cp == cq) by {
        assert(cp * 1 == cp) by (nonlinear_arith);
    }
    lemma_value_of_joined(p.whole, p.fraction);
    lemma_value_of_joined(q.whole, q.fraction);
    lemma_value_below(p.fraction);
    lemma_value_below(q.fraction);
    let t = pow10(m);
    let wp = digits_value(p.whole);
    let wq = digits_value(q.whole);
    let fp = digits_value(p.fraction);
    let fq = digits_value(q.fraction);
    assert(wp == wq && fp == fq) by (nonlinear_arith)
        requires
            wp * t + fp == wq * t + fq,
            fp < t,
            fq < t,
    ;
    lemma_value_tells_digits(p.fraction, q.fraction);
    lemma_plain_whole_length(p.whole, q.whole);
    lemma_plain_whole_length(q.whole, p.whole);
    lemma_value_tells_digits(p.whole, q.whole);
    assert(p =~= q);
}

/// Of two rows of digits without idle leading zeros that stand for one
/// number, the second is no longer than the first.
proof fn lemma_plain_whole_length(a: Seq<char>, b: Seq<char>)
    requires
        a.len() > 0,
        b.len() > 0,
        all_digits(a),
        all_digits(b),
        a.len() > 1 ==> a[0] != '0',
        b.len() > 1 ==> b[0] != '0',
        digits_value(a) == digits_value(b),
    ensures
        b.len() <= a.len(),
{
    if b.len() > a.len() {
        lemma_value_below(a);
        lemma_value_above(b);
        lemma_pow10_grows(a.len(), (b.len() - 1) as nat);
    }
}

/// Two literals have the same plain form exactly if they denote the same
/// number.
pub proof fn lemma_plain_form_tells_number(s: Seq<char>, t: Seq<char>)
    requires
        plain_form(s) is Some,
        plain_form(t) is Some,
    ensures
        plain_form(s) == plain_form(t) <==> same_number(
            denoted(split(s)->0),
            denoted(split(t)->0),
        ),
{
    let p = split(s)->0;
    let q = split(t)->0;
    let plain_p = split(plain_form(s)->0)->0;
    let plain_q = split(plain_form(t)->0)->0;
    lemma_plain_form_same_number(s);
    lemma_plain_form_same_number(t);
    lemma_split_parts(s);
    lemma_split_parts(t);
    lemma_plain_digits(p);
    lemma_plain_digits(q);
    let made_p = Parts {
        negative: p.negative,
        whole: plain_whole(p),
        fraction: plain_fraction(p),
        exponent: Seq::empty(),
    };
    let made_q = Parts {
        negative: q.negative,
        whole: plain_whole(q),
        fraction: plain_fraction(q),
        exponent: Seq::empty(),
    };
    lemma_split_join(made_p);
    lemma_split_join(made_q);
    assert(join(made_p) == join(p));
    assert(join(made_q) == join(q));
    assert(plain_p == made_p);
    assert(plain_q == made_q);
    lemma_same_number_turned(denoted(q), denoted(plain_q));
    if plain_form(s) == plain_form(t) {
        lemma_same_number_chained(denoted(p), denoted(plain_p), denoted(q));
    }
    if same_number(denoted(p), denoted(q)) {
        lemma_same_number_turned(denoted(p), denoted(plain_p));
        lemma_same_number_chained(denoted(plain_p), denoted(p), denoted(q));
        lemma_same_number_chained(denoted(plain_p), denoted(q), denoted(plain_q));
        lemma_plain_parts_agree(plain_p, plain_q);
    }
}

} // verus!
