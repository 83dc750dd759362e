//! Real numbers as decimal literals.
//!
//! A record carries its real-valued field as the text of a decimal literal.
//! This module says which texts are literals and what the plain form of a
//! literal is: the same number written with a point and without an
//! exponent or idle zeros. Every `Real` is kept in plain form, which JSON,
//! YAML and TOML all take for a floating-point number. Infinity and what is
//! not a number have no literal. That the plain form denotes the number of
//! the literal, and no other literal's, is shown in `number`.

use vstd::prelude::*;
use crate::decimal::{all_digits, digits_value, is_digit, parse_bounded};
use crate::text::{chars_of, push_range, text_of};

verus! {

/// A leading `+` or `-`.
pub open spec fn is_sign(c: char) -> bool {
    c == '+' || c == '-'
}

/// The letter that starts an exponent.
pub open spec fn is_exponent_mark(c: char) -> bool {
    c == 'e' || c == 'E'
}

/// The end of the longest run of digits of `s` that starts at `from`.
pub open spec fn run_end(s: Seq<char>, from: int) -> int
    decreases s.len() - from,
{
    if 0 <= from < s.len() && is_digit(s[from]) {
        run_end(s, from + 1)
    } else {
        from
    }
}

/// Whether `x` is an exponent: `e` or `E`, an optional sign, then digits.
pub open spec fn is_exponent(x: Seq<char>) -> bool {
    &&& x.len() >= 2
    &&& is_exponent_mark(x[0])
    &&& if is_sign(x[1]) {
        x.len() >= 3 && all_digits(x.skip(2))
    } else {
        all_digits(x.skip(1))
    }
}

/// The number that an exponent spells; zero where there is none.
pub open spec fn exponent_value(x: Seq<char>) -> int {
    if x.len() < 2 {
        0
    } else if x[1] == '-' {
        -(digits_value(x.skip(2)) as int)
    } else if x[1] == '+' {
        digits_value(x.skip(2)) as int
    } else {
        digits_value(x.skip(1)) as int
    }
}

/// The largest exponent, up or down, that a literal may carry. The largest
/// and the smallest number of 64-bit floating point lie well within it.
pub open spec fn exponent_limit() -> int {
    1000
}

/// Where the whole digits start: behind the sign, if there is one.
pub open spec fn whole_start(s: Seq<char>) -> int {
    if s.len() > 0 && is_sign(s[0]) {
        1
    } else {
        0
    }
}

/// Where the whole digits end.
pub open spec fn whole_end(s: Seq<char>) -> int {
    run_end(s, whole_start(s))
}

/// Whether a point follows the whole digits.
pub open spec fn has_point(s: Seq<char>) -> bool {
    whole_end(s) < s.len() && s[whole_end(s)] == '.'
}

/// Where the fraction digits start: behind the point, if there is one.
pub open spec fn fraction_start(s: Seq<char>) -> int {
    if has_point(s) {
        whole_end(s) + 1
    } else {
        whole_end(s)
    }
}

/// Where the fraction digits end.
pub open spec fn fraction_end(s: Seq<char>) -> int {
    if has_point(s) {
        run_end(s, fraction_start(s))
    } else {
        fraction_start(s)
    }
}

/// The parts of a decimal literal.
#[verifier::ext_equal]
pub struct Parts {
    /// Whether the literal starts with `-`.
    pub negative: bool,
    /// The digits before the point.
    pub whole: Seq<char>,
    /// The digits after the point.
    pub fraction: Seq<char>,
    /// The exponent as written, with its letter; empty where there is none.
    pub exponent: Seq<char>,
}

/// Splits a decimal literal into its parts. A literal is an optional
/// sign; then digits, a point and digits, of which the point and the
/// digits on either side of it may be missing, but not every digit; then
/// an optional exponent, which is no larger than the limit. `None` where
/// `s` is no such literal.
pub open spec fn split(s: Seq<char>) -> Option<Parts> {
    let a = whole_start(s);
    let b = whole_end(s);
    let c = fraction_start(s);
    let d = fraction_end(s);
    let exponent = s.subrange(d, s.len() as int);
    if (b - a) + (d - c) == 0 {
        None
    } else if exponent.len() != 0 && !is_exponent(exponent) {
        None
    } else if exponent_value(exponent) < -exponent_limit() || exponent_value(exponent)
        > exponent_limit() {
        None
    } else {
        Some(
            Parts {
                negative: s.len() > 0 && s[0] == '-',
                whole: s.subrange(a, b),
                fraction: s.subrange(c, d),
                exponent,
            },
        )
    }
}

/// A row of `n` zeros.
pub open spec fn zeros(n: nat) -> Seq<char> {
    Seq::new(n, |i: int| '0')
}

/// The digits that stand before the point when the point stands behind the
/// first `at` of the digits `d`. Zeros fill the places that `d` does not
/// reach.
pub open spec fn whole_at(d: Seq<char>, at: int) -> Seq<char> {
    if at <= 0 {
        Seq::empty()
    } else if at >= d.len() {
        d + zeros((at - d.len()) as nat)
    } else {
        d.take(at)
    }
}

/// The digits that stand behind the point when the point stands behind the
/// first `at` of the digits `d`. Zeros fill the places that `d` does not
/// reach.
pub open spec fn fraction_at(d: Seq<char>, at: int) -> Seq<char> {
    if at >= d.len() {
        Seq::empty()
    } else if at <= 0 {
        zeros((-at) as nat) + d
    } else {
        d.skip(at)
    }
}

/// A row of digits without its leading zeros, the last digit always kept.
pub open spec fn trim_zeros(w: Seq<char>) -> Seq<char>
    decreases w.len(),
{
    if w.len() > 1 && w[0] == '0' {
        trim_zeros(w.drop_first())
    } else {
        w
    }
}

/// A row of digits without its trailing zeros, the first digit always
/// kept.
pub open spec fn trim_end(f: Seq<char>) -> Seq<char>
    decreases f.len(),
{
    if f.len() > 1 && f.last() == '0' {
        trim_end(f.drop_last())
    } else {
        f
    }
}

/// The digits `w`, or `0` where there are none.
pub open spec fn or_zero(w: Seq<char>) -> Seq<char> {
    if w.len() == 0 {
        seq!['0']
    } else {
        w
    }
}

/// Where the point stands among the digits of a literal once its exponent
/// is worked in: behind as many digits as the whole has, moved by the
/// exponent.
pub open spec fn point_place(p: Parts) -> int {
    p.whole.len() + exponent_value(p.exponent)
}

/// The whole digits of the plain form.
pub open spec fn plain_whole(p: Parts) -> Seq<char> {
    trim_zeros(or_zero(whole_at(p.whole + p.fraction, point_place(p))))
}

/// The fraction digits of the plain form.
pub open spec fn plain_fraction(p: Parts) -> Seq<char> {
    trim_end(or_zero(fraction_at(p.whole + p.fraction, point_place(p))))
}

/// The plain form of a literal with the given parts: `-` if negative, the
/// whole digits, a point, the fraction digits. The exponent is worked in,
/// so that none is left; leading zeros of the whole and trailing zeros of
/// the fraction are dropped; `0` stands where no digit is left.
pub open spec fn join(p: Parts) -> Seq<char> {
    (if p.negative { seq!['-'] } else { Seq::<char>::empty() }) + plain_whole(p) + seq!['.']
        + plain_fraction(p)
}

/// The plain form of the literal `s`; `None` where `s` is no literal.
pub open spec fn plain_form(s: Seq<char>) -> Option<Seq<char>> {
    match split(s) {
        Some(p) => Some(join(p)),
        None => None,
    }
}

/// Whether `s` is a literal in plain form.
pub open spec fn is_plain(s: Seq<char>) -> bool {
    plain_form(s) == Some(s)
}

/// Whether the parts are those of a literal in plain form: whole digits
/// without a leading zero, fraction digits without a trailing zero, a lone
/// `0` aside in both, and no exponent.
pub open spec fn plain_parts(p: Parts) -> bool {
    &&& p.whole.len() > 0
    &&& all_digits(p.whole)
    &&& (p.whole.len() > 1 ==> p.whole[0] != '0')
    &&& p.fraction.len() > 0
    &&& all_digits(p.fraction)
    &&& (p.fraction.len() > 1 ==> p.fraction.last() != '0')
    &&& p.exponent.len() == 0
}

/// A run of digits that starts at `from` ends where the digits end.
pub proof fn lemma_run_end(s: Seq<char>, from: int, to: int)
    requires
        0 <= from <= to <= s.len(),
        forall|i: int| from <= i < to ==> is_digit(#[trigger] s[i]),
        to == s.len() || !is_digit(s[to]),
    ensures
        run_end(s, from) == to,
    decreases to - from,
{
    if from < to {
        lemma_run_end(s, from + 1, to);
    }
}

/// What lies between `from` and the end of the run are digits, and the run
/// stops at the end of the text or before a character that is no digit.
pub proof fn lemma_run_digits(s: Seq<char>, from: int)
    requires
        0 <= from <= s.len(),
    ensures
        from <= run_end(s, from) <= s.len(),
        forall|i: int| from <= i < run_end(s, from) ==> is_digit(#[trigger] s[i]),
        run_end(s, from) == s.len() || !is_digit(s[run_end(s, from)]),
    decreases s.len() - from,
{
    if from < s.len() && is_digit(s[from]) {
        lemma_run_digits(s, from + 1);
    }
}

/// Trimming at the start keeps a row of digits a row of digits, leaves no
/// leading zero but a lone one, and changes nothing when applied again.
pub proof fn lemma_trim_zeros(w: Seq<char>)
    requires
        w.len() > 0,
        all_digits(w),
    ensures
        trim_zeros(w).len() > 0,
        all_digits(trim_zeros(w)),
        trim_zeros(w).len() > 1 ==> trim_zeros(w)[0] != '0',
        trim_zeros(trim_zeros(w)) == trim_zeros(w),
    decreases w.len(),
{
    if w.len() > 1 && w[0] == '0' {
        let rest = w.drop_first();
        assert forall|i: int| 0 <= i < rest.len() implies is_digit(#[trigger] rest[i]) by {
            assert(rest[i] == w[i + 1]);
        }
        lemma_trim_zeros(rest);
    }
}

/// Trimming at the end keeps a row of digits a row of digits, leaves no
/// trailing zero but a lone one, and drops nothing but zeros.
pub proof fn lemma_trim_end(f: Seq<char>)
    requires
        f.len() > 0,
        all_digits(f),
    ensures
        trim_end(f).len() > 0,
        trim_end(f).len() <= f.len(),
        all_digits(trim_end(f)),
        trim_end(f).len() > 1 ==> trim_end(f).last() != '0',
        f == trim_end(f) + zeros((f.len() - trim_end(f).len()) as nat),
    decreases f.len(),
{
    if f.len() > 1 && f.last() == '0' {
        let rest = f.drop_last();
        assert forall|i: int| 0 <= i < rest.len() implies is_digit(#[trigger] rest[i]) by {
            assert(rest[i] == f[i]);
        }
        lemma_trim_end(rest);
        let kept = trim_end(rest);
        assert(f =~= kept + zeros((f.len() - kept.len()) as nat)) by {
            assert(rest == kept + zeros((rest.len() - kept.len()) as nat));
            assert forall|i: int| 0 <= i < f.len() implies f[i] == (kept + zeros(
                (f.len() - kept.len()) as nat,
            ))[i] by {
                if i < rest.len() {
                    assert(f[i] == rest[i]);
                }
            }
        }
    } else {
        assert(f =~= f + zeros(0));
    }
}

/// The parts that `split` finds are rows of digits, not both empty, and
/// an exponent within the limit.
pub proof fn lemma_split_parts(s: Seq<char>)
    requires
        split(s) is Some,
    ensures
        all_digits(split(s)->0.whole),
        all_digits(split(s)->0.fraction),
        split(s)->0.whole.len() + split(s)->0.fraction.len() > 0,
        -exponent_limit() <= exponent_value(split(s)->0.exponent) <= exponent_limit(),
{
    let a = whole_start(s);
    lemma_run_digits(s, a);
    let c = fraction_start(s);
    if has_point(s) {
        lemma_run_digits(s, c);
    }
    let p = split(s)->0;
    assert forall|i: int| 0 <= i < p.whole.len() implies is_digit(#[trigger] p.whole[i]) by {
        assert(p.whole[i] == s[a + i]);
    }
    assert forall|i: int| 0 <= i < p.fraction.len() implies is_digit(#[trigger] p.fraction[i]) by {
        assert(p.fraction[i] == s[c + i]);
    }
}

/// Zeros are digits.
pub proof fn lemma_zeros(n: nat)
    ensures
        all_digits(zeros(n)),
        digits_value(zeros(n)) == 0,
        zeros(n).len() == n,
    decreases n,
{
    if n > 0 {
        lemma_zeros((n - 1) as nat);
        assert(zeros(n).drop_last() == zeros((n - 1) as nat));
    }
}

/// Joined rows of digits are a row of digits.
pub proof fn lemma_joined_digits(a: Seq<char>, b: Seq<char>)
    requires
        all_digits(a),
        all_digits(b),
    ensures
        all_digits(a + b),
{
    assert forall|i: int| 0 <= i < (a + b).len() implies is_digit(#[trigger] (a + b)[i]) by {
        if i < a.len() {
            assert((a + b)[i] == a[i]);
        } else {
            assert((a + b)[i] == b[i - a.len()]);
        }
    }
}

/// The digits on either side of the point are digits, wherever the point
/// is put.
pub proof fn lemma_placed_digits(d: Seq<char>, at: int)
    requires
        all_digits(d),
    ensures
        all_digits(whole_at(d, at)),
        all_digits(fraction_at(d, at)),
{
    if at > 0 && at >= d.len() {
        lemma_zeros((at - d.len()) as nat);
        lemma_joined_digits(d, zeros((at - d.len()) as nat));
    }
    if at <= 0 {
        lemma_zeros((-at) as nat);
        lemma_joined_digits(zeros((-at) as nat), d);
    }
    if 0 < at < d.len() {
        assert forall|i: int| 0 <= i < d.take(at).len() implies is_digit(
            #[trigger] d.take(at)[i],
        ) by {
            assert(d.take(at)[i] == d[i]);
        }
        assert forall|i: int| 0 <= i < d.skip(at).len() implies is_digit(
            #[trigger] d.skip(at)[i],
        ) by {
            assert(d.skip(at)[i] == d[i + at]);
        }
    }
}

/// The digits of a plain form are digits without idle zeros.
pub proof fn lemma_plain_digits(p: Parts)
    requires
        all_digits(p.whole),
        all_digits(p.fraction),
    ensures
        plain_parts(
            Parts {
                negative: p.negative,
                whole: plain_whole(p),
                fraction: plain_fraction(p),
                exponent: Seq::empty(),
            },
        ),
{
    let d = p.whole + p.fraction;
    lemma_joined_digits(p.whole, p.fraction);
    lemma_placed_digits(d, point_place(p));
    lemma_trim_zeros(or_zero(whole_at(d, point_place(p))));
    lemma_trim_end(or_zero(fraction_at(d, point_place(p))));
}

/// Splitting the plain form of plain parts gives those parts back.
pub proof fn lemma_split_join(p: Parts)
    requires
        plain_parts(p),
    ensures
        join(p) == (if p.negative { seq!['-'] } else { Seq::<char>::empty() }) + p.whole
            + seq!['.'] + p.fraction,
        split(join(p)) == Some(p),
{
    let sign = if p.negative { seq!['-'] } else { Seq::<char>::empty() };
    let n = sign.len() as int;
    let w = p.whole;
    let f = p.fraction;
    let d = w + f;
    assert(point_place(p) == w.len());
    assert(whole_at(d, w.len() as int) == w) by {
        assert(d.take(w.len() as int) == w);
    }
    assert(fraction_at(d, w.len() as int) == f) by {
        assert(d.skip(w.len() as int) == f);
    }
    assert(trim_zeros(or_zero(w)) == w);
    assert(trim_end(or_zero(f)) == f);
    let t = join(p);
    assert(t == sign + w + seq!['.'] + f);
    assert(t.len() == n + w.len() + 1 + f.len());
    assert forall|i: int| 0 <= i < w.len() implies t[n + i] == w[i] by {}
    assert(t[n + w.len()] == '.');
    assert forall|i: int| 0 <= i < f.len() implies t[n + w.len() + 1 + i] == f[i] by {}
    assert(is_digit(w[0]));
    assert(t[n] == w[0]);
    if p.negative {
        assert(t[0] == '-');
    }
    assert(whole_start(t) == n);
    let b = n + w.len();
    assert(run_end(t, n) == b) by {
        assert forall|i: int| n <= i < b implies is_digit(#[trigger] t[i]) by {
            assert(t[i] == w[i - n]);
        }
        lemma_run_end(t, n, b);
    }
    let c = b + 1;
    let e = c + f.len();
    assert(run_end(t, c) == e) by {
        assert forall|i: int| c <= i < e implies is_digit(#[trigger] t[i]) by {
            assert(t[i] == f[i - c]);
        }
        lemma_run_end(t, c, e);
    }
    assert(t.subrange(e, t.len() as int) =~= Seq::<char>::empty());
    assert(t.subrange(n, b) =~= w);
    assert(t.subrange(c, e) =~= f);
    assert(split(t)->0 =~= p);
}

/// The plain form of a literal is itself a literal in plain form.
pub proof fn lemma_plain_form_is_plain(s: Seq<char>)
    requires
        plain_form(s) is Some,
    ensures
        is_plain(plain_form(s)->0),
{
    let p = split(s)->0;
    lemma_split_parts(s);
    lemma_plain_digits(p);
    let q = Parts {
        negative: p.negative,
        whole: plain_whole(p),
        fraction: plain_fraction(p),
        exponent: Seq::empty(),
    };
    lemma_split_join(q);
    assert(join(q) == join(p));
}

/// A real number, kept as a decimal literal in plain form. Every decimal
/// number has one plain form, so that two of these are the same text
/// exactly if they are the same number.
///
/// The literal is not rounded or otherwise read as a binary number here: a
/// format that stores binary floating point does that when it takes the
/// literal.
#[derive(Debug, PartialEq)]
pub struct Real {
    text: String,
}

impl View for Real {
    type V = Seq<char>;

    closed spec fn view(&self) -> Seq<char> {
        self.text@
    }
}

/// The end of the run of digits of `chars` that starts at `from`.
fn scan_digits(chars: &Vec<char>, from: usize) -> (end: usize)
    requires
        from <= chars.len(),
    ensures
        end == run_end(chars@, from as int),
        from <= end <= chars.len(),
{
    let mut i = from;
    while i < chars.len() && '0' <= chars[i] && chars[i] <= '9'
        invariant
            from <= i <= chars.len(),
            run_end(chars@, from as int) == run_end(chars@, i as int),
        decreases chars.len() - i,
    {
        i += 1;
    }
    i
}

/// Whether what `chars` holds from `from` on is an exponent.
fn exponent_at(chars: &Vec<char>, from: usize) -> (b: bool)
    requires
        from <= chars.len(),
    ensures
        b == is_exponent(chars@.subrange(from as int, chars.len() as int)),
{
    let len = chars.len();
    let ghost x = chars@.subrange(from as int, len as int);
    if len - from < 2 {
        return false;
    }
    if !(chars[from] == 'e' || chars[from] == 'E') {
        assert(x[0] == chars@[from as int]);
        return false;
    }
    assert(x[0] == chars@[from as int]);
    assert(x[1] == chars@[from + 1]);
    let signed = chars[from + 1] == '+' || chars[from + 1] == '-';
    let start = if signed { from + 2 } else { from + 1 };
    if start >= len {
        return false;
    }
    let end = scan_digits(chars, start);
    let ghost tail = x.skip(start - from);
    proof {
        lemma_run_digits(chars@, start as int);
        if end == len {
            assert forall|i: int| 0 <= i < tail.len() implies is_digit(#[trigger] tail[i]) by {
                assert(tail[i] == chars@[start + i]);
            }
        } else {
            assert(tail[end - start] == chars@[end as int]);
        }
    }
    end == len
}

/// Where the parts of a literal lie in its text.
struct Marks {
    whole_start: usize,
    whole_end: usize,
    fraction_start: usize,
    fraction_end: usize,
}

impl Marks {
    /// Whether the marks are those of the text `s`.
    spec fn of(&self, s: Seq<char>) -> bool {
        &&& self.whole_start == whole_start(s)
        &&& self.whole_end == whole_end(s)
        &&& self.fraction_start == fraction_start(s)
        &&& self.fraction_end == fraction_end(s)
        &&& self.whole_start <= self.whole_end <= self.fraction_start <= self.fraction_end
            <= s.len()
    }
}

/// Whether `s` has the shape of a literal: digits, and an exponent or
/// none, of whatever size.
spec fn shaped(s: Seq<char>) -> bool {
    let exponent = s.subrange(fraction_end(s), s.len() as int);
    &&& (whole_end(s) - whole_start(s)) + (fraction_end(s) - fraction_start(s)) != 0
    &&& (exponent.len() == 0 || is_exponent(exponent))
}

/// Finds the parts of a literal; `None` where the text has not the shape
/// of one.
fn locate(chars: &Vec<char>) -> (r: Option<Marks>)
    ensures
        r is Some <==> shaped(chars@),
        r matches Some(m) ==> m.of(chars@),
{
    let len = chars.len();
    let a: usize = if len > 0 && (chars[0] == '+' || chars[0] == '-') { 1 } else { 0 };
    let b = scan_digits(chars, a);
    let dotted = b < len && chars[b] == '.';
    let c = if dotted { b + 1 } else { b };
    let d = if dotted { scan_digits(chars, c) } else { c };
    if (b - a) + (d - c) == 0 {
        return None;
    }
    if d < len && !exponent_at(chars, d) {
        return None;
    }
    Some(Marks { whole_start: a, whole_end: b, fraction_start: c, fraction_end: d })
}

/// An exponent: how far it moves the point, and whether down.
struct Shift {
    down: bool,
    by: u64,
}

impl Shift {
    /// The exponent as a number.
    spec fn value(&self) -> int {
        if self.down {
            -(self.by as int)
        } else {
            self.by as int
        }
    }
}

/// Reads the exponent that `chars` holds from `from` on; `None` where it
/// is beyond the limit.
fn read_exponent(chars: &Vec<char>, from: usize) -> (r: Option<Shift>)
    requires
        from <= chars.len(),
        from < chars.len() ==> is_exponent(chars@.subrange(from as int, chars.len() as int)),
    ensures
        match r {
            Some(shift) => shift.by <= exponent_limit() && shift.value() == exponent_value(
                chars@.subrange(from as int, chars.len() as int),
            ),
            None => {
                let e = exponent_value(chars@.subrange(from as int, chars.len() as int));
                e < -exponent_limit() || e > exponent_limit()
            },
        },
{
    let len = chars.len();
    let ghost x = chars@.subrange(from as int, len as int);
    if from == len {
        return Some(Shift { down: false, by: 0 });
    }
    assert(x[1] == chars@[from + 1]);
    let signed = chars[from + 1] == '+' || chars[from + 1] == '-';
    let down = chars[from + 1] == '-';
    let start = if signed { from + 2 } else { from + 1 };
    assert(chars@.skip(start as int) == x.skip(start - from));
    match parse_bounded(chars, start, 1000) {
        Some(by) => Some(Shift { down, by }),
        None => None,
    }
}

/// Appends `n` zeros.
fn push_zeros(out: &mut Vec<char>, n: usize)
    ensures
        final(out)@ == old(out)@ + zeros(n as nat),
{
    let mut i: usize = 0;
    assert(zeros(0) == Seq::<char>::empty());
    while i < n
        invariant
            i <= n,
            out@ == old(out)@ + zeros(i as nat),
        decreases n - i,
    {
        out.push('0');
        assert(zeros((i + 1) as nat) == zeros(i as nat).push('0'));
        i += 1;
    }
}

/// The digits on either side of the point, when the point is moved by
/// `shift` from behind the first `whole` of the digits `d`.
fn place_point(d: &Vec<char>, whole: usize, shift: &Shift) -> (r: (Vec<char>, Vec<char>))
    requires
        whole <= d.len(),
        d.len() > 0,
        shift.by <= exponent_limit(),
    ensures
        r.0@ == whole_at(d@, whole + shift.value()),
        r.1@ == fraction_at(d@, whole + shift.value()),
{
    let n = d.len();
    let by = shift.by as usize;
    let mut before: Vec<char> = Vec::new();
    let mut behind: Vec<char> = Vec::new();
    if shift.down && by >= whole {
        push_zeros(&mut behind, by - whole);
        push_range(&mut behind, d, 0, n);
        assert(d@.subrange(0, n as int) == d@);
    } else if !shift.down && by >= n - whole {
        push_range(&mut before, d, 0, n);
        push_zeros(&mut before, by - (n - whole));
        assert(d@.subrange(0, n as int) == d@);
    } else {
        let at = if shift.down { whole - by } else { whole + by };
        if at == 0 {
            push_range(&mut behind, d, 0, n);
            assert(d@.subrange(0, n as int) == d@);
            assert(zeros(0) + d@ == d@);
        } else if at == n {
            push_range(&mut before, d, 0, n);
            assert(d@.subrange(0, n as int) == d@);
            assert(d@ + zeros(0) == d@);
        } else {
            push_range(&mut before, d, 0, at);
            push_range(&mut behind, d, at, n);
            assert(d@.subrange(0, at as int) == d@.take(at as int));
            assert(d@.subrange(at as int, n as int) == d@.skip(at as int));
        }
    }
    (before, behind)
}

/// Appends the digits `w` without their leading zeros, and `0` where
/// there are none.
fn push_whole(out: &mut Vec<char>, w: &Vec<char>)
    ensures
        final(out)@ == old(out)@ + trim_zeros(or_zero(w@)),
{
    let to = w.len();
    if to == 0 {
        out.push('0');
        assert(trim_zeros(seq!['0']) == seq!['0']);
        assert(out@ == old(out)@ + seq!['0']);
    } else {
        let mut k: usize = 0;
        assert(w@.subrange(0, to as int) == w@);
        while k + 1 < to && w[k] == '0'
            invariant
                k < to == w.len(),
                trim_zeros(w@) == trim_zeros(w@.subrange(k as int, to as int)),
            decreases to - k,
        {
            assert(w@.subrange(k as int, to as int).drop_first() == w@.subrange(k + 1, to as int));
            k += 1;
        }
        push_range(out, w, k, to);
    }
}

/// Appends the digits `f` without their trailing zeros, and `0` where
/// there are none.
fn push_fraction(out: &mut Vec<char>, f: &Vec<char>)
    ensures
        final(out)@ == old(out)@ + trim_end(or_zero(f@)),
{
    if f.len() == 0 {
        out.push('0');
        assert(trim_end(seq!['0']) == seq!['0']);
        assert(out@ == old(out)@ + seq!['0']);
    } else {
        let mut k: usize = f.len();
        assert(f@.subrange(0, k as int) == f@);
        while k > 1 && f[k - 1] == '0'
            invariant
                0 < k <= f.len(),
                trim_end(f@) == trim_end(f@.subrange(0, k as int)),
            decreases k,
        {
            assert(f@.subrange(0, k as int).drop_last() == f@.subrange(0, k - 1));
            k -= 1;
        }
        push_range(out, f, 0, k);
    }
}

/// Writes the plain form of the literal whose parts lie at `marks` and
/// whose exponent is `shift`.
fn assemble(chars: &Vec<char>, marks: &Marks, shift: &Shift) -> (out: Vec<char>)
    requires
        split(chars@) is Some,
        marks.of(chars@),
        shift.by <= exponent_limit(),
        shift.value() == exponent_value(split(chars@)->0.exponent),
    ensures
        out@ == join(split(chars@)->0),
{
    let ghost p = split(chars@)->0;
    let mut digits: Vec<char> = Vec::new();
    push_range(&mut digits, chars, marks.whole_start, marks.whole_end);
    push_range(&mut digits, chars, marks.fraction_start, marks.fraction_end);
    assert(digits@ == p.whole + p.fraction);
    let (whole, fraction) = place_point(&digits, marks.whole_end - marks.whole_start, shift);
    let mut out: Vec<char> = Vec::new();
    if chars.len() > 0 && chars[0] == '-' {
        out.push('-');
    }
    let ghost sign = out@;
    push_whole(&mut out, &whole);
    out.push('.');
    push_fraction(&mut out, &fraction);
    assert(out@ == sign + plain_whole(p) + seq!['.'] + plain_fraction(p));
    out
}

impl Real {
    #[verifier::type_invariant]
    spec fn plain(self) -> bool {
        is_plain(self.text@)
    }

    /// Reads a decimal literal and keeps its plain form. `None` where the
    /// text is no decimal literal.
    pub fn parse(s: &str) -> (r: Option<Real>)
        ensures
            match r {
                Some(x) => plain_form(s@) == Some(x@),
                None => plain_form(s@) is None,
            },
    {
        let chars = chars_of(s);
        let marks = match locate(&chars) {
            Some(marks) => marks,
            None => {
                return None;
            },
        };
        let shift = match read_exponent(&chars, marks.fraction_end) {
            Some(shift) => shift,
            None => {
                return None;
            },
        };
        let out = assemble(&chars, &marks, &shift);
        proof {
            lemma_plain_form_is_plain(s@);
        }
        Some(Real { text: text_of(&out) })
    }

    /// The literal.
    pub fn text(&self) -> (s: &str)
        ensures
            s@ == self@,
            is_plain(s@),
    {
        proof {
            use_type_invariant(self);
        }
        self.text.as_str()
    }
}

impl Clone for Real {
    fn clone(&self) -> (r: Self)
        ensures
            r@ == self@,
    {
        proof {
            use_type_invariant(self);
        }
        Real { text: self.text.clone() }
    }
}

} // verus!
