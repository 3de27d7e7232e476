//! Exact decimal numbers: the geometry a client sends, the limits a device
//! sets, and their text.

use vstd::prelude::*;
use crate::text::push_char;

verus! {

/// 10 to the power `k`.
pub open spec fn pow10(k: nat) -> nat
    decreases k,
{
    if k == 0 {
        1
    } else {
        10 * pow10((k - 1) as nat)
    }
}

/// The value of a sequence of decimal digits, most significant first.
pub open spec fn digits_value(d: Seq<u8>) -> nat
    decreases d.len(),
{
    if d.len() == 0 {
        0
    } else {
        digits_value(d.drop_last()) * 10 + d.last() as nat
    }
}

/// Every element is a decimal digit.
pub open spec fn all_digits(d: Seq<u8>) -> bool {
    forall|i: int| 0 <= i < d.len() ==> #[trigger] d[i] < 10
}

/// `k` zero digits.
pub open spec fn zeros(k: nat) -> Seq<u8> {
    Seq::new(k, |i: int| 0u8)
}

/// An exact decimal number: the digit string `digits` with a decimal point
/// `scale` places from its right end, negative when `negative` is set.
/// Its value is `digits / 10^scale`, negated when `negative` is set; a
/// negative zero equals zero.
#[derive(Debug, Clone, PartialEq, Eq)]
pub struct Number {
    pub negative: bool,
    pub digits: Vec<u8>,
    pub scale: usize,
}

impl Number {
    /// The digits form a number with at least one digit before the point.
    pub open spec fn well_formed(&self) -> bool {
        &&& all_digits(self.digits@)
        &&& self.digits@.len() > self.scale
    }
}

/// The model of a [`Number`]: sign, digit string and point position.
pub struct NumberView {
    pub negative: bool,
    pub digits: Seq<u8>,
    pub scale: nat,
}

impl View for Number {
    type V = NumberView;

    open spec fn view(&self) -> NumberView {
        NumberView { negative: self.negative, digits: self.digits@, scale: self.scale as nat }
    }
}

/// The decimal digits of `n`, most significant first, with no leading zeros.
pub open spec fn decimal_digits(n: nat) -> Seq<u8>
    decreases n,
{
    if n < 10 {
        seq![n as u8]
    } else {
        decimal_digits(n / 10).push((n % 10) as u8)
    }
}

/// The number `m / 10^scale`, its digits padded with leading zeros so that
/// one stands before the point.
pub open spec fn scaled_number(negative: bool, m: nat, scale: nat) -> NumberView {
    let d = decimal_digits(m);
    NumberView {
        negative,
        digits: if d.len() > scale { d } else { zeros((scale + 1 - d.len()) as nat) + d },
        scale,
    }
}

/// How a number model is written (see [`number_text`]).
pub open spec fn number_view_text(n: NumberView) -> Seq<char> {
    let d = n.digits;
    let k = d.len() - n.scale;
    (if n.negative { seq!['-'] } else { Seq::empty() }) + digit_chars(d.subrange(0, k))
        + (if n.scale > 0 { seq!['.'] + digit_chars(d.subrange(k, d.len() as int)) } else {
        Seq::empty()
    })
}

/// The value of `n` times `10^scale`, with its sign.
pub open spec fn scaled_value(n: NumberView) -> int {
    if n.negative {
        -(digits_value(n.digits) as int)
    } else {
        digits_value(n.digits) as int
    }
}

/// `a` is smaller than `b` as a number.
pub open spec fn number_less(a: NumberView, b: NumberView) -> bool {
    scaled_value(a) * pow10(b.scale) < scaled_value(b) * pow10(a.scale)
}

/// `a` and `b` are the same number.
pub open spec fn number_equal(a: NumberView, b: NumberView) -> bool {
    scaled_value(a) * pow10(b.scale) == scaled_value(b) * pow10(a.scale)
}

pub proof fn lemma_pow10_positive(k: nat)
    ensures
        pow10(k) > 0,
    decreases k,
{
    if k > 0 {
        lemma_pow10_positive((k - 1) as nat);
    }
}

pub proof fn lemma_pow10_add(a: nat, b: nat)
    ensures
        pow10(a + b) == pow10(a) * pow10(b),
    decreases b,
{
    if b == 0 {
        assert(pow10(0) == 1);
        assert(a + b == a);
    } else {
        lemma_pow10_add(a, (b - 1) as nat);
        assert((a + b - 1) as nat == a + (b - 1) as nat);
        assert(pow10(a + b) == 10 * pow10((a + b - 1) as nat));
        assert(pow10(a) * pow10(b) == pow10(a) * (10 * pow10((b - 1) as nat)));
        assert(pow10(a) * (10 * pow10((b - 1) as nat)) == 10 * (pow10(a) * pow10((b - 1) as nat)))
            by (nonlinear_arith);
    }
}

/// The value of a concatenation: the left part shifted by the right part's length.
pub proof fn lemma_digits_concat(p: Seq<u8>, q: Seq<u8>)
    ensures
        digits_value(p + q) == digits_value(p) * pow10(q.len()) + digits_value(q),
    decreases q.len(),
{
    if q.len() == 0 {
        assert(p + q =~= p);
        assert(pow10(0) == 1);
    } else {
        lemma_digits_concat(p, q.drop_last());
        assert(pow10(q.len()) == 10 * pow10((q.len() - 1) as nat));
        assert(digits_value(p + q) == digits_value((p + q).drop_last()) * 10 + (p + q).last() as nat);
        assert(digits_value(q) == digits_value(q.drop_last()) * 10 + q.last() as nat);
        assert((p + q).drop_last() =~= p + q.drop_last());
        assert((p + q).last() == q.last());
        let a = digits_value(p);
        let b = digits_value(q.drop_last());
        let k = pow10((q.len() - 1) as nat);
        assert((a * k + b) * 10 + q.last() == a * (10 * k) + (b * 10 + q.last())) by (nonlinear_arith);
    }
}

/// A digit string of length `n` is worth less than `10^n`.
pub proof fn lemma_digits_bound(d: Seq<u8>)
    requires
        all_digits(d),
    ensures
        digits_value(d) < pow10(d.len()),
    decreases d.len(),
{
    if d.len() > 0 {
        let p = d.drop_last();
        assert(all_digits(p));
        lemma_digits_bound(p);
        assert(d.last() == d[d.len() - 1]);
        assert(digits_value(p) * 10 + d.last() < 10 * pow10(p.len())) by (nonlinear_arith)
            requires
                digits_value(p) < pow10(p.len()),
                d.last() < 10,
        ;
    }
}

pub proof fn lemma_zeros_value(k: nat)
    ensures
        digits_value(zeros(k)) == 0,
    decreases k,
{
    if k > 0 {
        assert(zeros(k).drop_last() =~= zeros((k - 1) as nat));
        lemma_zeros_value((k - 1) as nat);
    }
}

/// Leading zeros do not change a digit string's value.
pub proof fn lemma_leading_zeros(k: nat, d: Seq<u8>)
    ensures
        digits_value(zeros(k) + d) == digits_value(d),
{
    lemma_digits_concat(zeros(k), d);
    lemma_zeros_value(k);
}

/// Trailing zeros multiply a digit string's value by a power of ten.
pub proof fn lemma_trailing_zeros(d: Seq<u8>, k: nat)
    ensures
        digits_value(d + zeros(k)) == digits_value(d) * pow10(k),
{
    lemma_digits_concat(d, zeros(k));
    lemma_zeros_value(k);
}

/// For digit strings of one length, the first differing digit decides which is smaller.
pub proof fn lemma_first_difference(x: Seq<u8>, y: Seq<u8>, i: int)
    requires
        all_digits(x),
        all_digits(y),
        x.len() == y.len(),
        0 <= i < x.len(),
        x.subrange(0, i) == y.subrange(0, i),
        x[i] < y[i],
    ensures
        digits_value(x) < digits_value(y),
{
    let n = x.len() as int;
    let xp = x.subrange(0, i + 1);
    let yp = y.subrange(0, i + 1);
    let xs = x.subrange(i + 1, n);
    let ys = y.subrange(i + 1, n);
    assert(x =~= xp + xs);
    assert(y =~= yp + ys);
    lemma_digits_concat(xp, xs);
    lemma_digits_concat(yp, ys);
    assert(xp.drop_last() =~= x.subrange(0, i));
    assert(yp.drop_last() =~= y.subrange(0, i));
    assert(digits_value(xp) + 1 <= digits_value(yp));
    assert(all_digits(xs));
    lemma_digits_bound(xs);
    let k = pow10(xs.len());
    assert(ys.len() == xs.len());
    assert(digits_value(xp) * k + digits_value(xs) < digits_value(yp) * k + digits_value(ys))
        by (nonlinear_arith)
        requires
            digits_value(xp) + 1 <= digits_value(yp),
            digits_value(xs) < k,
    ;
}

/// `d` followed by `k` zeros.
fn with_trailing_zeros(d: &Vec<u8>, k: usize) -> (r: Vec<u8>)
    ensures
        r@ == d@ + zeros(k as nat),
{
    let mut r = d.clone();
    assert(r@ =~= d@ + zeros(0));
    let mut i: usize = 0;
    while i < k
        invariant
            i <= k,
            r@ == d@ + zeros(i as nat),
        decreases k - i,
    {
        r.push(0);
        i = i + 1;
        assert(r@ =~= d@ + zeros(i as nat));
    }
    r
}

/// `k` zeros followed by `d`.
fn with_leading_zeros(d: &Vec<u8>, k: usize) -> (r: Vec<u8>)
    ensures
        r@ == zeros(k as nat) + d@,
{
    let mut r: Vec<u8> = Vec::new();
    let mut i: usize = 0;
    while i < k
        invariant
            i <= k,
            r@ == zeros(i as nat),
        decreases k - i,
    {
        r.push(0);
        i = i + 1;
        assert(r@ =~= zeros(i as nat));
    }
    let mut j: usize = 0;
    while j < d.len()
        invariant
            j <= d.len(),
            r@ == zeros(k as nat) + d@.subrange(0, j as int),
        decreases d.len() - j,
    {
        r.push(d[j]);
        j = j + 1;
        assert(r@ =~= zeros(k as nat) + d@.subrange(0, j as int));
    }
    assert(d@.subrange(0, d.len() as int) =~= d@);
    r
}

/// Compares two digit strings of one length: -1, 0 or 1 as the first is
/// smaller, equal or larger in value.
fn compare_same_length(x: &Vec<u8>, y: &Vec<u8>) -> (c: i8)
    requires
        all_digits(x@),
        all_digits(y@),
        x@.len() == y@.len(),
    ensures
        c == -1 <==> digits_value(x@) < digits_value(y@),
        c == 0 <==> digits_value(x@) == digits_value(y@),
        c == 1 <==> digits_value(x@) > digits_value(y@),
{
    let n = x.len();
    let mut i: usize = 0;
    while i < n
        invariant
            n == x@.len(),
            n == y@.len(),
            all_digits(x@),
            all_digits(y@),
            i <= n,
            x@.subrange(0, i as int) == y@.subrange(0, i as int),
        decreases n - i,
    {
        if x[i] < y[i] {
            proof {
                lemma_first_difference(x@, y@, i as int);
            }
            return -1;
        }
        if x[i] > y[i] {
            proof {
                lemma_first_difference(y@, x@, i as int);
            }
            return 1;
        }
        assert(x@.subrange(0, i + 1) =~= x@.subrange(0, i as int).push(x@[i as int]));
        assert(y@.subrange(0, i + 1) =~= y@.subrange(0, i as int).push(y@[i as int]));
        i = i + 1;
    }
    assert(x@ =~= x@.subrange(0, n as int));
    assert(y@ =~= y@.subrange(0, n as int));
    0
}

/// Compares the magnitudes of two numbers, ignoring their signs.
fn compare_magnitudes(a: &Number, b: &Number) -> (c: i8)
    requires
        all_digits(a.digits@),
        all_digits(b.digits@),
    ensures
        c == -1 <==> digits_value(a.digits@) * pow10(b.scale as nat) < digits_value(b.digits@)
            * pow10(a.scale as nat),
        c == 0 <==> digits_value(a.digits@) * pow10(b.scale as nat) == digits_value(b.digits@)
            * pow10(a.scale as nat),
        c == 1 <==> digits_value(a.digits@) * pow10(b.scale as nat) > digits_value(b.digits@)
            * pow10(a.scale as nat),
{
    let sa = a.scale;
    let sb = b.scale;
    let l = if sa >= sb { sa } else { sb };
    let x0 = with_trailing_zeros(&a.digits, l - sa);
    let y0 = with_trailing_zeros(&b.digits, l - sb);
    let xl = x0.len();
    let yl = y0.len();
    let n = if xl >= yl { xl } else { yl };
    let x = with_leading_zeros(&x0, n - xl);
    let y = with_leading_zeros(&y0, n - yl);
    proof {
        let ma = digits_value(a.digits@);
        let mb = digits_value(b.digits@);
        lemma_trailing_zeros(a.digits@, (l - sa) as nat);
        lemma_trailing_zeros(b.digits@, (l - sb) as nat);
        lemma_leading_zeros((n - xl) as nat, x0@);
        lemma_leading_zeros((n - yl) as nat, y0@);
        assert(all_digits(x@));
        assert(all_digits(y@));
        lemma_pow10_positive(sa as nat);
        lemma_pow10_positive(sb as nat);
        if sa >= sb {
            let d = (sa - sb) as nat;
            lemma_pow10_add(sb as nat, d);
            lemma_pow10_positive(d);
            assert(pow10(0) == 1);
            assert(digits_value(x@) == ma);
            assert(digits_value(y@) == mb * pow10(d));
            let p = pow10(sb as nat);
            assert(mb * pow10(sa as nat) == p * (mb * pow10(d))) by (nonlinear_arith)
                requires
                    pow10(sa as nat) == p * pow10(d),
            ;
            assert(ma * p == p * ma) by (nonlinear_arith);
            assert((ma < mb * pow10(d)) == (p * ma < p * (mb * pow10(d)))) by (nonlinear_arith)
                requires
                    p > 0,
            ;
            assert((ma == mb * pow10(d)) == (p * ma == p * (mb * pow10(d)))) by (nonlinear_arith)
                requires
                    p > 0,
            ;
        } else {
            let d = (sb - sa) as nat;
            lemma_pow10_add(sa as nat, d);
            lemma_pow10_positive(d);
            assert(pow10(0) == 1);
            assert(digits_value(y@) == mb);
            assert(digits_value(x@) == ma * pow10(d));
            let p = pow10(sa as nat);
            assert(ma * pow10(sb as nat) == p * (ma * pow10(d))) by (nonlinear_arith)
                requires
                    pow10(sb as nat) == p * pow10(d),
            ;
            assert(mb * p == p * mb) by (nonlinear_arith);
            assert((ma * pow10(d) < mb) == (p * (ma * pow10(d)) < p * mb)) by (nonlinear_arith)
                requires
                    p > 0,
            ;
            assert((ma * pow10(d) == mb) == (p * (ma * pow10(d)) == p * mb)) by (nonlinear_arith)
                requires
                    p > 0,
            ;
        }
    }
    compare_same_length(&x, &y)
}

/// Every digit of `d` is zero exactly when its value is zero.
fn is_zero(d: &Vec<u8>) -> (r: bool)
    requires
        all_digits(d@),
    ensures
        r == (digits_value(d@) == 0),
{
    let n = d.len();
    let mut i: usize = 0;
    while i < n
        invariant
            n == d@.len(),
            all_digits(d@),
            i <= n,
            d@.subrange(0, i as int) == zeros(i as nat),
        decreases n - i,
    {
        if d[i] != 0 {
            proof {
                assert(zeros(n as nat).subrange(0, i as int) =~= zeros(i as nat));
                assert(all_digits(zeros(n as nat)));
                lemma_first_difference(zeros(n as nat), d@, i as int);
                lemma_zeros_value(n as nat);
            }
            return false;
        }
        assert(d@.subrange(0, i + 1) =~= zeros((i + 1) as nat));
        i = i + 1;
    }
    proof {
        assert(d@ =~= zeros(n as nat));
        lemma_zeros_value(n as nat);
    }
    true
}

/// Compares two numbers by value: -1, 0 or 1 as `a` is smaller than, equal
/// to or larger than `b`. A negative zero equals zero.
pub fn compare_numbers(a: &Number, b: &Number) -> (c: i8)
    requires
        all_digits(a.digits@),
        all_digits(b.digits@),
    ensures
        c == -1 <==> number_less(a@, b@),
        c == 0 <==> number_equal(a@, b@),
        c == 1 <==> number_less(b@, a@),
{
    let m = compare_magnitudes(a, b);
    let ghost ma = digits_value(a.digits@) as int;
    let ghost mb = digits_value(b.digits@) as int;
    let ghost pa = pow10(a.scale as nat) as int;
    let ghost pb = pow10(b.scale as nat) as int;
    proof {
        lemma_pow10_positive(a.scale as nat);
        lemma_pow10_positive(b.scale as nat);
        assert(ma * pb >= 0 && mb * pa >= 0) by (nonlinear_arith)
            requires
                ma >= 0,
                mb >= 0,
                pa > 0,
                pb > 0,
        ;
        assert((-ma) * pb == -(ma * pb)) by (nonlinear_arith);
        assert((-mb) * pa == -(mb * pa)) by (nonlinear_arith);
        assert((ma * pb == 0) == (ma == 0)) by (nonlinear_arith)
            requires
                pb > 0,
        ;
        assert((mb * pa == 0) == (mb == 0)) by (nonlinear_arith)
            requires
                pa > 0,
        ;
    }
    if !a.negative && !b.negative {
        m
    } else if a.negative && b.negative {
        -m
    } else {
        let za = is_zero(&a.digits);
        let zb = is_zero(&b.digits);
        if za && zb {
            0
        } else if a.negative {
            -1
        } else {
            1
        }
    }
}

/// The characters of a digit string.
pub open spec fn digit_chars(d: Seq<u8>) -> Seq<char> {
    d.map_values(|x: u8| crate::text::digit_char(x as nat))
}

/// How a number is written: a `-` when negative, the digits before the
/// point, and a `.` with the digits after it when there are any.
pub open spec fn number_text(n: Number) -> Seq<char> {
    number_view_text(n@)
}

/// `c` is a decimal digit character.
pub open spec fn is_digit_char(c: char) -> bool {
    '0' <= c && c <= '9'
}

/// `s` is a non-empty run of digit characters.
pub open spec fn is_digit_run(s: Seq<char>) -> bool {
    s.len() > 0 && forall|i: int| 0 <= i < s.len() ==> is_digit_char(#[trigger] s[i])
}

/// `s` writes an unsigned number: digits, optionally a point and more digits.
pub open spec fn is_unsigned_number_text(s: Seq<char>) -> bool {
    ||| is_digit_run(s)
    ||| exists|p: int|
        0 < p < s.len() && #[trigger] s[p] == '.' && is_digit_run(s.subrange(0, p))
            && is_digit_run(s.subrange(p + 1, s.len() as int))
}

/// `s` writes a number: an optional `-`, digits, optionally a point and more digits.
pub open spec fn is_number_text(s: Seq<char>) -> bool {
    if s.len() > 0 && s[0] == '-' {
        is_unsigned_number_text(s.drop_first())
    } else {
        is_unsigned_number_text(s)
    }
}

/// Appends the characters of digits `d[from..to]`.
fn push_digits(out: &mut String, d: &Vec<u8>, from: usize, to: usize)
    requires
        from <= to <= d@.len(),
        all_digits(d@),
    ensures
        final(out)@ == old(out)@ + digit_chars(d@.subrange(from as int, to as int)),
{
    let mut i = from;
    while i < to
        invariant
            from <= i <= to,
            to <= d@.len(),
            all_digits(d@),
            out@ == old(out)@ + digit_chars(d@.subrange(from as int, i as int)),
        decreases to - i,
    {
        let x: u8 = d[i];
        assert(x < 10);
        crate::text::push_char(out, (x + 48) as char);
        assert(d@.subrange(from as int, i + 1) =~= d@.subrange(from as int, i as int).push(x));
        assert(digit_chars(d@.subrange(from as int, i + 1)) =~= digit_chars(
            d@.subrange(from as int, i as int),
        ).push(crate::text::digit_char(x as nat)));
        i = i + 1;
    }
}

impl Number {
    /// The number as text, such as `215.9`, `-100` or `0`.
    pub fn to_text(&self) -> (t: String)
        requires
            self.well_formed(),
        ensures
            t@ == number_text(*self),
    {
        let mut t = String::new();
        if self.negative {
            push_char(&mut t, '-');
        }
        let n = self.digits.len();
        let k = n - self.scale;
        push_digits(&mut t, &self.digits, 0, k);
        if self.scale > 0 {
            push_char(&mut t, '.');
            push_digits(&mut t, &self.digits, k, n);
        }
        assert(t@ =~= number_text(*self));
        t
    }
}

/// Every character of `s[from..to]` is a digit.
fn digits_between(s: &str, from: usize, to: usize) -> (r: bool)
    requires
        from <= to <= s@.len(),
    ensures
        r == (forall|i: int| from <= i < to ==> is_digit_char(#[trigger] s@[i])),
{
    let mut i = from;
    while i < to
        invariant
            from <= i <= to,
            to <= s@.len(),
            forall|j: int| from <= j < i ==> is_digit_char(#[trigger] s@[j]),
        decreases to - i,
    {
        let c = s.get_char(i);
        if !('0' <= c && c <= '9') {
            return false;
        }
        i = i + 1;
    }
    true
}

/// The first `.` in `s[from..]`, if any.
fn find_point(s: &str, from: usize) -> (r: Option<usize>)
    requires
        from <= s@.len(),
    ensures
        match r {
            Some(p) => from <= p < s@.len() && s@[p as int] == '.' && forall|j: int|
                from <= j < p ==> #[trigger] s@[j] != '.',
            None => forall|j: int| from <= j < s@.len() ==> #[trigger] s@[j] != '.',
        },
{
    let n = s.unicode_len();
    let mut i = from;
    while i < n
        invariant
            n == s@.len(),
            from <= i <= n,
            forall|j: int| from <= j < i ==> #[trigger] s@[j] != '.',
        decreases n - i,
    {
        if s.get_char(i) == '.' {
            return Some(i);
        }
        i = i + 1;
    }
    None
}

/// Appends the values of the digit characters `s[from..to]` to `d`.
fn read_digits(s: &str, from: usize, to: usize, d: &mut Vec<u8>)
    requires
        from <= to <= s@.len(),
        forall|i: int| from <= i < to ==> is_digit_char(#[trigger] s@[i]),
        all_digits(old(d)@),
    ensures
        all_digits(final(d)@),
        final(d)@.len() == old(d)@.len() + (to - from),
        final(d)@.subrange(0, old(d)@.len() as int) == old(d)@,
        digit_chars(final(d)@.subrange(old(d)@.len() as int, final(d)@.len() as int))
            == s@.subrange(from as int, to as int),
{
    let ghost d0 = d@;
    let mut i = from;
    while i < to
        invariant
            from <= i <= to,
            to <= s@.len(),
            forall|j: int| from <= j < to ==> is_digit_char(#[trigger] s@[j]),
            all_digits(d@),
            d@.len() == d0.len() + (i - from),
            d@.subrange(0, d0.len() as int) == d0,
            digit_chars(d@.subrange(d0.len() as int, d@.len() as int)) == s@.subrange(
                from as int,
                i as int,
            ),
        decreases to - i,
    {
        let c = s.get_char(i);
        assert(is_digit_char(s@[i as int]));
        let v: u8 = (c as u32 - 48) as u8;
        assert(crate::text::digit_char(v as nat) == c);
        let ghost before = d@;
        d.push(v);
        assert(d@.subrange(0, d0.len() as int) =~= before.subrange(0, d0.len() as int));
        assert(d@.subrange(d0.len() as int, d@.len() as int) =~= before.subrange(
            d0.len() as int,
            before.len() as int,
        ).push(v));
        assert(s@.subrange(from as int, i + 1) =~= s@.subrange(from as int, i as int).push(c));
        assert(digit_chars(d@.subrange(d0.len() as int, d@.len() as int)) =~= digit_chars(
            before.subrange(d0.len() as int, before.len() as int),
        ).push(c));
        i = i + 1;
    }
}

impl Number {
    /// Reads a number written as an optional `-`, digits, and optionally a
    /// point followed by more digits, such as `215.9` or `-0`. `None` for
    /// any other text. What it reads is written back as the same text.
    #[verifier::spinoff_prover]
    #[verifier::rlimit(40)]
    pub fn parse(s: &str) -> (r: Option<Number>)
        ensures
            r is Some <==> is_number_text(s@),
            r matches Some(n) ==> n.well_formed() && number_text(n) == s@,
    {
        let len = s.unicode_len();
        let negative = len > 0 && s.get_char(0) == '-';
        let start: usize = if negative { 1 } else { 0 };
        let ghost body = if negative { s@.drop_first() } else { s@ };
        proof {
            assert(body =~= s@.subrange(start as int, len as int));
        }
        let point = find_point(s, start);
        let mut digits: Vec<u8> = Vec::new();
        match point {
            None => {
                if start == len || !digits_between(s, start, len) {
                    proof {
                        if is_unsigned_number_text(body) {
                            if !is_digit_run(body) {
                                let p = choose|p: int|
                                    0 < p < body.len() && #[trigger] body[p] == '.'
                                        && is_digit_run(body.subrange(0, p)) && is_digit_run(
                                        body.subrange(p + 1, body.len() as int),
                                    );
                                assert(s@[start + p] == '.');
                            } else if start < len {
                                assert forall|i: int| start <= i < len implies is_digit_char(
                                    #[trigger] s@[i],
                                ) by {
                                    assert(s@[i] == body[i - start]);
                                }
                            }
                        }
                    }
                    return None;
                }
                read_digits(s, start, len, &mut digits);
                let n = Number { negative, digits, scale: 0 };
                proof {
                    assert(is_digit_run(body)) by {
                        assert forall|i: int| 0 <= i < body.len() implies is_digit_char(
                            #[trigger] body[i],
                        ) by {
                            assert(body[i] == s@[start + i]);
                        }
                    }
                    assert(n.digits@.subrange(0, 0) =~= Seq::<u8>::empty());
                    assert(n.digits@.subrange(0, n.digits@.len() as int) =~= n.digits@);
                    assert(number_text(n) =~= s@);
                }
                Some(n)
            },
            Some(p) => {
                if p == start || p + 1 == len || !digits_between(s, start, p) || !digits_between(
                    s,
                    p + 1,
                    len,
                ) {
                    proof {
                        if is_unsigned_number_text(body) {
                            let bp = (p - start) as int;
                            assert(body[bp] == '.');
                            assert(!is_digit_char(body[bp]));
                            assert(!is_digit_run(body));
                            let q = choose|q: int|
                                0 < q < body.len() && #[trigger] body[q] == '.' && is_digit_run(
                                    body.subrange(0, q),
                                ) && is_digit_run(body.subrange(q + 1, body.len() as int));
                            if q < bp {
                                assert(s@[start + q] == '.');
                            } else if q > bp {
                                assert(body.subrange(0, q)[bp] == '.');
                            } else {
                                assert forall|i: int| start <= i < p implies is_digit_char(
                                    #[trigger] s@[i],
                                ) by {
                                    assert(s@[i] == body.subrange(0, q)[i - start]);
                                }
                                assert forall|i: int| p + 1 <= i < len implies is_digit_char(
                                    #[trigger] s@[i],
                                ) by {
                                    assert(s@[i] == body.subrange(q + 1, body.len() as int)[i - p
                                        - 1]);
                                }
                            }
                        }
                    }
                    return None;
                }
                read_digits(s, start, p, &mut digits);
                let ghost int_part = digits@;
                read_digits(s, p + 1, len, &mut digits);
                let n = Number { negative, digits, scale: len - p - 1 };
                proof {
                    let bp = (p - start) as int;
                    assert(is_digit_run(body.subrange(0, bp))) by {
                        assert forall|i: int| 0 <= i < bp implies is_digit_char(
                            #[trigger] body.subrange(0, bp)[i],
                        ) by {
                            assert(body.subrange(0, bp)[i] == s@[start + i]);
                        }
                    }
                    assert(is_digit_run(body.subrange(bp + 1, body.len() as int))) by {
                        assert forall|i: int| 0 <= i < body.len() - bp - 1 implies is_digit_char(
                            #[trigger] body.subrange(bp + 1, body.len() as int)[i],
                        ) by {
                            assert(body.subrange(bp + 1, body.len() as int)[i] == s@[p + 1 + i]);
                        }
                    }
                    assert(body[bp] == '.');
                    let k = n.digits@.len() - n.scale;
                    assert(k == p - start);
                    assert(n.digits@.subrange(0, k) =~= int_part);
                    assert(int_part.subrange(0, int_part.len() as int) =~= int_part);
                    assert(digit_chars(int_part) == s@.subrange(start as int, p as int));
                    assert(digit_chars(n.digits@.subrange(k, n.digits@.len() as int)) == s@.subrange(
                        p + 1,
                        len as int,
                    ));
                    let sign: Seq<char> = if negative { seq!['-'] } else { Seq::empty() };
                    assert(s@ =~= sign + s@.subrange(start as int, p as int) + seq!['.']
                        + s@.subrange(p + 1, len as int));
                    assert(number_text(n) =~= s@);
                }
                Some(n)
            },
        }
    }
}

pub proof fn lemma_decimal_digits(n: nat)
    ensures
        all_digits(decimal_digits(n)),
        decimal_digits(n).len() > 0,
        digits_value(decimal_digits(n)) == n,
        digit_chars(decimal_digits(n)) == crate::text::decimal(n),
    decreases n,
{
    if n >= 10 {
        lemma_decimal_digits(n / 10);
        let d = decimal_digits(n);
        assert(d.drop_last() =~= decimal_digits(n / 10));
        assert(d.last() == (n % 10) as u8);
        assert(digits_value(d) == digits_value(d.drop_last()) * 10 + d.last() as nat);
        assert(digit_chars(d) =~= digit_chars(decimal_digits(n / 10)).push(
            crate::text::digit_char(n % 10),
        ));
    } else {
        let d = decimal_digits(n);
        assert(d.drop_last() =~= Seq::<u8>::empty());
        assert(digits_value(d) == digits_value(d.drop_last()) * 10 + d.last() as nat);
        assert(digit_chars(d) =~= seq![crate::text::digit_char(n)]);
    }
}

/// The number `m / 10^scale` built by [`scaled_number`] has the scaled value
/// `m`, with its sign, and keeps `scale`.
pub proof fn lemma_scaled_number_value(negative: bool, m: nat, scale: nat)
    ensures
        scaled_value(scaled_number(negative, m, scale)) == (if negative { -(m as int) } else { m as int }),
        scaled_number(negative, m, scale).scale == scale,
{
    lemma_decimal_digits(m);
    let d = decimal_digits(m);
    if d.len() <= scale {
        lemma_leading_zeros((scale + 1 - d.len()) as nat, d);
    }
}

/// Digit strings with the same characters are the same.
pub proof fn lemma_digit_chars_injective(x: Seq<u8>, y: Seq<u8>)
    requires
        all_digits(x),
        all_digits(y),
        digit_chars(x) == digit_chars(y),
    ensures
        x == y,
{
    assert(x.len() == digit_chars(x).len());
    assert(y.len() == digit_chars(y).len());
    assert forall|i: int| 0 <= i < x.len() implies x[i] == y[i] by {
        assert(digit_chars(x)[i] == crate::text::digit_char(x[i] as nat));
        assert(digit_chars(y)[i] == crate::text::digit_char(y[i] as nat));
        assert(crate::text::digit_char(x[i] as nat) as int == x[i] + 48);
        assert(crate::text::digit_char(y[i] as nat) as int == y[i] + 48);
    }
    assert(x =~= y);
}

/// Different numbers have different decimal numerals.
pub proof fn lemma_decimal_injective(a: nat, b: nat)
    requires
        crate::text::decimal(a) == crate::text::decimal(b),
    ensures
        a == b,
{
    lemma_decimal_digits(a);
    lemma_decimal_digits(b);
    lemma_digit_chars_injective(decimal_digits(a), decimal_digits(b));
}

proof fn lemma_digit_chars_are_digits(x: Seq<u8>)
    requires
        all_digits(x),
    ensures
        forall|i: int| 0 <= i < x.len() ==> is_digit_char(#[trigger] digit_chars(x)[i]),
        digit_chars(x).len() == x.len(),
{
    assert forall|i: int| 0 <= i < x.len() implies is_digit_char(#[trigger] digit_chars(x)[i]) by {
        assert(digit_chars(x)[i] == crate::text::digit_char(x[i] as nat));
        assert(crate::text::digit_char(x[i] as nat) as int == x[i] + 48);
    }
}

/// A decimal numeral starts with a digit.
pub proof fn lemma_decimal_starts_with_digit(n: nat)
    ensures
        crate::text::decimal(n).len() > 0,
        is_digit_char(crate::text::decimal(n)[0]),
{
    lemma_decimal_digits(n);
    lemma_digit_chars_are_digits(decimal_digits(n));
}

/// The text of a well-formed number starts with a digit, or with `-` and
/// then a digit.
pub proof fn lemma_number_text_starts(n: NumberView)
    requires
        all_digits(n.digits),
        n.digits.len() > n.scale,
    ensures
        number_view_text(n).len() > 1 || (number_view_text(n).len() > 0 && !n.negative),
        n.negative ==> number_view_text(n)[0] == '-' && is_digit_char(number_view_text(n)[1]),
        !n.negative ==> is_digit_char(number_view_text(n)[0]),
{
    let d = n.digits;
    let k = d.len() - n.scale;
    let head = d.subrange(0, k);
    assert(all_digits(head));
    lemma_digit_chars_are_digits(head);
    let sign: Seq<char> = if n.negative { seq!['-'] } else { Seq::empty() };
    let rest: Seq<char> = if n.scale > 0 { seq!['.'] + digit_chars(d.subrange(k, d.len() as int)) } else {
        Seq::empty()
    };
    assert(number_view_text(n) == sign + digit_chars(head) + rest);
    assert(is_digit_char(digit_chars(head)[0]));
    if n.negative {
        assert(number_view_text(n)[1] == digit_chars(head)[0]);
    } else {
        assert(number_view_text(n)[0] == digit_chars(head)[0]);
    }
}

/// The text of a well-formed number is number text: [`Number::parse`] reads it.
pub proof fn lemma_number_text_is_readable(a: Number)
    requires
        a.well_formed(),
    ensures
        is_number_text(number_text(a)),
{
    let d = a.digits@;
    let k = d.len() - a.scale;
    let ip = d.subrange(0, k);
    let fp = d.subrange(k, d.len() as int);
    assert(all_digits(ip));
    assert(all_digits(fp));
    lemma_digit_chars_are_digits(ip);
    lemma_digit_chars_are_digits(fp);
    let ic = digit_chars(ip);
    let fc = digit_chars(fp);
    let body = if a.scale > 0 { ic + seq!['.'] + fc } else { ic };
    let t = number_text(a);
    if a.negative {
        assert(t =~= seq!['-'] + body);
        assert(t.drop_first() =~= body);
    } else {
        assert(t =~= body);
        assert(t[0] == ic[0]);
    }
    if a.scale > 0 {
        let p = ic.len() as int;
        assert(body[p] == '.');
        assert(body.subrange(0, p) =~= ic);
        assert(body.subrange(p + 1, body.len() as int) =~= fc);
        assert(is_digit_run(body.subrange(0, p)));
        assert(is_digit_run(body.subrange(p + 1, body.len() as int)));
    } else {
        assert(is_digit_run(body));
    }
}

/// Two well-formed numbers with the same text are the same number: a
/// number's text reads back as that number.
pub proof fn lemma_number_text_reads_back(a: Number, b: Number)
    requires
        a.well_formed(),
        b.well_formed(),
        number_text(a) == number_text(b),
    ensures
        a@ == b@,
{
    let da = a.digits@;
    let db = b.digits@;
    let ka = da.len() - a.scale;
    let kb = db.len() - b.scale;
    let ia = digit_chars(da.subrange(0, ka));
    let ib = digit_chars(db.subrange(0, kb));
    let fa = digit_chars(da.subrange(ka, da.len() as int));
    let fb = digit_chars(db.subrange(kb, db.len() as int));
    lemma_digit_chars_are_digits(da.subrange(0, ka));
    lemma_digit_chars_are_digits(db.subrange(0, kb));
    lemma_digit_chars_are_digits(da.subrange(ka, da.len() as int));
    lemma_digit_chars_are_digits(db.subrange(kb, db.len() as int));
    let ua = if a.scale > 0 { ia + seq!['.'] + fa } else { ia };
    let ub = if b.scale > 0 { ib + seq!['.'] + fb } else { ib };
    let sa: Seq<char> = if a.negative { seq!['-'] } else { Seq::empty() };
    let sb: Seq<char> = if b.negative { seq!['-'] } else { Seq::empty() };
    let t = number_text(a);
    assert(t =~= sa + ua);
    assert(t =~= sb + ub);
    assert(ua[0] == ia[0]);
    assert(ub[0] == ib[0]);
    if a.negative != b.negative {
        if a.negative {
            assert(t[0] == '-');
            assert(t[0] == ub[0]);
        } else {
            assert(t[0] == '-');
            assert(t[0] == ua[0]);
        }
    }
    assert(ua =~= ub) by {
        if a.negative {
            assert(ua =~= t.drop_first());
            assert(ub =~= t.drop_first());
        } else {
            assert(ua =~= t);
            assert(ub =~= t);
        }
    }
    if a.scale > 0 && b.scale == 0 {
        assert(ua[ia.len() as int] == '.');
        assert(!is_digit_char(ub[ia.len() as int]));
    }
    if b.scale > 0 && a.scale == 0 {
        assert(ub[ib.len() as int] == '.');
        assert(!is_digit_char(ua[ib.len() as int]));
    }
    if a.scale > 0 && b.scale > 0 {
        if ia.len() < ib.len() {
            assert(ua[ia.len() as int] == '.');
            assert(ub[ia.len() as int] == ib[ia.len() as int]);
        }
        if ib.len() < ia.len() {
            assert(ub[ib.len() as int] == '.');
            assert(ua[ib.len() as int] == ia[ib.len() as int]);
        }
        assert(ia.len() == ib.len());
        assert(ia =~= ua.subrange(0, ia.len() as int));
        assert(ib =~= ub.subrange(0, ib.len() as int));
        assert(fa =~= ua.subrange(ia.len() as int + 1, ua.len() as int));
        assert(fb =~= ub.subrange(ib.len() as int + 1, ub.len() as int));
        lemma_digit_chars_injective(da.subrange(ka, da.len() as int), db.subrange(kb, db.len() as int));
    } else if a.scale == 0 && b.scale == 0 {
        assert(da.subrange(ka, da.len() as int) =~= db.subrange(kb, db.len() as int));
    }
    lemma_digit_chars_injective(da.subrange(0, ka), db.subrange(0, kb));
    assert(da =~= da.subrange(0, ka) + da.subrange(ka, da.len() as int));
    assert(db =~= db.subrange(0, kb) + db.subrange(kb, db.len() as int));
}

/// Appends the decimal digits of `n`.
fn push_digit_values(d: &mut Vec<u8>, n: u64)
    ensures
        final(d)@ == old(d)@ + decimal_digits(n as nat),
    decreases n,
{
    if n >= 10 {
        push_digit_values(d, n / 10);
    }
    d.push((n % 10) as u8);
    proof {
        assert(old(d)@ + decimal_digits(n as nat) =~= old(d)@ + (if n >= 10 {
            decimal_digits((n / 10) as nat)
        } else {
            Seq::empty()
        }).push((n % 10) as u8));
    }
}

impl Number {
    /// The number `mantissa / 10^scale`, negated when `negative` is set.
    pub fn scaled(negative: bool, mantissa: u64, scale: usize) -> (r: Number)
        requires
            scale < usize::MAX,
        ensures
            r@ == scaled_number(negative, mantissa as nat, scale as nat),
            r.well_formed(),
            digits_value(r.digits@) == mantissa,
    {
        let mut d: Vec<u8> = Vec::new();
        push_digit_values(&mut d, mantissa);
        proof {
            lemma_decimal_digits(mantissa as nat);
            assert(d@ =~= decimal_digits(mantissa as nat));
        }
        if d.len() > scale {
            Number { negative, digits: d, scale }
        } else {
            let padded = with_leading_zeros(&d, scale + 1 - d.len());
            proof {
                lemma_leading_zeros((scale + 1 - d.len()) as nat, d@);
                assert(all_digits(padded@));
            }
            Number { negative, digits: padded, scale }
        }
    }
}

} // verus!
