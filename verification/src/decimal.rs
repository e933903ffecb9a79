//! Decimal numbers as text: quantities are held in thousandths. They are
//! read from text with or without a point and an exponent, rounded to the
//! nearest thousandth, and written to text with three decimals or fewer.
use vstd::prelude::*;

use crate::text::to_chars;

verus! {

/// Number of units in one: quantities are held in thousandths.
pub const DECIMAL_SCALE: i128 = 1000;

/// Largest absolute value, in thousandths, of a number that is read.
pub const MAX_DECIMAL: i128 = 1_000_000_000_000_000_000;

/// Whether a character is white space within a line.
pub open spec fn is_space(c: char) -> bool {
    c == ' ' || c == '\t' || c == '\r'
}

/// Whether a character is a decimal digit.
pub open spec fn is_digit(c: char) -> bool {
    '0' <= c && c <= '9'
}

/// The value of a decimal digit.
pub open spec fn digit_of(c: char) -> int {
    c as int - 48
}

/// Number of white space characters at the start of a text.
pub open spec fn leading_spaces(s: Seq<char>) -> int
    decreases s.len(),
{
    if s.len() == 0 || !is_space(s[0]) {
        0
    } else {
        1 + leading_spaces(s.drop_first())
    }
}

/// Number of white space characters at the end of a text.
pub open spec fn trailing_spaces(s: Seq<char>) -> int
    decreases s.len(),
{
    if s.len() == 0 || !is_space(s.last()) {
        0
    } else {
        1 + trailing_spaces(s.drop_last())
    }
}

/// A text without the white space at its start and at its end.
pub open spec fn trimmed(s: Seq<char>) -> Seq<char> {
    let a = leading_spaces(s);
    let b = s.len() - trailing_spaces(s);
    if a <= b {
        s.subrange(a, b)
    } else {
        Seq::empty()
    }
}

/// Whether a text starts with a sign.
pub open spec fn has_sign(s: Seq<char>) -> bool {
    s.len() > 0 && (s[0] == '-' || s[0] == '+')
}

/// Position of the first point of a text, or its length where it has none.
pub open spec fn point_at(s: Seq<char>) -> int
    decreases s.len(),
{
    if s.len() == 0 || s[0] == '.' {
        0
    } else {
        1 + point_at(s.drop_first())
    }
}

/// Whether every character is a decimal digit.
pub open spec fn all_digits(s: Seq<char>) -> bool {
    forall|i: int| 0 <= i < s.len() ==> is_digit(#[trigger] s[i])
}

/// The number that a text of decimal digits stands for.
pub open spec fn number_of(s: Seq<char>) -> int
    decreases s.len(),
{
    if s.len() == 0 {
        0
    } else {
        number_of(s.drop_last()) * 10 + digit_of(s.last())
    }
}

/// Ten to the power of `k`.
pub open spec fn pow10(k: nat) -> int
    decreases k,
{
    if k == 0 {
        1
    } else {
        10 * pow10((k - 1) as nat)
    }
}

/// The number that digits stand for when it is cut after the first `cut`
/// of them and rounded to the nearest whole number: with more digits
/// asked for than there are, zeros follow them; with fewer, the first
/// digit that is left out rounds the number up where it is five or more.
pub open spec fn scaled(d: Seq<char>, cut: int) -> int {
    if cut >= d.len() {
        number_of(d) * pow10((cut - d.len()) as nat)
    } else if cut < 0 {
        0
    } else {
        number_of(d.take(cut)) + if digit_of(d[cut]) >= 5 {
            1int
        } else {
            0int
        }
    }
}

/// Whether a character marks the exponent of a number.
pub open spec fn is_mark(c: char) -> bool {
    c == 'e' || c == 'E'
}

/// Position of the first exponent mark of a text, or its length where it
/// has none.
pub open spec fn mark_at(s: Seq<char>) -> int
    decreases s.len(),
{
    if s.len() == 0 || is_mark(s[0]) {
        0
    } else {
        1 + mark_at(s.drop_first())
    }
}

/// The exponent that the text after an exponent mark stands for, if it is
/// one: an optional sign and at least one digit.
pub open spec fn exponent_of(t: Seq<char>) -> Option<int> {
    let digits = if has_sign(t) {
        t.drop_first()
    } else {
        t
    };
    if digits.len() > 0 && all_digits(digits) {
        Some(if has_sign(t) && t[0] == '-' {
            -number_of(digits)
        } else {
            number_of(digits)
        })
    } else {
        None
    }
}

/// The part of an unsigned text before its exponent mark.
pub open spec fn mantissa(body: Seq<char>) -> Seq<char> {
    body.take(mark_at(body))
}

/// The exponent of an unsigned text: zero where it has no exponent mark.
pub open spec fn exponent(body: Seq<char>) -> Option<int> {
    if mark_at(body) < body.len() {
        exponent_of(body.skip(mark_at(body) + 1))
    } else {
        Some(0)
    }
}

/// The digits before the point of an unsigned text.
pub open spec fn whole_digits(body: Seq<char>) -> Seq<char> {
    body.take(point_at(body))
}

/// The digits after the point of an unsigned text.
pub open spec fn fraction_digits(body: Seq<char>) -> Seq<char> {
    if point_at(body) < body.len() {
        body.skip(point_at(body) + 1)
    } else {
        Seq::empty()
    }
}

/// The absolute value in thousandths of an unsigned decimal text, if it is
/// one: digits, with or without a point among them, and at least one
/// digit; after them there may be an exponent mark and an exponent, by
/// which the point moves. The number is rounded to the nearest thousandth,
/// and is no more than the largest value.
pub open spec fn magnitude(body: Seq<char>) -> Option<int> {
    let w = whole_digits(mantissa(body));
    let f = fraction_digits(mantissa(body));
    if all_digits(w) && all_digits(f) && w.len() + f.len() > 0 && exponent(body) is Some {
        let v = scaled(w + f, w.len() + exponent(body).unwrap() + 3);
        if v <= MAX_DECIMAL {
            Some(v)
        } else {
            None
        }
    } else {
        None
    }
}

/// The value in thousandths of a decimal text, if it is one: white space,
/// an optional sign, an unsigned decimal text, white space.
pub open spec fn decimal_value(s: Seq<char>) -> Option<int> {
    let t = trimmed(s);
    if has_sign(t) {
        match magnitude(t.drop_first()) {
            Some(m) => Some(if t[0] == '-' {
                -m
            } else {
                m
            }),
            None => None,
        }
    } else {
        magnitude(t)
    }
}

/// Whether a character is white space within a line.
pub fn is_space_char(c: char) -> (b: bool)
    ensures
        b == is_space(c),
{
    c == ' ' || c == '\t' || c == '\r'
}

/// The value of a decimal digit, if the character is one.
pub fn digit_value(c: char) -> (r: Option<u8>)
    ensures
        match r {
            Some(d) => is_digit(c) && d == digit_of(c) && d <= 9,
            None => !is_digit(c),
        },
{
    if '0' <= c && c <= '9' {
        Some(((c as u32) - 48) as u8)
    } else {
        None
    }
}

/// The white space at the start of a text, from the white space of what
/// follows its first `k` characters, which are white space.
pub proof fn lemma_leading(s: Seq<char>, k: int)
    requires
        0 <= k <= s.len(),
        forall|i: int| 0 <= i < k ==> is_space(#[trigger] s[i]),
    ensures
        leading_spaces(s) == k + leading_spaces(s.skip(k)),
    decreases k,
{
    if k > 0 {
        lemma_leading(s.drop_first(), k - 1);
        assert(s.drop_first().skip(k - 1) =~= s.skip(k));
    } else {
        assert(s.skip(0) =~= s);
    }
}

/// The white space at the end of a text, from the white space of what
/// comes before its last `k` characters, which are white space.
pub proof fn lemma_trailing(s: Seq<char>, k: int)
    requires
        0 <= k <= s.len(),
        forall|i: int| s.len() - k <= i < s.len() ==> is_space(#[trigger] s[i]),
    ensures
        trailing_spaces(s) == k + trailing_spaces(s.take(s.len() - k)),
    decreases k,
{
    if k > 0 {
        lemma_trailing(s.drop_last(), k - 1);
        assert(s.drop_last().take(s.len() - k) =~= s.take(s.len() - k));
    } else {
        assert(s.take(s.len() as int) =~= s);
    }
}

/// The first point of a text, from the first point of what follows its
/// first `k` characters, none of which is a point.
pub proof fn lemma_point(s: Seq<char>, k: int)
    requires
        0 <= k <= s.len(),
        forall|i: int| 0 <= i < k ==> #[trigger] s[i] != '.',
    ensures
        point_at(s) == k + point_at(s.skip(k)),
    decreases k,
{
    if k > 0 {
        lemma_point(s.drop_first(), k - 1);
        assert(s.drop_first().skip(k - 1) =~= s.skip(k));
    } else {
        assert(s.skip(0) =~= s);
    }
}

/// The number of the first `k + 1` digits, from that of the first `k`.
pub proof fn lemma_number_step(s: Seq<char>, k: int)
    requires
        0 <= k < s.len(),
    ensures
        number_of(s.take(k + 1)) == number_of(s.take(k)) * 10 + digit_of(s[k]),
{
    assert(s.take(k + 1).drop_last() =~= s.take(k));
}

/// The number of the first digits of a text of digits is no larger than
/// the number of the text.
pub proof fn lemma_number_grows(s: Seq<char>, k: int)
    requires
        0 <= k <= s.len(),
        all_digits(s),
    ensures
        0 <= number_of(s.take(k)) <= number_of(s),
    decreases s.len() - k,
{
    if k < s.len() {
        lemma_number_grows(s, k + 1);
        lemma_number_step(s, k);
        lemma_number_non_negative(s.take(k));
        assert(is_digit(s[k]));
    } else {
        assert(s.take(k) =~= s);
        lemma_number_non_negative(s);
    }
}

/// The number of a text of digits is not negative.
pub proof fn lemma_number_non_negative(s: Seq<char>)
    requires
        all_digits(s),
    ensures
        0 <= number_of(s),
    decreases s.len(),
{
    if s.len() > 0 {
        assert forall|i: int| 0 <= i < s.drop_last().len() implies is_digit(
            #[trigger] s.drop_last()[i],
        ) by {
            assert(s.drop_last()[i] == s[i]);
        }
        lemma_number_non_negative(s.drop_last());
        assert(is_digit(s[s.len() - 1]));
    }
}

/// A text without the white space around it, from where its white space
/// ends and begins.
pub proof fn lemma_trimmed(s: Seq<char>, a: int, b: int)
    requires
        0 <= a <= b <= s.len(),
        forall|i: int| 0 <= i < a ==> is_space(#[trigger] s[i]),
        forall|i: int| b <= i < s.len() ==> is_space(#[trigger] s[i]),
        a < s.len() ==> !is_space(s[a]),
        a < b ==> !is_space(s[b - 1]),
    ensures
        trimmed(s) == s.subrange(a, b),
{
    lemma_leading(s, a);
    let rest = s.skip(a);
    if a < s.len() {
        assert(rest[0] == s[a]);
        assert(leading_spaces(rest) == 0);
    } else {
        assert(rest.len() == 0);
    }
    assert(leading_spaces(s) == a);
    if a < b {
        lemma_trailing(s, s.len() - b);
        let head = s.take(b);
        assert(head.last() == s[b - 1]);
        assert(trailing_spaces(head) == 0);
        assert(trailing_spaces(s) == s.len() - b);
    } else {
        // The character at `a`, if there were one, would be white space,
        // as it is not before `b`: the text is white space throughout.
        if a < s.len() {
            assert(is_space(s[a]));
        }
        assert(a == s.len());
        assert(s.subrange(a, b) =~= Seq::<char>::empty());
        lemma_trailing(s, s.len() as int);
        assert(s.take(0).len() == 0);
        assert(trailing_spaces(s) == s.len());
    }
}

/// A power of ten is at least one, and grows with the exponent.
pub proof fn lemma_pow10(j: nat, k: nat)
    requires
        j <= k,
    ensures
        1 <= pow10(j) <= pow10(k),
    decreases k,
{
    if k > 0 {
        if j < k {
            lemma_pow10(j, (k - 1) as nat);
        } else {
            lemma_pow10((j - 1) as nat, (k - 1) as nat);
        }
    }
}

/// Ten to the power of nineteen or more is above the largest value that
/// is read.
pub proof fn lemma_pow10_large(k: nat)
    requires
        k >= 19,
    ensures
        pow10(k) > MAX_DECIMAL,
{
    assert(pow10(0) == 1);
    assert(pow10(1) == 10);
    assert(pow10(2) == 100);
    assert(pow10(3) == 1_000);
    assert(pow10(4) == 10_000);
    assert(pow10(5) == 100_000);
    assert(pow10(6) == 1_000_000);
    assert(pow10(7) == 10_000_000);
    assert(pow10(8) == 100_000_000);
    assert(pow10(9) == 1_000_000_000);
    assert(pow10(10) == 10_000_000_000);
    assert(pow10(11) == 100_000_000_000);
    assert(pow10(12) == 1_000_000_000_000);
    assert(pow10(13) == 10_000_000_000_000);
    assert(pow10(14) == 100_000_000_000_000);
    assert(pow10(15) == 1_000_000_000_000_000);
    assert(pow10(16) == 10_000_000_000_000_000);
    assert(pow10(17) == 100_000_000_000_000_000);
    assert(pow10(18) == 1_000_000_000_000_000_000);
    assert(pow10(19) == 10_000_000_000_000_000_000);
    lemma_pow10(19, k);
}

/// The number of the digits before a cut is not negative.
pub proof fn lemma_prefix_non_negative(d: Seq<char>, cut: int)
    requires
        all_digits(d),
        0 <= cut <= d.len(),
    ensures
        0 <= number_of(d.take(cut)),
{
    lemma_number_grows(d, cut);
}

/// A number of digits that is cut and rounded is not negative.
pub proof fn lemma_scaled_non_negative(d: Seq<char>, cut: int)
    requires
        all_digits(d),
    ensures
        0 <= scaled(d, cut),
        cut >= d.len() ==> scaled(d, cut) >= number_of(d),
{
    lemma_number_non_negative(d);
    if cut >= d.len() {
        lemma_pow10(0, (cut - d.len()) as nat);
        let n = number_of(d);
        let p = pow10((cut - d.len()) as nat);
        assert(n * p >= n) by (nonlinear_arith)
            requires
                n >= 0,
                p >= 1,
        ;
    } else if cut >= 0 {
        lemma_prefix_non_negative(d, cut);
    }
}

/// The digits before and after the point of digits are digits.
pub proof fn lemma_all_digits_joined(w: Seq<char>, f: Seq<char>)
    requires
        all_digits(w),
        all_digits(f),
    ensures
        all_digits(w + f),
{
    assert forall|i: int| 0 <= i < (w + f).len() implies is_digit(#[trigger] (w + f)[i]) by {
        if i < w.len() {
            assert((w + f)[i] == w[i]);
        } else {
            assert((w + f)[i] == f[i - w.len()]);
        }
    }
}

/// The value of a decimal text is within the largest value that is read.
pub proof fn lemma_decimal_bounds(s: Seq<char>)
    ensures
        match decimal_value(s) {
            Some(x) => -MAX_DECIMAL <= x <= MAX_DECIMAL,
            None => true,
        },
{
    let t = trimmed(s);
    let body = if has_sign(t) {
        t.drop_first()
    } else {
        t
    };
    if magnitude(body) is Some {
        let w = whole_digits(mantissa(body));
        let f = fraction_digits(mantissa(body));
        lemma_all_digits_joined(w, f);
        lemma_scaled_non_negative(w + f, w.len() + exponent(body).unwrap() + 3);
    }
}

/// The first exponent mark of a text, from the first mark of what follows
/// its first `k` characters, none of which is a mark.
pub proof fn lemma_mark(s: Seq<char>, k: int)
    requires
        0 <= k <= s.len(),
        forall|i: int| 0 <= i < k ==> !is_mark(#[trigger] s[i]),
    ensures
        mark_at(s) == k + mark_at(s.skip(k)),
    decreases k,
{
    if k > 0 {
        lemma_mark(s.drop_first(), k - 1);
        assert(s.drop_first().skip(k - 1) =~= s.skip(k));
    } else {
        assert(s.skip(0) =~= s);
    }
}

/// Largest absolute value of an exponent that is told from a larger one.
pub const EXPONENT_LIMIT: i128 = 1_000_000_000_000_000_000_000_000;

/// An exponent, or the limit of exponents with its sign where the exponent
/// is beyond the limit.
pub open spec fn limited(e: int) -> int {
    if e > EXPONENT_LIMIT {
        EXPONENT_LIMIT as int
    } else if e < -EXPONENT_LIMIT {
        -EXPONENT_LIMIT
    } else {
        e
    }
}

/// Position of the first exponent mark from a position up to another, or
/// that other position where there is none.
pub fn find_mark(s: &Vec<char>, from: usize, to: usize) -> (r: usize)
    requires
        from <= to <= s.len(),
    ensures
        from <= r <= to,
        r - from == mark_at(s@.subrange(from as int, to as int)),
{
    let ghost body = s@.subrange(from as int, to as int);
    let mut i: usize = from;
    while i < to && s[i] != 'e' && s[i] != 'E'
        invariant
            from <= i <= to,
            to <= s.len(),
            body == s@.subrange(from as int, to as int),
            forall|j: int| 0 <= j < i - from ==> !is_mark(#[trigger] body[j]),
        decreases to - i,
    {
        i += 1;
    }
    proof {
        lemma_mark(body, i - from);
        assert(body.skip(i - from).len() == 0 || is_mark(body.skip(i - from)[0]));
    }
    i
}

/// Position of the first point from a position up to another, or that
/// other position where there is none.
pub fn find_point(s: &Vec<char>, from: usize, to: usize) -> (r: usize)
    requires
        from <= to <= s.len(),
    ensures
        from <= r <= to,
        r - from == point_at(s@.subrange(from as int, to as int)),
{
    let ghost body = s@.subrange(from as int, to as int);
    let mut d: usize = from;
    while d < to && s[d] != '.'
        invariant
            from <= d <= to,
            to <= s.len(),
            body == s@.subrange(from as int, to as int),
            forall|i: int| 0 <= i < d - from ==> #[trigger] body[i] != '.',
        decreases to - d,
    {
        d += 1;
    }
    proof {
        lemma_point(body, d - from);
        assert(body.skip(d - from).len() == 0 || body.skip(d - from)[0] == '.');
    }
    d
}

/// The characters from a position up to another, if all of them are
/// digits.
pub fn digits_between(s: &Vec<char>, from: usize, to: usize) -> (r: Option<Vec<char>>)
    requires
        from <= to <= s.len(),
    ensures
        match r {
            Some(v) => all_digits(s@.subrange(from as int, to as int)) && v@ == s@.subrange(
                from as int,
                to as int,
            ),
            None => !all_digits(s@.subrange(from as int, to as int)),
        },
{
    let ghost part = s@.subrange(from as int, to as int);
    let mut v: Vec<char> = Vec::new();
    let mut i: usize = from;
    assert(v@ =~= part.take(0));
    while i < to
        invariant
            from <= i <= to,
            to <= s.len(),
            part == s@.subrange(from as int, to as int),
            v@ == part.take(i - from),
            forall|j: int| 0 <= j < i - from ==> is_digit(#[trigger] part[j]),
        decreases to - i,
    {
        match digit_value(s[i]) {
            None => {
                assert(!is_digit(part[i - from]));
                return None;
            },
            Some(_) => {
                v.push(s[i]);
                assert(part.take(i - from + 1) =~= part.take(i - from).push(part[i - from]));
            },
        }
        i += 1;
    }
    assert(part.take(to - from) =~= part);
    Some(v)
}

/// The number of the first `n` digits, if it is no more than the largest
/// value that is read.
pub fn capped_number(v: &Vec<char>, n: usize) -> (r: Option<i128>)
    requires
        n <= v.len(),
        all_digits(v@),
    ensures
        match r {
            Some(x) => x == number_of(v@.take(n as int)) && 0 <= x <= MAX_DECIMAL,
            None => number_of(v@.take(n as int)) > MAX_DECIMAL,
        },
{
    let ghost d = v@.take(n as int);
    let mut acc: i128 = 0;
    let mut i: usize = 0;
    assert forall|j: int| 0 <= j < d.len() implies is_digit(#[trigger] d[j]) by {
        assert(d[j] == v@[j]);
    }
    while i < n
        invariant
            i <= n,
            n <= v.len(),
            d == v@.take(n as int),
            all_digits(d),
            acc == number_of(d.take(i as int)),
            0 <= acc <= MAX_DECIMAL,
        decreases n - i,
    {
        match digit_value(v[i]) {
            None => {
                assert(is_digit(d[i as int]));
                return None;
            },
            Some(x) => {
                proof {
                    lemma_number_step(d, i as int);
                }
                let next: i128 = acc * 10 + (x as i128);
                if next > MAX_DECIMAL {
                    proof {
                        lemma_number_grows(d, i + 1);
                    }
                    return None;
                }
                acc = next;
            },
        }
        i += 1;
    }
    assert(d.take(n as int) =~= d);
    Some(acc)
}

/// The exponent that the characters from a position up to another stand
/// for, if they are one; an exponent beyond the limit of exponents is
/// given as the limit, with its sign.
pub fn parse_exponent(s: &Vec<char>, from: usize, to: usize) -> (r: Option<i128>)
    requires
        from <= to <= s.len(),
    ensures
        match r {
            Some(e) => exponent_of(s@.subrange(from as int, to as int)) is Some && e == limited(
                exponent_of(s@.subrange(from as int, to as int)).unwrap(),
            ),
            None => exponent_of(s@.subrange(from as int, to as int)) is None,
        },
{
    let ghost t = s@.subrange(from as int, to as int);
    let signed = from < to && (s[from] == '-' || s[from] == '+');
    let start: usize = if signed {
        from + 1
    } else {
        from
    };
    let ghost digits = s@.subrange(start as int, to as int);
    proof {
        if signed {
            assert(t[0] == s@[from as int]);
            assert(t.drop_first() =~= digits);
        } else {
            if from < to {
                assert(t[0] == s@[from as int]);
            }
            assert(t =~= digits);
        }
    }
    if start == to {
        return None;
    }
    let mut acc: i128 = 0;
    let mut i: usize = start;
    while i < to
        invariant
            from <= start <= i <= to,
            to <= s.len(),
            t == s@.subrange(from as int, to as int),
            digits == s@.subrange(start as int, to as int),
            digits == if has_sign(t) {
                t.drop_first()
            } else {
                t
            },
            forall|j: int| 0 <= j < i - start ==> is_digit(#[trigger] digits[j]),
            0 <= acc <= EXPONENT_LIMIT,
            acc == limited(number_of(digits.take(i - start))),
            0 <= number_of(digits.take(i - start)),
        decreases to - i,
    {
        match digit_value(s[i]) {
            None => {
                assert(!is_digit(digits[i - start]));
                return None;
            },
            Some(x) => {
                proof {
                    lemma_number_step(digits, i - start);
                }
                if acc < EXPONENT_LIMIT {
                    let next: i128 = acc * 10 + (x as i128);
                    acc = if next > EXPONENT_LIMIT {
                        EXPONENT_LIMIT
                    } else {
                        next
                    };
                }
            },
        }
        i += 1;
    }
    proof {
        assert(digits.take(to - start) =~= digits);
        assert(all_digits(digits));
    }
    if signed && s[from] == '-' {
        Some(-acc)
    } else {
        Some(acc)
    }
}

/// A number times ten to a power, if it is no more than the largest value
/// that is read.
pub fn times_pow10(n: i128, shift: u8) -> (r: Option<i128>)
    requires
        1 <= n <= MAX_DECIMAL,
    ensures
        match r {
            Some(v) => v == n * pow10(shift as nat) && 0 <= v <= MAX_DECIMAL,
            None => n * pow10(shift as nat) > MAX_DECIMAL,
        },
{
    let mut v: i128 = n;
    let mut k: u8 = 0;
    assert(n * pow10(0) == n) by (nonlinear_arith)
        requires
            pow10(0) == 1,
    ;
    while k < shift
        invariant
            k <= shift,
            1 <= n,
            v == n * pow10(k as nat),
            1 <= v <= MAX_DECIMAL,
        decreases shift - k,
    {
        let next: i128 = v * 10;
        proof {
            assert(n * pow10((k + 1) as nat) == (n * pow10(k as nat)) * 10) by (nonlinear_arith)
                requires
                    pow10((k + 1) as nat) == 10 * pow10(k as nat),
            ;
        }
        if next > MAX_DECIMAL {
            proof {
                lemma_pow10((k + 1) as nat, shift as nat);
                let a = pow10((k + 1) as nat);
                let b = pow10(shift as nat);
                assert(n * b >= n * a) by (nonlinear_arith)
                    requires
                        n >= 1,
                        b >= a,
                ;
            }
            return None;
        }
        v = next;
        k += 1;
    }
    Some(v)
}

/// The number that digits stand for when it is cut after the first `cut`
/// of them and rounded, if it is no more than the largest value that is
/// read.
pub fn scale_digits(d: &Vec<char>, cut: i128) -> (r: Option<i128>)
    requires
        all_digits(d@),
    ensures
        match r {
            Some(v) => v == scaled(d@, cut as int) && 0 <= v <= MAX_DECIMAL,
            None => scaled(d@, cut as int) > MAX_DECIMAL,
        },
{
    let len = d.len();
    if cut < 0 {
        Some(0)
    } else if cut >= len as i128 {
        assert(d@.take(len as int) =~= d@);
        match capped_number(d, len) {
            None => {
                proof {
                    lemma_scaled_non_negative(d@, cut as int);
                }
                None
            },
            Some(n) => {
                let shift: i128 = cut - (len as i128);
                if n == 0 {
                    assert(0 * pow10(shift as nat) == 0) by (nonlinear_arith);
                    Some(0)
                } else if shift > 18 {
                    proof {
                        lemma_pow10_large(shift as nat);
                        let p = pow10(shift as nat);
                        assert(n * p > MAX_DECIMAL) by (nonlinear_arith)
                            requires
                                n >= 1,
                                p > MAX_DECIMAL,
                        ;
                    }
                    None
                } else {
                    times_pow10(n, shift as u8)
                }
            },
        }
    } else {
        let c: usize = cut as usize;
        match capped_number(d, c) {
            None => None,
            Some(n) => {
                assert(is_digit(d@[c as int]));
                let up: i128 = match digit_value(d[c]) {
                    Some(x) => if x >= 5 {
                        1
                    } else {
                        0
                    },
                    None => 0,
                };
                let v: i128 = n + up;
                if v > MAX_DECIMAL {
                    None
                } else {
                    Some(v)
                }
            },
        }
    }
}

/// Where the exponent is beyond the limit of exponents, the number is
/// what it is with the limit: zero, or more than the largest value.
pub proof fn lemma_limited_exponent(d: Seq<char>, whole: int, e: int)
    requires
        all_digits(d),
        0 <= whole <= d.len(),
        d.len() <= u64::MAX,
    ensures
        scaled(d, whole + limited(e) + 3) > MAX_DECIMAL <==> scaled(d, whole + e + 3)
            > MAX_DECIMAL,
        scaled(d, whole + limited(e) + 3) <= MAX_DECIMAL ==> scaled(d, whole + limited(e) + 3)
            == scaled(d, whole + e + 3),
{
    lemma_number_non_negative(d);
    let n = number_of(d);
    if e > EXPONENT_LIMIT {
        let a = (whole + limited(e) + 3 - d.len()) as nat;
        let b = (whole + e + 3 - d.len()) as nat;
        lemma_pow10_large(a);
        lemma_pow10_large(b);
        let pa = pow10(a);
        let pb = pow10(b);
        if n == 0 {
            assert(n * pa == 0 && n * pb == 0) by (nonlinear_arith)
                requires
                    n == 0,
            ;
        } else {
            assert(n * pa > MAX_DECIMAL && n * pb > MAX_DECIMAL) by (nonlinear_arith)
                requires
                    n >= 1,
                    pa > MAX_DECIMAL,
                    pb > MAX_DECIMAL,
            ;
        }
    }
}

/// The absolute value in thousandths of an unsigned decimal text, if it is
/// one.
pub fn parse_magnitude(s: &Vec<char>, from: usize, to: usize) -> (r: Option<i128>)
    requires
        from <= to <= s.len(),
    ensures
        match r {
            Some(m) => magnitude(s@.subrange(from as int, to as int)) == Some(m as int) && 0 <= m
                <= MAX_DECIMAL,
            None => magnitude(s@.subrange(from as int, to as int)) is None,
        },
{
    let ghost body = s@.subrange(from as int, to as int);
    let ex = find_mark(s, from, to);
    let ghost m = mantissa(body);
    assert(m =~= s@.subrange(from as int, ex as int));
    let d = find_point(s, from, ex);
    let ghost w = whole_digits(m);
    let ghost f = fraction_digits(m);
    assert(w =~= s@.subrange(from as int, d as int));
    let mut digits = match digits_between(s, from, d) {
        Some(v) => v,
        None => {
            return None;
        },
    };
    if d < ex {
        assert(f =~= s@.subrange(d + 1, ex as int));
        match digits_between(s, d + 1, ex) {
            Some(v) => {
                let mut j: usize = 0;
                while j < v.len()
                    invariant
                        j <= v.len(),
                        v@ == f,
                        digits@ == w + f.take(j as int),
                    decreases v.len() - j,
                {
                    digits.push(v[j]);
                    assert(w + f.take(j + 1) =~= (w + f.take(j as int)).push(f[j as int]));
                    j += 1;
                }
                assert(f.take(v.len() as int) =~= f);
            },
            None => {
                return None;
            },
        }
    } else {
        assert(f =~= Seq::<char>::empty());
        assert(digits@ =~= w + f);
    }
    if digits.len() == 0 {
        return None;
    }
    let e: i128 = if ex < to {
        assert(body.skip(ex - from + 1) =~= s@.subrange(ex + 1, to as int));
        match parse_exponent(s, ex + 1, to) {
            Some(e) => e,
            None => {
                return None;
            },
        }
    } else {
        0
    };
    proof {
        lemma_all_digits_joined(w, f);
        lemma_limited_exponent(w + f, w.len() as int, exponent(body).unwrap());
    }
    let whole: usize = d - from;
    scale_digits(&digits, (whole as i128) + e + 3)
}

/// Where the white space at the start of a list of characters ends and
/// where the white space at its end begins.
pub fn trim_bounds(s: &Vec<char>) -> (r: (usize, usize))
    ensures
        r.0 <= r.1 <= s.len(),
        trimmed(s@) == s@.subrange(r.0 as int, r.1 as int),
{
    let n = s.len();
    let mut a: usize = 0;
    while a < n && is_space_char(s[a])
        invariant
            a <= n,
            n == s.len(),
            forall|i: int| 0 <= i < a ==> is_space(#[trigger] s[i]),
        decreases n - a,
    {
        a += 1;
    }
    let mut b: usize = n;
    while b > a && is_space_char(s[b - 1])
        invariant
            a <= b <= n,
            n == s.len(),
            forall|i: int| b <= i < n ==> is_space(#[trigger] s[i]),
        decreases b,
    {
        b -= 1;
    }
    proof {
        lemma_trimmed(s@, a as int, b as int);
    }
    (a, b)
}

/// A list of characters without the white space at its start and at its
/// end.
pub fn trim_chars(s: &Vec<char>) -> (r: Vec<char>)
    ensures
        r@ == trimmed(s@),
{
    let (a, b) = trim_bounds(s);
    let mut r: Vec<char> = Vec::new();
    let mut i: usize = a;
    assert(r@ =~= s@.subrange(a as int, a as int));
    while i < b
        invariant
            a <= i <= b,
            b <= s.len(),
            r@ == s@.subrange(a as int, i as int),
        decreases b - i,
    {
        r.push(s[i]);
        assert(s@.subrange(a as int, i + 1) =~= s@.subrange(a as int, i as int).push(s@[i as int]));
        i += 1;
    }
    r
}

/// The value in thousandths of a list of characters that is a decimal
/// text.
pub fn parse_decimal_chars(s: &Vec<char>) -> (r: Option<i128>)
    ensures
        match r {
            Some(x) => decimal_value(s@) == Some(x as int),
            None => decimal_value(s@) is None,
        },
{
    let (a, b) = trim_bounds(s);
    let ghost t = trimmed(s@);
    if a < b && (s[a] == '-' || s[a] == '+') {
        assert(t[0] == s@[a as int]);
        assert(t.drop_first() =~= s@.subrange(a + 1, b as int));
        match parse_magnitude(s, a + 1, b) {
            Some(m) => if s[a] == '-' {
                Some(-m)
            } else {
                Some(m)
            },
            None => None,
        }
    } else {
        proof {
            if a < b {
                assert(t[0] == s@[a as int]);
            }
        }
        parse_magnitude(s, a, b)
    }
}

/// The value in thousandths of a decimal text, if it is one: white space,
/// an optional sign, digits with or without a point among them, white
/// space. After the digits there may be an exponent, as in `1.5e3`. The
/// number is rounded to the nearest thousandth.
pub fn parse_decimal(s: &str) -> (r: Option<i128>)
    ensures
        match r {
            Some(x) => decimal_value(s@) == Some(x as int),
            None => decimal_value(s@) is None,
        },
{
    let v = to_chars(s);
    parse_decimal_chars(&v)
}

/// The character of a decimal digit.
pub open spec fn digit_char(d: int) -> char {
    (d + 48) as char
}

/// The decimal digits of a number that is not negative.
pub open spec fn digits_of(n: int) -> Seq<char>
    decreases n,
{
    if n < 10 {
        seq![digit_char(n)]
    } else {
        digits_of(n / 10).push(digit_char(n % 10))
    }
}

/// The text of a number of thousandths that is not negative: the digits
/// of the whole part, a point and three decimals.
pub open spec fn unsigned_text(m: int) -> Seq<char> {
    digits_of(m / 1000) + seq![
        '.',
        digit_char((m / 100) % 10),
        digit_char((m / 10) % 10),
        digit_char(m % 10),
    ]
}

/// The text of a number of thousandths: the sign of a negative number, the
/// digits of the whole part, a point and three decimals.
pub open spec fn decimal_text(x: int) -> Seq<char> {
    if x < 0 {
        seq!['-'] + unsigned_text(-x)
    } else {
        unsigned_text(x)
    }
}

/// The character of a decimal digit.
pub fn digit_to_char(d: u8) -> (c: char)
    requires
        d <= 9,
    ensures
        c == digit_char(d as int),
{
    if d == 0 {
        '0'
    } else if d == 1 {
        '1'
    } else if d == 2 {
        '2'
    } else if d == 3 {
        '3'
    } else if d == 4 {
        '4'
    } else if d == 5 {
        '5'
    } else if d == 6 {
        '6'
    } else if d == 7 {
        '7'
    } else if d == 8 {
        '8'
    } else {
        '9'
    }
}

/// Appends the decimal digits of a number to a text.
pub fn push_digits(text: &mut String, n: u128)
    ensures
        final(text)@ == old(text)@ + digits_of(n as int),
    decreases n,
{
    if n >= 10 {
        push_digits(text, n / 10);
    }
    let ghost before = text@;
    text.push(digit_to_char((n % 10) as u8));
    proof {
        if n >= 10 {
            assert(before.push(digit_char((n % 10) as int)) =~= old(text)@ + digits_of(n as int));
        } else {
            assert(before.push(digit_char(n as int)) =~= old(text)@ + digits_of(n as int));
        }
    }
}

/// Appends the text of a number of thousandths to a text.
pub fn push_decimal(text: &mut String, x: i128)
    ensures
        final(text)@ == old(text)@ + decimal_text(x as int),
{
    let ghost start = text@;
    let m: u128 = if x < 0 {
        text.push('-');
        if x == i128::MIN {
            (i128::MAX as u128) + 1
        } else {
            (-x) as u128
        }
    } else {
        x as u128
    };
    let ghost signed = text@;
    push_digits(text, m / 1000);
    text.push('.');
    text.push(digit_to_char(((m / 100) % 10) as u8));
    text.push(digit_to_char(((m / 10) % 10) as u8));
    text.push(digit_to_char((m % 10) as u8));
    proof {
        if x < 0 {
            assert(signed =~= start + seq!['-']);
            assert(text@ =~= start + (seq!['-'] + unsigned_text(m as int)));
        } else {
            assert(signed =~= start);
            assert(text@ =~= start + unsigned_text(m as int));
        }
    }
}

/// The text of a number of thousandths, with three decimals.
pub fn format_decimal(x: i128) -> (r: String)
    ensures
        r@ == decimal_text(x as int),
{
    let mut r = String::new();
    push_decimal(&mut r, x);
    assert(r@ =~= decimal_text(x as int));
    r
}

/// The text of a number of thousandths with two decimals: the number is
/// rounded to the nearest hundredth, a half away from zero.
pub open spec fn two_decimals_text(x: int) -> Seq<char> {
    let m = if x < 0 {
        -x
    } else {
        x
    };
    let h = (m + 5) / 10;
    (if x < 0 {
        seq!['-']
    } else {
        Seq::<char>::empty()
    }) + digits_of(h / 100) + seq!['.', digit_char((h / 10) % 10), digit_char(h % 10)]
}

/// The text of a number of thousandths with one decimal: the number is
/// rounded to the nearest tenth, a half away from zero.
pub open spec fn one_decimal_text(x: int) -> Seq<char> {
    let m = if x < 0 {
        -x
    } else {
        x
    };
    let t = (m + 50) / 100;
    (if x < 0 {
        seq!['-']
    } else {
        Seq::<char>::empty()
    }) + digits_of(t / 10) + seq!['.', digit_char(t % 10)]
}

/// The absolute value of a number, after the sign of a negative number has
/// been appended to the text.
fn push_sign(text: &mut String, x: i128) -> (m: u128)
    ensures
        m == if x < 0 {
            -x
        } else {
            x as int
        },
        final(text)@ == old(text)@ + (if x < 0 {
            seq!['-']
        } else {
            Seq::<char>::empty()
        }),
{
    let ghost start = text@;
    if x < 0 {
        text.push('-');
        assert(text@ =~= start + seq!['-']);
        if x == i128::MIN {
            (i128::MAX as u128) + 1
        } else {
            (-x) as u128
        }
    } else {
        assert(text@ =~= start + Seq::<char>::empty());
        x as u128
    }
}

/// The text of a number of thousandths, with two decimals.
pub fn format_two_decimals(x: i128) -> (r: String)
    ensures
        r@ == two_decimals_text(x as int),
{
    let mut text = String::new();
    let m = push_sign(&mut text, x);
    let ghost signed = text@;
    let h: u128 = (m + 5) / 10;
    push_digits(&mut text, h / 100);
    text.push('.');
    text.push(digit_to_char(((h / 10) % 10) as u8));
    text.push(digit_to_char((h % 10) as u8));
    assert(text@ =~= signed + digits_of((h / 100) as int) + seq![
        '.',
        digit_char(((h / 10) % 10) as int),
        digit_char((h % 10) as int),
    ]);
    assert(text@ =~= two_decimals_text(x as int));
    text
}

/// The text of a number of thousandths, with one decimal.
pub fn format_one_decimal(x: i128) -> (r: String)
    ensures
        r@ == one_decimal_text(x as int),
{
    let mut text = String::new();
    let m = push_sign(&mut text, x);
    let ghost signed = text@;
    let t: u128 = (m + 50) / 100;
    push_digits(&mut text, t / 10);
    text.push('.');
    text.push(digit_to_char((t % 10) as u8));
    assert(text@ =~= signed + digits_of((t / 10) as int) + seq!['.', digit_char((t % 10) as int)]);
    assert(text@ =~= one_decimal_text(x as int));
    text
}

/// The character of a digit is a digit, and stands for it.
pub proof fn lemma_digit_char(d: int)
    requires
        0 <= d <= 9,
    ensures
        is_digit(digit_char(d)),
        !is_mark(digit_char(d)),
        digit_of(digit_char(d)) == d,
        !is_space(digit_char(d)),
        digit_char(d) != '.',
        digit_char(d) != '-',
        digit_char(d) != '+',
{
}

/// The digits of a number are digits, at least one, and stand for the
/// number.
pub proof fn lemma_digits_of(n: int)
    requires
        0 <= n,
    ensures
        digits_of(n).len() >= 1,
        all_digits(digits_of(n)),
        number_of(digits_of(n)) == n,
    decreases n,
{
    if n < 10 {
        lemma_digit_char(n);
        let s = digits_of(n);
        assert(s.drop_last() =~= Seq::<char>::empty());
        assert(number_of(s.drop_last()) == 0);
    } else {
        lemma_digits_of(n / 10);
        lemma_digit_char(n % 10);
        let head = digits_of(n / 10);
        let s = digits_of(n);
        assert(s.drop_last() =~= head);
        assert forall|i: int| 0 <= i < s.len() implies is_digit(#[trigger] s[i]) by {
            if i < head.len() {
                assert(s[i] == head[i]);
            }
        }
    }
}

/// A number of thousandths from its whole part and its three decimals.
pub proof fn lemma_three_decimals(m: int)
    requires
        0 <= m,
    ensures
        (m / 1000) * 1000 + ((m / 100) % 10) * 100 + ((m / 10) % 10) * 10 + m % 10 == m,
        0 <= (m / 100) % 10 <= 9,
        0 <= (m / 10) % 10 <= 9,
        0 <= m % 10 <= 9,
        0 <= m / 1000,
{
    let tens = m / 10;
    let hundreds = tens / 10;
    let thousands = hundreds / 10;
    vstd::arithmetic::div_mod::lemma_fundamental_div_mod(m, 10);
    vstd::arithmetic::div_mod::lemma_fundamental_div_mod(tens, 10);
    vstd::arithmetic::div_mod::lemma_fundamental_div_mod(hundreds, 10);
    vstd::arithmetic::div_mod::lemma_mod_bound(m, 10);
    vstd::arithmetic::div_mod::lemma_mod_bound(tens, 10);
    vstd::arithmetic::div_mod::lemma_mod_bound(hundreds, 10);
    crate::shares::lemma_div_twice(m, 10, 10);
    crate::shares::lemma_div_twice(tens, 10, 10);
    crate::shares::lemma_div_twice(m, 10, 100);
    assert(hundreds == m / 100);
    assert(thousands == tens / 100);
    assert(thousands == m / 1000);
    vstd::arithmetic::div_mod::lemma_div_pos_is_pos(m, 1000);
    assert(m == 10 * tens + m % 10);
    assert(tens == 10 * hundreds + tens % 10);
    assert(hundreds == 10 * thousands + hundreds % 10);
}

/// The digits before the point and the digits after it, of digits, a
/// point and more digits.
pub proof fn lemma_around_the_point(whole: Seq<char>, frac: Seq<char>)
    requires
        all_digits(whole),
    ensures
        whole_digits(whole + seq!['.'] + frac) == whole,
        fraction_digits(whole + seq!['.'] + frac) == frac,
{
    let body = whole + seq!['.'] + frac;
    assert forall|i: int| 0 <= i < whole.len() implies #[trigger] body[i] != '.' by {
        assert(body[i] == whole[i]);
        assert(is_digit(whole[i]));
    }
    lemma_point(body, whole.len() as int);
    assert(body.skip(whole.len() as int)[0] == '.');
    assert(point_at(body.skip(whole.len() as int)) == 0);
    assert(body.take(whole.len() as int) =~= whole);
    assert(body.skip(whole.len() as int + 1) =~= frac);
}

/// The number of digits followed by three more digits.
pub proof fn lemma_number_with_three(whole: Seq<char>, a: char, b: char, c: char)
    ensures
        number_of(whole + seq![a, b, c]) == number_of(whole) * 1000 + digit_of(a) * 100 + digit_of(
            b,
        ) * 10 + digit_of(c),
{
    let d = whole + seq![a, b, c];
    let n = whole.len() as int;
    lemma_number_step(d, n);
    lemma_number_step(d, n + 1);
    lemma_number_step(d, n + 2);
    assert(d.take(n) =~= whole);
    assert(d.take(n + 3) =~= d);
}

/// A text without an exponent mark is its own mantissa, and its exponent
/// is zero.
pub proof fn lemma_no_mark(body: Seq<char>)
    requires
        forall|i: int| 0 <= i < body.len() ==> !is_mark(#[trigger] body[i]),
    ensures
        mantissa(body) == body,
        exponent(body) == Some(0int),
{
    lemma_mark(body, body.len() as int);
    assert(body.skip(body.len() as int).len() == 0);
    assert(body.take(body.len() as int) =~= body);
}

/// The text of a number of thousandths that is not negative is an unsigned
/// decimal text for the number; it starts and ends with a digit.
pub proof fn lemma_unsigned_text(m: int)
    requires
        0 <= m <= MAX_DECIMAL,
    ensures
        magnitude(unsigned_text(m)) == Some(m),
        unsigned_text(m).len() >= 5,
        is_digit(unsigned_text(m)[0]),
        is_digit(unsigned_text(m).last()),
{
    let whole = digits_of(m / 1000);
    let a = digit_char((m / 100) % 10);
    let b = digit_char((m / 10) % 10);
    let c = digit_char(m % 10);
    let frac = seq![a, b, c];
    let body = unsigned_text(m);
    lemma_three_decimals(m);
    lemma_digits_of(m / 1000);
    lemma_digit_char((m / 100) % 10);
    lemma_digit_char((m / 10) % 10);
    lemma_digit_char(m % 10);
    assert(body =~= whole + seq!['.'] + frac);
    assert forall|i: int| 0 <= i < body.len() implies !is_mark(#[trigger] body[i]) by {
        if i < whole.len() {
            assert(body[i] == whole[i]);
            assert(is_digit(whole[i]));
        } else if i > whole.len() {
            assert(body[i] == frac[i - whole.len() - 1]);
        }
    }
    lemma_no_mark(body);
    lemma_around_the_point(whole, frac);
    assert(is_digit(whole[0]));
    assert(body[0] == whole[0]);
    assert(body.last() == frac[2]);
    assert(all_digits(frac));
    lemma_number_with_three(whole, a, b, c);
    let d = whole + frac;
    assert(pow10(0) == 1);
    assert(scaled(d, whole.len() as int + 0 + 3) == number_of(d) * pow10(0));
    assert(number_of(d) * 1 == number_of(d));
}

/// Reading what is written. The text of a number of thousandths that is
/// within the largest value that is read is a decimal text, and its value
/// is the number.
pub proof fn lemma_written_is_read(x: int)
    requires
        -MAX_DECIMAL <= x <= MAX_DECIMAL,
    ensures
        decimal_value(decimal_text(x)) == Some(x),
{
    let text = decimal_text(x);
    if x < 0 {
        let body = unsigned_text(-x);
        lemma_unsigned_text(-x);
        assert(text[0] == '-');
        assert(text.last() == body.last());
        lemma_trimmed(text, 0, text.len() as int);
        assert(text.subrange(0, text.len() as int) =~= text);
        assert(text.drop_first() =~= body);
    } else {
        lemma_unsigned_text(x);
        lemma_trimmed(text, 0, text.len() as int);
        assert(text.subrange(0, text.len() as int) =~= text);
    }
}

} // verus!
