//! Fractions between zero and one, and the percentages they are read from.

use vstd::prelude::*;
use crate::text::chars_of;

verus! {

/// How many digits after the point of a percentage count; later ones are
/// checked to be digits and dropped.
pub const KEPT_DECIMALS: usize = 6;

/// What a [`Fraction`] stands for in contracts: `num / den`.
pub struct FractionView {
    pub num: nat,
    pub den: nat,
}

impl FractionView {
    /// A fraction between zero and one, over a positive denominator.
    pub open spec fn wf(self) -> bool {
        0 < self.den <= u32::MAX && self.num <= self.den
    }
}

/// A fraction between zero and one.
#[derive(Clone, Copy, Debug)]
pub struct Fraction {
    num: u32,
    den: u32,
}

impl View for Fraction {
    type V = FractionView;

    closed spec fn view(&self) -> FractionView {
        FractionView { num: self.num as nat, den: self.den as nat }
    }
}

/// Whether `c` is one of the ten decimal digits.
pub open spec fn is_digit(c: char) -> bool {
    48 <= c as u32 <= 57
}

/// The value of the decimal digit `c`.
pub open spec fn digit_value(c: char) -> nat {
    (c as u32 - 48) as nat
}

/// Whether every character of `text` is a decimal digit.
pub open spec fn all_digits(text: Seq<char>) -> bool {
    forall|i: int| 0 <= i < text.len() ==> is_digit(#[trigger] text[i])
}

/// The number that a run of decimal digits spells; zero for the empty run.
pub open spec fn digits_value(digits: Seq<char>) -> nat
    decreases digits.len(),
{
    if digits.len() == 0 {
        0
    } else {
        10 * digits_value(digits.drop_last()) + digit_value(digits.last())
    }
}

/// Ten to the power `k`.
pub open spec fn pow10(k: nat) -> nat
    decreases k,
{
    if k == 0 {
        1
    } else {
        10 * pow10((k - 1) as nat)
    }
}

/// `text` without the percent signs at its end.
pub open spec fn without_percent(text: Seq<char>) -> Seq<char>
    decreases text.len(),
{
    if text.len() > 0 && text.last() == '%' {
        without_percent(text.drop_last())
    } else {
        text
    }
}

/// The position of the first point in `body`, or its length where it has none.
pub open spec fn point_of(body: Seq<char>) -> int
    decreases body.len(),
{
    if body.len() == 0 {
        0
    } else if body[0] == '.' {
        0
    } else {
        1 + point_of(body.skip(1))
    }
}

/// The digits before the point.
pub open spec fn whole_part(body: Seq<char>) -> Seq<char> {
    body.take(point_of(body))
}

/// The digits after the point.
pub open spec fn decimal_part(body: Seq<char>) -> Seq<char> {
    if point_of(body) < body.len() {
        body.skip(point_of(body) + 1)
    } else {
        Seq::empty()
    }
}

/// The digits after the point that count.
pub open spec fn kept_decimals(body: Seq<char>) -> Seq<char> {
    if decimal_part(body).len() <= KEPT_DECIMALS {
        decimal_part(body)
    } else {
        decimal_part(body).take(KEPT_DECIMALS as int)
    }
}

/// Whether `body` is a numeral: digits, with at most one point among them,
/// and at least one digit.
pub open spec fn is_numeral(body: Seq<char>) -> bool {
    &&& all_digits(whole_part(body))
    &&& all_digits(decimal_part(body))
    &&& whole_part(body).len() + decimal_part(body).len() > 0
}

/// The fraction that the numeral `body` stands for when read as a percentage.
pub open spec fn percent_of(body: Seq<char>) -> FractionView {
    FractionView {
        num: digits_value(whole_part(body) + kept_decimals(body)),
        den: 100 * pow10(kept_decimals(body).len()),
    }
}

/// The fraction that `text` spells as a percentage: a numeral, followed by
/// any number of percent signs, that is at most one hundred.
pub open spec fn spec_parse_percent(text: Seq<char>) -> Option<FractionView> {
    let body = without_percent(text);
    if is_numeral(body) && percent_of(body).num <= percent_of(body).den {
        Some(percent_of(body))
    } else {
        None
    }
}

/// A run of digits is worth at least as much as each of its beginnings.
pub proof fn lemma_digits_value_grows(digits: Seq<char>, k: int)
    requires
        0 <= k <= digits.len(),
    ensures
        digits_value(digits.take(k)) <= digits_value(digits),
    decreases digits.len() - k,
{
    if k < digits.len() {
        lemma_digits_value_grows(digits, k + 1);
        assert(digits.take(k + 1).drop_last() =~= digits.take(k));
    } else {
        assert(digits.take(k) =~= digits);
    }
}

/// The powers of ten up to the sixth.
pub proof fn lemma_pow10_small(k: nat)
    requires
        k <= KEPT_DECIMALS,
    ensures
        1 <= pow10(k) <= 1_000_000,
        k == 0 ==> pow10(k) == 1,
        k > 0 ==> pow10(k) == 10 * pow10((k - 1) as nat),
    decreases k,
{
    reveal_with_fuel(pow10, 8);
}

fn is_digit_char(c: char) -> (out: bool)
    ensures
        out == is_digit(c),
{
    let code: u32 = c as u32;
    code >= 48 && code <= 57
}

/// The length of `chars` without the percent signs at its end.
fn body_length(chars: &Vec<char>) -> (n: usize)
    ensures
        n <= chars.len(),
        chars@.take(n as int) == without_percent(chars@),
{
    let mut n: usize = chars.len();
    assert(chars@.take(n as int) =~= chars@);
    while n > 0 && chars[n - 1] == '%'
        invariant
            n <= chars.len(),
            without_percent(chars@.take(n as int)) == without_percent(chars@),
        decreases n,
    {
        assert(chars@.take(n as int).drop_last() =~= chars@.take(n - 1));
        n -= 1;
    }
    proof {
        out_of_percent(chars@.take(n as int));
    }
    n
}

proof fn out_of_percent(body: Seq<char>)
    requires
        body.len() == 0 || body.last() != '%',
    ensures
        without_percent(body) == body,
{
}

/// The position of the first point among the first `n` characters.
fn point_position(chars: &Vec<char>, n: usize) -> (p: usize)
    requires
        n <= chars.len(),
    ensures
        p <= n,
        p == point_of(chars@.take(n as int)),
{
    let ghost body = chars@.take(n as int);
    let mut p: usize = 0;
    assert(body.skip(0) =~= body);
    while p < n && chars[p] != '.'
        invariant
            p <= n <= chars.len(),
            body == chars@.take(n as int),
            point_of(body) == p + point_of(body.skip(p as int)),
        decreases n - p,
    {
        assert(body.skip(p as int)[0] == chars@[p as int]);
        assert(body.skip(p as int).skip(1) =~= body.skip(p + 1));
        p += 1;
    }
    proof {
        if p < n {
            assert(body.skip(p as int)[0] == chars@[p as int]);
        } else {
            assert(body.skip(p as int).len() == 0);
        }
    }
    p
}

/// The number that `digits` spells, unless it is above `cap`.
fn number_of(digits: &Vec<char>, cap: u64) -> (out: Option<u64>)
    requires
        all_digits(digits@),
        cap <= 1_000_000_000_000,
    ensures
        match out {
            Some(value) => value == digits_value(digits@) && value <= cap,
            None => digits_value(digits@) > cap,
        },
{
    let mut value: u64 = 0;
    let mut i: usize = 0;
    assert(digits@.take(0) =~= Seq::<char>::empty());
    while i < digits.len()
        invariant
            i <= digits.len(),
            all_digits(digits@),
            cap <= 1_000_000_000_000,
            value == digits_value(digits@.take(i as int)),
            value <= cap,
        decreases digits.len() - i,
    {
        let c = digits[i];
        assert(is_digit(digits@[i as int]));
        let d: u64 = (c as u32 - 48) as u64;
        assert(digits@.take(i + 1).drop_last() =~= digits@.take(i as int));
        assert(digits@.take(i + 1).last() == c);
        value = 10 * value + d;
        i += 1;
        if value > cap {
            proof {
                lemma_digits_value_grows(digits@, i as int);
            }
            return None;
        }
    }
    assert(digits@.take(i as int) =~= digits@);
    Some(value)
}

impl Fraction {
    /// Whether the fraction lies between zero and one.
    pub open spec fn wf(&self) -> bool {
        self@.wf()
    }

    /// `num / den`, where that lies between zero and one.
    pub fn new(num: u32, den: u32) -> (out: Option<Fraction>)
        ensures
            out is Some <==> 0 < den && num <= den,
            out matches Some(f) ==> f.wf() && f@ == (FractionView {
                num: num as nat,
                den: den as nat,
            }),
    {
        if den > 0 && num <= den {
            Some(Fraction { num, den })
        } else {
            None
        }
    }

    /// The numerator.
    pub fn num(&self) -> (out: u32)
        ensures
            out == self@.num,
    {
        self.num
    }

    /// The denominator.
    pub fn den(&self) -> (out: u32)
        ensures
            out == self@.den,
    {
        self.den
    }

    /// Reads a percentage such as `75%` or `12.5%` as a fraction. A text that
    /// is no numeral, or spells more than one hundred, is refused.
    pub fn parse_percent(text: &str) -> (out: Option<Fraction>)
        ensures
            match out {
                Some(f) => f.wf() && spec_parse_percent(text@) == Some(f@),
                None => spec_parse_percent(text@) is None,
            },
    {
        let chars = chars_of(text);
        let n: usize = body_length(&chars);
        let p: usize = point_position(&chars, n);
        let ghost body = chars@.take(n as int);
        assert(body == without_percent(text@));
        let mut digits: Vec<char> = Vec::new();
        let mut i: usize = 0;
        while i < p
            invariant
                i <= p <= n <= chars.len(),
                body == chars@.take(n as int),
                body == without_percent(text@),
                p == point_of(body),
                digits@ == body.take(i as int),
                all_digits(digits@),
            decreases p - i,
        {
            if !is_digit_char(chars[i]) {
                assert(whole_part(body)[i as int] == chars@[i as int]);
                assert(!all_digits(whole_part(body)));
                return None;
            }
            digits.push(chars[i]);
            assert(digits@ =~= body.take(i + 1));
            i += 1;
        }
        assert(digits@ == whole_part(body));
        let start: usize = if p < n {
            p + 1
        } else {
            n
        };
        let ghost decimals = decimal_part(body);
        assert(decimals =~= body.skip(start as int));
        let mut kept: usize = 0;
        let mut j: usize = start;
        while j < n
            invariant
                start <= j <= n <= chars.len(),
                body == chars@.take(n as int),
                body == without_percent(text@),
                decimals == decimal_part(body),
                decimals == body.skip(start as int),
                kept <= KEPT_DECIMALS,
                kept <= j - start,
                kept == j - start || kept == KEPT_DECIMALS,
                all_digits(decimals.take(j - start)),
                digits@ == whole_part(body) + decimals.take(kept as int),
                all_digits(digits@),
            decreases n - j,
        {
            if !is_digit_char(chars[j]) {
                assert(decimals[j - start] == chars@[j as int]);
                assert(!all_digits(decimals));
                return None;
            }
            if kept < KEPT_DECIMALS {
                digits.push(chars[j]);
                kept += 1;
                assert(digits@ =~= whole_part(body) + decimals.take(kept as int));
            }
            assert forall|k: int| 0 <= k < j + 1 - start implies is_digit(
                #[trigger] decimals.take(j + 1 - start)[k],
            ) by {
                if k < j - start {
                    assert(decimals.take(j - start)[k] == decimals[k]);
                }
            }
            j += 1;
        }
        assert(decimals.take(j - start) =~= decimals);
        assert(decimals.take(kept as int) =~= kept_decimals(body));
        if digits.len() == 0 {
            return None;
        }
        assert(is_numeral(body));
        proof {
            lemma_pow10_small(kept as nat);
        }
        let den: u64 = 100 * power_of_ten(kept);
        match number_of(&digits, den) {
            Some(num) => Some(Fraction { num: num as u32, den: den as u32 }),
            None => None,
        }
    }
}

fn power_of_ten(k: usize) -> (out: u64)
    requires
        k <= KEPT_DECIMALS,
    ensures
        out == pow10(k as nat),
        out <= 1_000_000,
{
    let mut out: u64 = 1;
    let mut i: usize = 0;
    proof {
        lemma_pow10_small(0);
    }
    while i < k
        invariant
            i <= k <= KEPT_DECIMALS,
            out == pow10(i as nat),
            out <= 1_000_000,
        decreases k - i,
    {
        proof {
            lemma_pow10_small((i + 1) as nat);
        }
        out = out * 10;
        i += 1;
    }
    out
}

} // verus!
