//! Time values with microsecond resolution, and their decimal notation.
//!
//! A decimal text is an optional sign (`+` or `-`), digits for the whole
//! seconds, and optionally a point followed by digits for the fraction. At
//! least one digit must stand on one side of the point. Of the fraction the
//! first six digits count; later ones are read and dropped. No exponent, no
//! white space and no names such as `inf` are part of the notation.

use vstd::prelude::*;
use vstd::slice::slice_subrange;
use crate::text::chars_of;

verus! {

/// The greatest count of whole seconds that a decimal text may name.
pub const MAX_WHOLE_SECONDS: u64 = 999_999_999_999;

/// The greatest magnitude, in microseconds, that a decimal text may name.
pub const MAX_PARSED_MICROS: i64 = 999_999_999_999_999_999;

/// A signed span or position on the time axis, held as whole microseconds.
#[derive(Clone, Copy, Debug, PartialEq, Eq, Structural)]
pub struct Seconds {
    pub micros: i64,
}

impl View for Seconds {
    type V = int;

    open spec fn view(&self) -> int {
        self.micros as int
    }
}

/// Whether a count of microseconds is within what a decimal text can name.
pub open spec fn in_parsed_range(m: int) -> bool {
    -MAX_PARSED_MICROS <= m <= MAX_PARSED_MICROS
}

/// The view of an optional time value.
pub open spec fn micros_view(r: Option<Seconds>) -> Option<int> {
    match r {
        Some(v) => Some(v@),
        None => None,
    }
}

/// An optional whole number as a mathematical integer.
pub open spec fn integer_view(r: Option<i64>) -> Option<int> {
    match r {
        Some(v) => Some(v as int),
        None => None,
    }
}

/// Whether `c` is one of the ten decimal digits.
pub open spec fn is_digit(c: char) -> bool {
    0x30 <= c as u32 <= 0x39
}

/// The number that a decimal digit stands for; zero for any other character.
pub open spec fn digit_value(c: char) -> int {
    if is_digit(c) {
        c as u32 - 0x30
    } else {
        0
    }
}

/// Whether `s` holds decimal digits only.
pub open spec fn all_digits(s: Seq<char>) -> bool {
    forall|i: int| 0 <= i < s.len() ==> is_digit(#[trigger] s[i])
}

/// How many decimal digits `s` begins with.
pub open spec fn leading_digits(s: Seq<char>) -> nat
    decreases s.len(),
{
    if s.len() > 0 && is_digit(s[0]) {
        1 + leading_digits(s.drop_first())
    } else {
        0
    }
}

/// The number that a run of decimal digits denotes.
pub open spec fn digits_value(s: Seq<char>) -> int
    decreases s.len(),
{
    if s.len() == 0 {
        0
    } else {
        digits_value(s.drop_last()) * 10 + digit_value(s.last())
    }
}

/// The value of the digits after a decimal point, where the first digit
/// counts `unit` and each later one a tenth of the one before it.
pub open spec fn fraction_value(s: Seq<char>, unit: int) -> int
    decreases s.len(),
{
    if s.len() == 0 || unit <= 0 {
        0
    } else {
        digit_value(s[0]) * unit + fraction_value(s.drop_first(), unit / 10)
    }
}

/// The microseconds that the decimal text `s` denotes, or `None` where `s`
/// is no decimal text or names more than `MAX_WHOLE_SECONDS` seconds.
pub open spec fn decimal_micros(s: Seq<char>) -> Option<int> {
    let signed = s.len() > 0 && (s[0] == '-' || s[0] == '+');
    let body = if signed {
        s.drop_first()
    } else {
        s
    };
    let n = leading_digits(body) as int;
    let whole = body.take(n);
    let pointed = n < body.len() && body[n] == '.';
    let fraction = if pointed {
        body.skip(n + 1)
    } else {
        Seq::empty()
    };
    if (n == body.len() || pointed) && all_digits(fraction) && n + fraction.len() > 0
        && digits_value(whole) <= MAX_WHOLE_SECONDS {
        let magnitude = digits_value(whole) * 1_000_000 + fraction_value(fraction, 100_000);
        if signed && s[0] == '-' {
            Some(-magnitude)
        } else {
            Some(magnitude)
        }
    } else {
        None
    }
}

/// The whole number that `s` denotes: an optional sign (`+` or `-`) and
/// one or more decimal digits. `None` where `s` is no such text or its
/// magnitude is above `MAX_PARSED_MICROS`.
pub open spec fn integer_value(s: Seq<char>) -> Option<int> {
    let signed = s.len() > 0 && (s[0] == '-' || s[0] == '+');
    let body = if signed {
        s.drop_first()
    } else {
        s
    };
    if body.len() > 0 && all_digits(body) && digits_value(body) <= MAX_PARSED_MICROS {
        if signed && s[0] == '-' {
            Some(-digits_value(body))
        } else {
            Some(digits_value(body))
        }
    } else {
        None
    }
}

/// The microseconds that `s` denotes, and zero where it denotes none.
pub open spec fn decimal_micros_or_zero(s: Seq<char>) -> int {
    match decimal_micros(s) {
        Some(m) => m,
        None => 0,
    }
}

/// The whole seconds nearest to a count of microseconds, a half counting
/// up; zero for a count that is not positive.
pub open spec fn rounded_seconds(micros: int) -> nat {
    if micros <= 0 {
        0
    } else {
        ((micros + 500_000) / 1_000_000) as nat
    }
}

/// The character for a number below ten.
pub open spec fn digit_char(d: int) -> char {
    ((0x30 + d) as u8) as char
}

/// The decimal digits of `n`, without leading zeros.
pub open spec fn nat_text(n: nat) -> Seq<char>
    decreases n,
{
    if n < 10 {
        seq![digit_char(n as int)]
    } else {
        nat_text(n / 10).push(digit_char((n % 10) as int))
    }
}

/// Whether `unit` is a power of ten up to a hundred thousand.
pub open spec fn is_fraction_unit(unit: int) -> bool {
    unit == 100_000 || unit == 10_000 || unit == 1_000 || unit == 100 || unit == 10 || unit == 1
}

/// The digits of the fraction `f`, whose first digit counts `unit`, up to
/// its last digit that is not zero.
pub open spec fn fraction_text(f: nat, unit: nat) -> Seq<char>
    decreases unit,
{
    if f == 0 || unit == 0 {
        Seq::empty()
    } else {
        seq![digit_char((f / unit) as int)] + fraction_text(f % unit, unit / 10)
    }
}

/// The decimal text of a count of microseconds, in seconds: a minus sign
/// for a negative count, the whole seconds, and, unless the fraction is
/// zero, a point and the fraction's digits up to the last that is not zero.
pub open spec fn seconds_text(micros: int) -> Seq<char> {
    let magnitude = if micros < 0 {
        -micros
    } else {
        micros
    };
    let sign = if micros < 0 {
        seq!['-']
    } else {
        Seq::empty()
    };
    let whole = nat_text((magnitude / 1_000_000) as nat);
    let f = (magnitude % 1_000_000) as nat;
    if f == 0 {
        sign + whole
    } else {
        sign + whole + seq!['.'] + fraction_text(f, 100_000)
    }
}

/// A run of `n` digits followed by another character, or by the end, is
/// the whole of the leading digits.
pub proof fn lemma_leading_digits_is(s: Seq<char>, n: int)
    requires
        0 <= n <= s.len(),
        forall|j: int| 0 <= j < n ==> is_digit(#[trigger] s[j]),
        n < s.len() ==> !is_digit(s[n]),
    ensures
        leading_digits(s) == n,
    decreases n,
{
    if n > 0 {
        lemma_leading_digits_is(s.drop_first(), n - 1);
    }
}

/// A text holds digits only exactly when its leading digits are all of it.
pub proof fn lemma_leading_digits_all(s: Seq<char>)
    ensures
        leading_digits(s) <= s.len(),
        all_digits(s) <==> leading_digits(s) == s.len(),
    decreases s.len(),
{
    if s.len() > 0 {
        let t = s.drop_first();
        lemma_leading_digits_all(t);
        if is_digit(s[0]) && all_digits(t) {
            assert forall|i: int| 0 <= i < s.len() implies is_digit(#[trigger] s[i]) by {
                if i > 0 {
                    assert(s[i] == t[i - 1]);
                }
            }
        }
    }
}

/// The character for a number below ten is the digit with that value.
pub proof fn lemma_digit_char(d: int)
    requires
        0 <= d <= 9,
    ensures
        is_digit(digit_char(d)),
        digit_value(digit_char(d)) == d,
{
}

/// The digits of a number denote the number.
pub proof fn lemma_nat_text(n: nat)
    ensures
        nat_text(n).len() >= 1,
        all_digits(nat_text(n)),
        digits_value(nat_text(n)) == n,
    decreases n,
{
    if n < 10 {
        lemma_digit_char(n as int);
        assert(digits_value(nat_text(n).drop_last()) == 0);
    } else {
        lemma_nat_text(n / 10);
        lemma_digit_char((n % 10) as int);
        assert(nat_text(n).drop_last() == nat_text(n / 10));
    }
}

/// The digits of a fraction denote the fraction.
pub proof fn lemma_fraction_text(f: nat, unit: nat)
    requires
        is_fraction_unit(unit as int),
        f < unit * 10,
    ensures
        all_digits(fraction_text(f, unit)),
        fraction_value(fraction_text(f, unit), unit as int) == f,
        f > 0 ==> fraction_text(f, unit).len() >= 1,
    decreases unit,
{
    if f != 0 {
        let rest = f % unit;
        let tail = fraction_text(rest, unit / 10);
        lemma_digit_char((f / unit) as int);
        if unit >= 10 {
            lemma_fraction_text(rest, unit / 10);
        }
        assert(fraction_text(f, unit).drop_first() == tail);
        assert(fraction_value(tail, (unit / 10) as int) == rest);
    }
}

/// The text of a value reads back as the value: writing a count of
/// microseconds that a decimal text can name, and reading what was written,
/// gives the same count.
pub proof fn lemma_text_reads_back(micros: int)
    requires
        in_parsed_range(micros),
    ensures
        decimal_micros(seconds_text(micros)) == Some(micros),
{
    let magnitude = if micros < 0 {
        -micros
    } else {
        micros
    };
    let w = (magnitude / 1_000_000) as nat;
    let f = (magnitude % 1_000_000) as nat;
    let whole = nat_text(w);
    let text = seconds_text(micros);
    lemma_nat_text(w);
    let fraction = if f == 0 {
        Seq::<char>::empty()
    } else {
        fraction_text(f, 100_000)
    };
    if f != 0 {
        lemma_fraction_text(f, 100_000);
    }
    let body = if f == 0 {
        whole
    } else {
        whole + seq!['.'] + fraction
    };
    if micros < 0 {
        assert(text.drop_first() == body);
    }
    let n = whole.len() as int;
    if f != 0 {
        assert(body.skip(n + 1) == fraction);
    }
    lemma_leading_digits_is(body, n);
    assert(body.take(n) == whole);
}

/// The text of a value holds digits, and besides them at most a minus
/// sign and a point.
pub proof fn lemma_text_characters(micros: int)
    ensures
        forall|i: int|
            0 <= i < seconds_text(micros).len() ==> {
                let c = #[trigger] seconds_text(micros)[i];
                is_digit(c) || c == '-' || c == '.'
            },
{
    let magnitude = if micros < 0 {
        -micros
    } else {
        micros
    };
    let w = (magnitude / 1_000_000) as nat;
    let f = (magnitude % 1_000_000) as nat;
    lemma_nat_text(w);
    if f != 0 {
        lemma_fraction_text(f, 100_000);
    }
}

/// Whether `c` is a decimal digit.
fn digit(c: char) -> (r: bool)
    ensures
        r == is_digit(c),
{
    let n: u32 = c as u32;
    0x30 <= n && n <= 0x39
}

/// The number that the decimal digit `c` stands for.
fn digit_number(c: char) -> (d: u64)
    requires
        is_digit(c),
    ensures
        d == digit_value(c),
        d <= 9,
{
    (c as u32 - 0x30) as u64
}

/// Reads a run of decimal digits from the beginning of `s`. Returns how
/// many there are and their value; a value above `limit` is reported as
/// `limit + 1`.
fn read_whole(s: &[char], limit: u64) -> (r: (usize, u64))
    requires
        limit <= MAX_PARSED_MICROS,
    ensures
        r.0 == leading_digits(s@),
        r.0 <= s.len(),
        digits_value(s@.take(r.0 as int)) <= limit ==> r.1 == digits_value(s@.take(r.0 as int)),
        digits_value(s@.take(r.0 as int)) > limit ==> r.1 == limit + 1,
{
    let mut k: usize = 0;
    let mut whole: u64 = 0;
    while k < s.len() && digit(s[k])
        invariant
            k <= s.len(),
            limit <= MAX_PARSED_MICROS,
            forall|j: int| 0 <= j < k ==> is_digit(#[trigger] s@[j]),
            whole <= limit + 1,
            digits_value(s@.take(k as int)) <= limit ==> whole == digits_value(s@.take(k as int)),
            digits_value(s@.take(k as int)) > limit ==> whole == limit + 1,
        decreases s.len() - k,
    {
        let d: u64 = digit_number(s[k]);
        proof {
            let next = s@.take(k + 1);
            assert(next.drop_last() == s@.take(k as int));
        }
        if whole <= limit {
            whole = whole * 10 + d;
            if whole > limit {
                whole = limit + 1;
            }
        }
        k += 1;
    }
    proof {
        lemma_leading_digits_is(s@, k as int);
    }
    (k, whole)
}

/// Reads the digits after a decimal point. Returns their value in
/// microseconds, or `None` where `s` holds anything but digits.
fn read_fraction(s: &[char]) -> (r: Option<u64>)
    ensures
        r is Some <==> all_digits(s@),
        r matches Some(f) ==> f == fraction_value(s@, 100_000) && f <= 999_999,
{
    let mut j: usize = 0;
    let mut unit: u64 = 100_000;
    let mut acc: u64 = 0;
    assert(s@.skip(0) == s@);
    while j < s.len()
        invariant
            j <= s.len(),
            forall|i: int| 0 <= i < j ==> is_digit(#[trigger] s@[i]),
            unit == 100_000 || unit == 10_000 || unit == 1_000 || unit == 100 || unit == 10 || unit
                == 1 || unit == 0,
            acc + unit * 10 <= 1_000_000,
            unit == 0 ==> acc <= 999_999,
            fraction_value(s@, 100_000) == acc + fraction_value(s@.skip(j as int), unit as int),
        decreases s.len() - j,
    {
        if !digit(s[j]) {
            return None;
        }
        let d: u64 = digit_number(s[j]);
        proof {
            let rest = s@.skip(j as int);
            assert(rest.drop_first() == s@.skip(j + 1));
            assert(d * unit <= 9 * unit) by (nonlinear_arith)
                requires
                    d <= 9,
            ;
        }
        acc = acc + d * unit;
        unit = unit / 10;
        j += 1;
    }
    Some(acc)
}

/// Reads a decimal text.
pub fn parse_decimal(s: &[char]) -> (r: Option<Seconds>)
    ensures
        micros_view(r) == decimal_micros(s@),
        r matches Some(v) ==> in_parsed_range(v@),
{
    let signed: bool = s.len() > 0 && (s[0] == '-' || s[0] == '+');
    let negative: bool = signed && s[0] == '-';
    let body = if signed {
        slice_subrange(s, 1, s.len())
    } else {
        s
    };
    let (n, whole) = read_whole(body, MAX_WHOLE_SECONDS);
    let mut fraction: u64 = 0;
    let mut fraction_len: usize = 0;
    if n < body.len() {
        if body[n] != '.' {
            return None;
        }
        let digits = slice_subrange(body, n + 1, body.len());
        match read_fraction(digits) {
            Some(f) => {
                fraction = f;
                fraction_len = digits.len();
            },
            None => {
                return None;
            },
        }
    }
    if (n == 0 && fraction_len == 0) || whole > MAX_WHOLE_SECONDS {
        return None;
    }
    let magnitude: i64 = (whole * 1_000_000 + fraction) as i64;
    if negative {
        Some(Seconds { micros: -magnitude })
    } else {
        Some(Seconds { micros: magnitude })
    }
}

/// The digit for the number `d`, which is below ten, as a text of one
/// character.
fn digit_text(d: u64) -> (s: &'static str)
    requires
        d <= 9,
    ensures
        s@ == seq![digit_char(d as int)],
{
    proof {
        reveal_strlit("0123456789");
    }
    let s = "0123456789".substring_char(d as usize, d as usize + 1);
    s
}

/// Appends the decimal digits of `n` to `out`.
fn push_nat(out: &mut String, n: u64)
    ensures
        final(out)@ == old(out)@ + nat_text(n as nat),
    decreases n,
{
    if n >= 10 {
        push_nat(out, n / 10);
    }
    out.append(digit_text(n % 10));
}

/// Appends to `out` the digits of the fraction `f`, whose first digit
/// counts `unit`.
fn push_fraction(out: &mut String, f: u64, unit: u64)
    requires
        is_fraction_unit(unit as int),
        f < unit * 10,
    ensures
        final(out)@ == old(out)@ + fraction_text(f as nat, unit as nat),
    decreases unit,
{
    if f != 0 {
        let d: u64 = f / unit;
        let rest: u64 = f % unit;
        out.append(digit_text(d));
        if unit >= 10 {
            push_fraction(out, rest, unit / 10);
        } else {
            assert(fraction_text(rest as nat, 0) == Seq::<char>::empty());
        }
    }
}

/// Reads a whole number.
pub fn parse_integer(s: &[char]) -> (r: Option<i64>)
    ensures
        integer_view(r) == integer_value(s@),
{
    let signed: bool = s.len() > 0 && (s[0] == '-' || s[0] == '+');
    let negative: bool = signed && s[0] == '-';
    let body = if signed {
        slice_subrange(s, 1, s.len())
    } else {
        s
    };
    let (n, value) = read_whole(body, MAX_PARSED_MICROS as u64);
    proof {
        lemma_leading_digits_all(body@);
        assert(body@.take(body@.len() as int) == body@);
    }
    if n == 0 || n < body.len() || value > MAX_PARSED_MICROS as u64 {
        return None;
    }
    let magnitude: i64 = value as i64;
    if negative {
        Some(-magnitude)
    } else {
        Some(magnitude)
    }
}

impl Seconds {
    /// The decimal text of the value, in seconds.
    pub fn to_text(&self) -> (r: String)
        ensures
            r@ == seconds_text(self@),
    {
        proof {
            reveal_strlit("-");
            reveal_strlit(".");
        }
        let mut out = String::new();
        let magnitude: u64 = if self.micros < 0 {
            (-(self.micros + 1)) as u64 + 1
        } else {
            self.micros as u64
        };
        if self.micros < 0 {
            out.append("-");
        }
        push_nat(&mut out, magnitude / 1_000_000);
        let f: u64 = magnitude % 1_000_000;
        if f != 0 {
            out.append(".");
            push_fraction(&mut out, f, 100_000);
        }
        out
    }

    /// The whole seconds nearest to the value, a half counting up; zero for
    /// a value that is not positive.
    pub fn rounded(&self) -> (r: u64)
        ensures
            r == rounded_seconds(self@),
    {
        if self.micros <= 0 {
            0
        } else {
            (self.micros as u64 + 500_000) / 1_000_000
        }
    }

    /// The zero span, which also stands for "unset" in a trim expression.
    pub fn zero() -> (r: Seconds)
        ensures
            r@ == 0,
    {
        Seconds { micros: 0 }
    }

    /// Builds a value from a count of microseconds.
    pub fn from_micros(micros: i64) -> (r: Seconds)
        ensures
            r@ == micros,
    {
        Seconds { micros }
    }

    /// Reads a decimal text; `None` where `s` is none.
    pub fn parse(s: &str) -> (r: Option<Seconds>)
        ensures
            micros_view(r) == decimal_micros(s@),
            r matches Some(v) ==> in_parsed_range(v@),
    {
        let chars = chars_of(s);
        parse_decimal(chars.as_slice())
    }

    /// Reads a decimal text, taking whatever is none for zero.
    pub fn parse_or_zero(s: &str) -> (r: Seconds)
        ensures
            r@ == decimal_micros_or_zero(s@),
            in_parsed_range(r@),
    {
        match Seconds::parse(s) {
            Some(v) => v,
            None => Seconds::zero(),
        }
    }
}

/// Reads a decimal text, taking whatever is none for zero.
pub fn parse_decimal_or_zero(s: &[char]) -> (r: Seconds)
    ensures
        r@ == decimal_micros_or_zero(s@),
        in_parsed_range(r@),
{
    match parse_decimal(s) {
        Some(v) => v,
        None => Seconds::zero(),
    }
}

} // verus!
