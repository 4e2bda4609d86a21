//! Typed extraction from arbitrary payload text: integers, fractions,
//! lengths and angles, each against an exact grammar. Extraction failures are
//! local typed errors; they never disturb a merge.

use vstd::prelude::*;

use vstd::arithmetic::div_mod::lemma_fundamental_div_mod;

use crate::strutil::all_digits;
use crate::strutil::digit_val;
use crate::strutil::digits_val;
use crate::strutil::find_char;
use crate::strutil::find_char_from;
use crate::strutil::is_digit;
use crate::strutil::lemma_find_char_in_range;
use crate::strutil::str_eq;

verus! {

/// A typed extraction failure: the payload text does not match the expected
/// grammar, or its value does not fit the requested type.
#[derive(Debug, Clone, PartialEq, Eq)]
pub enum TailwindError {
    SyntaxError,
}

/// A parsed dimension: a fraction, or a decimal number with a length or
/// angle unit. The number is kept as its exact digit text.
#[derive(Debug, Clone, PartialEq, Eq)]
pub enum LengthUnit {
    Fraction { numerator: usize, denominator: usize },
    Length { value: String, unit: String },
    Angle { value: String, unit: String },
}

/// An arbitrary payload: the bracket interior of a token such as `p-[3px]`.
#[derive(Debug, Clone)]
pub struct TailwindArbitrary {
    pub inner: String,
}

/// The value of a signed decimal integer literal, when the text is one.
pub open spec fn int_literal_val(s: Seq<char>) -> Option<int> {
    if s.len() > 0 && (s[0] == '+' || s[0] == '-') {
        let rest = s.drop_first();
        if rest.len() > 0 && all_digits(rest) {
            Some(
                if s[0] == '-' {
                    -digits_val(rest)
                } else {
                    digits_val(rest)
                },
            )
        } else {
            None
        }
    } else if s.len() > 0 && all_digits(s) {
        Some(digits_val(s))
    } else {
        None
    }
}

/// The numerator and denominator of a fraction literal `a/b`, when the text
/// is one.
pub open spec fn fraction_val(s: Seq<char>) -> Option<(int, int)> {
    let k = find_char_from(s, '/', 0);
    if k >= 0 {
        let num = s.take(k);
        let den = s.skip(k + 1);
        if num.len() > 0 && all_digits(num) && den.len() > 0 && all_digits(den) {
            Some((digits_val(num), digits_val(den)))
        } else {
            None
        }
    } else {
        None
    }
}

/// An unsigned decimal number: digits, or digits `.` digits.
pub open spec fn is_decimal_number(s: Seq<char>) -> bool {
    let k = find_char_from(s, '.', 0);
    if k >= 0 {
        let ip = s.take(k);
        let fp = s.skip(k + 1);
        ip.len() > 0 && all_digits(ip) && fp.len() > 0 && all_digits(fp)
    } else {
        s.len() > 0 && all_digits(s)
    }
}

/// The CSS length units the extraction recognises.
pub open spec fn is_length_unit(u: Seq<char>) -> bool {
    u == "px"@ || u == "em"@ || u == "rem"@ || u == "ex"@ || u == "ch"@ || u == "vw"@ || u == "vh"@
        || u == "vmin"@ || u == "vmax"@ || u == "pt"@ || u == "pc"@ || u == "in"@ || u == "cm"@ || u
        == "mm"@ || u == "%"@
}

/// The CSS angle units the extraction recognises.
pub open spec fn is_angle_unit(u: Seq<char>) -> bool {
    u == "deg"@ || u == "grad"@ || u == "rad"@ || u == "turn"@
}

/// The first index at or after `i` holding neither a digit nor `.`, or the
/// length when every later character is part of a number.
pub open spec fn number_end(s: Seq<char>, i: int) -> int
    decreases s.len() - i,
{
    if i < 0 || i >= s.len() {
        s.len() as int
    } else if is_digit(s[i]) || s[i] == '.' {
        number_end(s, i + 1)
    } else {
        i
    }
}

/// The number text and unit text of a dimension literal, split at the end of
/// the maximal number prefix — provided the number is a decimal number and
/// the unit is a recognised length unit.
pub open spec fn length_parts(s: Seq<char>) -> Option<(Seq<char>, Seq<char>)> {
    let k = number_end(s, 0);
    let num = s.take(k);
    let unit = s.skip(k);
    if is_decimal_number(num) && is_length_unit(unit) {
        Some((num, unit))
    } else {
        None
    }
}

/// As [`length_parts`], with an angle unit.
pub open spec fn angle_parts(s: Seq<char>) -> Option<(Seq<char>, Seq<char>)> {
    let k = number_end(s, 0);
    let num = s.take(k);
    let unit = s.skip(k);
    if is_decimal_number(num) && is_angle_unit(unit) {
        Some((num, unit))
    } else {
        None
    }
}

/// The result holds a length with exactly this number text and unit text.
pub open spec fn length_result_ok(
    r: Result<LengthUnit, TailwindError>,
    num: Seq<char>,
    unit: Seq<char>,
) -> bool {
    match r {
        Ok(l) => match l {
            LengthUnit::Length { value, unit: u } => value@ == num && u@ == unit,
            _ => false,
        },
        Err(_) => false,
    }
}

/// The result holds an angle with exactly this number text and unit text.
pub open spec fn angle_result_ok(
    r: Result<LengthUnit, TailwindError>,
    num: Seq<char>,
    unit: Seq<char>,
) -> bool {
    match r {
        Ok(l) => match l {
            LengthUnit::Angle { value, unit: u } => value@ == num && u@ == unit,
            _ => false,
        },
        Err(_) => false,
    }
}

/// The result holds a fraction with exactly these values.
pub open spec fn fraction_result_ok(r: Result<LengthUnit, TailwindError>, a: int, b: int) -> bool {
    match r {
        Ok(l) => match l {
            LengthUnit::Fraction { numerator, denominator } => numerator == a && denominator == b,
            _ => false,
        },
        Err(_) => false,
    }
}

proof fn lemma_digits_val_nonneg(s: Seq<char>)
    requires
        all_digits(s),
    ensures
        digits_val(s) >= 0,
    decreases s.len(),
{
    if s.len() > 0 {
        assert(all_digits(s.drop_last())) by {
            assert(forall|i: int| 0 <= i < s.len() - 1 ==> s.drop_last()[i] == s[i]);
        }
        lemma_digits_val_nonneg(s.drop_last());
    }
}

/// Parses the digit run `s[from..to]` as a `usize`: `Some` exactly when the
/// run is nonempty, all digits, and its value fits.
fn parse_digits_usize(s: &str, from: usize, to: usize) -> (r: Option<usize>)
    requires
        from <= to <= s@.len(),
    ensures
        (r is Some) <==> (to > from && all_digits(s@.subrange(from as int, to as int)) && digits_val(
            s@.subrange(from as int, to as int),
        ) <= usize::MAX),
        r matches Some(v) ==> v == digits_val(s@.subrange(from as int, to as int)),
{
    if from >= to {
        return None;
    }
    let mut i: usize = from;
    let mut acc: usize = 0;
    let mut overflow = false;
    proof {
        assert(s@.subrange(from as int, from as int) =~= Seq::<char>::empty());
    }
    while i < to
        invariant
            from <= i <= to <= s@.len(),
            all_digits(s@.subrange(from as int, i as int)),
            !overflow ==> acc == digits_val(s@.subrange(from as int, i as int)),
            overflow ==> digits_val(s@.subrange(from as int, i as int)) > usize::MAX,
        decreases to - i,
    {
        let c = s.get_char(i);
        let ghost seg = s@.subrange(from as int, i as int);
        let ghost seg1 = s@.subrange(from as int, i as int + 1);
        proof {
            assert(seg1.drop_last() =~= seg);
            assert(seg1.last() == s@[i as int]);
        }
        if !('0' <= c && c <= '9') {
            proof {
                assert(s@.subrange(from as int, to as int)[i - from] == s@[i as int]);
                assert(!all_digits(s@.subrange(from as int, to as int)));
            }
            return None;
        }
        let d: usize = ((c as u32) - 48) as usize;
        proof {
            assert(d as int == digit_val(c));
            assert(digits_val(seg1) == 10 * digits_val(seg) + d);
            lemma_digits_val_nonneg(seg);
        }
        if overflow {
            proof {
                assert(digits_val(seg1) > usize::MAX);
            }
        } else if acc > (usize::MAX - d) / 10 {
            proof {
                lemma_fundamental_div_mod((usize::MAX - d) as int, 10);
                assert(10 * acc + d > usize::MAX);
            }
            overflow = true;
        } else {
            proof {
                lemma_fundamental_div_mod((usize::MAX - d) as int, 10);
                assert(10 * acc + d <= usize::MAX);
            }
            acc = acc * 10 + d;
        }
        i += 1;
    }
    if overflow {
        None
    } else {
        Some(acc)
    }
}

fn all_digits_range(s: &str, from: usize, to: usize) -> (r: bool)
    requires
        from <= to <= s@.len(),
    ensures
        r == all_digits(s@.subrange(from as int, to as int)),
{
    let mut i: usize = from;
    while i < to
        invariant
            from <= i <= to <= s@.len(),
            forall|k: int| from <= k < i ==> is_digit(#[trigger] s@[k]),
        decreases to - i,
    {
        let c = s.get_char(i);
        if !('0' <= c && c <= '9') {
            proof {
                assert(s@.subrange(from as int, to as int)[i - from] == s@[i as int]);
            }
            return false;
        }
        i += 1;
    }
    proof {
        assert forall|k: int| 0 <= k < to - from implies is_digit(
            #[trigger] s@.subrange(from as int, to as int)[k],
        ) by {
            assert(s@.subrange(from as int, to as int)[k] == s@[from + k]);
        }
    }
    true
}

fn is_decimal_number_exec(s: &str) -> (r: bool)
    ensures
        r == is_decimal_number(s@),
{
    let n = s.unicode_len();
    let k = find_char(s, '.');
    proof {
        lemma_find_char_in_range(s@, '.', 0);
    }
    if k < n {
        if k == 0 {
            return false;
        }
        if k + 1 >= n {
            proof {
                assert(s@.skip(k as int + 1).len() == 0);
            }
            return false;
        }
        let ip = all_digits_range(s, 0, k);
        let fp = all_digits_range(s, k + 1, n);
        proof {
            assert(s@.take(k as int) =~= s@.subrange(0, k as int));
            assert(s@.skip(k as int + 1) =~= s@.subrange(k as int + 1, n as int));
        }
        ip && fp
    } else {
        proof {
            assert(s@.subrange(0, n as int) =~= s@);
        }
        let r = n > 0 && all_digits_range(s, 0, n);
        r
    }
}

fn is_length_unit_exec(u: &str) -> (r: bool)
    ensures
        r == is_length_unit(u@),
{
    str_eq(u, "px") || str_eq(u, "em") || str_eq(u, "rem") || str_eq(u, "ex") || str_eq(u, "ch")
        || str_eq(u, "vw") || str_eq(u, "vh") || str_eq(u, "vmin") || str_eq(u, "vmax") || str_eq(
        u,
        "pt",
    ) || str_eq(u, "pc") || str_eq(u, "in") || str_eq(u, "cm") || str_eq(u, "mm") || str_eq(u, "%")
}

fn is_angle_unit_exec(u: &str) -> (r: bool)
    ensures
        r == is_angle_unit(u@),
{
    str_eq(u, "deg") || str_eq(u, "grad") || str_eq(u, "rad") || str_eq(u, "turn")
}

/// The end of the maximal number prefix, as an index.
fn number_end_exec(s: &str) -> (r: usize)
    ensures
        r == number_end(s@, 0),
        r <= s@.len(),
{
    let n = s.unicode_len();
    let mut i: usize = 0;
    while i < n
        invariant
            n == s@.len(),
            i <= n,
            number_end(s@, 0) == number_end(s@, i as int),
        decreases n - i,
    {
        let c = s.get_char(i);
        if !(('0' <= c && c <= '9') || c == '.') {
            return i;
        }
        i += 1;
    }
    i
}

impl TailwindArbitrary {
    /// Wraps payload text.
    pub fn new(inner: String) -> (r: Self)
        ensures
            r.inner@ == inner@,
    {
        TailwindArbitrary { inner }
    }

    /// The payload holds text.
    pub fn is_some(&self) -> (r: bool)
        ensures
            r == (self.inner@.len() > 0),
    {
        !self.inner.as_str().is_empty()
    }

    /// The payload is empty.
    pub fn is_none(&self) -> (r: bool)
        ensures
            r == (self.inner@.len() == 0),
    {
        self.inner.as_str().is_empty()
    }

    /// The payload text.
    pub fn as_str(&self) -> (r: &str)
        ensures
            r@ == self.inner@,
    {
        self.inner.as_str()
    }

    /// The payload as a signed 32-bit integer: `Ok` exactly when the text is
    /// a signed decimal integer literal whose value fits.
    pub fn as_integer(&self) -> (r: Result<i32, TailwindError>)
        ensures
            match int_literal_val(self.inner@) {
                Some(v) => if i32::MIN <= v && v <= i32::MAX {
                    r == Ok::<i32, TailwindError>(v as i32)
                } else {
                    r is Err
                },
                None => r is Err,
            },
    {
        let s = self.inner.as_str();
        let n = s.unicode_len();
        if n == 0 {
            return Err(TailwindError::SyntaxError);
        }
        let c0 = s.get_char(0);
        let neg = c0 == '-';
        let has_sign = c0 == '+' || c0 == '-';
        let from: usize = if has_sign {
            1
        } else {
            0
        };
        proof {
            if has_sign {
                assert(self.inner@.drop_first() =~= self.inner@.subrange(1, n as int));
            } else {
                assert(self.inner@ =~= self.inner@.subrange(0, n as int));
            }
        }
        match parse_digits_usize(s, from, n) {
            None => Err(TailwindError::SyntaxError),
            Some(v) => {
                if neg {
                    if v > 2147483648 {
                        Err(TailwindError::SyntaxError)
                    } else if v == 2147483648 {
                        Ok(i32::MIN)
                    } else {
                        Ok(-(v as i32))
                    }
                } else {
                    if v > 2147483647 {
                        Err(TailwindError::SyntaxError)
                    } else {
                        Ok(v as i32)
                    }
                }
            },
        }
    }

    /// The payload as a fraction `a/b`: `Ok` exactly when the text is two
    /// digit runs around one `/` and both values fit.
    pub fn as_fraction(&self) -> (r: Result<(usize, usize), TailwindError>)
        ensures
            match fraction_val(self.inner@) {
                Some(v) => if v.0 <= usize::MAX && v.1 <= usize::MAX {
                    r == Ok::<(usize, usize), TailwindError>((v.0 as usize, v.1 as usize))
                } else {
                    r is Err
                },
                None => r is Err,
            },
    {
        let s = self.inner.as_str();
        let n = s.unicode_len();
        let k = find_char(s, '/');
        proof {
            lemma_find_char_in_range(self.inner@, '/', 0);
        }
        if k >= n {
            return Err(TailwindError::SyntaxError);
        }
        proof {
            assert(self.inner@.take(k as int) =~= self.inner@.subrange(0, k as int));
            assert(self.inner@.skip(k as int + 1) =~= self.inner@.subrange(k as int + 1, n as int));
        }
        let num = parse_digits_usize(s, 0, k);
        let den = parse_digits_usize(s, k + 1, n);
        match (num, den) {
            (Some(a), Some(b)) => Ok((a, b)),
            _ => {
                proof {
                    if all_digits(self.inner@.take(k as int)) {
                        lemma_digits_val_nonneg(self.inner@.take(k as int));
                    }
                    if all_digits(self.inner@.skip(k as int + 1)) {
                        lemma_digits_val_nonneg(self.inner@.skip(k as int + 1));
                    }
                }
                Err(TailwindError::SyntaxError)
            },
        }
    }

    /// The payload as a length: `Ok` exactly when the text is a decimal
    /// number followed by a recognised length unit.
    pub fn as_length(&self) -> (r: Result<LengthUnit, TailwindError>)
        ensures
            match length_parts(self.inner@) {
                Some(p) => length_result_ok(r, p.0, p.1),
                None => r is Err,
            },
    {
        let s = self.inner.as_str();
        let n = s.unicode_len();
        let k = number_end_exec(s);
        let value = s.substring_char(0, k).to_owned();
        let unit = s.substring_char(k, n).to_owned();
        proof {
            assert(value@ =~= self.inner@.take(number_end(self.inner@, 0)));
            assert(unit@ =~= self.inner@.skip(number_end(self.inner@, 0)));
        }
        if is_decimal_number_exec(value.as_str()) && is_length_unit_exec(unit.as_str()) {
            Ok(LengthUnit::Length { value, unit })
        } else {
            Err(TailwindError::SyntaxError)
        }
    }

    /// The payload as a length, or — when it is no length — as a fraction.
    pub fn as_length_or_fraction(&self) -> (r: Result<LengthUnit, TailwindError>)
        ensures
            match length_parts(self.inner@) {
                Some(p) => length_result_ok(r, p.0, p.1),
                None => match fraction_val(self.inner@) {
                    Some(v) => if v.0 <= usize::MAX && v.1 <= usize::MAX {
                        fraction_result_ok(r, v.0, v.1)
                    } else {
                        r is Err
                    },
                    None => r is Err,
                },
            },
    {
        let first = self.as_length();
        let ghost fv = first;
        match first {
            Ok(l) => {
                let r2: Result<LengthUnit, TailwindError> = Ok(l);
                proof {
                    assert(r2 == fv);
                }
                r2
            },
            Err(_) => {
                proof {
                    let k = find_char_from(self.inner@, '/', 0);
                    if all_digits(self.inner@.take(k)) {
                        lemma_digits_val_nonneg(self.inner@.take(k));
                    }
                    if all_digits(self.inner@.skip(k + 1)) {
                        lemma_digits_val_nonneg(self.inner@.skip(k + 1));
                    }
                }
                match self.as_fraction() {
                    Ok((a, b)) => Ok(LengthUnit::Fraction { numerator: a, denominator: b }),
                    Err(e) => Err(e),
                }
            },
        }
    }

    /// The payload as an angle: `Ok` exactly when the text is a decimal
    /// number followed by a recognised angle unit.
    pub fn as_angle(&self) -> (r: Result<LengthUnit, TailwindError>)
        ensures
            match angle_parts(self.inner@) {
                Some(p) => angle_result_ok(r, p.0, p.1),
                None => r is Err,
            },
    {
        let s = self.inner.as_str();
        let n = s.unicode_len();
        let k = number_end_exec(s);
        let value = s.substring_char(0, k).to_owned();
        let unit = s.substring_char(k, n).to_owned();
        proof {
            assert(value@ =~= self.inner@.take(number_end(self.inner@, 0)));
            assert(unit@ =~= self.inner@.skip(number_end(self.inner@, 0)));
        }
        if is_decimal_number_exec(value.as_str()) && is_angle_unit_exec(unit.as_str()) {
            Ok(LengthUnit::Angle { value, unit })
        } else {
            Err(TailwindError::SyntaxError)
        }
    }
}

} // verus!
