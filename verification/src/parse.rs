use vstd::prelude::*;
use vstd::string::StrSliceExecFns;

use crate::date::{spec_valid_date, CalendarDate};
use crate::error::DateTimeError;

verus! {

/// A character is an ASCII decimal digit.
pub open spec fn spec_is_digit(c: char) -> bool {
    48 <= c as int <= 57
}

/// The text holds `n` decimal digits starting at position `ti`.
pub open spec fn spec_all_digits(text: Seq<char>, ti: int, n: int) -> bool {
    forall|k: int| ti <= k < ti + n ==> spec_is_digit(#[trigger] text[k])
}

/// Value of the `n` decimal digits starting at position `ti`.
pub open spec fn spec_digits_val(text: Seq<char>, ti: int, n: int) -> int
    decreases n,
{
    if n <= 0 {
        0
    } else {
        spec_digits_val(text, ti, n - 1) * 10 + (text[ti + n - 1] as int - 48)
    }
}

/// Ten to the power `n`.
pub open spec fn spec_pow10(n: int) -> int
    decreases n,
{
    if n <= 0 {
        1
    } else {
        10 * spec_pow10(n - 1)
    }
}

/// Powers of ten are positive.
pub proof fn lemma_pow10_pos(n: int)
    ensures
        spec_pow10(n) >= 1,
    decreases (if n <= 0 { 0 } else { n }),
{
    if n > 0 {
        lemma_pow10_pos(n - 1);
    }
}

/// Powers of ten grow with the exponent.
pub proof fn lemma_pow10_mono(a: int, b: int)
    requires
        a <= b,
    ensures
        spec_pow10(a) <= spec_pow10(b),
    decreases b - a,
{
    if a < b {
        lemma_pow10_mono(a, b - 1);
        lemma_pow10_pos(b - 1);
    }
}

/// `n` decimal digits denote a value in 0..10^n.
pub proof fn lemma_digits_val_bound(text: Seq<char>, ti: int, n: int)
    requires
        0 <= n,
        spec_all_digits(text, ti, n),
    ensures
        0 <= spec_digits_val(text, ti, n) < spec_pow10(n),
    decreases n,
{
    if n > 0 {
        assert(spec_all_digits(text, ti, n - 1));
        lemma_digits_val_bound(text, ti, n - 1);
    }
}

/// Reads exactly `n` decimal digits at position `ti`, or reports that the
/// text does not hold them.
pub(crate) fn read_fixed_digits(text: &str, ti: usize, n: usize) -> (r: Option<u32>)
    requires
        ti <= text@.len(),
        n <= 4,
    ensures
        r is Some <==> (ti + n <= text@.len() && spec_all_digits(text@, ti as int, n as int)),
        r is Some ==> r->0 == spec_digits_val(text@, ti as int, n as int),
        r is Some ==> r->0 < spec_pow10(n as int),
{
    let text_len: usize = text.unicode_len();
    if text_len - ti < n {
        // A digit run cannot extend past the end of the text.
        assert(!(ti + n <= text@.len()));
        return None;
    }
    let mut acc: u32 = 0;
    let mut k: usize = 0;
    while k < n
        invariant
            ti + n <= text@.len(),
            text@.len() <= usize::MAX,
            n <= 4,
            0 <= k <= n,
            spec_all_digits(text@, ti as int, k as int),
            acc == spec_digits_val(text@, ti as int, k as int),
            acc < spec_pow10(k as int),
        decreases n - k,
    {
        let c: char = text.get_char(ti + k);
        let v: u32 = c as u32;
        if v < 48 || v > 57 {
            assert(!spec_is_digit(text@[ti + k]));
            assert(!spec_all_digits(text@, ti as int, n as int));
            return None;
        }
        proof {
            lemma_pow10_mono(k as int, 3);
            assert(spec_pow10(3) == 1000) by {
                reveal_with_fuel(spec_pow10, 5);
            }
        }
        acc = acc * 10 + (v - 48);
        k = k + 1;
    }
    Some(acc)
}

/// One step of the format walk: the remaining outcome of matching
/// `text[ti..]` against `fmt[fi..]`, with the fields gathered so far.
/// A `%Y` token takes four digits as the year, `%m` and `%d` take two as
/// month and day, any other format character must appear literally in the
/// text, and the whole text must be consumed.
pub open spec fn spec_parse_at(
    fmt: Seq<char>,
    text: Seq<char>,
    fi: int,
    ti: int,
    y: Option<int>,
    m: Option<int>,
    d: Option<int>,
) -> Option<(Option<int>, Option<int>, Option<int>)>
    decreases fmt.len() - fi,
{
    if fi < 0 || fi >= fmt.len() {
        if ti == text.len() {
            Some((y, m, d))
        } else {
            None
        }
    } else if fmt[fi] == '%' {
        if fi + 1 < fmt.len() {
            let t = fmt[fi + 1];
            if t == 'Y' {
                if ti + 4 <= text.len() && spec_all_digits(text, ti, 4) {
                    spec_parse_at(fmt, text, fi + 2, ti + 4, Some(spec_digits_val(text, ti, 4)), m, d)
                } else {
                    None
                }
            } else if t == 'm' {
                if ti + 2 <= text.len() && spec_all_digits(text, ti, 2) {
                    spec_parse_at(fmt, text, fi + 2, ti + 2, y, Some(spec_digits_val(text, ti, 2)), d)
                } else {
                    None
                }
            } else if t == 'd' {
                if ti + 2 <= text.len() && spec_all_digits(text, ti, 2) {
                    spec_parse_at(fmt, text, fi + 2, ti + 2, y, m, Some(spec_digits_val(text, ti, 2)))
                } else {
                    None
                }
            } else {
                None
            }
        } else {
            None
        }
    } else {
        if ti < text.len() && text[ti] == fmt[fi] {
            spec_parse_at(fmt, text, fi + 1, ti + 1, y, m, d)
        } else {
            None
        }
    }
}

/// The date denoted by `text` under `fmt`: the format walk must succeed,
/// must have bound all three fields, and the triple must be a valid
/// Gregorian calendar date.
pub open spec fn spec_parse_date(text: Seq<char>, fmt: Seq<char>) -> Option<(int, int, int)> {
    match spec_parse_at(fmt, text, 0, 0, None, None, None) {
        Some((oy, om, od)) => match (oy, om, od) {
            (Some(y), Some(m), Some(d)) => if spec_valid_date(y, m, d) {
                Some((y, m, d))
            } else {
                None
            },
            _ => None,
        },
        None => None,
    }
}

/// Lifts an executable optional field to its mathematical value.
pub open spec fn spec_lift(o: Option<u32>) -> Option<int> {
    match o {
        Some(v) => Some(v as int),
        None => None,
    }
}

/// Executable format walk mirroring `spec_parse_at`.
fn parse_at(
    text: &str,
    fmt: &str,
    fi: usize,
    ti: usize,
    y: Option<u32>,
    m: Option<u32>,
    d: Option<u32>,
) -> (r: Option<(Option<u32>, Option<u32>, Option<u32>)>)
    requires
        fi <= fmt@.len(),
        ti <= text@.len(),
    ensures
        match r {
            Some(t) => spec_parse_at(
                fmt@,
                text@,
                fi as int,
                ti as int,
                spec_lift(y),
                spec_lift(m),
                spec_lift(d),
            ) == Some((spec_lift(t.0), spec_lift(t.1), spec_lift(t.2))),
            None => spec_parse_at(
                fmt@,
                text@,
                fi as int,
                ti as int,
                spec_lift(y),
                spec_lift(m),
                spec_lift(d),
            ) is None,
        },
    decreases fmt@.len() - fi,
{
    let fmt_len: usize = fmt.unicode_len();
    let text_len: usize = text.unicode_len();
    if fi >= fmt_len {
        if ti == text_len {
            return Some((y, m, d));
        } else {
            return None;
        }
    }
    let fc: char = fmt.get_char(fi);
    if fc == '%' {
        if fi + 1 < fmt_len {
            let t: char = fmt.get_char(fi + 1);
            if t == 'Y' {
                match read_fixed_digits(text, ti, 4) {
                    Some(v) => parse_at(text, fmt, fi + 2, ti + 4, Some(v), m, d),
                    None => None,
                }
            } else if t == 'm' {
                match read_fixed_digits(text, ti, 2) {
                    Some(v) => parse_at(text, fmt, fi + 2, ti + 2, y, Some(v), d),
                    None => None,
                }
            } else if t == 'd' {
                match read_fixed_digits(text, ti, 2) {
                    Some(v) => parse_at(text, fmt, fi + 2, ti + 2, y, m, Some(v)),
                    None => None,
                }
            } else {
                None
            }
        } else {
            None
        }
    } else {
        if ti < text_len {
            let tc: char = text.get_char(ti);
            if tc == fc {
                parse_at(text, fmt, fi + 1, ti + 1, y, m, d)
            } else {
                None
            }
        } else {
            None
        }
    }
}

/// Every year the format walk binds comes from four digits and every month
/// or day from two, so the bound fields stay below 10000 and 100.
pub proof fn lemma_parse_at_field_bounds(
    fmt: Seq<char>,
    text: Seq<char>,
    fi: int,
    ti: int,
    y: Option<int>,
    m: Option<int>,
    d: Option<int>,
)
    requires
        y is Some ==> 0 <= y->0 < 10000,
        m is Some ==> 0 <= m->0 < 100,
        d is Some ==> 0 <= d->0 < 100,
    ensures
        match spec_parse_at(fmt, text, fi, ti, y, m, d) {
            Some(t) => (t.0 is Some ==> 0 <= t.0->0 < 10000) && (t.1 is Some ==> 0 <= t.1->0
                < 100) && (t.2 is Some ==> 0 <= t.2->0 < 100),
            None => true,
        },
    decreases fmt.len() - fi,
{
    assert(spec_pow10(4) == 10000 && spec_pow10(2) == 100) by {
        reveal_with_fuel(spec_pow10, 5);
    }
    if fi < 0 || fi >= fmt.len() {
    } else if fmt[fi] == '%' {
        if fi + 1 < fmt.len() {
            let t = fmt[fi + 1];
            if t == 'Y' {
                if ti + 4 <= text.len() && spec_all_digits(text, ti, 4) {
                    lemma_digits_val_bound(text, ti, 4);
                    lemma_parse_at_field_bounds(
                        fmt,
                        text,
                        fi + 2,
                        ti + 4,
                        Some(spec_digits_val(text, ti, 4)),
                        m,
                        d,
                    );
                }
            } else if t == 'm' {
                if ti + 2 <= text.len() && spec_all_digits(text, ti, 2) {
                    lemma_digits_val_bound(text, ti, 2);
                    lemma_parse_at_field_bounds(
                        fmt,
                        text,
                        fi + 2,
                        ti + 2,
                        y,
                        Some(spec_digits_val(text, ti, 2)),
                        d,
                    );
                }
            } else if t == 'd' {
                if ti + 2 <= text.len() && spec_all_digits(text, ti, 2) {
                    lemma_digits_val_bound(text, ti, 2);
                    lemma_parse_at_field_bounds(
                        fmt,
                        text,
                        fi + 2,
                        ti + 2,
                        y,
                        m,
                        Some(spec_digits_val(text, ti, 2)),
                    );
                }
            }
        }
    } else {
        if ti < text.len() && text[ti] == fmt[fi] {
            lemma_parse_at_field_bounds(fmt, text, fi + 1, ti + 1, y, m, d);
        }
    }
}

/// Parses `date_str` as a calendar date under `format`, a pattern of `%Y`,
/// `%m` and `%d` tokens and literal characters. Succeeds exactly when the
/// text matches the pattern and denotes a valid Gregorian calendar date.
pub fn date_from_str(date_str: &str, format: &str) -> (r: Result<CalendarDate, DateTimeError>)
    ensures
        r is Ok <==> spec_parse_date(date_str@, format@) is Some,
        r is Ok ==> Some((r->Ok_0.year as int, r->Ok_0.month as int, r->Ok_0.day as int))
            == spec_parse_date(date_str@, format@),
        r is Ok ==> r->Ok_0.valid(),
        r is Err ==> r->Err_0 == DateTimeError::DateTimeParseFailed,
{
    match parse_at(date_str, format, 0, 0, None, None, None) {
        Some((Some(y), Some(m), Some(d))) => {
            proof {
                lemma_parse_at_field_bounds(format@, date_str@, 0, 0, None, None, None);
            }
            match CalendarDate::from_ymd(y as i32, m, d) {
                Some(date) => Ok(date),
                None => Err(DateTimeError::DateTimeParseFailed),
            }
        },
        _ => Err(DateTimeError::DateTimeParseFailed),
    }
}

} // verus!
