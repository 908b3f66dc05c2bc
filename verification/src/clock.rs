use vstd::prelude::*;

use chrono::{Datelike, Timelike};

use crate::naming::spec_run_stamp_shape;
use crate::text::{is_digit_char, spec_digit_char};

verus! {

/// A number below 100, zero-padded to two digit characters.
pub open spec fn spec_two_digits(n: int) -> Seq<char> {
    seq![spec_digit_char(n / 10), spec_digit_char(n % 10)]
}

/// A number below 10000, zero-padded to four digit characters.
pub open spec fn spec_four_digits(n: int) -> Seq<char> {
    seq![
        spec_digit_char(n / 1000),
        spec_digit_char((n / 100) % 10),
        spec_digit_char((n / 10) % 10),
        spec_digit_char(n % 10),
    ]
}

/// A clock reading's year squeezed into four rendered digits: readings
/// outside the year range 0 to 9999 saturate at the nearer bound.
pub open spec fn spec_clamped_year(y: int) -> int {
    if y < 0 {
        0
    } else if y > 9999 {
        9999
    } else {
        y
    }
}

/// The file-name timestamp: `YYYYMMDD_HHMMSS`, fifteen characters, digits
/// with one underscore, never a hyphen.
pub open spec fn spec_compact_stamp(y: int, mo: int, d: int, h: int, mi: int, s: int) -> Seq<char> {
    spec_four_digits(spec_clamped_year(y)) + spec_two_digits(mo) + spec_two_digits(d)
        + seq!['_'] + spec_two_digits(h) + spec_two_digits(mi) + spec_two_digits(s)
}

/// The report timestamp: `YYYY-MM-DD HH:MM:SS`, nineteen characters.
pub open spec fn spec_display_stamp(y: int, mo: int, d: int, h: int, mi: int, s: int) -> Seq<char> {
    spec_four_digits(spec_clamped_year(y)) + seq!['-'] + spec_two_digits(mo) + seq!['-']
        + spec_two_digits(d) + seq![' '] + spec_two_digits(h) + seq![':'] + spec_two_digits(mi)
        + seq![':'] + spec_two_digits(s)
}

/// Relies on `chrono::Local::now` with the `Datelike` and `Timelike`
/// accessors: a real clock reading has its month in 1 to 12, day in 1 to 31,
/// hour below 24, minute and second below 60, and a year within chrono's
/// calendar range. Which moment the clock reads is not assumed: every ensures
/// clause holds of any reading.
#[verifier::external_body]
fn clock_now_parts() -> (r: (i64, u8, u8, u8, u8, u8))
    ensures
        -262144 <= r.0 <= 262144,
        1 <= r.1 <= 12,
        1 <= r.2 <= 31,
        r.3 < 24,
        r.4 < 60,
        r.5 < 60,
{
    let now = chrono::Local::now();
    (
        now.year() as i64,
        now.month() as u8,
        now.day() as u8,
        now.hour() as u8,
        now.minute() as u8,
        now.second() as u8,
    )
}

fn two_digits(n: u8) -> (r: String)
    requires
        n < 100,
    ensures
        r@ == spec_two_digits(n as int),
{
    let mut s = crate::text::digit_str((n / 10) as usize).to_owned();
    s.append(crate::text::digit_str((n % 10) as usize));
    proof {
        assert(s@ =~= spec_two_digits(n as int));
    }
    s
}

fn four_digits(n: u16) -> (r: String)
    requires
        n < 10000,
    ensures
        r@ == spec_four_digits(n as int),
{
    let mut s = crate::text::digit_str((n / 1000) as usize).to_owned();
    s.append(crate::text::digit_str(((n / 100) % 10) as usize));
    s.append(crate::text::digit_str(((n / 10) % 10) as usize));
    s.append(crate::text::digit_str((n % 10) as usize));
    proof {
        assert(s@ =~= spec_four_digits(n as int));
    }
    s
}

/// Renders the file-name timestamp from clock parts.
pub fn compact_stamp(y: i64, mo: u8, d: u8, h: u8, mi: u8, s: u8) -> (r: String)
    requires
        mo < 100,
        d < 100,
        h < 100,
        mi < 100,
        s < 100,
    ensures
        r@ == spec_compact_stamp(y as int, mo as int, d as int, h as int, mi as int, s as int),
{
    let year: u16 = if y < 0 {
        0
    } else if y > 9999 {
        9999
    } else {
        y as u16
    };
    let mut out = four_digits(year);
    out.append(two_digits(mo).as_str());
    out.append(two_digits(d).as_str());
    out.append("_");
    out.append(two_digits(h).as_str());
    out.append(two_digits(mi).as_str());
    out.append(two_digits(s).as_str());
    proof {
        reveal_strlit("_");
        assert(out@ =~= spec_compact_stamp(
            y as int,
            mo as int,
            d as int,
            h as int,
            mi as int,
            s as int,
        ));
    }
    out
}

/// Renders the report timestamp from clock parts.
pub fn display_stamp(y: i64, mo: u8, d: u8, h: u8, mi: u8, s: u8) -> (r: String)
    requires
        mo < 100,
        d < 100,
        h < 100,
        mi < 100,
        s < 100,
    ensures
        r@ == spec_display_stamp(y as int, mo as int, d as int, h as int, mi as int, s as int),
{
    let year: u16 = if y < 0 {
        0
    } else if y > 9999 {
        9999
    } else {
        y as u16
    };
    let mut out = four_digits(year);
    out.append("-");
    out.append(two_digits(mo).as_str());
    out.append("-");
    out.append(two_digits(d).as_str());
    out.append(" ");
    out.append(two_digits(h).as_str());
    out.append(":");
    out.append(two_digits(mi).as_str());
    out.append(":");
    out.append(two_digits(s).as_str());
    proof {
        reveal_strlit("-");
        reveal_strlit(" ");
        reveal_strlit(":");
        assert(out@ =~= spec_display_stamp(
            y as int,
            mo as int,
            d as int,
            h as int,
            mi as int,
            s as int,
        ));
    }
    out
}

/// A compact stamp has the run-timestamp shape: digits everywhere but the
/// underscore after the date, and in particular never a hyphen, which the
/// execution naming scheme counts on.
pub proof fn lemma_compact_stamp_shape(y: int, mo: int, d: int, h: int, mi: int, s: int)
    requires
        0 <= mo < 100,
        0 <= d < 100,
        0 <= h < 100,
        0 <= mi < 100,
        0 <= s < 100,
    ensures
        spec_run_stamp_shape(spec_compact_stamp(y, mo, d, h, mi, s)),
        forall|i: int| 0 <= i < 15 ==> #[trigger] spec_compact_stamp(y, mo, d, h, mi, s)[i] != '-',
{
    let t = spec_compact_stamp(y, mo, d, h, mi, s);
    assert(t.len() == 15);
    assert(t[8] == '_');
    assert forall|i: int| 0 <= i < 15 && i != 8 implies is_digit_char(#[trigger] t[i]) by {
        let cy = spec_clamped_year(y);
        assert(0 <= cy / 1000 < 10);
        assert(0 <= (cy / 100) % 10 < 10);
        assert(0 <= (cy / 10) % 10 < 10);
        assert(0 <= cy % 10 < 10);
        assert(0 <= mo / 10 < 10 && 0 <= mo % 10 < 10);
        assert(0 <= d / 10 < 10 && 0 <= d % 10 < 10);
        assert(0 <= h / 10 < 10 && 0 <= h % 10 < 10);
        assert(0 <= mi / 10 < 10 && 0 <= mi % 10 < 10);
        assert(0 <= s / 10 < 10 && 0 <= s % 10 < 10);
    }
    assert forall|i: int| 0 <= i < 15 implies #[trigger] t[i] != '-' by {
        if i != 8 {
            assert(is_digit_char(t[i]));
        }
    }
}

/// Reads the clock once and renders both timestamp forms for that reading.
/// Both strings render one calendar reading — a month in 1 to 12, a day in 1
/// to 31, an hour below 24, a minute and second below 60 — the first in the
/// file-name form, the second in the report form. The file-name form has the
/// run-timestamp shape and never holds a hyphen.
pub fn now_stamps() -> (r: (String, String))
    ensures
        exists|y: int, mo: int, d: int, h: int, mi: int, s: int|
            {
                &&& 1 <= mo <= 12
                &&& 1 <= d <= 31
                &&& 0 <= h < 24
                &&& 0 <= mi < 60
                &&& 0 <= s < 60
                &&& r.0@ == spec_compact_stamp(y, mo, d, h, mi, s)
                &&& r.1@ == spec_display_stamp(y, mo, d, h, mi, s)
            },
        spec_run_stamp_shape(r.0@),
        forall|i: int| 0 <= i < r.0@.len() ==> #[trigger] r.0@[i] != '-',
        r.1@.len() == 19,
{
    let (y, mo, d, h, mi, s) = clock_now_parts();
    let compact = compact_stamp(y, mo, d, h, mi, s);
    let display = display_stamp(y, mo, d, h, mi, s);
    proof {
        lemma_compact_stamp_shape(y as int, mo as int, d as int, h as int, mi as int, s as int);
    }
    (compact, display)
}

} // verus!
