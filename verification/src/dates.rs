//! Calendar dates as plain year / month / day numbers: parsing the
//! `dd.mm.yyyy` forms the documents use, rendering the fixed formats the
//! store needs, day numbering for age computations, and a trusted wrapper
//! that asks the outside clock for today.

use vstd::prelude::*;
use chrono::Datelike;
use crate::text::{
    chars_of, string_from_chars, spec_split, split_by, spec_parse_u64, parse_u64, spec_pad2, pad2,
    spec_digits, u64_digits,
};

verus! {

/// A calendar date held as plain numbers.
#[derive(Debug, Clone, Copy, PartialEq, Eq, Structural)]
pub struct SimpleDate {
    pub year: i64,
    pub month: u64,
    pub day: u64,
}

pub open spec fn spec_is_leap(y: int) -> bool {
    y % 4 == 0 && (y % 100 != 0 || y % 400 == 0)
}

pub open spec fn spec_days_in_month(y: int, m: int) -> int {
    if m == 2 {
        if spec_is_leap(y) {
            29
        } else {
            28
        }
    } else if m == 4 || m == 6 || m == 9 || m == 11 {
        30
    } else {
        31
    }
}

impl SimpleDate {
    /// A real calendar date, with the year inside the wide range the
    /// outside clock can produce.
    pub open spec fn valid(self) -> bool {
        &&& -400000 <= self.year <= 400000
        &&& 1 <= self.month <= 12
        &&& 1 <= self.day <= spec_days_in_month(self.year as int, self.month as int)
    }

    /// The year range the day-number arithmetic supports; every business
    /// document date lies well inside it.
    pub open spec fn in_supported_range(self) -> bool {
        self.valid() && 1 <= self.year <= 9999
    }
}

fn is_leap(y: i64) -> (r: bool)
    requires
        y >= 0,
    ensures
        r == spec_is_leap(y as int),
{
    y % 4 == 0 && (y % 100 != 0 || y % 400 == 0)
}

fn days_in_month(y: i64, m: u64) -> (r: u64)
    requires
        y >= 0,
    ensures
        r == spec_days_in_month(y as int, m as int),
{
    if m == 2 {
        if is_leap(y) {
            29
        } else {
            28
        }
    } else if m == 4 || m == 6 || m == 9 || m == 11 {
        30
    } else {
        31
    }
}

/// Days of the year before month `m`.
pub open spec fn spec_days_before_month(y: int, m: int) -> int {
    let base: int = if m == 1 {
        0
    } else if m == 2 {
        31
    } else if m == 3 {
        59
    } else if m == 4 {
        90
    } else if m == 5 {
        120
    } else if m == 6 {
        151
    } else if m == 7 {
        181
    } else if m == 8 {
        212
    } else if m == 9 {
        243
    } else if m == 10 {
        273
    } else if m == 11 {
        304
    } else {
        334
    };
    base + if m > 2 && spec_is_leap(y) {
        1int
    } else {
        0int
    }
}

/// Days from the first supported day (year 1, January 1st) to this date.
pub open spec fn spec_day_number(d: SimpleDate) -> int {
    let y = d.year - 1;
    365 * y + y / 4 - y / 100 + y / 400 + spec_days_before_month(d.year as int, d.month as int)
        + d.day - 1
}

/// The day after `d`.
pub open spec fn spec_next_day(d: SimpleDate) -> SimpleDate {
    if d.day < spec_days_in_month(d.year as int, d.month as int) {
        SimpleDate { year: d.year, month: d.month, day: (d.day + 1) as u64 }
    } else if d.month < 12 {
        SimpleDate { year: d.year, month: (d.month + 1) as u64, day: 1 }
    } else {
        SimpleDate { year: (d.year + 1) as i64, month: 1, day: 1 }
    }
}

/// `n` days after `d`.
pub open spec fn spec_add_days(d: SimpleDate, n: nat) -> SimpleDate
    decreases n,
{
    if n == 0 {
        d
    } else {
        spec_next_day(spec_add_days(d, (n - 1) as nat))
    }
}

pub fn day_number(d: SimpleDate) -> (r: i64)
    requires
        d.in_supported_range(),
    ensures
        r == spec_day_number(d),
        0 <= r < 4_000_000,
{
    let y: i64 = d.year - 1;
    let base: i64 = if d.month == 1 {
        0
    } else if d.month == 2 {
        31
    } else if d.month == 3 {
        59
    } else if d.month == 4 {
        90
    } else if d.month == 5 {
        120
    } else if d.month == 6 {
        151
    } else if d.month == 7 {
        181
    } else if d.month == 8 {
        212
    } else if d.month == 9 {
        243
    } else if d.month == 10 {
        273
    } else if d.month == 11 {
        304
    } else {
        334
    };
    let leap_add: i64 = if d.month > 2 && is_leap(d.year) {
        1
    } else {
        0
    };
    365 * y + y / 4 - y / 100 + y / 400 + base + leap_add + (d.day as i64) - 1
}

pub fn next_day(d: SimpleDate) -> (r: SimpleDate)
    requires
        d.valid(),
        0 <= d.year < 400000,
    ensures
        r == spec_next_day(d),
        r.valid(),
{
    if d.day < days_in_month(d.year, d.month) {
        SimpleDate { year: d.year, month: d.month, day: d.day + 1 }
    } else if d.month < 12 {
        SimpleDate { year: d.year, month: d.month + 1, day: 1 }
    } else {
        SimpleDate { year: d.year + 1, month: 1, day: 1 }
    }
}

pub fn add_days(d: SimpleDate, n: u64) -> (r: SimpleDate)
    requires
        d.in_supported_range(),
        d.year + n < 9999,
        n <= 100000,
    ensures
        r == spec_add_days(d, n as nat),
        r.in_supported_range(),
{
    let mut cur = d;
    let mut i: u64 = 0;
    while i < n
        invariant
            i <= n,
            cur == spec_add_days(d, i as nat),
            cur.valid(),
            1 <= cur.year <= d.year + i,
            d.year + n < 9999,
            n <= 100000,
        decreases n - i,
    {
        cur = next_day(cur);
        i = i + 1;
    }
    cur
}

/// `dd.mm.yyyy` parsed into a date; day and month may come unpadded.
pub open spec fn spec_parse_dmy(s: Seq<char>) -> Option<SimpleDate> {
    let segs = spec_split(s, '.', '.');
    if segs.len() == 3 {
        spec_date_of_parts(segs[0], segs[1], segs[2])
    } else {
        None
    }
}

pub open spec fn spec_date_of_parts(ds: Seq<char>, ms: Seq<char>, ys: Seq<char>) -> Option<
    SimpleDate,
> {
    match (spec_parse_u64(ds), spec_parse_u64(ms), spec_parse_u64(ys)) {
        (Some(dv), Some(mv), Some(yv)) => {
            let date = SimpleDate { year: yv as i64, month: mv, day: dv };
            if date.in_supported_range() {
                Some(date)
            } else {
                None
            }
        },
        _ => None,
    }
}

fn date_of_parts(ds: &Vec<char>, ms: &Vec<char>, ys: &Vec<char>) -> (r: Option<SimpleDate>)
    ensures
        r == spec_date_of_parts(ds@, ms@, ys@),
{
    proof {
        assert(ds@.subrange(0, ds@.len() as int) =~= ds@);
        assert(ms@.subrange(0, ms@.len() as int) =~= ms@);
        assert(ys@.subrange(0, ys@.len() as int) =~= ys@);
    }
    let dv = parse_u64(ds, 0, ds.len());
    let mv = parse_u64(ms, 0, ms.len());
    let yv = parse_u64(ys, 0, ys.len());
    match (dv, mv, yv) {
        (Some(dv), Some(mv), Some(yv)) => {
            if 1 <= yv && yv <= 9999 && 1 <= mv && mv <= 12 && 1 <= dv && dv <= days_in_month(
                yv as i64,
                mv,
            ) {
                Some(SimpleDate { year: yv as i64, month: mv, day: dv })
            } else {
                None
            }
        },
        _ => None,
    }
}

/// Parse `dd.mm.yyyy`.
pub fn parse_dmy_date(s: &str) -> (r: Option<SimpleDate>)
    ensures
        r == spec_parse_dmy(s@),
{
    let v = chars_of(s);
    let segs = split_by(&v, '.', '.');
    if segs.len() != 3 {
        return None;
    }
    proof {
        assert(segs@[0]@ == segs.deep_view()[0]);
        assert(segs@[1]@ == segs.deep_view()[1]);
        assert(segs@[2]@ == segs.deep_view()[2]);
    }
    date_of_parts(&segs[0], &segs[1], &segs[2])
}

/// Parse the range form `dd-dd.mm.yyyy` to its first day.
pub open spec fn spec_parse_dmy_range(s: Seq<char>) -> Option<SimpleDate> {
    let segs = spec_split(s, '.', '.');
    if segs.len() == 3 {
        spec_date_of_parts(spec_split(segs[0], '-', '-')[0], segs[1], segs[2])
    } else {
        None
    }
}

pub fn parse_dmy_date_range(s: &str) -> (r: Option<SimpleDate>)
    ensures
        r == spec_parse_dmy_range(s@),
{
    let v = chars_of(s);
    let segs = split_by(&v, '.', '.');
    if segs.len() != 3 {
        return None;
    }
    let dparts = split_by(&segs[0], '-', '-');
    proof {
        assert(segs@[0]@ == segs.deep_view()[0]);
        assert(segs@[1]@ == segs.deep_view()[1]);
        assert(segs@[2]@ == segs.deep_view()[2]);
        assert(dparts@[0]@ == dparts.deep_view()[0]);
    }
    date_of_parts(&dparts[0], &segs[1], &segs[2])
}

/// `n` written with four digits, zero padded (years).
pub open spec fn spec_pad4(n: nat) -> Seq<char> {
    if n < 10 {
        seq!['0', '0', '0'] + spec_digits(n)
    } else if n < 100 {
        seq!['0', '0'] + spec_digits(n)
    } else if n < 1000 {
        seq!['0'] + spec_digits(n)
    } else {
        spec_digits(n)
    }
}

pub fn pad4(n: u64) -> (r: Vec<char>)
    ensures
        r@ == spec_pad4(n as nat),
{
    let mut v: Vec<char> = Vec::new();
    if n < 10 {
        v.push('0');
        v.push('0');
        v.push('0');
    } else if n < 100 {
        v.push('0');
        v.push('0');
    } else if n < 1000 {
        v.push('0');
    }
    let mut d = u64_digits(n);
    v.append(&mut d);
    proof {
        assert(v@ =~= spec_pad4(n as nat));
    }
    v
}

/// The `dd.mm.yyyy` rendering used inside documents.
pub open spec fn spec_format_dmy(d: SimpleDate) -> Seq<char> {
    spec_pad2(d.day as nat) + seq!['.'] + spec_pad2(d.month as nat) + seq!['.'] + spec_pad4(
        d.year as nat,
    )
}

pub fn format_dmy(d: SimpleDate) -> (r: String)
    requires
        d.in_supported_range(),
    ensures
        r@ == spec_format_dmy(d),
{
    let mut v = pad2(d.day);
    v.push('.');
    let mut m = pad2(d.month);
    v.append(&mut m);
    v.push('.');
    let mut y = pad4(d.year as u64);
    v.append(&mut y);
    proof {
        assert(v@ =~= spec_format_dmy(d));
    }
    string_from_chars(&v)
}

/// The compact `yyyymmdd` rendering used in sort keys.
pub open spec fn spec_format_ymd_compact(d: SimpleDate) -> Seq<char> {
    spec_pad4(d.year as nat) + spec_pad2(d.month as nat) + spec_pad2(d.day as nat)
}

pub fn format_ymd_compact(d: SimpleDate) -> (r: String)
    requires
        d.in_supported_range(),
    ensures
        r@ == spec_format_ymd_compact(d),
{
    let mut v = pad4(d.year as u64);
    let mut m = pad2(d.month);
    v.append(&mut m);
    let mut dd = pad2(d.day);
    v.append(&mut dd);
    proof {
        assert(v@ =~= spec_format_ymd_compact(d));
    }
    string_from_chars(&v)
}

/// The `yyyy-mm-dd` rendering used in output file names.
pub open spec fn spec_format_ymd_dashed(d: SimpleDate) -> Seq<char> {
    spec_pad4(d.year as nat) + seq!['-'] + spec_pad2(d.month as nat) + seq!['-'] + spec_pad2(
        d.day as nat,
    )
}

pub fn format_ymd_dashed(d: SimpleDate) -> (r: String)
    requires
        d.in_supported_range(),
    ensures
        r@ == spec_format_ymd_dashed(d),
{
    let mut v = pad4(d.year as u64);
    v.push('-');
    let mut m = pad2(d.month);
    v.append(&mut m);
    v.push('-');
    let mut dd = pad2(d.day);
    v.append(&mut dd);
    proof {
        assert(v@ =~= spec_format_ymd_dashed(d));
    }
    string_from_chars(&v)
}

/// The `yyyy.mm.dd` rendering of the computed date field.
pub open spec fn spec_format_ymd_dotted(d: SimpleDate) -> Seq<char> {
    spec_pad4(d.year as nat) + seq!['.'] + spec_pad2(d.month as nat) + seq!['.'] + spec_pad2(
        d.day as nat,
    )
}

pub fn format_ymd_dotted(d: SimpleDate) -> (r: String)
    requires
        d.in_supported_range(),
    ensures
        r@ == spec_format_ymd_dotted(d),
{
    let mut v = pad4(d.year as u64);
    v.push('.');
    let mut m = pad2(d.month);
    v.append(&mut m);
    v.push('.');
    let mut dd = pad2(d.day);
    v.append(&mut dd);
    proof {
        assert(v@ =~= spec_format_ymd_dotted(d));
    }
    string_from_chars(&v)
}

/// Relies on `chrono::Local::now().date_naive()`: the local calendar date of
/// the system clock; always a real calendar date, within chrono's year range.
#[verifier::external_body]
pub fn today() -> (r: SimpleDate)
    ensures
        r.valid(),
{
    let d = chrono::Local::now().date_naive();
    SimpleDate { year: d.year() as i64, month: d.month() as u64, day: d.day() as u64 }
}

} // verus!
