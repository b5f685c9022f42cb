//! Dates in the database's layout, `YYYY-MM-DD HH:MM:SS.nnnnnnnnn +hh:mm`:
//! the date-time fields read from a page or from the clock, and the text
//! written from them.

use vstd::prelude::*;
use chrono::{Datelike, TimeZone, Timelike};
use crate::text::{decimal, string_of, u64_to_decimal};

verus! {

/// A date and time at a UTC offset, field by field, as chrono reports it:
/// `nanosecond` may exceed a second on a leap second.
#[derive(Debug, Clone, Copy, PartialEq, Eq, Structural)]
pub struct DateTimeFields {
    pub year: i32,
    pub month: u32,
    pub day: u32,
    pub hour: u32,
    pub minute: u32,
    pub second: u32,
    pub nanosecond: u32,
    pub offset_secs: i32,
}

/// The ranges chrono documents for its fields.
pub open spec fn fields_in_range(f: DateTimeFields) -> bool {
    &&& 1 <= f.month <= 12
    &&& 1 <= f.day <= 31
    &&& f.hour < 24
    &&& f.minute < 60
    &&& f.second < 60
    &&& f.nanosecond < 2_000_000_000
    &&& -86400 < f.offset_secs < 86400
}

/// `n` in decimal, with leading zeros up to `width` digits.
pub open spec fn padded(n: nat, width: nat) -> Seq<char> {
    if decimal(n).len() < width {
        Seq::new((width - decimal(n).len()) as nat, |i: int| '0') + decimal(n)
    } else {
        decimal(n)
    }
}

/// The year as chrono's `%Y` writes it: four digits from 0 to 9999, else a
/// sign and at least four digits.
pub open spec fn year_text(y: i32) -> Seq<char> {
    if 0 <= y <= 9999 {
        padded(y as nat, 4)
    } else if y > 9999 {
        seq!['+'] + padded(y as nat, 4)
    } else {
        seq!['-'] + padded((-y) as nat, 4)
    }
}

/// The offset as chrono's `%:z` writes it: a sign, then hours and minutes,
/// rounded to the nearest minute.
pub open spec fn offset_text(o: i32) -> Seq<char> {
    let a: int = if o < 0 { -o } else { o as int };
    let m: nat = ((a + 30) / 60) as nat;
    seq![if o < 0 { '-' } else { '+' }] + padded(m / 60, 2) + seq![':'] + padded(m % 60, 2)
}

/// The database's layout of a date-time:
/// `{%Y-%m-%d %H:%M:%S}.{nanoseconds, nine digits at least} {%:z}`, where
/// `%S` counts a leap second as second 60.
pub open spec fn timestamp_text(f: DateTimeFields) -> Seq<char> {
    year_text(f.year) + seq!['-'] + padded(f.month as nat, 2) + seq!['-'] + padded(f.day as nat, 2)
        + seq![' '] + padded(f.hour as nat, 2) + seq![':'] + padded(f.minute as nat, 2) + seq![':']
        + padded((f.second + f.nanosecond / 1_000_000_000) as nat, 2) + seq!['.'] + padded(
        f.nanosecond as nat,
        9,
    ) + seq![' '] + offset_text(f.offset_secs)
}

fn push_padded(out: &mut Vec<char>, n: u64, width: usize)
    ensures
        final(out)@ == old(out)@ + padded(n as nat, width as nat),
{
    let d = u64_to_decimal(n);
    let ghost before = out@;
    if d.len() < width {
        let k = width - d.len();
        let mut i: usize = 0;
        while i < k
            invariant
                i <= k,
                out@ == before + Seq::new(i as nat, |j: int| '0'),
            decreases k - i,
        {
            out.push('0');
            assert(Seq::new((i + 1) as nat, |j: int| '0') =~= Seq::new(i as nat, |j: int| '0').push(
                '0',
            ));
            i = i + 1;
        }
    }
    let ghost mid = out@;
    let mut i: usize = 0;
    while i < d.len()
        invariant
            i <= d.len(),
            out@ == mid + d@.take(i as int),
        decreases d.len() - i,
    {
        out.push(d[i]);
        assert(d@.take(i + 1) =~= d@.take(i as int).push(d@[i as int]));
        i = i + 1;
    }
    assert(d@.take(d.len() as int) =~= d@);
    assert(out@ =~= before + padded(n as nat, width as nat));
}

fn push_year(out: &mut Vec<char>, y: i32)
    ensures
        final(out)@ == old(out)@ + year_text(y),
{
    let ghost before = out@;
    if 0 <= y && y <= 9999 {
        push_padded(out, y as u64, 4);
    } else if y > 9999 {
        out.push('+');
        push_padded(out, y as u64, 4);
        assert(out@ =~= before + (seq!['+'] + padded(y as nat, 4)));
    } else {
        out.push('-');
        let a: i64 = -(y as i64);
        push_padded(out, a as u64, 4);
        assert(out@ =~= before + (seq!['-'] + padded((-y) as nat, 4)));
    }
}

fn push_offset(out: &mut Vec<char>, o: i32)
    ensures
        final(out)@ == old(out)@ + offset_text(o),
{
    let ghost before = out@;
    let a: u64 = if o < 0 {
        (-(o as i64)) as u64
    } else {
        o as u64
    };
    let m: u64 = (a + 30) / 60;
    out.push(if o < 0 {
        '-'
    } else {
        '+'
    });
    push_padded(out, m / 60, 2);
    out.push(':');
    push_padded(out, m % 60, 2);
    assert(out@ =~= before + offset_text(o));
}

/// Writes a date-time in the database's layout.
pub fn format_timestamp(f: DateTimeFields) -> (res: String)
    ensures
        res@ == timestamp_text(f),
{
    let mut out: Vec<char> = Vec::new();
    push_year(&mut out, f.year);
    out.push('-');
    push_padded(&mut out, f.month as u64, 2);
    out.push('-');
    push_padded(&mut out, f.day as u64, 2);
    out.push(' ');
    push_padded(&mut out, f.hour as u64, 2);
    out.push(':');
    push_padded(&mut out, f.minute as u64, 2);
    out.push(':');
    push_padded(&mut out, f.second as u64 + (f.nanosecond / 1_000_000_000) as u64, 2);
    out.push('.');
    push_padded(&mut out, f.nanosecond as u64, 9);
    out.push(' ');
    push_offset(&mut out, f.offset_secs);
    assert(out@ =~= timestamp_text(f));
    string_of(&out)
}

/// What chrono reads from `input` with the pattern `format`, taken as a
/// local time at UTC offset `offset_secs`: `None` when the text does not
/// fit the pattern, `Some(None)` when it names no single instant.
pub uninterp spec fn local_datetime_result(input: Seq<char>, format: Seq<char>, offset_secs: i32) -> Option<
    Option<DateTimeFields>,
>;

/// Calls `chrono::FixedOffset::east_opt`, `NaiveDateTime::parse_from_str`
/// and `TimeZone::from_local_datetime` with `LocalResult::single`, and hands
/// back the fields of the date-time found. Claimed: the result is a
/// function of the three arguments alone, named above; nothing is claimed
/// of which texts parse.
#[verifier::external_body]
pub(crate) fn local_datetime_fields(input: &str, format: &str, offset_secs: i32) -> (res: Option<
    Option<DateTimeFields>,
>)
    ensures
        res == local_datetime_result(input@, format@, offset_secs),
{
    let offset = chrono::FixedOffset::east_opt(offset_secs)?;
    let naive = chrono::NaiveDateTime::parse_from_str(input, format).ok()?;
    Some(offset.from_local_datetime(&naive).single().map(|dt| DateTimeFields {
        year: dt.year(), month: dt.month(), day: dt.day(), hour: dt.hour(), minute: dt.minute(),
        second: dt.second(), nanosecond: dt.nanosecond(), offset_secs: dt.offset().local_minus_utc(),
    }))
}

/// Reads the clock (`SystemTime::now` since `UNIX_EPOCH`), makes a chrono
/// `DateTime::from_timestamp` of it and moves it to the UTC offset
/// `offset_secs` (`FixedOffset::east_opt`, `with_timezone`). `None` when the
/// clock reads before 1970, out of chrono's range, or the offset is not
/// below a day. Claimed of a result: the fields lie in chrono's documented
/// ranges and the offset is the one asked; the instant is the clock's.
#[verifier::external_body]
pub(crate) fn current_datetime(offset_secs: i32) -> (res: Option<DateTimeFields>)
    ensures
        res matches Some(f) ==> fields_in_range(f) && f.offset_secs == offset_secs,
{
    let since = std::time::SystemTime::now().duration_since(std::time::UNIX_EPOCH).ok()?;
    let utc = chrono::DateTime::from_timestamp(i64::try_from(since.as_secs()).ok()?, since.subsec_nanos())?;
    let dt = utc.with_timezone(&chrono::FixedOffset::east_opt(offset_secs)?);
    Some(DateTimeFields {
        year: dt.year(), month: dt.month(), day: dt.day(), hour: dt.hour(), minute: dt.minute(),
        second: dt.second(), nanosecond: dt.nanosecond(), offset_secs: dt.offset().local_minus_utc(),
    })
}

} // verus!
