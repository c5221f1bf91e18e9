//! Calendar dates of transaction rows: read as `MM/DD/YYYY`, written as `YYYY-MM-DD`.
use vstd::prelude::*;
use chrono::Datelike;
use crate::render::{decimal_digits, pad_zeros, push_range};
use crate::text::{digits_of, padded};

verus! {

/// A calendar date as year, month (1 to 12) and day (1 to 31).
#[derive(Clone, Copy, Debug, PartialEq, Eq, Structural)]
pub struct Date {
    pub year: i32,
    pub month: u32,
    pub day: u32,
}

impl Date {
    pub open spec fn wf(&self) -> bool {
        1 <= self.month <= 12 && 1 <= self.day <= 31
    }
}

/// What chrono reads from a `MM/DD/YYYY` text: year, month and day, or nothing.
pub uninterp spec fn chrono_mdy(s: Seq<char>) -> Option<(i32, u32, u32)>;

/// Relies on `chrono::NaiveDate::parse_from_str` with the format `%m/%d/%Y`, and on
/// `Datelike::month` (1 to 12) and `Datelike::day` (1 to 31) of the date it returns.
#[verifier::external_body]
fn read_mdy(s: &str) -> (r: Option<(i32, u32, u32)>)
    ensures
        r == chrono_mdy(s@),
        r matches Some((y, m, d)) ==> 1 <= m <= 12 && 1 <= d <= 31,
{
    match chrono::NaiveDate::parse_from_str(s, "%m/%d/%Y") {
        Ok(d) => Some((d.year(), d.month(), d.day())),
        Err(_) => None,
    }
}

/// The date of a parsed year, month and day; `None` where nothing was parsed
/// or the month or day is out of range.
pub fn date_from_parsed(parsed: Option<(i32, u32, u32)>) -> (r: Option<Date>)
    ensures
        r == date_from_parsed_spec(parsed),
{
    match parsed {
        Some((y, m, d)) => {
            if 1 <= m && m <= 12 && 1 <= d && d <= 31 {
                Some(Date { year: y, month: m, day: d })
            } else {
                None
            }
        },
        None => None,
    }
}

/// Reads a `MM/DD/YYYY` date.
pub fn parse_date(s: &str) -> (r: Option<Date>)
    ensures
        r == date_from_parsed_spec(chrono_mdy(s@)),
        r matches Some(d) ==> d.wf(),
{
    date_from_parsed(read_mdy(s))
}

pub open spec fn date_from_parsed_spec(parsed: Option<(i32, u32, u32)>) -> Option<Date> {
    match parsed {
        Some((y, m, d)) => if 1 <= m <= 12 && 1 <= d <= 31 {
            Some(Date { year: y, month: m, day: d })
        } else {
            None
        },
        None => None,
    }
}

/// The year in at least four digits, with a sign outside `0..=9999`.
pub open spec fn year_text(y: int) -> Seq<char> {
    if 0 <= y <= 9999 {
        padded(digits_of(y as nat), 4)
    } else if y > 9999 {
        seq!['+'] + padded(digits_of(y as nat), 4)
    } else {
        seq!['-'] + padded(digits_of((-y) as nat), 4)
    }
}

/// `YYYY-MM-DD`.
pub open spec fn date_text(d: Date) -> Seq<char> {
    year_text(d.year as int) + seq!['-'] + padded(digits_of(d.month as nat), 2) + seq!['-']
        + padded(digits_of(d.day as nat), 2)
}

fn push_padded(out: &mut Vec<char>, n: u64, w: usize)
    ensures
        final(out)@ == old(out)@ + padded(digits_of(n as nat), w as nat),
{
    let ds = pad_zeros(decimal_digits(n), w);
    push_range(out, &ds, 0, ds.len());
    assert(ds@.subrange(0, ds@.len() as int) =~= ds@);
}

impl Date {
    /// Appends `date_text(*self)`.
    pub fn push_text(&self, out: &mut Vec<char>)
        ensures
            final(out)@ == old(out)@ + date_text(*self),
    {
        let y = self.year;
        if 0 <= y && y <= 9999 {
            push_padded(out, y as u64, 4);
        } else if y > 9999 {
            out.push('+');
            push_padded(out, y as u64, 4);
        } else {
            out.push('-');
            let mag: u64 = (-(y as i64)) as u64;
            push_padded(out, mag, 4);
        }
        out.push('-');
        push_padded(out, self.month as u64, 2);
        out.push('-');
        push_padded(out, self.day as u64, 2);
        assert(out@ =~= old(out)@ + date_text(*self));
    }
}

} // verus!
