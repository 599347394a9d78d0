//! The device's packed 32-bit timestamp and its text forms.
use vstd::prelude::*;
use vstd::arithmetic::div_mod::lemma_fundamental_div_mod_converse;

use crate::text::{padded, push_char, push_padded};

verus! {

/// A calendar date and time of day as the device packs it.
#[derive(Debug, Clone, Copy, PartialEq, Eq, Structural)]
pub struct Stamp {
    pub year: u32,
    pub month: u32,
    pub day: u32,
    pub hour: u32,
    pub minute: u32,
    pub second: u32,
}

/// The fields of a packed time, taken off by successive remainders:
/// seconds and minutes by 60, hours by 24, days by 31, months by 12, and the
/// rest counted in years from 2000.
pub open spec fn decoded(t: nat) -> Stamp {
    let second = t % 60;
    let t1 = t / 60;
    let minute = t1 % 60;
    let t2 = t1 / 60;
    let hour = t2 % 24;
    let t3 = t2 / 24;
    let day = t3 % 31 + 1;
    let t4 = t3 / 31;
    let month = t4 % 12 + 1;
    let year = t4 / 12 + 2000;
    Stamp {
        year: year as u32,
        month: month as u32,
        day: day as u32,
        hour: hour as u32,
        minute: minute as u32,
        second: second as u32,
    }
}

/// The packed form of a time whose fields are in range.
pub open spec fn packed(s: Stamp) -> int {
    ((((((s.year - 2000) * 12 + (s.month - 1)) * 31 + (s.day - 1)) * 24 + s.hour) * 60 + s.minute) * 60 + s.second)
}

/// Fields that the packed form can carry: a year from 2000 to 2099, month
/// 1 to 12, day 1 to 31 and a valid time of day.
pub open spec fn packable(s: Stamp) -> bool {
    &&& 2000 <= s.year <= 2099
    &&& 1 <= s.month <= 12
    &&& 1 <= s.day <= 31
    &&& s.hour < 24
    &&& s.minute < 60
    &&& s.second < 60
}

/// Gregorian leap years.
pub open spec fn is_leap(y: int) -> bool {
    (y % 4 == 0 && y % 100 != 0) || y % 400 == 0
}

/// The number of days in a month.
pub open spec fn days_in_month(y: int, m: int) -> int {
    if m == 2 {
        if is_leap(y) { 29 } else { 28 }
    } else if m == 4 || m == 6 || m == 9 || m == 11 {
        30
    } else {
        31
    }
}

/// A day that exists in the Gregorian calendar.
pub open spec fn is_valid_date(y: int, m: int, d: int) -> bool {
    1 <= m <= 12 && 1 <= d <= days_in_month(y, m)
}

/// Splits a packed device time into its fields.
pub fn decode_time(t: u32) -> (r: Stamp)
    ensures
        r == decoded(t as nat),
{
    let second = t % 60;
    let t1 = t / 60;
    let minute = t1 % 60;
    let t2 = t1 / 60;
    let hour = t2 % 24;
    let t3 = t2 / 24;
    let day = t3 % 31 + 1;
    let t4 = t3 / 31;
    let month = t4 % 12 + 1;
    let year = t4 / 12 + 2000;
    Stamp { year, month, day, hour, minute, second }
}

/// Packs a time into the device's 32-bit form.
pub fn encode_time(s: &Stamp) -> (r: u32)
    requires
        packable(*s),
    ensures
        r as int == packed(*s),
{
    proof {
        lemma_packed_bound(*s);
    }
    let y = s.year - 2000;
    let a = y * 12 + (s.month - 1);
    let b = a * 31 + (s.day - 1);
    let c = b * 24 + s.hour;
    let d = c * 60 + s.minute;
    d * 60 + s.second
}

proof fn lemma_packed_bound(s: Stamp)
    requires
        packable(s),
    ensures
        packed(s) < 0x1_0000_0000,
        (s.year - 2000) * 12 + (s.month - 1) < 1200,
        ((s.year - 2000) * 12 + (s.month - 1)) * 31 + (s.day - 1) < 1200 * 31,
        (((s.year - 2000) * 12 + (s.month - 1)) * 31 + (s.day - 1)) * 24 + s.hour < 1200 * 31 * 24,
        ((((s.year - 2000) * 12 + (s.month - 1)) * 31 + (s.day - 1)) * 24 + s.hour) * 60 + s.minute < 1200 * 31 * 24 * 60,
{
    let a = (s.year - 2000) * 12 + (s.month - 1);
    assert(a < 1200);
    let b = a * 31 + (s.day - 1);
    assert(b < 1200 * 31) by (nonlinear_arith)
        requires a < 1200, s.day - 1 < 31, 0 <= s.day - 1, b == a * 31 + (s.day - 1);
    let c = b * 24 + s.hour;
    assert(c < 1200 * 31 * 24) by (nonlinear_arith)
        requires b < 1200 * 31, s.hour < 24, c == b * 24 + s.hour;
    let d = c * 60 + s.minute;
    assert(d < 1200 * 31 * 24 * 60) by (nonlinear_arith)
        requires c < 1200 * 31 * 24, s.minute < 60, d == c * 60 + s.minute;
    assert(d * 60 + s.second < 1200 * 31 * 24 * 60 * 60) by (nonlinear_arith)
        requires d < 1200 * 31 * 24 * 60, s.second < 60;
}

/// Decoding the packed form of a time gives back its fields, for every year
/// from 2000 to 2099, every month and day the form can carry (every valid
/// calendar date among them) and every valid time of day.
pub proof fn lemma_time_round_trip(s: Stamp)
    requires
        packable(s),
    ensures
        decoded(packed(s) as nat) == s,
{
    lemma_packed_bound(s);
    let a = (s.year - 2000) * 12 + (s.month - 1);
    let b = a * 31 + (s.day - 1);
    let c = b * 24 + s.hour;
    let d = c * 60 + s.minute;
    let t = d * 60 + s.second;
    lemma_fundamental_div_mod_converse(t, 60, d, s.second as int);
    lemma_fundamental_div_mod_converse(d, 60, c, s.minute as int);
    lemma_fundamental_div_mod_converse(c, 24, b, s.hour as int);
    lemma_fundamental_div_mod_converse(b, 31, a, s.day - 1);
    lemma_fundamental_div_mod_converse(a, 12, s.year - 2000, s.month - 1);
}

/// Relies on `chrono::NaiveDate::from_ymd_opt`, which gives a date exactly when
/// the month, day and year name a day of the proleptic Gregorian calendar
/// within its supported range.
#[verifier::external_body]
fn date_exists(year: u32, month: u32, day: u32) -> (r: bool)
    requires
        year <= 200_000,
    ensures
        r == is_valid_date(year as int, month as int, day as int),
{
    chrono::NaiveDate::from_ymd_opt(year as i32, month, day).is_some()
}

/// Tells whether a decoded time names a day that exists (a packed time may
/// name, say, February 30).
pub fn is_valid_stamp(s: &Stamp) -> (r: bool)
    requires
        s.year <= 200_000,
    ensures
        r == (is_valid_date(s.year as int, s.month as int, s.day as int) && s.hour < 24 && s.minute < 60 && s.second < 60),
{
    date_exists(s.year, s.month, s.day) && s.hour < 24 && s.minute < 60 && s.second < 60
}

/// `YYYY-MM-DD`.
pub open spec fn date_text(s: Stamp) -> Seq<char> {
    padded(s.year as nat, 4) + seq!['-'] + padded(s.month as nat, 2) + seq!['-'] + padded(s.day as nat, 2)
}

/// `HH:MM:SS`.
pub open spec fn time_text(s: Stamp) -> Seq<char> {
    padded(s.hour as nat, 2) + seq![':'] + padded(s.minute as nat, 2) + seq![':'] + padded(s.second as nat, 2)
}

/// `YYYY-MM-DDTHH:MM:SS`, the ISO-8601 form without a zone offset.
pub open spec fn iso_text(s: Stamp) -> Seq<char> {
    date_text(s) + seq!['T'] + time_text(s)
}

/// The date as `YYYY-MM-DD`.
pub fn format_date(s: &Stamp) -> (r: String)
    ensures
        r@ == date_text(*s),
{
    let mut out = String::new();
    push_padded(&mut out, s.year, 4);
    push_char(&mut out, '-');
    push_padded(&mut out, s.month, 2);
    push_char(&mut out, '-');
    push_padded(&mut out, s.day, 2);
    assert(out@ =~= date_text(*s));
    out
}

/// The time of day as `HH:MM:SS`.
pub fn format_time(s: &Stamp) -> (r: String)
    ensures
        r@ == time_text(*s),
{
    let mut out = String::new();
    push_padded(&mut out, s.hour, 2);
    push_char(&mut out, ':');
    push_padded(&mut out, s.minute, 2);
    push_char(&mut out, ':');
    push_padded(&mut out, s.second, 2);
    assert(out@ =~= time_text(*s));
    out
}

/// The date and time as `YYYY-MM-DDTHH:MM:SS`.
pub fn format_iso(s: &Stamp) -> (r: String)
    ensures
        r@ == iso_text(*s),
{
    let mut out = format_date(s);
    push_char(&mut out, 'T');
    let t = format_time(s);
    crate::text::push_text(&mut out, t.as_str());
    assert(out@ =~= iso_text(*s));
    out
}

} // verus!
