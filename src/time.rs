//! The civil UTC time that signatures are dated with.

use vstd::prelude::*;
use crate::text::{decimal, digit_char, push_char, push_decimal};

verus! {

/// A UTC date and time of day.
#[derive(Debug, Clone, Copy, PartialEq, Eq, Structural)]
pub struct SigningTime {
    pub year: u64,
    pub month: u64,
    pub day: u64,
    pub hour: u64,
    pub minute: u64,
    pub second: u64,
}

pub open spec fn is_leap(y: nat) -> bool {
    (y % 4 == 0 && y % 100 != 0) || y % 400 == 0
}

pub open spec fn year_days(y: nat) -> nat {
    if is_leap(y) {
        366
    } else {
        365
    }
}

pub open spec fn month_days(y: nat, m: nat) -> nat {
    if m == 2 {
        if is_leap(y) {
            29
        } else {
            28
        }
    } else if m == 4 || m == 6 || m == 9 || m == 11 {
        30
    } else {
        31
    }
}

/// Days from 1970-01-01 to January 1st of year `y`.
pub open spec fn days_before_year(y: nat) -> nat
    decreases y,
{
    if y <= 1970 {
        0
    } else {
        days_before_year((y - 1) as nat) + year_days((y - 1) as nat)
    }
}

/// Days from January 1st to the first of month `m` of year `y`.
pub open spec fn days_before_month(y: nat, m: nat) -> nat
    decreases m,
{
    if m <= 1 {
        0
    } else {
        days_before_month(y, (m - 1) as nat) + month_days(y, (m - 1) as nat)
    }
}

impl SigningTime {
    /// A real date from 1970 on and a time of day.
    pub open spec fn wf(&self) -> bool {
        &&& self.year >= 1970
        &&& 1 <= self.month <= 12
        &&& 1 <= self.day <= month_days(self.year as nat, self.month as nat)
        &&& self.hour < 24
        &&& self.minute < 60
        &&& self.second < 60
    }

    /// Seconds since 1970-01-01T00:00:00Z.
    pub open spec fn epoch_seconds(&self) -> nat {
        ((days_before_year(self.year as nat) + days_before_month(self.year as nat, self.month as nat)
            + self.day - 1) * 86400 + self.hour * 3600 + self.minute * 60 + self.second) as nat
    }

    /// The time `secs` seconds after 1970-01-01T00:00:00Z.
    pub fn from_unix_seconds(secs: u64) -> (r: SigningTime)
        ensures
            r.wf(),
            r.epoch_seconds() == secs,
    {
        let mut days = secs / 86400;
        let rem = secs % 86400;
        let mut y: u64 = 1970;
        while days >= year_len(y)
            invariant
                1970 <= y <= 1970 + secs / 86400 - days,
                days <= secs / 86400,
                days_before_year(y as nat) + days == secs / 86400,
            decreases days,
        {
            days = days - year_len(y);
            y = y + 1;
        }
        proof {
            reveal_with_fuel(days_before_month, 13);
        }
        assert(days_before_month(y as nat, 13) == year_days(y as nat));
        let mut m: u64 = 1;
        while days >= month_len(y, m)
            invariant
                1 <= m <= 12,
                y >= 1970,
                days_before_year(y as nat) + days_before_month(y as nat, m as nat) + days == secs
                    / 86400,
                days_before_month(y as nat, m as nat) + days < days_before_month(y as nat, 13),
                days_before_month(y as nat, 13) == year_days(y as nat),
            decreases 12 - m,
        {
            days = days - month_len(y, m);
            assert(days_before_month(y as nat, (m + 1) as nat) == days_before_month(y as nat, m as nat)
                + month_days(y as nat, m as nat));
            if m == 12 {
                assert(false);
            }
            m = m + 1;
        }
        let ghost whole = secs / 86400;
        assert(secs == whole * 86400 + rem / 3600 * 3600 + rem % 3600 / 60 * 60 + rem % 60) by (
        nonlinear_arith)
            requires
                whole == secs / 86400,
                rem == secs % 86400,
        ;
        SigningTime {
            year: y,
            month: m,
            day: days + 1,
            hour: rem / 3600,
            minute: rem % 3600 / 60,
            second: rem % 60,
        }
    }
}

fn year_len(y: u64) -> (r: u64)
    ensures
        r == year_days(y as nat),
{
    if (y % 4 == 0 && y % 100 != 0) || y % 400 == 0 {
        366
    } else {
        365
    }
}

fn month_len(y: u64, m: u64) -> (r: u64)
    ensures
        r == month_days(y as nat, m as nat),
{
    if m == 2 {
        if (y % 4 == 0 && y % 100 != 0) || y % 400 == 0 {
            29
        } else {
            28
        }
    } else if m == 4 || m == 6 || m == 9 || m == 11 {
        30
    } else {
        31
    }
}

/// Two decimal digits, a leading zero added below ten.
pub open spec fn two_digits(n: nat) -> Seq<char> {
    seq![digit_char(n / 10), digit_char(n % 10)]
}

/// `YYYYMMDD`
pub open spec fn date_text(t: SigningTime) -> Seq<char> {
    decimal(t.year as nat) + two_digits(t.month as nat) + two_digits(t.day as nat)
}

/// `YYYYMMDDTHHMMSSZ`
pub open spec fn timestamp_text(t: SigningTime) -> Seq<char> {
    date_text(t) + seq!['T'] + two_digits(t.hour as nat) + two_digits(t.minute as nat) + two_digits(
        t.second as nat,
    ) + seq!['Z']
}

fn push_two_digits(out: &mut String, n: u64)
    requires
        n < 100,
    ensures
        final(out)@ == old(out)@ + two_digits(n as nat),
{
    push_char(out, ('0' as u8 + (n / 10) as u8) as char);
    push_char(out, ('0' as u8 + (n % 10) as u8) as char);
    assert(out@ =~= old(out)@ + two_digits(n as nat));
}

impl SigningTime {
    pub fn date(&self) -> (r: String)
        requires
            self.wf(),
        ensures
            r@ == date_text(*self),
    {
        let mut r = String::new();
        push_decimal(&mut r, self.year);
        push_two_digits(&mut r, self.month);
        push_two_digits(&mut r, self.day);
        assert(r@ =~= date_text(*self));
        r
    }

    pub fn timestamp(&self) -> (r: String)
        requires
            self.wf(),
        ensures
            r@ == timestamp_text(*self),
    {
        let mut r = self.date();
        push_char(&mut r, 'T');
        push_two_digits(&mut r, self.hour);
        push_two_digits(&mut r, self.minute);
        push_two_digits(&mut r, self.second);
        push_char(&mut r, 'Z');
        assert(r@ =~= timestamp_text(*self));
        r
    }
}

} // verus!
