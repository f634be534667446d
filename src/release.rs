//! Release identity: a sortable name taken from the local time.

use vstd::prelude::*;
use chrono::{Datelike, Timelike};
use crate::text::push_all;

verus! {

/// A reading of the local clock.
pub struct LocalTime {
    pub year: i32,
    /// 1 to 12.
    pub month: u32,
    /// 1 to 31.
    pub day: u32,
    /// 0 to 23.
    pub hour: u32,
    /// 0 to 59.
    pub minute: u32,
    /// 0 to 59.
    pub second: u32,
    /// The same instant as RFC 3339 text, with the local offset.
    pub rfc3339: String,
}

impl LocalTime {
    pub open spec fn wf(&self) -> bool {
        &&& 1 <= self.month <= 12
        &&& 1 <= self.day <= 31
        &&& self.hour < 24
        &&& self.minute < 60
        &&& self.second < 60
    }
}

/// Relies on `chrono::Local::now`: the local date and time now, read
/// through chrono's `Datelike` and `Timelike` accessors (whose documented
/// ranges the contract states) and `to_rfc3339`.
#[verifier::external_body]
pub(crate) fn local_now() -> (t: LocalTime)
    ensures
        t.wf(),
{
    let now = chrono::Local::now();
    LocalTime {
        year: now.year(),
        month: now.month(),
        day: now.day(),
        hour: now.hour(),
        minute: now.minute(),
        second: now.second(),
        rfc3339: now.to_rfc3339(),
    }
}

pub open spec fn digit(n: nat) -> char {
    ((n % 10 + 48) as u8) as char
}

/// The decimal digits of `n`.
pub open spec fn decimal(n: nat) -> Seq<char>
    decreases n,
{
    if n < 10 {
        seq![digit(n)]
    } else {
        decimal(n / 10).push(digit(n))
    }
}

/// `n` in decimal, with leading zeros up to `width` digits.
pub open spec fn padded(n: nat, width: nat) -> Seq<char> {
    let d = decimal(n);
    if d.len() >= width {
        d
    } else {
        Seq::new((width - d.len()) as nat, |i: int| '0') + d
    }
}

/// A year as `%Y` writes it: four digits at least, and a sign outside 0 to
/// 9999.
pub open spec fn year_text(y: int) -> Seq<char> {
    if 0 <= y <= 9999 {
        padded(y as nat, 4)
    } else if y > 9999 {
        seq!['+'] + decimal(y as nat)
    } else {
        seq!['-'] + padded((-y) as nat, 4)
    }
}

/// The release name of a clock reading: `YYYYMMDD-HHMMSS`.
pub open spec fn release_name_spec(t: LocalTime) -> Seq<char> {
    year_text(t.year as int) + padded(t.month as nat, 2) + padded(t.day as nat, 2) + seq!['-']
        + padded(t.hour as nat, 2) + padded(t.minute as nat, 2) + padded(t.second as nat, 2)
}

pub(crate) fn push_decimal(out: &mut String, n: u64)
    ensures
        final(out)@ == old(out)@ + decimal(n as nat),
    decreases n,
{
    if n < 10 {
        out.push(((n + 48) as u8) as char);
        assert(decimal(n as nat) == seq![digit(n as nat)]);
    } else {
        push_decimal(out, n / 10);
        out.push(((n % 10 + 48) as u8) as char);
        assert(decimal(n as nat) == decimal((n / 10) as nat).push(digit(n as nat)));
    }
}

fn decimal_len(n: u64) -> (r: u64)
    ensures
        r as nat == decimal(n as nat).len(),
        r as int <= n as int + 1,
    decreases n,
{
    if n < 10 {
        1
    } else {
        proof {
            assert(decimal(n as nat) == decimal((n / 10) as nat).push(digit(n as nat)));
        }
        decimal_len(n / 10) + 1
    }
}

fn push_padded(out: &mut String, n: u64, width: u64)
    ensures
        final(out)@ == old(out)@ + padded(n as nat, width as nat),
{
    let ghost o = out@;
    let len = decimal_len(n);
    if len < width {
        let mut k: u64 = 0;
        while k < width - len
            invariant
                len < width,
                k <= width - len,
                out@ == o + Seq::new(k as nat, |i: int| '0'),
            decreases width - len - k,
        {
            out.push('0');
            k = k + 1;
            assert(out@ =~= o + Seq::new(k as nat, |i: int| '0'));
        }
    }
    let ghost mid = out@;
    push_decimal(out, n);
    assert(out@ =~= o + padded(n as nat, width as nat));
}

/// The release name of a clock reading, `YYYYMMDD-HHMMSS`.
pub fn release_name_for(t: &LocalTime) -> (r: String)
    ensures
        r@ == release_name_spec(*t),
{
    let mut r = String::new();
    if 0 <= t.year && t.year <= 9999 {
        push_padded(&mut r, t.year as u64, 4);
    } else if t.year > 9999 {
        r.push('+');
        push_decimal(&mut r, t.year as u64);
    } else {
        r.push('-');
        push_padded(&mut r, (-(t.year as i64)) as u64, 4);
    }
    let ghost y = r@;
    push_padded(&mut r, t.month as u64, 2);
    push_padded(&mut r, t.day as u64, 2);
    r.push('-');
    push_padded(&mut r, t.hour as u64, 2);
    push_padded(&mut r, t.minute as u64, 2);
    push_padded(&mut r, t.second as u64, 2);
    assert(y =~= year_text(t.year as int));
    assert(r@ =~= release_name_spec(*t));
    r
}

/// One deployable release, named by the time it was made.
#[derive(Debug)]
pub struct Release {
    pub name: String,
}

impl Release {
    /// A release named after the local time now.
    pub fn new() -> (r: Release)
        ensures
            exists|t: LocalTime| t.wf() && r.name@ == release_name_spec(t),
    {
        let now = local_now();
        let r = Release::at(&now);
        assert(now.wf() && r.name@ == release_name_spec(now));
        r
    }

    /// The release named after the clock reading `t`.
    pub fn at(t: &LocalTime) -> (r: Release)
        ensures
            r.name@ == release_name_spec(*t),
    {
        Release { name: release_name_for(t) }
    }
}

} // verus!
