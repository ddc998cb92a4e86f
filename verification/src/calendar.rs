//! Dates and times of day out of a count of seconds.
use vstd::prelude::*;
use vstd::string::*;
use crate::text;
use crate::text::{decimal_text, joined3, pad, signed_text};

verus! {

/// A leap year: every fourth, but not every hundredth, but every four
/// hundredth.
#[verifier::opaque]
pub open spec fn is_leap(y: int) -> bool {
    y % 4 == 0 && (y % 100 != 0 || y % 400 == 0)
}

/// Days in a month.
pub open spec fn month_days(y: int, m: int) -> int {
    if m == 2 {
        if is_leap(y) { 29 } else { 28 }
    } else if m == 4 || m == 6 || m == 9 || m == 11 {
        30
    } else {
        31
    }
}

/// A date that is on the calendar.
pub open spec fn is_date(y: int, m: int, d: int) -> bool {
    1 <= m <= 12 && 1 <= d <= month_days(y, m)
}

/// Leap days in the years up to and with `y`, counted from the year 0.
#[verifier::opaque]
pub open spec fn leap_days(y: int) -> int {
    y / 4 - y / 100 + y / 400
}

/// Days in the months of a year before `m`.
pub open spec fn days_before_month(y: int, m: int) -> int
    decreases m,
{
    if m <= 1 {
        0
    } else {
        days_before_month(y, m - 1) + month_days(y, m - 1)
    }
}

/// Days from the first day of the year 0 to the first of `y`.
pub open spec fn days_before_year(y: int) -> int {
    365 * y + leap_days(y - 1)
}

/// Days from 1970-01-01 to a date.
pub open spec fn days_since_1970(y: int, m: int, d: int) -> int {
    days_before_year(y) - days_before_year(1970) + days_before_month(y, m) + d - 1
}

/// Each year adds its leap day to the count, and no other.
proof fn lemma_leap_days(y: int)
    ensures
        leap_days(y) == leap_days(y - 1) + (if is_leap(y) { 1int } else { 0 }),
{
    reveal(leap_days);
    reveal(is_leap);
    let q = y / 400;
    let r = y % 400;
    assert(y == 400 * q + r);
    assert(y / 4 == 100 * q + r / 4 && y % 4 == r % 4);
    assert(y / 100 == 4 * q + r / 100 && y % 100 == r % 100);
    if r == 0 {
        assert((y - 1) / 4 == 100 * q - 1);
        assert((y - 1) / 100 == 4 * q - 1);
        assert((y - 1) / 400 == q - 1);
    } else {
        assert((y - 1) / 4 == 100 * q + (r - 1) / 4);
        assert((y - 1) / 100 == 4 * q + (r - 1) / 100);
        assert((y - 1) / 400 == q);
        assert(r % 4 == 0 ==> r / 4 == (r - 1) / 4 + 1);
        assert(r % 4 != 0 ==> r / 4 == (r - 1) / 4);
        assert(r % 100 == 0 ==> r / 100 == (r - 1) / 100 + 1);
        assert(r % 100 != 0 ==> r / 100 == (r - 1) / 100);
        assert(r % 100 == 0 ==> r % 4 == 0);
    }
}

/// A cycle of four hundred years repeats.
proof fn lemma_leap_cycle(era: int, yoe: int)
    requires
        0 <= yoe < 400,
    ensures
        leap_days(400 * era + yoe) == 97 * era + yoe / 4 - yoe / 100,
{
    reveal(leap_days);
    assert((400 * era + yoe) / 4 == 100 * era + yoe / 4);
    assert((400 * era + yoe) / 100 == 4 * era + yoe / 100);
    assert((400 * era + yoe) / 400 == era + yoe / 400);
}

proof fn lemma_year_of_era(doe: u32)
    requires
        doe < 146_097,
    ensures
        ({
            let yoe = ((doe - doe / 1460 + doe / 36_524 - doe / 146_096) / 365) as int;
            let doy = doe - (365 * yoe + yoe / 4 - yoe / 100);
            &&& 0 <= yoe < 400
            &&& 0 <= doy <= 365
            &&& doy == 365 ==> (yoe + 1) % 4 == 0 && ((yoe + 1) % 100 != 0 || yoe + 1 == 400)
        }),
{
    let yoe: u32 = ((doe - doe / 1460 + doe / 36_524 - doe / 146_096) / 365) as u32;
    assert(({
        let yoe: u32 = ((doe - doe / 1460 + doe / 36_524 - doe / 146_096) / 365) as u32;
        &&& yoe < 400
        &&& 365 * yoe + yoe / 4 - yoe / 100 <= doe
        &&& doe - (365 * yoe + yoe / 4 - yoe / 100) <= 365
        &&& doe - (365 * yoe + yoe / 4 - yoe / 100) == 365 ==> (yoe + 1) % 4 == 0 && ((yoe + 1) % 100 != 0
            || yoe + 1 == 400)
    })) by (bit_vector)
        requires
            doe < 146_097,
    ;
}

/// Days from the first of March to the first of the `mp`th month after it.
pub open spec fn march_offset(mp: int) -> int {
    (153 * mp + 2) / 5
}

/// The months from March on, put in a table: the day counts before each, and
/// the lengths.
proof fn lemma_march_months(y: int, mp: int)
    requires
        0 <= mp <= 11,
    ensures
        mp < 10 ==> days_before_month(y, mp + 3) == 59 + (if is_leap(y) { 1int } else { 0 }) + march_offset(mp),
        mp >= 10 ==> days_before_month(y, mp - 9) == march_offset(mp) - 306,
        mp < 10 ==> march_offset(mp + 1) - march_offset(mp) == month_days(y, mp + 3),
        mp == 10 ==> march_offset(mp + 1) - march_offset(mp) == month_days(y, 1),
{
    reveal_with_fuel(days_before_month, 13);
    if mp == 0 {
    } else if mp == 1 {
    } else if mp == 2 {
    } else if mp == 3 {
    } else if mp == 4 {
    } else if mp == 5 {
    } else if mp == 6 {
    } else if mp == 7 {
    } else if mp == 8 {
    } else if mp == 9 {
    } else if mp == 10 {
    } else {
    }
}

/// Where a day of a year counted from March falls within its month.
proof fn lemma_month_of_day(y: int, doy: int, mp: int)
    requires
        0 <= doy <= 365,
        mp == (5 * doy + 2) / 153,
        doy == 365 ==> is_leap(y + 1),
    ensures
        0 <= mp <= 11,
        march_offset(mp) <= doy,
        mp < 10 ==> doy - march_offset(mp) < month_days(y, mp + 3),
        mp >= 10 ==> doy - march_offset(mp) < month_days(y + 1, mp - 9),
{
    assert(153 * mp <= 5 * doy + 2 < 153 * (mp + 1));
    assert(0 <= mp <= 11);
    lemma_march_months(y, mp);
    lemma_march_months(y + 1, mp);
    if mp < 11 {
        assert(doy < march_offset(mp + 1));
    }
}

/// A year of a cycle, counted from March, and a day of it make a date.
proof fn lemma_civil(era: int, yoe: int, doy: int, mp: int)
    requires
        0 <= yoe < 400,
        0 <= doy <= 365,
        mp == (5 * doy + 2) / 153,
        doy == 365 ==> (yoe + 1) % 4 == 0 && ((yoe + 1) % 100 != 0 || yoe + 1 == 400),
    ensures
        0 <= mp <= 11,
        march_offset(mp) <= doy,
        ({
            let y = 400 * era + yoe + (if mp < 10 { 0int } else { 1 });
            let m = if mp < 10 { mp + 3 } else { mp - 9 };
            let d = doy - march_offset(mp) + 1;
            &&& is_date(y, m, d)
            &&& days_since_1970(y, m, d) == 146_097 * era + 365 * yoe + yoe / 4 - yoe / 100 + doy - 719_468
        }),
{
    let y = 400 * era + yoe;
    lemma_next_leap(era, yoe);
    lemma_month_of_day(y, doy, mp);
    lemma_civil_days(era, yoe, doy, mp);
}

proof fn lemma_next_leap(era: int, yoe: int)
    requires
        0 <= yoe < 400,
    ensures
        is_leap(400 * era + yoe + 1) == ((yoe + 1) % 4 == 0 && ((yoe + 1) % 100 != 0 || yoe + 1 == 400)),
{
    reveal(is_leap);
    let y = 400 * era + yoe + 1;
    assert(y % 4 == (yoe + 1) % 4);
    assert(y % 100 == (yoe + 1) % 100);
    assert(y % 400 == (yoe + 1) % 400);
}

proof fn lemma_civil_days(era: int, yoe: int, doy: int, mp: int)
    requires
        0 <= yoe < 400,
        0 <= mp <= 11,
    ensures
        ({
            let y = 400 * era + yoe + (if mp < 10 { 0int } else { 1 });
            let m = if mp < 10 { mp + 3 } else { mp - 9 };
            let d = doy - march_offset(mp) + 1;
            days_since_1970(y, m, d) == 146_097 * era + 365 * yoe + yoe / 4 - yoe / 100 + doy - 719_468
        }),
{
    let y = 400 * era + yoe;
    lemma_leap_cycle(era, yoe);
    lemma_leap_days(y);
    lemma_march_months(y, mp);
    lemma_march_months(y + 1, mp);
    assert(days_before_year(1970) == 719_527) by {
        reveal(leap_days);
    }
}

/// The date that many days after 1970-01-01 (before it, for a negative
/// number). The year is counted from March inside, which puts the leap day
/// last.
pub fn civil_from_days(z: i64) -> (r: (i64, u32, u32))
    requires
        z <= i64::MAX - 719_468,
    ensures
        is_date(r.0 as int, r.1 as int, r.2 as int),
        days_since_1970(r.0 as int, r.1 as int, r.2 as int) == z,
{
    let (era, doe): (i64, i64) = floor_div(z + 719_468, 146_097);
    let yoe: i64 = (doe - doe / 1460 + doe / 36_524 - doe / 146_096) / 365;
    proof {
        lemma_year_of_era(doe as u32);
    }
    let doy: i64 = doe - (365 * yoe + yoe / 4 - yoe / 100);
    let mp: i64 = (5 * doy + 2) / 153;
    proof {
        lemma_civil(era as int, yoe as int, doy as int, mp as int);
    }
    let d: u32 = (doy - (153 * mp + 2) / 5 + 1) as u32;
    let m: u32 = (if mp < 10 { mp + 3 } else { mp - 9 }) as u32;
    let y: i64 = yoe + era * 400 + (if m <= 2 { 1 } else { 0 });
    (y, m, d)
}

/// Division that rounds down, and what is left over.
fn floor_div(a: i64, b: i64) -> (r: (i64, i64))
    requires
        b > 0,
    ensures
        r.0 == (a as int) / (b as int),
        r.1 == (a as int) % (b as int),
        0 <= r.1 < b,
        a == r.0 * b + r.1,
{
    proof {
        vstd::arithmetic::div_mod::lemma_fundamental_div_mod(a as int, b as int);
        vstd::arithmetic::mul::lemma_mul_is_commutative(b as int, (a as int) / (b as int));
    }
    if a >= 0 {
        (a / b, a % b)
    } else {
        // -1 - a is not negative: `a` rounds down where that rounds up.
        let up: i64 = -1 - a;
        let q: i64 = up / b;
        let r: i64 = up % b;
        proof {
            vstd::arithmetic::div_mod::lemma_fundamental_div_mod(up as int, b as int);
            vstd::arithmetic::mul::lemma_mul_is_commutative(b as int, q as int);
            assert(a == (-1 - q) * b + (b - 1 - r)) by (nonlinear_arith)
                requires
                    up == -1 - a,
                    up == q * b + r,
            ;
            vstd::arithmetic::div_mod::lemma_fundamental_div_mod_converse(
                a as int,
                b as int,
                -1 - q as int,
                b - 1 - r as int,
            );
        }
        (-1 - q, b - 1 - r)
    }
}

// ------------------------------------------------------ one date to a day

proof fn lemma_month_steps(y: int, a: int, b: int)
    requires
        1 <= a < b <= 13,
    ensures
        days_before_month(y, a) + month_days(y, a) <= days_before_month(y, b),
    decreases b - a,
{
    if a + 1 < b {
        lemma_month_steps(y, a, b - 1);
        assert(days_before_month(y, b) == days_before_month(y, b - 1) + month_days(y, b - 1));
    } else {
        assert(days_before_month(y, b) == days_before_month(y, a) + month_days(y, a));
    }
}

proof fn lemma_year_length(y: int)
    ensures
        days_before_month(y, 13) == 365 + (if is_leap(y) { 1int } else { 0 }),
        days_before_year(y + 1) == days_before_year(y) + 365 + (if is_leap(y) { 1int } else { 0 }),
{
    reveal_with_fuel(days_before_month, 14);
    lemma_leap_days(y);
}

proof fn lemma_years_grow(a: int, b: int)
    requires
        a <= b,
    ensures
        days_before_year(a) <= days_before_year(b),
    decreases b - a,
{
    if a < b {
        lemma_years_grow(a, b - 1);
        lemma_year_length(b - 1);
    }
}

proof fn lemma_day_in_year(y: int, m: int, d: int)
    requires
        is_date(y, m, d),
    ensures
        0 <= days_before_month(y, m) + d - 1,
        days_before_year(y) + days_before_month(y, m) + d - 1 < days_before_year(y + 1),
{
    lemma_year_length(y);
    lemma_month_steps(y, m, 13);
    if m > 1 {
        lemma_month_steps(y, 1, m);
    }
}

/// A day has one date: two dates the same number of days from 1970 are the
/// same date.
pub proof fn a_day_has_one_date(y: int, m: int, d: int, y2: int, m2: int, d2: int)
    requires
        is_date(y, m, d),
        is_date(y2, m2, d2),
        days_since_1970(y, m, d) == days_since_1970(y2, m2, d2),
    ensures
        y == y2 && m == m2 && d == d2,
{
    lemma_day_in_year(y, m, d);
    lemma_day_in_year(y2, m2, d2);
    if y < y2 {
        lemma_years_grow(y + 1, y2);
    } else if y2 < y {
        lemma_years_grow(y2 + 1, y);
    } else if m < m2 {
        lemma_month_steps(y, m, m2);
    } else if m2 < m {
        lemma_month_steps(y, m2, m);
    }
}

// ------------------------------------------------------------- the columns

/// Whether a number of seconds since 1970 can be put on the calendar in a
/// zone that many minutes from UTC.
pub open spec fn stampable(secs: u64, offset: i64) -> bool {
    let local = secs + offset * 60;
    &&& secs <= i64::MAX
    &&& i64::MIN <= offset * 60 <= i64::MAX
    &&& i64::MIN <= local <= i64::MAX
}

/// Two digits.
pub open spec fn two(n: int) -> Seq<char> {
    text::padded(text::decimal(n as nat), '0', 2)
}

/// A date and a time of day as a list shows them, day first.
pub open spec fn date_text(y: int, m: int, d: int, minutes: int) -> Seq<char> {
    two(d) + "."@ + two(m) + "."@ + text::signed_decimal(y) + " "@ + two(minutes / 60) + ":"@ + two(minutes % 60)
}

fn two_digits(n: u64) -> (r: String)
    ensures
        r@ == two(n as int),
{
    let t: String = decimal_text(n);
    pad(t.as_str(), '0', 2)
}

/// "26.07.2026 10:33": a number of seconds since 1970, viewed from a zone
/// that many minutes ahead of UTC. Nothing for a time that is not known.
pub fn stamp(since: Option<u64>, utc_offset_min: i64) -> (r: String)
    requires
        match since {
            Some(secs) => stampable(secs, utc_offset_min),
            None => true,
        },
    ensures
        match since {
            Some(secs) => {
                let local = secs + utc_offset_min * 60;
                exists|y: int, m: int, d: int|
                    is_date(y, m, d) && days_since_1970(y, m, d) == local / 86_400 && r@ == #[trigger] date_text(
                        y,
                        m,
                        d,
                        (local % 86_400) / 60,
                    )
            },
            None => r@.len() == 0,
        },
{
    let secs: u64 = match since {
        Some(secs) => secs,
        None => {
            return String::new();
        },
    };
    let local: i64 = secs as i64 + utc_offset_min * 60;
    let (days, of_day): (i64, i64) = floor_div(local, 86_400);
    let (y, m, d) = civil_from_days(days);
    let day: String = two_digits(d as u64);
    let month: String = two_digits(m as u64);
    let year: String = signed_text(y);
    let hour: String = two_digits((of_day / 3600) as u64);
    let minute: String = two_digits(((of_day % 3600) / 60) as u64);
    let mut out: String = joined3(day.as_str(), ".", month.as_str());
    out.append(".");
    out.append(year.as_str());
    out.append(" ");
    out.append(hour.as_str());
    out.append(":");
    out.append(minute.as_str());
    proof {
        let minutes = (of_day as int) / 60;
        assert(minutes / 60 == (of_day as int) / 3600);
        assert(minutes % 60 == ((of_day as int) % 3600) / 60);
        assert(out@ =~= date_text(y as int, m as int, d as int, minutes));
    }
    out
}

/// Whole kilobytes, rounded up, and at least one.
pub open spec fn kilobytes(bytes: nat) -> nat {
    if bytes <= 1024 { 1 } else { (bytes + 1023) / 1024 }
}

/// The digits from `i` on with a dot before every group of three.
pub open spec fn grouped(s: Seq<char>, i: int) -> Seq<char>
    decreases s.len() - i,
{
    if i < 0 || i >= s.len() {
        Seq::empty()
    } else if i > 0 && (s.len() - i) % 3 == 0 {
        seq!['.', s[i]] + grouped(s, i + 1)
    } else {
        seq![s[i]] + grouped(s, i + 1)
    }
}

/// "30 KB", with the thousands separated.
pub fn kb_size(bytes: u64) -> (r: String)
    ensures
        r@ == grouped(text::decimal(kilobytes(bytes as nat)), 0) + " KB"@,
{
    let whole: u64 = bytes / 1024;
    let up: u64 = if bytes % 1024 == 0 { whole } else { whole + 1 };
    let kb: u64 = if up == 0 { 1 } else { up };
    assert(kb == kilobytes(bytes as nat));
    let t: String = decimal_text(kb);
    let v: Vec<char> = text::chars_of(t.as_str());
    let mut out: String = String::new();
    let mut i: usize = 0;
    assert(out@ + grouped(v@, 0) =~= grouped(v@, 0));
    while i < v.len()
        invariant
            i <= v.len(),
            out@ + grouped(v@, i as int) == grouped(v@, 0),
        decreases v.len() - i,
    {
        let ghost was = out@;
        if i > 0 && (v.len() - i) % 3 == 0 {
            out.push('.');
        }
        out.push(v[i]);
        assert(out@ + grouped(v@, i + 1) =~= was + grouped(v@, i as int));
        i = i + 1;
    }
    assert(out@ =~= grouped(v@, 0));
    out.append(" KB");
    out
}

// ------------------------------------------------------------- the offset

/// What a clock on the wall shows.
#[derive(Clone, Copy, Debug, PartialEq, Eq, Structural)]
pub struct Clock {
    pub year: u16,
    pub month: u16,
    pub day: u16,
    pub hour: u16,
    pub minute: u16,
}

/// A time that is on the calendar.
pub open spec fn is_time(c: Clock) -> bool {
    is_date(c.year as int, c.month as int, c.day as int) && c.hour < 24 && c.minute < 60
}

/// Minutes from the start of 1970 to what a clock shows.
pub open spec fn minutes_since_1970(c: Clock) -> int {
    days_since_1970(c.year as int, c.month as int, c.day as int) * 1440 + c.hour * 60 + c.minute
}

/// Minutes into the month.
pub open spec fn minutes_of_month(c: Clock) -> int {
    c.day * 1440 + c.hour * 60 + c.minute
}

/// Minutes in the whole month a clock's date is in: the wrap distance when
/// two clocks straddle the end of it.
pub open spec fn month_minutes(c: Clock) -> int {
    month_days(c.year as int, c.month as int) * 1440
}

/// The distance of a local clock from one on UTC, in minutes. The two can sit
/// on either side of both midnight and the end of a month; anything beyond
/// fourteen hours can only be a month's worth of days, that of the month that
/// is ending.
pub open spec fn clock_gap(local: Clock, utc: Clock) -> int {
    let gap = minutes_of_month(local) - minutes_of_month(utc);
    if gap > 14 * 60 {
        gap - month_minutes(local)
    } else if gap < -14 * 60 {
        gap + month_minutes(utc)
    } else {
        gap
    }
}

fn tail_of_month(c: &Clock) -> (r: i64)
    ensures
        r == month_minutes(*c),
{
    proof {
        reveal(is_leap);
    }
    let y: u16 = c.year;
    let leap: bool = y % 4 == 0 && (y % 100 != 0 || y % 400 == 0);
    let days: i64 = match c.month {
        2 => if leap { 29 } else { 28 },
        4 | 6 | 9 | 11 => 30,
        _ => 31,
    };
    days * 1440
}

/// The wall clock's distance from UTC, in minutes, measured by comparing the
/// two clocks rather than by reading time zone rules.
pub fn utc_offset_minutes(local: Clock, utc: Clock) -> (r: i64)
    ensures
        r == clock_gap(local, utc),
{
    let l: i64 = local.day as i64 * 1440 + local.hour as i64 * 60 + local.minute as i64;
    let u: i64 = utc.day as i64 * 1440 + utc.hour as i64 * 60 + utc.minute as i64;
    let gap: i64 = l - u;
    if gap > 14 * 60 {
        gap - tail_of_month(&local)
    } else if gap < -14 * 60 {
        gap + tail_of_month(&utc)
    } else {
        gap
    }
}

/// The day after a date.
pub open spec fn day_after(y: int, m: int, d: int) -> (int, int, int) {
    if d < month_days(y, m) {
        (y, m, d + 1)
    } else if m < 12 {
        (y, m + 1, 1)
    } else {
        (y + 1, 1, 1)
    }
}

proof fn lemma_day_after(y: int, m: int, d: int)
    requires
        is_date(y, m, d),
    ensures
        ({
            let (y2, m2, d2) = day_after(y, m, d);
            is_date(y2, m2, d2) && days_since_1970(y2, m2, d2) == days_since_1970(y, m, d) + 1
        }),
{
    lemma_year_length(y);
    if d == month_days(y, m) {
        if m < 12 {
            assert(days_before_month(y, m + 1) == days_before_month(y, m) + month_days(y, m));
        } else {
            assert(days_before_month(y, 13) == days_before_month(y, 12) + month_days(y, 12));
            assert(days_before_month(y + 1, 1) == 0);
        }
    }
}

/// What the two clocks give is how far apart they really are, wherever the
/// day or the month ends between them, as long as that is no more than
/// fourteen hours.
pub proof fn the_two_clocks_give_the_offset(local: Clock, utc: Clock)
    requires
        is_time(local),
        is_time(utc),
        -14 * 60 <= minutes_since_1970(local) - minutes_since_1970(utc) <= 14 * 60,
    ensures
        clock_gap(local, utc) == minutes_since_1970(local) - minutes_since_1970(utc),
{
    let (ly, lm, ld) = (local.year as int, local.month as int, local.day as int);
    let (uy, um, ud) = (utc.year as int, utc.month as int, utc.day as int);
    let apart = days_since_1970(ly, lm, ld) - days_since_1970(uy, um, ud);
    assert(-1 <= apart <= 1);
    if apart == 0 {
        a_day_has_one_date(ly, lm, ld, uy, um, ud);
    } else if apart == 1 {
        lemma_day_after(uy, um, ud);
        let (y, m, d) = day_after(uy, um, ud);
        a_day_has_one_date(ly, lm, ld, y, m, d);
    } else {
        lemma_day_after(ly, lm, ld);
        let (y, m, d) = day_after(ly, lm, ld);
        a_day_has_one_date(uy, um, ud, y, m, d);
    }
}

/// A year is 365 days long, and 366 where it is a leap year. The first of
/// January 1970 is day 0.
pub proof fn years_have_their_length(y: int)
    ensures
        days_since_1970(1970, 1, 1) == 0,
        is_leap(y) ==> days_since_1970(y + 1, 1, 1) - days_since_1970(y, 1, 1) == 366,
        !is_leap(y) ==> days_since_1970(y + 1, 1, 1) - days_since_1970(y, 1, 1) == 365,
{
    lemma_year_length(y);
}

/// Every fourth year is a leap year, but for three centuries in four.
pub proof fn leap_years(y: int)
    ensures
        y % 4 != 0 ==> !is_leap(y),
        y % 4 == 0 && y % 100 != 0 ==> is_leap(y),
        y % 400 == 0 ==> is_leap(y),
        y % 100 == 0 && y % 400 != 0 ==> !is_leap(y),
{
    reveal(is_leap);
}

/// The day after a date is one day further on, over the end of a month and
/// of a year.
pub proof fn the_next_day_is_one_further(y: int, m: int, d: int)
    requires
        is_date(y, m, d),
    ensures
        d < month_days(y, m) ==> days_since_1970(y, m, d + 1) == days_since_1970(y, m, d) + 1,
        d == month_days(y, m) && m < 12 ==> days_since_1970(y, m + 1, 1) == days_since_1970(y, m, d) + 1,
        m == 12 && d == 31 ==> days_since_1970(y + 1, 1, 1) == days_since_1970(y, m, d) + 1,
        month_days(y, 1) == 31 && month_days(y, 3) == 31 && month_days(y, 4) == 30 && month_days(y, 12) == 31,
        month_days(y, 2) == (if is_leap(y) { 29int } else { 28 }),
{
    lemma_day_after(y, m, d);
}

/// A size is shown in whole kilobytes, rounded up, and nothing is smaller
/// than one.
pub proof fn sizes_are_rounded_up(bytes: nat)
    ensures
        bytes > 0 ==> 1024 * (kilobytes(bytes) - 1) < bytes <= 1024 * kilobytes(bytes),
        bytes == 0 ==> kilobytes(bytes) == 1,
{
}

/// Long numbers are parted into groups of three from the right.
pub proof fn digits_stand_in_threes(s: Seq<char>, t: Seq<char>)
    requires
        t.len() == 3,
    ensures
        s.len() <= 3 ==> grouped(s, 0) == s,
        s.len() > 0 ==> grouped(s + t, 0) == grouped(s, 0) + seq!['.'] + t,
{
    if s.len() <= 3 {
        reveal_with_fuel(grouped, 5);
        assert(grouped(s, 0) =~= s);
    }
    if s.len() > 0 {
        lemma_grouped_front(s, t, 0);
    }
}

proof fn lemma_grouped_front(s: Seq<char>, t: Seq<char>, i: int)
    requires
        t.len() == 3,
        0 <= i <= s.len(),
        s.len() > 0,
    ensures
        grouped(s + t, i) == grouped(s, i) + seq!['.'] + t,
    decreases s.len() - i,
{
    let all = s + t;
    if i < s.len() {
        lemma_grouped_front(s, t, i + 1);
        assert((all.len() - i) % 3 == (s.len() - i) % 3);
        assert(all[i] == s[i]);
        assert(grouped(all, i) =~= grouped(s, i) + seq!['.'] + t);
    } else {
        reveal_with_fuel(grouped, 5);
        assert(grouped(all, i) =~= seq!['.'] + t);
        assert(grouped(s, i) + seq!['.'] + t =~= seq!['.'] + t);
    }
}

/// A date is written day, month, year, hour and minute, the day and the
/// month and the time in two digits each.
pub proof fn a_date_reads_day_first(y: int, m: int, d: int, minutes: int)
    requires
        is_date(y, m, d),
        0 <= minutes < 1440,
    ensures
        ({
            let digits = |n: int| if n < 10 { "0"@ + text::decimal(n as nat) } else { text::decimal(n as nat) };
            date_text(y, m, d, minutes) == digits(d) + "."@ + digits(m) + "."@ + text::signed_decimal(y) + " "@ + digits(
                minutes / 60,
            ) + ":"@ + digits(minutes % 60)
        }),
{
    reveal_strlit("0");
    assert("0"@ =~= seq!['0']);
    text::lemma_two_digits(d as nat);
    text::lemma_two_digits(m as nat);
    text::lemma_two_digits((minutes / 60) as nat);
    text::lemma_two_digits((minutes % 60) as nat);
}

} // verus!
