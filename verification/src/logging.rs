//! Log output: which targets are written, how a level is labelled, and the
//! calendar date and time stamped on every line.
use vstd::prelude::*;
use crate::text::{
    append_chars, append_str, chars_of, decimal, decimal_chars, has_prefix, starts_with_chars,
    string_of, zero_pad, zero_pad_chars,
};

verus! {

// ---------------------------------------------------------------------------
// The proleptic Gregorian calendar
// ---------------------------------------------------------------------------

/// A leap year of the Gregorian calendar.
pub open spec fn is_leap_year(y: int) -> bool {
    y % 4 == 0 && (y % 100 != 0 || y % 400 == 0)
}

/// The number of days of month `m` (1 to 12) of year `y`.
pub open spec fn month_length(y: int, m: int) -> int {
    if m == 2 {
        if is_leap_year(y) { 29 } else { 28 }
    } else if m == 4 || m == 6 || m == 9 || m == 11 {
        30
    } else {
        31
    }
}

/// The number of days from 1 January of year 0 to 1 January of year `y`,
/// for `y >= 0`.
pub open spec fn days_before_year(y: int) -> int {
    365 * y + (y + 3) / 4 - (y + 99) / 100 + (y + 399) / 400
}

/// The number of days before month `m` in a year that is not a leap year.
pub open spec fn days_before_month_common(m: int) -> int {
    if m == 1 { 0 } else if m == 2 { 31 } else if m == 3 { 59 } else if m == 4 { 90 }
    else if m == 5 { 120 } else if m == 6 { 151 } else if m == 7 { 181 } else if m == 8 { 212 }
    else if m == 9 { 243 } else if m == 10 { 273 } else if m == 11 { 304 } else { 334 }
}

/// The number of days from 1 January of year `y` to the first of month `m`.
pub open spec fn days_before_month(y: int, m: int) -> int {
    days_before_month_common(m) + if m > 2 && is_leap_year(y) { 1int } else { 0int }
}

/// A valid date: year `y`, month `m` (1 to 12), day `d` of that month.
pub open spec fn is_date(y: int, m: int, d: int) -> bool {
    1 <= m <= 12 && 1 <= d <= month_length(y, m)
}

/// The number of days from 1 January 1970 to the date.
pub open spec fn days_since_epoch(y: int, m: int, d: int) -> int {
    days_before_year(y) + days_before_month(y, m) + d - 1 - days_before_year(1970)
}

spec fn march_years_days(yoe: int) -> int {
    365 * yoe + yoe / 4 - yoe / 100
}

spec fn leap_in_era(n: int) -> int {
    if n % 4 == 0 && (n % 100 != 0 || n % 400 == 0) { 1 } else { 0 }
}

#[verifier::rlimit(60)]
proof fn lemma_yoe(doe: int)
    requires
        0 <= doe < 146097,
    ensures
        ({
            let yoe = (doe - doe / 1460 + doe / 36524 - doe / 146096) / 365;
            &&& 0 <= yoe < 400
            &&& march_years_days(yoe) <= doe
            &&& doe < march_years_days(yoe) + 365 + leap_in_era(yoe + 1)
        }),
{
}

proof fn lemma_era_years(era: int, k: int)
    requires
        era >= 0,
        0 <= k <= 400,
    ensures
        days_before_year(era * 400 + k) == era * 146097 + days_before_year(k),
        is_leap_year(era * 400 + k) <==> leap_in_era(k) == 1,
{
    let y = era * 400 + k;
    assert((y + 3) / 4 == era * 100 + (k + 3) / 4);
    assert((y + 99) / 100 == era * 4 + (k + 99) / 100);
    assert((y + 399) / 400 == era + (k + 399) / 400);
    assert(y % 4 == k % 4);
    assert(y % 100 == k % 100);
    assert(y % 400 == k % 400);
}

proof fn lemma_year_offsets(yoe: int)
    requires
        0 <= yoe < 400,
    ensures
        days_before_year(yoe) - march_years_days(yoe) + leap_in_era(yoe) == 1,
        days_before_year(yoe + 1) == days_before_year(yoe) + 365 + leap_in_era(yoe),
{
}

proof fn lemma_month(doy: int)
    requires
        0 <= doy <= 365,
    ensures
        ({
            let mp = (5 * doy + 2) / 153;
            let d = doy - (153 * mp + 2) / 5 + 1;
            let m = if mp < 10 { mp + 3 } else { mp - 9 };
            &&& 0 <= mp <= 11
            &&& 1 <= d
            &&& m != 2 ==> d <= month_length(1, m)
            &&& m == 2 ==> d == doy - 336
            &&& mp < 10 ==> days_before_month_common(m) == (153 * mp + 2) / 5 + 59
            &&& mp >= 10 ==> days_before_month_common(m) + 306 == (153 * mp + 2) / 5
        }),
{
}

/// The date that the day-count algorithm computes for `z` days after
/// 1 March of year 0 is that many days after it.
proof fn lemma_civil(z: int)
    requires
        z >= 0,
    ensures
        ({
            let era = z / 146097;
            let doe = z - era * 146097;
            let yoe = (doe - doe / 1460 + doe / 36524 - doe / 146096) / 365;
            let y0 = yoe + era * 400;
            let doy = doe - (365 * yoe + yoe / 4 - yoe / 100);
            let mp = (5 * doy + 2) / 153;
            let d = doy - (153 * mp + 2) / 5 + 1;
            let m = if mp < 10 { mp + 3 } else { mp - 9 };
            let y = if m <= 2 { y0 + 1 } else { y0 };
            &&& is_date(y, m, d)
            &&& days_before_year(y) + days_before_month(y, m) + d - 1 == z + 60
        }),
{
    let era = z / 146097;
    let doe = z - era * 146097;
    assert(0 <= doe < 146097);
    lemma_yoe(doe);
    let yoe = (doe - doe / 1460 + doe / 36524 - doe / 146096) / 365;
    let doy = doe - (365 * yoe + yoe / 4 - yoe / 100);
    lemma_month(doy);
    lemma_year_offsets(yoe);
    let mp = (5 * doy + 2) / 153;
    if mp < 10 {
        lemma_era_years(era, yoe);
    } else {
        lemma_era_years(era, yoe + 1);
    }
}


proof fn lemma_years_grow(a: int, b: int)
    requires
        0 <= a <= b,
    ensures
        days_before_year(a) + 365 * (b - a) <= days_before_year(b),
    decreases b - a,
{
    if a < b {
        lemma_years_grow(a, b - 1);
        assert(days_before_year(b) >= days_before_year(b - 1) + 365);
    }
}

proof fn lemma_day_of_year(y: int, m: int, d: int)
    requires
        y >= 0,
        is_date(y, m, d),
    ensures
        0 <= days_before_month(y, m) + d - 1,
        days_before_year(y) + days_before_month(y, m) + d - 1 < days_before_year(y + 1),
{
}

proof fn lemma_months_grow(y: int, m1: int, d1: int, m2: int, d2: int)
    requires
        is_date(y, m1, d1),
        is_date(y, m2, d2),
        m1 < m2,
    ensures
        days_before_month(y, m1) + d1 < days_before_month(y, m2) + d2,
{
}

/// Distinct valid dates from year 0 on lie distinct numbers of days from
/// the epoch.
pub proof fn law_dates_have_distinct_day_counts(y1: int, m1: int, d1: int, y2: int, m2: int, d2: int)
    requires
        y1 >= 0,
        y2 >= 0,
        is_date(y1, m1, d1),
        is_date(y2, m2, d2),
        days_since_epoch(y1, m1, d1) == days_since_epoch(y2, m2, d2),
    ensures
        y1 == y2 && m1 == m2 && d1 == d2,
{
    lemma_day_of_year(y1, m1, d1);
    lemma_day_of_year(y2, m2, d2);
    if y1 < y2 {
        lemma_years_grow(y1 + 1, y2);
    }
    if y2 < y1 {
        lemma_years_grow(y2 + 1, y1);
    }
    if m1 < m2 {
        lemma_months_grow(y1, m1, d1, m2, d2);
    }
    if m2 < m1 {
        lemma_months_grow(y1, m2, d2, m1, d1);
    }
}

/// The date `days` days after 1 January 1970.
pub open spec fn civil_date(days: int) -> (int, int, int) {
    choose|t: (int, int, int)|
        t.0 >= 0 && is_date(t.0, t.1, t.2) && days_since_epoch(t.0, t.1, t.2) == days
}

/// Every day count from the epoch on names exactly one date, from 1970 on:
/// the date `civil_date` picks is valid and lies that many days after
/// 1 January 1970.
pub proof fn law_civil_date(days: int)
    requires
        days >= 0,
    ensures
        civil_date(days).0 >= 1970,
        is_date(civil_date(days).0, civil_date(days).1, civil_date(days).2),
        days_since_epoch(civil_date(days).0, civil_date(days).1, civil_date(days).2) == days,
{
    lemma_civil(days + 719468);
    let z = days + 719468;
    let era = z / 146097;
    let doe = z - era * 146097;
    let yoe = (doe - doe / 1460 + doe / 36524 - doe / 146096) / 365;
    let y0 = yoe + era * 400;
    let doy = doe - (365 * yoe + yoe / 4 - yoe / 100);
    let mp = (5 * doy + 2) / 153;
    let d = doy - (153 * mp + 2) / 5 + 1;
    let m = if mp < 10 {
        mp + 3
    } else {
        mp - 9
    };
    let y = if m <= 2 {
        y0 + 1
    } else {
        y0
    };
    assert(0 <= doe < 146097);
    lemma_yoe(doe);
    let t = (y, m, d);
    assert(t.0 >= 0 && is_date(t.0, t.1, t.2) && days_since_epoch(t.0, t.1, t.2) == days);
    let c = civil_date(days);
    law_dates_have_distinct_day_counts(c.0, c.1, c.2, t.0, t.1, t.2);
    if c.0 < 1970 {
        lemma_day_of_year(c.0, c.1, c.2);
        lemma_years_grow(c.0 + 1, 1970);
    }
}

/// The day after a valid date.
pub open spec fn next_day(y: int, m: int, d: int) -> (int, int, int) {
    if d < month_length(y, m) {
        (y, m, d + 1)
    } else if m < 12 {
        (y, m + 1, 1)
    } else {
        (y + 1, 1, 1)
    }
}

proof fn lemma_next_day(y: int, m: int, d: int)
    requires
        y >= 0,
        is_date(y, m, d),
    ensures
        is_date(next_day(y, m, d).0, next_day(y, m, d).1, next_day(y, m, d).2),
        next_day(y, m, d).0 >= 0,
        days_since_epoch(next_day(y, m, d).0, next_day(y, m, d).1, next_day(y, m, d).2)
            == days_since_epoch(y, m, d) + 1,
{
}

/// The epoch is 1 January 1970, and each day count is the day after the
/// one before it.
pub proof fn law_calendar_counts_days(days: int)
    requires
        days >= 0,
    ensures
        civil_date(0) == (1970int, 1int, 1int),
        civil_date(days + 1) == next_day(civil_date(days).0, civil_date(days).1, civil_date(days).2),
{
    law_civil_date(0);
    let c0 = civil_date(0);
    law_dates_have_distinct_day_counts(c0.0, c0.1, c0.2, 1970, 1, 1);
    law_civil_date(days);
    law_civil_date(days + 1);
    let c = civil_date(days);
    let n = next_day(c.0, c.1, c.2);
    lemma_next_day(c.0, c.1, c.2);
    let c1 = civil_date(days + 1);
    law_dates_have_distinct_day_counts(c1.0, c1.1, c1.2, n.0, n.1, n.2);
}

/// Year, month and day of the date `days` days after 1 January 1970. The
/// year is reduced to 32 bits.
pub fn days_to_date(days: u64) -> (res: (u32, u32, u32))
    requires
        days <= u64::MAX - 719468,
    ensures
        res.0 == civil_date(days as int).0 as u32,
        res.1 == civil_date(days as int).1,
        res.2 == civil_date(days as int).2,
        civil_date(days as int).0 >= 1970,
        is_date(civil_date(days as int).0, res.1 as int, res.2 as int),
        days_since_epoch(civil_date(days as int).0, res.1 as int, res.2 as int) == days,
{
    proof {
        law_civil_date(days as int);
    }
    let z = days + 719468;
    let era = z / 146097;
    let doe = z - era * 146097;
    let yoe = (doe - doe / 1460 + doe / 36524 - doe / 146096) / 365;
    let y = yoe + era * 400;
    proof {
        lemma_yoe(doe as int);
    }
    let doy = doe - (365 * yoe + yoe / 4 - yoe / 100);
    let mp = (5 * doy + 2) / 153;
    let d = doy - (153 * mp + 2) / 5 + 1;
    let m = if mp < 10 {
        mp + 3
    } else {
        mp - 9
    };
    let y = if m <= 2 {
        y + 1
    } else {
        y
    };
    proof {
        lemma_civil(z as int);
        let t = (y as int, m as int, d as int);
        assert(t.0 >= 0 && is_date(t.0, t.1, t.2) && days_since_epoch(t.0, t.1, t.2) == days);
        let c = civil_date(days as int);
        law_dates_have_distinct_day_counts(c.0, c.1, c.2, t.0, t.1, t.2);
    }
    (y as u32, m as u32, d as u32)
}

// ---------------------------------------------------------------------------
// Time stamps
// ---------------------------------------------------------------------------

/// `n` in decimal, padded with zeros to `width` digits.
pub open spec fn padded(n: nat, width: nat) -> Seq<char> {
    zero_pad(decimal(n), width)
}

/// The time stamp of a log line for `secs` seconds and `millis`
/// milliseconds after the epoch: `YYYY-MM-DD hh:mm:ss.mmm`.
pub open spec fn timestamp_text(secs: nat, millis: nat) -> Seq<char> {
    let date = civil_date((secs / 86400) as int);
    let time_of_day = secs % 86400;
    padded((date.0 as u32) as nat, 4) + "-"@ + padded(date.1 as nat, 2) + "-"@ + padded(
        date.2 as nat,
        2,
    ) + " "@ + padded(time_of_day / 3600, 2) + ":"@ + padded((time_of_day % 3600) / 60, 2) + ":"@
        + padded(time_of_day % 60, 2) + "."@ + padded(millis, 3)
}

fn padded_chars(n: u64, width: usize) -> (res: Vec<char>)
    ensures
        res@ == padded(n as nat, width as nat),
{
    zero_pad_chars(decimal_chars(n), width)
}

/// The time stamp of a log line for `secs` seconds and `millis`
/// milliseconds after the epoch.
pub fn format_timestamp(secs: u64, millis: u32) -> (res: String)
    ensures
        res@ == timestamp_text(secs as nat, millis as nat),
{
    let days = secs / 86400;
    let time_of_day = secs % 86400;
    let hours = time_of_day / 3600;
    let minutes = (time_of_day % 3600) / 60;
    let seconds = time_of_day % 60;
    let (year, month, day) = days_to_date(days);
    let mut v = padded_chars(year as u64, 4);
    append_str(&mut v, "-");
    append_chars(&mut v, &padded_chars(month as u64, 2));
    append_str(&mut v, "-");
    append_chars(&mut v, &padded_chars(day as u64, 2));
    append_str(&mut v, " ");
    append_chars(&mut v, &padded_chars(hours, 2));
    append_str(&mut v, ":");
    append_chars(&mut v, &padded_chars(minutes, 2));
    append_str(&mut v, ":");
    append_chars(&mut v, &padded_chars(seconds, 2));
    append_str(&mut v, ".");
    append_chars(&mut v, &padded_chars(millis as u64, 3));
    string_of(&v)
}

// ---------------------------------------------------------------------------
// Lines
// ---------------------------------------------------------------------------

/// The severity of a log record.
#[derive(Debug, Clone, Copy, PartialEq, Eq)]
pub enum LogLevel {
    Error,
    Warn,
    Info,
    Debug,
    Trace,
}

/// The label a level is written with, five characters wide.
pub open spec fn level_text(level: LogLevel) -> Seq<char> {
    match level {
        LogLevel::Error => "ERROR"@,
        LogLevel::Warn => " WARN"@,
        LogLevel::Info => " INFO"@,
        LogLevel::Debug => "DEBUG"@,
        LogLevel::Trace => "TRACE"@,
    }
}

pub fn level_label(level: LogLevel) -> (res: &'static str)
    ensures
        res@ == level_text(level),
{
    match level {
        LogLevel::Error => "ERROR",
        LogLevel::Warn => " WARN",
        LogLevel::Info => " INFO",
        LogLevel::Debug => "DEBUG",
        LogLevel::Trace => "TRACE",
    }
}

/// Whether records of `target` are written: those of the window and web
/// view libraries (`tao::`, `wry::`) are not.
pub open spec fn target_enabled(target: Seq<char>) -> bool {
    !has_prefix(target, "tao::"@) && !has_prefix(target, "wry::"@)
}

pub fn log_target_enabled(target: &str) -> (res: bool)
    ensures
        res == target_enabled(target@),
{
    let v = chars_of(target);
    let tao = chars_of("tao::");
    let wry = chars_of("wry::");
    !starts_with_chars(&v, &tao) && !starts_with_chars(&v, &wry)
}

/// One line of the log file: `[stamp] [LEVEL] message`.
pub fn log_line(timestamp: &str, level: LogLevel, message: &str) -> (res: String)
    ensures
        res@ == "["@ + timestamp@ + "] ["@ + level_text(level) + "] "@ + message@,
{
    let mut v = chars_of("[");
    append_str(&mut v, timestamp);
    append_str(&mut v, "] [");
    append_str(&mut v, level_label(level));
    append_str(&mut v, "] ");
    append_str(&mut v, message);
    string_of(&v)
}

// ---------------------------------------------------------------------------
// Panics
// ---------------------------------------------------------------------------

/// A source position as `file:line:column`.
pub fn source_location(file: &str, line: u32, column: u32) -> (res: String)
    ensures
        res@ == file@ + ":"@ + decimal(line as nat) + ":"@ + decimal(column as nat),
{
    let mut v = chars_of(file);
    append_str(&mut v, ":");
    append_chars(&mut v, &decimal_chars(line as u64));
    append_str(&mut v, ":");
    append_chars(&mut v, &decimal_chars(column as u64));
    string_of(&v)
}

/// The log message for a panic in the thread `thread_name` with the message
/// `payload` at `location`.
pub fn panic_report(thread_name: &str, payload: &str, location: &str) -> (res: String)
    ensures
        res@ == "PANIC in thread '"@ + thread_name@ + "': "@ + payload@ + "\n  at "@ + location@,
{
    let mut v = chars_of("PANIC in thread '");
    append_str(&mut v, thread_name);
    append_str(&mut v, "': ");
    append_str(&mut v, payload);
    append_str(&mut v, "\n  at ");
    append_str(&mut v, location);
    string_of(&v)
}

/// Every level label is five characters wide, so messages line up.
pub proof fn law_level_labels_align(level: LogLevel)
    ensures
        level_text(level).len() == 5,
{
    reveal_strlit("ERROR");
    reveal_strlit(" WARN");
    reveal_strlit(" INFO");
    reveal_strlit("DEBUG");
    reveal_strlit("TRACE");
}

/// Records of the window and web-view libraries are dropped; a target that
/// starts with neither `tao::` nor `wry::` is written.
pub proof fn law_filtered_targets(target: Seq<char>)
    ensures
        target.take(5) == "tao::"@ && target.len() >= 5 ==> !target_enabled(target),
        target.take(5) == "wry::"@ && target.len() >= 5 ==> !target_enabled(target),
        target.len() < 5 ==> target_enabled(target),
{
    reveal_strlit("tao::");
    reveal_strlit("wry::");
}

/// A field below 100 takes exactly two digits and reads back as itself,
/// as the hour, minute, second, month and day of a time stamp do.
pub proof fn law_two_digit_fields(n: nat)
    requires
        n < 100,
    ensures
        padded(n, 2).len() == 2,
        crate::text::digits_value(padded(n, 2)) == n,
{
    crate::text::law_decimal_reads_back(n);
    crate::text::law_zero_pad(decimal(n), 2);
    let d = decimal(n);
    if n >= 10 {
        crate::text::law_decimal_reads_back(n / 10);
        assert(d == decimal(n / 10).push(crate::text::digit_char(n % 10)));
        assert(d.len() == 2);
        assert(padded(n, 2) == d);
    } else {
        assert(d.len() == 1);
        let z = seq!['0'] + d;
        assert(padded(n, 2) =~= z);
        assert(z.drop_last() =~= seq!['0']);
        assert(z.last() == d.last());
        assert(seq!['0'].drop_last() =~= Seq::<char>::empty());
        assert(d.drop_last() =~= Seq::<char>::empty());
        assert(('0' as u32) == 0x30);
        assert(crate::text::digits_value(Seq::<char>::empty()) == 0);
        assert(crate::text::digits_value(seq!['0']) == crate::text::digits_value(
            Seq::<char>::empty(),
        ) * 10 + (('0' as u32) - 0x30));
        assert(crate::text::digits_value(z) == crate::text::digits_value(seq!['0']) * 10 + ((
        d.last() as u32) - 0x30));
        assert(crate::text::digits_value(d) == crate::text::digits_value(d.drop_last()) * 10 + ((
        d.last() as u32) - 0x30));
    }
}

} // verus!
