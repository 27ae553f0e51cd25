//! Points in time, and how they are written.

use crate::text;
use crate::text::decimal_text;
use std::time::SystemTime;
use vstd::prelude::*;

verus! {

/// A point in time, as the system's clock gives it.
#[verifier::external_type_specification]
#[verifier::external_body]
pub struct ExSystemTime(std::time::SystemTime);

/// How many whole seconds a point in time lies behind the start of 1970, or 0 where it
/// lies before.
pub uninterp spec fn epoch_seconds(time: std::time::SystemTime) -> u64;

/// `std::time::SystemTime::now`. Nothing is claimed of which time it is.
#[verifier::external_body]
pub(crate) fn system_now() -> (r: SystemTime) {
    SystemTime::now()
}

/// `std::time::SystemTime::duration_since` the start of 1970, in whole seconds. The
/// answer depends on the point in time alone.
#[verifier::external_body]
pub(crate) fn seconds_since_epoch(time: SystemTime) -> (r: u64)
    ensures
        r == epoch_seconds(time),
{
    time.duration_since(std::time::UNIX_EPOCH).map(|since| since.as_secs()).unwrap_or(0)
}

/// A year with a 29th of February.
pub open spec fn is_leap_year(year: int) -> bool {
    year % 4 == 0 && (year % 100 != 0 || year % 400 == 0)
}

pub open spec fn year_length(year: int) -> int {
    if is_leap_year(year) {
        366
    } else {
        365
    }
}

pub open spec fn month_length(year: int, month: int) -> int {
    if month == 2 {
        if is_leap_year(year) {
            29
        } else {
            28
        }
    } else if month == 4 || month == 6 || month == 9 || month == 11 {
        30
    } else {
        31
    }
}

/// How many leap years there are up to a year.
pub open spec fn leap_years_upto(year: int) -> int {
    year / 4 - year / 100 + year / 400
}

/// How many days lie between the start of 1970 and the start of a year.
pub open spec fn days_before_year(year: int) -> int {
    365 * (year - 1970) + leap_years_upto(year - 1) - leap_years_upto(1969)
}

/// How many days of a year lie before a month.
pub open spec fn days_before_month(year: int, month: int) -> int
    decreases month,
{
    if month <= 1 {
        0
    } else {
        days_before_month(year, month - 1) + month_length(year, month - 1)
    }
}

/// A date, counted in days from the start of 1970.
pub open spec fn is_date(days: int, year: int, month: int, day: int) -> bool {
    &&& year >= 1970
    &&& 1 <= month <= 12
    &&& 1 <= day <= month_length(year, month)
    &&& days == days_before_year(year) + days_before_month(year, month) + day - 1
}

proof fn lemma_next_year(year: int)
    requires
        year >= 1970,
    ensures
        days_before_year(year + 1) == days_before_year(year) + year_length(year),
{
}

proof fn lemma_cycles(cycles: int)
    requires
        cycles >= 0,
    ensures
        days_before_year(1970 + 400 * cycles) == 146097 * cycles,
{
    assert((1969 + 400 * cycles) / 4 == 492 + 100 * cycles);
    assert((1969 + 400 * cycles) / 100 == 19 + 4 * cycles);
    assert((1969 + 400 * cycles) / 400 == 4 + cycles);
}

/// The date of a day.
fn date_of(days: u64) -> (r: (u64, u64, u64))
    requires
        days <= 213503982334601,
    ensures
        is_date(days as int, r.0 as int, r.1 as int, r.2 as int),
        r.0 <= 584554051223,
{
    let cycles: u64 = days / 146097;
    let mut rest: u64 = days % 146097;
    let mut year: u64 = 1970 + 400 * cycles;
    proof {
        lemma_cycles(cycles as int);
    }
    loop
        invariant
            days <= 213503982334601,
            cycles == days / 146097,
            1970 + 400 * cycles <= year,
            year <= 1970 + 400 * cycles + 401,
            rest + 365 * (year - 1970 - 400 * cycles) < 146097,
            days == days_before_year(year as int) + rest,
        ensures
            year >= 1970,
            year <= 584554051223,
            days == days_before_year(year as int) + rest,
            rest < year_length(year as int),
        decreases rest,
    {
        let leap = year % 4 == 0 && (year % 100 != 0 || year % 400 == 0);
        let length: u64 = if leap {
            366
        } else {
            365
        };
        if rest < length {
            break ;
        }
        proof {
            lemma_next_year(year as int);
        }
        rest -= length;
        year += 1;
    }
    let mut month: u64 = 1;
    let leap = year % 4 == 0 && (year % 100 != 0 || year % 400 == 0);
    proof {
        reveal_with_fuel(days_before_month, 13);
    }
    loop
        invariant
            1 <= month <= 12,
            leap == is_leap_year(year as int),
            days == days_before_year(year as int) + days_before_month(year as int, month as int)
                + rest,
            rest < year_length(year as int) - days_before_month(year as int, month as int),
        ensures
            1 <= month <= 12,
            days == days_before_year(year as int) + days_before_month(year as int, month as int)
                + rest,
            rest < month_length(year as int, month as int),
        decreases 12 - month,
    {
        let length: u64 = if month == 2 {
            if leap {
                29
            } else {
                28
            }
        } else if month == 4 || month == 6 || month == 9 || month == 11 {
            30
        } else {
            31
        };
        if rest < length {
            break ;
        }
        proof {
            reveal_with_fuel(days_before_month, 13);
            assert(days_before_month(year as int, 12) + 31 == year_length(year as int));
        }
        rest -= length;
        month += 1;
    }
    (year, month, rest + 1)
}

/// A number with at least so many digits.
pub open spec fn padded(n: nat, width: nat) -> Seq<char> {
    let digits = text::decimal(n);
    if digits.len() < width {
        Seq::new((width - digits.len()) as nat, |i: int| '0') + digits
    } else {
        digits
    }
}

fn push_padded(out: &mut String, n: u64, width: usize)
    ensures
        final(out)@ == old(out)@ + padded(n as nat, width as nat),
{
    let digits = decimal_text(n);
    let length: usize = text::to_chars(digits.as_str()).len();
    let ghost start = out@;
    let mut i: usize = length;
    let ghost zeros = Seq::new((width - length) as nat, |i: int| '0');
    proof {
        assert(zeros.take(0) =~= Seq::empty());
        assert(start + Seq::<char>::empty() =~= start);
    }
    while i < width
        invariant
            length <= i,
            length < width ==> i <= width,
            zeros == Seq::new((width - length) as nat, |i: int| '0'),
            length < width ==> out@ == start + zeros.take(i - length),
            length >= width ==> out@ == start,
        decreases width - i,
    {
        let ghost before = out@;
        out.push('0');
        proof {
            assert(zeros.take(i - length + 1) =~= zeros.take(i - length).push('0'));
            assert(out@ =~= start + zeros.take(i - length + 1));
        }
        i += 1;
    }
    out.append(digits.as_str());
    proof {
        if length < width {
            assert(zeros.take(width - length) =~= zeros);
            assert(out@ =~= start + (zeros + digits@));
        }
    }
}

/// How a point in time is written, given its date.
pub open spec fn timestamp_text(seconds: int, year: int, month: int, day: int) -> Seq<char> {
    let time = seconds % 86400;
    padded(year as nat, 4) + "-"@ + padded(month as nat, 2) + "-"@ + padded(day as nat, 2) + "T"@
        + padded((time / 3600) as nat, 2) + ":"@ + padded((time / 60 % 60) as nat, 2) + ":"@
        + padded((time % 60) as nat, 2) + "Z"@
}

/// That text is the point in time, in universal time, to the second.
pub open spec fn is_timestamp_of(stamp: Seq<char>, seconds: int) -> bool {
    exists|year: int, month: int, day: int|
        #[trigger] is_date(seconds / 86400, year, month, day) && stamp == timestamp_text(
            seconds,
            year,
            month,
            day,
        )
}

/// Writes a point in time, given in seconds from the start of 1970.
pub fn rfc3339(seconds: u64) -> (r: String)
    ensures
        is_timestamp_of(r@, seconds as int),
{
    let days: u64 = seconds / 86400;
    let time: u64 = seconds % 86400;
    let (year, month, day) = date_of(days);
    let mut out = String::new();
    push_padded(&mut out, year, 4);
    out.append("-");
    push_padded(&mut out, month, 2);
    out.append("-");
    push_padded(&mut out, day, 2);
    out.append("T");
    push_padded(&mut out, time / 3600, 2);
    out.append(":");
    push_padded(&mut out, time / 60 % 60, 2);
    out.append(":");
    push_padded(&mut out, time % 60, 2);
    out.append("Z");
    proof {
        assert(out@ =~= timestamp_text(seconds as int, year as int, month as int, day as int));
        assert(is_date(seconds as int / 86400, year as int, month as int, day as int));
    }
    out
}

/// Writes a point in time.
pub fn system_time_to_rfc3339(time: SystemTime) -> (r: String)
    ensures
        is_timestamp_of(r@, epoch_seconds(time) as int),
{
    rfc3339(seconds_since_epoch(time))
}

proof fn lemma_months_grow(year: int, month: int, later: int)
    requires
        1 <= month < later,
    ensures
        days_before_month(year, month) + month_length(year, month) <= days_before_month(
            year,
            later,
        ),
    decreases later,
{
    if later > month + 1 {
        lemma_months_grow(year, month, later - 1);
    }
}

proof fn lemma_years_grow(year: int, later: int)
    requires
        1970 <= year < later,
    ensures
        days_before_year(year) + year_length(year) <= days_before_year(later),
    decreases later,
{
    lemma_next_year(later - 1);
    if later > year + 1 {
        lemma_years_grow(year, later - 1);
    }
}

proof fn lemma_date_lies_in_year(days: int, year: int, month: int, day: int)
    requires
        is_date(days, year, month, day),
    ensures
        days_before_year(year) <= days < days_before_year(year) + year_length(year),
{
    reveal_with_fuel(days_before_month, 14);
    if month < 12 {
        lemma_months_grow(year, month, 12);
    }
    assert(days_before_month(year, 12) + 31 == year_length(year));
}

/// A day has one date.
pub proof fn law_dates_are_unique(
    days: int,
    year: int,
    month: int,
    day: int,
    other_year: int,
    other_month: int,
    other_day: int,
)
    requires
        is_date(days, year, month, day),
        is_date(days, other_year, other_month, other_day),
    ensures
        year == other_year,
        month == other_month,
        day == other_day,
{
    lemma_date_lies_in_year(days, year, month, day);
    lemma_date_lies_in_year(days, other_year, other_month, other_day);
    if year < other_year {
        lemma_years_grow(year, other_year);
    }
    if other_year < year {
        lemma_years_grow(other_year, year);
    }
    if month < other_month {
        lemma_months_grow(year, month, other_month);
    }
    if other_month < month {
        lemma_months_grow(year, other_month, month);
    }
}

/// A point in time is written in one way.
pub proof fn law_timestamps_are_unique(seconds: int, one: Seq<char>, other: Seq<char>)
    requires
        is_timestamp_of(one, seconds),
        is_timestamp_of(other, seconds),
    ensures
        one == other,
{
    let (y, m, d) = choose|year: int, month: int, day: int|
        #[trigger] is_date(seconds / 86400, year, month, day) && one == timestamp_text(
            seconds,
            year,
            month,
            day,
        );
    let (v, n, e) = choose|year: int, month: int, day: int|
        #[trigger] is_date(seconds / 86400, year, month, day) && other == timestamp_text(
            seconds,
            year,
            month,
            day,
        );
    law_dates_are_unique(seconds / 86400, y, m, d, v, n, e);
}

spec fn digit(n: int) -> char {
    (48 + n) as char
}

proof fn lemma_two_digits(n: nat)
    requires
        n < 100,
    ensures
        padded(n, 2) =~= seq![digit(n as int / 10), digit(n as int % 10)],
{
    reveal_with_fuel(text::decimal, 3);
}

proof fn lemma_four_digits(n: nat)
    requires
        1000 <= n < 10000,
    ensures
        padded(n, 4) =~= seq![
            digit(n as int / 10 / 10 / 10),
            digit(n as int / 10 / 10 % 10),
            digit(n as int / 10 % 10),
            digit(n as int % 10),
        ],
{
    reveal_with_fuel(text::decimal, 5);
}

/// A point in time, as the numbers that it is written with.
struct Fields {
    year: int,
    month: int,
    day: int,
    hour: int,
    minute: int,
    second: int,
}

spec fn fields_of(seconds: int, year: int, month: int, day: int) -> Fields {
    let time = seconds % 86400;
    Fields {
        year,
        month,
        day,
        hour: time / 3600,
        minute: time / 60 % 60,
        second: time % 60,
    }
}

/// A text with the year in the first four places and the other numbers in two each.
spec fn shows(stamp: Seq<char>, fields: Fields) -> bool {
    &&& 1000 <= fields.year < 10000
    &&& stamp.len() == 20
    &&& shows_four(stamp, fields.year)
    &&& stamp[4] == '-'
    &&& shows_two(stamp, 5, fields.month)
    &&& stamp[7] == '-'
    &&& shows_two(stamp, 8, fields.day)
    &&& stamp[10] == 'T'
    &&& shows_two(stamp, 11, fields.hour)
    &&& stamp[13] == ':'
    &&& shows_two(stamp, 14, fields.minute)
    &&& stamp[16] == ':'
    &&& shows_two(stamp, 17, fields.second)
}

#[verifier::opaque]
spec fn shows_two(stamp: Seq<char>, place: int, n: int) -> bool {
    &&& 0 <= n < 100
    &&& stamp[place] == digit(n / 10)
    &&& stamp[place + 1] == digit(n % 10)
}

#[verifier::opaque]
spec fn shows_four(stamp: Seq<char>, n: int) -> bool {
    &&& stamp[0] == digit(n / 10 / 10 / 10)
    &&& stamp[1] == digit(n / 10 / 10 % 10)
    &&& stamp[2] == digit(n / 10 % 10)
    &&& stamp[3] == digit(n % 10)
}

proof fn lemma_timestamp_shows(seconds: int, year: int, month: int, day: int)
    requires
        1000 <= year < 10000,
        0 <= month < 100,
        0 <= day < 100,
    ensures
        shows(
            timestamp_text(seconds, year, month, day),
            fields_of(seconds, year, month, day),
        ),
{
    let time = seconds % 86400;
    lemma_four_digits(year as nat);
    lemma_two_digits(month as nat);
    lemma_two_digits(day as nat);
    lemma_two_digits((time / 3600) as nat);
    lemma_two_digits((time / 60 % 60) as nat);
    lemma_two_digits((time % 60) as nat);
    reveal_strlit("-");
    reveal_strlit("T");
    reveal_strlit(":");
    reveal_strlit("Z");
    reveal(shows_two);
    reveal(shows_four);
}

/// A day before another one has a date before the other's.
proof fn lemma_dates_are_ordered(
    days: int,
    year: int,
    month: int,
    day: int,
    later_days: int,
    later_year: int,
    later_month: int,
    later_day: int,
)
    requires
        is_date(days, year, month, day),
        is_date(later_days, later_year, later_month, later_day),
        days < later_days,
    ensures
        year < later_year || (year == later_year && (month < later_month || (month == later_month
            && day < later_day))),
{
    lemma_date_lies_in_year(days, year, month, day);
    lemma_date_lies_in_year(later_days, later_year, later_month, later_day);
    if later_year < year {
        lemma_years_grow(later_year, year);
    }
    if year == later_year && later_month < month {
        lemma_months_grow(year, later_month, month);
    }
}

/// Two texts that first differ in a number of two digits are ordered as the numbers are.
proof fn lemma_two_digits_decide(a: Seq<char>, b: Seq<char>, place: int, n: int, m: int)
    requires
        0 <= place <= 18,
        a.len() == 20,
        b.len() == 20,
        forall|i: int| 0 <= i < place ==> a[i] == b[i],
        n < m,
        shows_two(a, place, n),
        shows_two(b, place, m),
    ensures
        text::text_less(a, b),
{
    reveal(shows_two);
    if n / 10 < m / 10 {
        text::lemma_first_difference(a, b, place);
    } else {
        text::lemma_first_difference(a, b, place + 1);
    }
}

/// Two texts that start with different numbers of four digits are ordered as the numbers
/// are.
proof fn lemma_four_digits_decide(a: Seq<char>, b: Seq<char>, n: int, m: int)
    requires
        a.len() == 20,
        b.len() == 20,
        1000 <= n < m < 10000,
        shows_four(a, n),
        shows_four(b, m),
    ensures
        text::text_less(a, b),
{
    reveal(shows_four);
    if n / 10 / 10 / 10 < m / 10 / 10 / 10 {
        text::lemma_first_difference(a, b, 0);
    } else if n / 10 / 10 < m / 10 / 10 {
        text::lemma_first_difference(a, b, 1);
    } else if n / 10 < m / 10 {
        text::lemma_first_difference(a, b, 2);
    } else {
        text::lemma_first_difference(a, b, 3);
    }
}

/// One point in time lies before another, number by number.
spec fn fields_before(a: Fields, b: Fields) -> bool {
    a.year < b.year || (a.year == b.year && (a.month < b.month || (a.month == b.month && (a.day
        < b.day || (a.day == b.day && (a.hour < b.hour || (a.hour == b.hour && (a.minute < b.minute
        || (a.minute == b.minute && a.second < b.second)))))))))
}

/// The same number is shown by the same characters.
proof fn lemma_same_fields_same_text(a: Seq<char>, b: Seq<char>, f: Fields, g: Fields)
    requires
        shows(a, f),
        shows(b, g),
    ensures
        f.year == g.year ==> forall|i: int| 0 <= i < 5 ==> a[i] == b[i],
        f.month == g.month ==> forall|i: int| 5 <= i < 8 ==> a[i] == b[i],
        f.day == g.day ==> forall|i: int| 8 <= i < 11 ==> a[i] == b[i],
        f.hour == g.hour ==> forall|i: int| 11 <= i < 14 ==> a[i] == b[i],
        f.minute == g.minute ==> forall|i: int| 14 <= i < 17 ==> a[i] == b[i],
{
    reveal(shows_two);
    reveal(shows_four);
}

proof fn lemma_fields_decide(a: Seq<char>, b: Seq<char>, f: Fields, g: Fields)
    requires
        shows(a, f),
        shows(b, g),
        fields_before(f, g),
    ensures
        text::text_less(a, b),
{
    lemma_same_fields_same_text(a, b, f, g);
    if f.year < g.year {
        lemma_four_digits_decide(a, b, f.year, g.year);
    } else if f.month < g.month {
        lemma_two_digits_decide(a, b, 5, f.month, g.month);
    } else if f.day < g.day {
        lemma_two_digits_decide(a, b, 8, f.day, g.day);
    } else if f.hour < g.hour {
        lemma_two_digits_decide(a, b, 11, f.hour, g.hour);
    } else if f.minute < g.minute {
        lemma_two_digits_decide(a, b, 14, f.minute, g.minute);
    } else {
        lemma_two_digits_decide(a, b, 17, f.second, g.second);
    }
}

/// Of two points in time of one day, the hours, minutes and seconds are ordered.
proof fn lemma_times_are_ordered(time: int, later: int)
    requires
        0 <= time < later,
    ensures
        time / 3600 < later / 3600 || (time / 3600 == later / 3600 && (time / 60 % 60 < later / 60
            % 60 || (time / 60 % 60 == later / 60 % 60 && time % 60 < later % 60))),
{
    assert(time / 3600 == time / 60 / 60);
    assert(later / 3600 == later / 60 / 60);
}

/// A date before the year 10000.
proof fn lemma_year_has_four_digits(days: int, year: int, month: int, day: int)
    requires
        is_date(days, year, month, day),
        days < 2932897,
    ensures
        year < 10000,
{
    lemma_date_lies_in_year(days, year, month, day);
    if year > 10000 {
        lemma_years_grow(10000, year);
    }
}

/// Points in time before the year 10000 are written in their own order: the text of the
/// earlier one comes before the text of the later one.
pub proof fn law_later_times_sort_later(
    earlier: int,
    later: int,
    stamp: Seq<char>,
    later_stamp: Seq<char>,
)
    requires
        0 <= earlier < later < 253402300800,
        is_timestamp_of(stamp, earlier),
        is_timestamp_of(later_stamp, later),
    ensures
        text::text_less(stamp, later_stamp),
{
    let (y, m, d) = choose|year: int, month: int, day: int|
        #[trigger] is_date(earlier / 86400, year, month, day) && stamp == timestamp_text(
            earlier,
            year,
            month,
            day,
        );
    let (v, n, e) = choose|year: int, month: int, day: int|
        #[trigger] is_date(later / 86400, year, month, day) && later_stamp == timestamp_text(
            later,
            year,
            month,
            day,
        );
    lemma_year_has_four_digits(earlier / 86400, y, m, d);
    lemma_year_has_four_digits(later / 86400, v, n, e);
    if earlier / 86400 < later / 86400 {
        lemma_dates_are_ordered(earlier / 86400, y, m, d, later / 86400, v, n, e);
    } else {
        law_dates_are_unique(earlier / 86400, y, m, d, v, n, e);
        lemma_times_are_ordered(earlier % 86400, later % 86400);
    }
    lemma_timestamp_shows(earlier, y, m, d);
    lemma_timestamp_shows(later, v, n, e);
    lemma_fields_decide(
        stamp,
        later_stamp,
        fields_of(earlier, y, m, d),
        fields_of(later, v, n, e),
    );
}

/// The number that two digits of a text stand for.
pub open spec fn two_digits_at(stamp: Seq<char>, place: int) -> int {
    (stamp[place] as int - '0' as int) * 10 + (stamp[place + 1] as int - '0' as int)
}

proof fn lemma_two_read(stamp: Seq<char>, place: int, n: int)
    requires
        shows_two(stamp, place, n),
    ensures
        two_digits_at(stamp, place) == n,
{
    reveal(shows_two);
}

proof fn lemma_time_of_day(s: int)
    requires
        0 <= s,
    ensures
        s % 60 == s % 86400 % 60,
        s / 60 % 60 == s % 86400 / 60 % 60,
        s / 3600 % 24 == s % 86400 / 3600,
{
    let days = s / 86400;
    let time = s % 86400;
    assert(s == days * 86400 + time);
    assert(s / 60 == days * 1440 + time / 60);
    assert(s / 3600 == days * 24 + time / 3600);
}

/// The date that a text shows.
spec fn shows_date(stamp: Seq<char>, seconds: int, year: int, month: int, day: int) -> bool {
    &&& is_date(seconds / 86400, year, month, day)
    &&& stamp == timestamp_text(seconds, year, month, day)
    &&& 1000 <= year < 10000
    &&& shows(stamp, fields_of(seconds, year, month, day))
}

proof fn lemma_shown_date(stamp: Seq<char>, seconds: int) -> (r: (int, int, int))
    requires
        0 <= seconds < 253402300800,
        is_timestamp_of(stamp, seconds),
    ensures
        shows_date(stamp, seconds, r.0, r.1, r.2),
        two_digits_at(stamp, 5) == r.1,
        two_digits_at(stamp, 8) == r.2,
        two_digits_at(stamp, 11) == seconds % 86400 / 3600,
        two_digits_at(stamp, 14) == seconds % 86400 / 60 % 60,
        two_digits_at(stamp, 17) == seconds % 86400 % 60,
{
    let (year, month, day) = choose|year: int, month: int, day: int|
        #[trigger] is_date(seconds / 86400, year, month, day) && stamp == timestamp_text(
            seconds,
            year,
            month,
            day,
        );
    lemma_year_has_four_digits(seconds / 86400, year, month, day);
    lemma_timestamp_shows(seconds, year, month, day);
    let fields = fields_of(seconds, year, month, day);
    lemma_two_read(stamp, 5, fields.month);
    lemma_two_read(stamp, 8, fields.day);
    lemma_two_read(stamp, 11, fields.hour);
    lemma_two_read(stamp, 14, fields.minute);
    lemma_two_read(stamp, 17, fields.second);
    (year, month, day)
}

/// A point in time before the year 10000 is written with its second, its minute and its hour
/// where the standard puts them, and with a day that its month has.
pub proof fn law_time_of_day_is_shown(seconds: u64, r: String)
    requires
        call_ensures(rfc3339, (seconds,), r),
        seconds < 253402300800,
    ensures
        r@.len() == 20,
        two_digits_at(r@, 17) == seconds % 60,
        two_digits_at(r@, 14) == seconds / 60 % 60,
        two_digits_at(r@, 11) == seconds / 3600 % 24,
        1 <= two_digits_at(r@, 5) <= 12,
        1 <= two_digits_at(r@, 8) <= 31,
        two_digits_at(r@, 5) == 2 ==> two_digits_at(r@, 8) <= 29,
        two_digits_at(r@, 5) == 4 || two_digits_at(r@, 5) == 6 || two_digits_at(r@, 5) == 9
            || two_digits_at(r@, 5) == 11 ==> two_digits_at(r@, 8) <= 30,
        r@[4] == '-' && r@[7] == '-' && r@[10] == 'T' && r@[13] == ':' && r@[16] == ':',
{
    let (year, month, day) = lemma_shown_date(r@, seconds as int);
    lemma_time_of_day(seconds as int);
}

proof fn lemma_next_date(days: int, year: int, month: int, day: int, y: int, m: int, d: int)
    requires
        is_date(days, year, month, day),
        is_date(days + 1, y, m, d),
    ensures
        d == day + 1 && m == month && y == year || d == 1 && day >= 28 && (m == month + 1 && y
            == year || m == 1 && month == 12 && y == year + 1),
{
    if day < month_length(year, month) {
        law_dates_are_unique(days + 1, y, m, d, year, month, day + 1);
    } else if month < 12 {
        assert(days_before_month(year, month + 1) == days_before_month(year, month) + month_length(
            year,
            month,
        ));
        law_dates_are_unique(days + 1, y, m, d, year, month + 1, 1);
    } else {
        lemma_next_year(year);
        lemma_date_lies_in_year(days, year, month, day);
        lemma_date_lies_in_year(days + 1, y, m, d);
        assert(days_before_month(year, 12) + 31 == year_length(year)) by {
            reveal_with_fuel(days_before_month, 13);
        }
        assert(days_before_month(year + 1, 1) == 0);
        assert(is_date(days + 1, year + 1, 1, 1));
        law_dates_are_unique(days + 1, y, m, d, year + 1, 1, 1);
    }
}

/// A day later the next day of the month is written, or the first of the next month where
/// the month has no more.
pub proof fn law_next_day_follows(seconds: u64, r: String, later: String)
    requires
        seconds + 86400 < 253402300800,
        call_ensures(rfc3339, (seconds,), r),
        call_ensures(rfc3339, ((seconds + 86400) as u64,), later),
    ensures
        two_digits_at(later@, 8) == two_digits_at(r@, 8) + 1 && two_digits_at(later@, 5)
            == two_digits_at(r@, 5) || two_digits_at(later@, 8) == 1 && two_digits_at(r@, 8) >= 28
            && (two_digits_at(later@, 5) == two_digits_at(r@, 5) + 1 || two_digits_at(later@, 5)
            == 1 && two_digits_at(r@, 5) == 12),
        two_digits_at(later@, 11) == two_digits_at(r@, 11),
        two_digits_at(later@, 14) == two_digits_at(r@, 14),
        two_digits_at(later@, 17) == two_digits_at(r@, 17),
{
    let s = seconds as int;
    let (year, month, day) = lemma_shown_date(r@, s);
    let (y, m, d) = lemma_shown_date(later@, s + 86400);
    assert((s + 86400) / 86400 == s / 86400 + 1);
    assert((s + 86400) % 86400 == s % 86400);
    lemma_next_date(s / 86400, year, month, day, y, m, d);
}

} // verus!
