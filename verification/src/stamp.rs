//! The time stamp of a build, which goes by its patch level.
use crate::ctx::Ctx;
use crate::failure::{
    bad_month_text, bad_year_text, month_out_of_range_text, year_out_of_range_text, Failure,
};
use crate::regexes::{is_lts_month, regex_captures, spans_view};
use crate::text::{
    begins, chars_of, digit_char, first_at, lemma_first_at, range_of, signed_decimal, starts_with,
    string_of, unsigned_value, vec_find,
};
use crate::words::{cat3, signed_text, vec_unsigned};
use time::{Date, Month, OffsetDateTime, Time};
use vstd::prelude::*;

verus! {

// ---------------------------------------------------------------------------
// The calendar
// ---------------------------------------------------------------------------

/// `y` is a leap year.
pub open spec fn is_leap(y: int) -> bool {
    y % 4 == 0 && (y % 100 != 0 || y % 400 == 0)
}

/// The number of days of month `m` of year `y`.
pub open spec fn month_days(y: int, m: int) -> int {
    if m == 2 {
        if is_leap(y) {
            29
        } else {
            28
        }
    } else if m == 4 || m == 6 || m == 9 || m == 11 {
        30
    } else {
        31
    }
}

/// The number of days of year `y` before month `m`.
pub open spec fn days_before_month(y: int, m: int) -> int
    decreases m,
{
    if m <= 1 {
        0
    } else {
        days_before_month(y, m - 1) + month_days(y, m - 1)
    }
}

/// The number of days from the start of year 1 to the start of year `y`.
pub open spec fn days_before_year(y: int) -> int {
    365 * (y - 1) + (y - 1) / 4 - (y - 1) / 100 + (y - 1) / 400
}

/// The number of days from the first of January 1970 to a date.
pub open spec fn epoch_days(y: int, m: int, d: int) -> int {
    days_before_year(y) + days_before_month(y, m) + (d - 1) - days_before_year(1970)
}

/// A point in time, in UTC.
pub struct Moment {
    pub year: i32,
    pub month: u8,
    pub day: u8,
    pub hour: u8,
    pub minute: u8,
    pub second: u8,
}

impl Moment {
    /// There is such a point in time.
    pub open spec fn is_real(&self) -> bool {
        &&& -9999 <= self.year <= 9999
        &&& 1 <= self.month <= 12
        &&& 1 <= self.day <= month_days(self.year as int, self.month as int)
        &&& self.hour < 24
        &&& self.minute < 60
        &&& self.second < 60
    }

    /// The number of seconds since the start of 1970.
    pub open spec fn seconds(&self) -> int {
        epoch_days(self.year as int, self.month as int, self.day as int) * 86400 + self.hour * 3600
            + self.minute * 60 + self.second
    }

    /// The weekday, counted from Monday.
    pub open spec fn weekday(&self) -> int {
        (epoch_days(self.year as int, self.month as int, self.day as int) + 3) % 7
    }
}

/// The short name of a weekday, counted from Monday.
pub open spec fn weekday_name(n: int) -> Seq<char> {
    if n == 0 {
        "Mon"@
    } else if n == 1 {
        "Tue"@
    } else if n == 2 {
        "Wed"@
    } else if n == 3 {
        "Thu"@
    } else if n == 4 {
        "Fri"@
    } else if n == 5 {
        "Sat"@
    } else {
        "Sun"@
    }
}

/// The short name of a month.
pub open spec fn month_name(m: int) -> Seq<char> {
    if m == 1 {
        "Jan"@
    } else if m == 2 {
        "Feb"@
    } else if m == 3 {
        "Mar"@
    } else if m == 4 {
        "Apr"@
    } else if m == 5 {
        "May"@
    } else if m == 6 {
        "Jun"@
    } else if m == 7 {
        "Jul"@
    } else if m == 8 {
        "Aug"@
    } else if m == 9 {
        "Sep"@
    } else if m == 10 {
        "Oct"@
    } else if m == 11 {
        "Nov"@
    } else {
        "Dec"@
    }
}

/// `n` in two digits.
pub open spec fn two_digits(n: int) -> Seq<char> {
    seq![digit_char((n / 10 % 10) as nat), digit_char((n % 10) as nat)]
}

/// `n` in four digits.
pub open spec fn four_digits(n: int) -> Seq<char> {
    two_digits(n / 100) + two_digits(n % 100)
}

/// The description of the time stamp of the kernel build.
pub open spec fn kbuild_format() -> Seq<char> {
    "[weekday repr:short] [month repr:short] [day] [hour]:[minute]:[second] UTC [year]"@
}

/// The description of the date of a commit.
pub open spec fn git_format() -> Seq<char> {
    "[year]-[month]-[day]T[hour]:[minute]:[second]Z"@
}

/// The time stamp of the kernel build.
pub open spec fn kbuild_text(t: Moment) -> Seq<char> {
    weekday_name(t.weekday()) + " "@ + month_name(t.month as int) + " "@ + two_digits(t.day as int)
        + " "@ + two_digits(t.hour as int) + ":"@ + two_digits(t.minute as int) + ":"@
        + two_digits(t.second as int) + " UTC "@ + four_digits(t.year as int)
}

/// The date of a commit.
pub open spec fn git_text(t: Moment) -> Seq<char> {
    four_digits(t.year as int) + "-"@ + two_digits(t.month as int) + "-"@ + two_digits(
        t.day as int,
    ) + "T"@ + two_digits(t.hour as int) + ":"@ + two_digits(t.minute as int) + ":"@ + two_digits(
        t.second as int,
    ) + "Z"@
}

// ---------------------------------------------------------------------------
// Calls into the time crate
// ---------------------------------------------------------------------------

/// The error of a date or time that does not exist, or of a bad description.
#[verifier::external_type_specification]
#[verifier::external_body]
pub struct ExTimeError(time::Error);

/// Builds the point in time from its parts and calls
/// `time::OffsetDateTime::unix_timestamp`. Claimed: an error exactly where there is no
/// such point in time; else the seconds since the start of 1970.
#[verifier::external_body]
pub(crate) fn unix_timestamp(t: &Moment) -> (r: Result<i64, time::Error>)
    ensures
        r is Ok <==> t.is_real(),
        r matches Ok(n) ==> n == t.seconds(),
{
    let date = Date::from_calendar_date(t.year, Month::try_from(t.month)?, t.day)?;
    let clock = Time::from_hms(t.hour, t.minute, t.second)?;
    Ok(OffsetDateTime::new_utc(date, clock).unix_timestamp())
}

/// Builds the point in time from its parts and calls `time::OffsetDateTime::format`
/// with the description that `time::format_description::parse_borrowed` reads. Claimed
/// of the two descriptions above and a year that is not negative: the text that they
/// describe, where there is such a point in time.
#[verifier::external_body]
pub(crate) fn format_time(t: &Moment, description: &str) -> (r: Result<String, time::Error>)
    ensures
        t.is_real() && t.year >= 0 && (description@ == kbuild_format() || description@
            == git_format()) ==> r is Ok,
        t.is_real() && t.year >= 0 && description@ == kbuild_format() ==> (r matches Ok(s) ==> s@
            == kbuild_text(*t)),
        t.is_real() && t.year >= 0 && description@ == git_format() ==> (r matches Ok(s) ==> s@
            == git_text(*t)),
{
    let date = Date::from_calendar_date(t.year, Month::try_from(t.month)?, t.day)?;
    let clock = Time::from_hms(t.hour, t.minute, t.second)?;
    let items = time::format_description::parse_borrowed::<1>(description)?;
    Ok(OffsetDateTime::new_utc(date, clock).format(&items)?)
}

// ---------------------------------------------------------------------------
// The patch level
// ---------------------------------------------------------------------------

/// The year and month, with a dash between them, that a patch level stands for: that
/// of now for the tip of a series, with the month that the level pins, if any.
pub open spec fn year_month(level: Seq<char>, now_year: int, now_month: int) -> Seq<char> {
    if begins(level, "lts"@) {
        if is_lts_month(level) {
            signed_decimal(now_year) + "-"@ + level.subrange(4, 6)
        } else {
            signed_decimal(now_year) + "-"@ + two_digits(now_month)
        }
    } else {
        level
    }
}

/// What stands before the first dash.
pub open spec fn first_part(s: Seq<char>) -> Seq<char> {
    match first_at(s, "-"@) {
        Some(i) => s.take(i),
        None => s,
    }
}

/// What stands behind the first dash.
pub open spec fn behind_dash(s: Seq<char>) -> Seq<char> {
    match first_at(s, "-"@) {
        Some(i) => s.skip(i + 1),
        None => seq![],
    }
}

/// The year and month of a text, or the message about it.
pub open spec fn date_of(ym: Seq<char>) -> Result<(int, int), Seq<char>> {
    match unsigned_value(first_part(ym), i32::MAX as nat) {
        None => Err(bad_year_text(ym)),
        Some(y) => match unsigned_value(first_part(behind_dash(ym)), u8::MAX as nat) {
            None => Err(bad_month_text(ym)),
            Some(m) => if m < 1 || m > 12 {
                Err(month_out_of_range_text())
            } else if y > 9999 {
                Err(year_out_of_range_text())
            } else {
                Ok((y as int, m as int))
            },
        },
    }
}

/// Twenty past four in the morning of the fifth of a month.
pub open spec fn build_moment(date: (int, int)) -> Moment {
    Moment {
        year: date.0 as i32,
        month: date.1 as u8,
        day: 5,
        hour: 4,
        minute: 20,
        second: 0,
    }
}

/// `n` in two digits.
pub fn two_digit_text(n: u8) -> (r: String)
    requires
        n < 100,
    ensures
        r@ == two_digits(n as int),
{
    let mut v: Vec<char> = Vec::new();
    v.push(('0' as u8 + n / 10) as char);
    v.push(('0' as u8 + n % 10) as char);
    assert(v@ =~= two_digits(n as int));
    string_of(&v)
}

/// The year and month that a patch level stands for.
pub fn resolve_year_month(level: &str, now_year: i32, now_month: u8) -> (r: String)
    requires
        now_month < 100,
    ensures
        r@ == year_month(level@, now_year as int, now_month as int),
{
    if !starts_with(level, "lts") {
        return level.to_owned();
    }
    let year = signed_text(now_year as i64);
    let v = chars_of(level);
    match regex_captures("^lts-([0-9]{2})$", level) {
        Ok(Some(m)) => {
            proof {
                assert(spans_view(m@) == seq![Some((0int, 6int)), Some((4int, 6int))]);
                assert(spans_view(m@)[1] == Some((4int, 6int)));
            }
            match m[1] {
                Some(p) => cat3(&year, "-", &string_of(&range_of(&v, p.0, p.1))),
                None => year,
            }
        },
        _ => cat3(&year, "-", &two_digit_text(now_month)),
    }
}

/// Splits at the first dash.
fn split_dash(v: &Vec<char>) -> (r: (Vec<char>, Vec<char>))
    ensures
        r.0@ == first_part(v@),
        r.1@ == behind_dash(v@),
{
    proof {
        lemma_first_at(v@, "-"@);
        reveal_strlit("-");
    }
    let n: usize = v.len();
    match vec_find(v, &chars_of("-"), 0) {
        Some(i) => {
            let a = range_of(v, 0, i);
            let b = range_of(v, i + 1, n);
            assert(a@ =~= v@.take(i as int));
            assert(b@ =~= v@.skip(i + 1));
            (a, b)
        },
        None => {
            let a = range_of(v, 0, n);
            assert(a@ =~= v@);
            (a, Vec::new())
        },
    }
}

/// Reads a year and a month.
pub fn parse_year_month(ym: &str) -> (r: Result<(i32, u8), Failure>)
    ensures
        match r {
            Ok(d) => date_of(ym@) == Ok::<_, Seq<char>>((d.0 as int, d.1 as int)),
            Err(e) => date_of(ym@) == Err::<(int, int), _>(e@),
        },
{
    let (first, rest) = split_dash(&chars_of(ym));
    let year: u64 = match vec_unsigned(&first, 0x7fff_ffff) {
        Some(y) => y,
        None => {
            return Err(Failure::BadYear { text: ym.to_owned() });
        },
    };
    let (second, _) = split_dash(&rest);
    let month: u64 = match vec_unsigned(&second, 0xff) {
        Some(m) => m,
        None => {
            return Err(Failure::BadMonth { text: ym.to_owned() });
        },
    };
    if month < 1 || month > 12 {
        return Err(Failure::MonthOutOfRange);
    }
    if year > 9999 {
        return Err(Failure::YearOutOfRange);
    }
    Ok((year as i32, month as u8))
}

/// Sets the time stamps of a build from its patch level. `now_year` and `now_month`
/// say what month it is.
pub fn set_build_timestamp(ctx: &mut Ctx, now_year: i32, now_month: u8) -> (r: Result<(), Failure>)
    requires
        now_month < 100,
    ensures
        match date_of(year_month(old(ctx).os_patch_level@, now_year as int, now_month as int)) {
            Ok(date) => {
                let t = build_moment(date);
                &&& r is Ok
                &&& t.is_real()
                &&& final(ctx).source_date_epoch == t.seconds()
                &&& final(ctx).kbuild_timestamp@ == kbuild_text(t)
                &&& final(ctx).git_date@ == git_text(t)
                &&& *final(ctx) == (Ctx {
                    source_date_epoch: final(ctx).source_date_epoch,
                    kbuild_timestamp: final(ctx).kbuild_timestamp,
                    git_date: final(ctx).git_date,
                    ..*old(ctx)
                })
            },
            Err(text) => r matches Err(e) && e@ == text && *final(ctx) == *old(ctx),
        },
{
    let ym = resolve_year_month(&ctx.os_patch_level, now_year, now_month);
    let (year, month) = parse_year_month(&ym)?;
    let t = Moment { year, month, day: 5, hour: 4, minute: 20, second: 0 };
    assert(t == build_moment((year as int, month as int)));
    let epoch: i64 = match unix_timestamp(&t) {
        Ok(n) => n,
        Err(_) => {
            return Err(Failure::YearOutOfRange);
        },
    };
    let kbuild = match format_time(
        &t,
        "[weekday repr:short] [month repr:short] [day] [hour]:[minute]:[second] UTC [year]",
    ) {
        Ok(s) => s,
        Err(_) => {
            return Err(Failure::CannotFormat { name: "KBUILD_BUILD_TIMESTAMP".to_owned() });
        },
    };
    let git = match format_time(&t, "[year]-[month]-[day]T[hour]:[minute]:[second]Z") {
        Ok(s) => s,
        Err(_) => {
            return Err(Failure::CannotFormat { name: "GIT date".to_owned() });
        },
    };
    ctx.source_date_epoch = epoch;
    ctx.kbuild_timestamp = kbuild;
    ctx.git_date = git;
    Ok(())
}

// ---------------------------------------------------------------------------
// Laws
// ---------------------------------------------------------------------------

/// A year has room for all its months.
proof fn lemma_days_before_month(y: int, m: int, n: int)
    requires
        1 <= m <= n <= 12,
    ensures
        0 <= days_before_month(y, m),
        days_before_month(y, m) + 28 * (n - m) <= days_before_month(y, n),
        days_before_month(y, n) <= 335,
{
    reveal_with_fuel(days_before_month, 13);
}

/// Builds of a later month have a later time stamp.
pub proof fn law_later_months_have_later_stamps(a: (int, int), b: (int, int))
    requires
        0 <= a.0 <= b.0 <= 9999,
        1 <= a.1 <= 12,
        1 <= b.1 <= 12,
        a.0 < b.0 || a.1 < b.1,
    ensures
        build_moment(a).seconds() < build_moment(b).seconds(),
{
    lemma_days_before_month(a.0, 1, a.1);
    lemma_days_before_month(b.0, 1, b.1);
    if a.0 == b.0 {
        lemma_days_before_month(a.0, a.1, b.1);
    }
}

/// The stamp of a build that names its month does not depend on the day of the build.
/// That of the tip of a series depends on the year alone, where the level pins the month.
pub proof fn law_stamps_do_not_depend_on_today(
    level: Seq<char>,
    a: (int, int),
    b: (int, int),
)
    requires
        !begins(level, "lts"@) || (is_lts_month(level) && a.0 == b.0),
    ensures
        year_month(level, a.0, a.1) == year_month(level, b.0, b.1),
{
}

/// Every build is stamped at twenty past four, UTC.
pub proof fn law_stamps_are_at_one_time_of_day(date: (int, int))
    ensures
        build_moment(date).seconds() % 86400 == 4 * 3600 + 20 * 60,
{
}

/// Every build is stamped on the fifth of its month.
pub proof fn law_stamps_are_on_the_fifth(date: (int, int))
    requires
        -9999 <= date.0 <= 9999,
        1 <= date.1 <= 12,
    ensures
        ({
            let t = build_moment(date);
            &&& t.year == date.0
            &&& t.month == date.1
            &&& t.is_real()
            &&& t.seconds() - 4 * 3600 - 20 * 60 == 86400 * (4 + days_before_month(
                date.0,
                date.1,
            ) + days_before_year(date.0) - days_before_year(1970))
        }),
{
}

/// The calendar is that of Gregory: a year has as many days as its months, 366 where its
/// number is a multiple of four but not of a hundred, or one of four hundred, and 365
/// else; and the next day is the next weekday.
pub proof fn law_years_have_their_days(y: int, m: int, d: int)
    requires
        1 <= y,
    ensures
        ({
            let leap = y % 400 == 0 || (y % 4 == 0 && y % 100 != 0);
            &&& days_before_year(y + 1) - days_before_year(y) == (if leap {
                366int
            } else {
                365int
            })
            &&& days_before_month(y, 13) == days_before_year(y + 1) - days_before_year(y)
            &&& month_days(y, 2) == (if leap {
                29int
            } else {
                28int
            })
            &&& epoch_days(y, 12, 31) + 1 == epoch_days(y + 1, 1, 1)
            &&& epoch_days(y, m, d + 1) == epoch_days(y, m, d) + 1
            &&& 1 <= m < 12 ==> epoch_days(y, m, month_days(y, m)) + 1 == epoch_days(y, m + 1, 1)
            &&& epoch_days(1970, 1, 1) == 0
        }),
{
    reveal_with_fuel(days_before_month, 14);
}

} // verus!
