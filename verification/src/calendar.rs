//! Dates and times.

use vstd::prelude::*;

verus! {

/// The instant that an RFC 3339 text names, in Unix seconds; nothing for any
/// other text.
pub uninterp spec fn rfc3339_seconds(text: Seq<char>) -> Option<i64>;

/// `chrono::DateTime::parse_from_rfc3339`: the instant that the text names, in
/// whole Unix seconds, or nothing where it is not such a text. Which texts it
/// accepts is left to the name [`rfc3339_seconds`].
#[verifier::external_body]
pub(crate) fn parse_rfc3339(text: &str) -> (r: Option<i64>)
    ensures
        r == rfc3339_seconds(text@),
{
    chrono::DateTime::parse_from_rfc3339(text).ok().map(|d| d.timestamp())
}

/// Midnight UTC of the day that a text names under a format, in Unix seconds;
/// nothing for any other text.
pub uninterp spec fn day_seconds(text: Seq<char>, format: Seq<char>) -> Option<i64>;

/// `chrono::NaiveDate::parse_from_str`: the day that the text names under the
/// format, as the Unix seconds of its midnight in UTC, or nothing where the text
/// does not fit. Which texts fit is left to the name [`day_seconds`].
#[verifier::external_body]
pub(crate) fn parse_day(text: &str, format: &str) -> (r: Option<i64>)
    ensures
        r == day_seconds(text@, format@),
{
    let day = chrono::NaiveDate::parse_from_str(text, format).ok()?;
    Some(day.and_time(chrono::NaiveTime::MIN).and_utc().timestamp())
}

/// The instant in UTC that a text names under a format, in Unix seconds;
/// nothing for any other text.
pub uninterp spec fn moment_seconds(text: Seq<char>, format: Seq<char>) -> Option<i64>;

/// `chrono::NaiveDateTime::parse_from_str`: the moment that the text names under
/// the format, read in UTC, in Unix seconds, or nothing where the text does not
/// fit. Which texts fit is left to the name [`moment_seconds`].
#[verifier::external_body]
pub(crate) fn parse_moment(text: &str, format: &str) -> (r: Option<i64>)
    ensures
        r == moment_seconds(text@, format@),
{
    let moment = chrono::NaiveDateTime::parse_from_str(text, format).ok()?;
    Some(moment.and_utc().timestamp())
}

/// What a date in RFC 3339 is written with.
pub open spec fn is_date_char(c: char) -> bool {
    '0' <= c <= '9' || c == '-' || c == '+' || c == ':' || c == 'T' || c == 'Z'
}

/// An instant as RFC 3339 text in UTC; nothing for one that is out of range.
pub uninterp spec fn utc_text_of(seconds: i64) -> Option<Seq<char>>;

/// `chrono::DateTime::from_timestamp` and then `to_rfc3339_opts`, with whole
/// seconds and `Z`: the instant's text, written with the characters of
/// [`is_date_char`] alone, or nothing where chrono cannot represent it. The
/// epoch can be represented. What else the text says is left to the name
/// [`utc_text_of`].
#[verifier::external_body]
pub(crate) fn utc_text(seconds: i64) -> (r: Option<String>)
    ensures
        crate::text::opt_view(r) == utc_text_of(seconds),
        r matches Some(t) ==> forall|i: int| 0 <= i < t@.len() ==> is_date_char(#[trigger] t@[i]),
        seconds == 0 ==> r is Some,
{
    chrono::DateTime::from_timestamp(seconds, 0).map(
        |d| d.to_rfc3339_opts(chrono::SecondsFormat::Secs, true),
    )
}

/// A day, counted from 1 January 1970, as `YYYY-MM-DD`; nothing for one that is
/// out of range.
pub uninterp spec fn day_text_of(day: i32) -> Option<Seq<char>>;

/// `chrono::NaiveDate::from_epoch_days` and then its text: the day as
/// `YYYY-MM-DD`, or nothing where chrono cannot represent it. Which characters
/// those are is left to the name [`day_text_of`].
#[verifier::external_body]
fn day_text(day: i32) -> (r: Option<String>)
    ensures
        crate::text::opt_view(r) == day_text_of(day),
{
    chrono::NaiveDate::from_epoch_days(day).map(|d| d.to_string())
}

/// The day that an instant falls on in UTC, counted from 1 January 1970.
pub open spec fn day_of(seconds: int) -> int {
    seconds / 86400
}

/// A day's text, if it has one.
pub open spec fn text_of_day(day: int) -> Option<Seq<char>> {
    if i32::MIN <= day <= i32::MAX {
        day_text_of(day as i32)
    } else {
        None
    }
}

/// Some of the `days` days up to the one that `now` falls on has no text.
pub open spec fn window_out_of_range(now: i64, days: u32) -> bool {
    exists|i: int|
        0 <= i < days && #[trigger] text_of_day(day_of(now as int) - (days - 1) + i) is None
}

/// The `days` days up to and with the one that `now` falls on, oldest first, as
/// `YYYY-MM-DD`; nothing where one of them is out of range.
pub fn days_window(now: i64, days: u32) -> (r: Option<Vec<String>>)
    ensures
        match r {
            Some(dates) => {
                &&& dates@.len() == days
                &&& forall|i: int|
                    0 <= i < days ==> Some((#[trigger] dates@[i])@) == text_of_day(
                        day_of(now as int) - (days - 1) + i,
                    )
            },
            None => window_out_of_range(now, days),
        },
{
    let end: i64 = if now >= 0 {
        now / 86400
    } else {
        -1 - ((-1 - now) / 86400)
    };
    assert(end == day_of(now as int)) by (nonlinear_arith)
        requires
            now >= 0 ==> end == now as int / 86400,
            now < 0 ==> end == -1 - ((-1 - now) as int / 86400),
    {
    }
    let mut dates: Vec<String> = Vec::new();
    let mut i: u32 = 0;
    while i < days
        invariant
            i <= days,
            end == day_of(now as int),
            -200_000_000_000_000 <= end <= 200_000_000_000_000,
            dates@.len() == i,
            forall|j: int|
                0 <= j < i ==> Some((#[trigger] dates@[j])@) == text_of_day(
                    day_of(now as int) - (days - 1) + j,
                ),
        decreases days - i,
    {
        let day: i64 = end - (days as i64 - 1) + i as i64;
        assert(day == day_of(now as int) - (days - 1) + i);
        if day < i32::MIN as i64 || day > i32::MAX as i64 {
            assert(text_of_day(day_of(now as int) - (days - 1) + i) is None);
            return None;
        }
        match day_text(day as i32) {
            Some(t) => {
                dates.push(t);
            },
            None => {
                assert(text_of_day(day_of(now as int) - (days - 1) + i) is None);
                return None;
            },
        }
        i = i + 1;
    }
    Some(dates)
}

/// `chrono::Utc::now`: the present, in whole Unix seconds, from the epoch on. Which
/// number that is is the clock's to say; one that is set before the epoch makes
/// chrono panic.
#[verifier::external_body]
fn utc_now() -> (r: i64)
    ensures
        0 <= r,
{
    chrono::Utc::now().timestamp()
}

/// The current time as a Unix timestamp in seconds. The clock decides which.
pub fn now_ts() -> (r: i64)
    ensures
        0 <= r,
{
    utc_now()
}

/// The day of an instant is the one that it falls on: not before the day begins, and
/// before the next one does.
pub proof fn an_instant_falls_on_its_day(seconds: int)
    ensures
        day_of(seconds) * 86400 <= seconds < (day_of(seconds) + 1) * 86400,
{
}

/// A day has the text that chrono gives it, where it can be counted.
pub proof fn a_day_has_its_text(day: i32)
    ensures
        text_of_day(day as int) == day_text_of(day),
{
}

}
