use vstd::prelude::*;
use chrono::Datelike;

verus! {

/// The calendar year and month (1 to 12) in UTC of a timestamp given in
/// milliseconds since the Unix epoch; `None` outside chrono's range of dates.
pub uninterp spec fn utc_year_month(ms: i64) -> Option<(i32, u32)>;

/// The timestamp `n` calendar months before `ms` (same day and time of day,
/// the day clamped to the end of a shorter month); `None` when out of range.
pub uninterp spec fn months_earlier_of(ms: i64, n: u32) -> Option<i64>;

/// The month label (`"%b %Y"`, such as `"Mar 2024"`) of a timestamp.
pub uninterp spec fn month_label_of(ms: i64) -> Option<Seq<char>>;

/// The timestamp of the first day of a month at midnight UTC.
pub uninterp spec fn month_start_of(year: i32, month: u32) -> Option<i64>;

/// The four decimal digits of a year from 0 to 9999, zero-padded.
pub open spec fn year_digits(year: int) -> Seq<char> {
    seq![
        "0123456789"@[year / 1000],
        "0123456789"@[(year / 100) % 10],
        "0123456789"@[(year / 10) % 10],
        "0123456789"@[year % 10],
    ]
}

/// Months counted from year 0: consecutive calendar months have consecutive indices.
pub open spec fn month_index(year: int, month: int) -> int {
    year * 12 + month - 1
}

/// The three-letter English abbreviation of a month.
pub open spec fn month_abbrev(month: int) -> Seq<char> {
    if month == 1 {
        "Jan"@
    } else if month == 2 {
        "Feb"@
    } else if month == 3 {
        "Mar"@
    } else if month == 4 {
        "Apr"@
    } else if month == 5 {
        "May"@
    } else if month == 6 {
        "Jun"@
    } else if month == 7 {
        "Jul"@
    } else if month == 8 {
        "Aug"@
    } else if month == 9 {
        "Sep"@
    } else if month == 10 {
        "Oct"@
    } else if month == 11 {
        "Nov"@
    } else {
        "Dec"@
    }
}

/// The current time in milliseconds since the Unix epoch, read from
/// `chrono::Utc::now` and `DateTime::timestamp_millis`. The value is the
/// clock's; the only claims are that it is not before the epoch (`Utc::now`
/// panics on a system time before 1970), that it lies within the range of
/// chrono's `DateTime<Utc>` (up to year 262142, less than 8.4e15 ms), and
/// that five calendar months before it is a date chrono can hold (1969 or
/// later, far inside its range).
#[verifier::external_body]
pub(crate) fn utc_now_millis() -> (r: i64)
    ensures
        0 <= r <= 8_400_000_000_000_000,
        months_earlier_of(r, 5) is Some,
{
    chrono::Utc::now().timestamp_millis()
}

/// Calls `chrono::DateTime::<Utc>::from_timestamp_millis`, then
/// `Datelike::year` and `Datelike::month` on the result. Claims that the
/// result is `utc_year_month(ms)`, that a month lies in 1 to 12, as
/// `Datelike::month` documents, and that the first day of that month exists
/// too (chrono's earliest date is the first of a January, and every day of
/// its range is representable).
#[verifier::external_body]
pub(crate) fn year_month_at(ms: i64) -> (r: Option<(i32, u32)>)
    ensures
        r == utc_year_month(ms),
        r matches Some(ym) ==> 1 <= ym.1 <= 12,
        r matches Some(ym) ==> month_start_of(ym.0, ym.1) is Some,
{
    let d = chrono::DateTime::<chrono::Utc>::from_timestamp_millis(ms)?;
    Some((d.year(), d.month()))
}

/// Calls `chrono::DateTime::<Utc>::from_timestamp_millis`, then
/// `DateTime::checked_sub_months` with `Months::new(n)`, then
/// `DateTime::timestamp_millis`. Claims that the result is
/// `months_earlier_of(ms, n)`, and, as the source of `NaiveDate::diff_months`
/// shows, that a result lies exactly `n` calendar months before `ms`; and
/// that when `n` months back exists, so does every smaller step back (those
/// dates lie between the result and `ms`, inside chrono's range).
#[verifier::external_body]
pub(crate) fn months_earlier(ms: i64, n: u32) -> (r: Option<i64>)
    ensures
        r == months_earlier_of(ms, n),
        r matches Some(t) ==> {
            &&& utc_year_month(ms) matches Some(now)
            &&& utc_year_month(t) matches Some(then)
            &&& month_index(then.0 as int, then.1 as int) == month_index(now.0 as int, now.1 as int) - n
        },
        r is Some ==> forall|m: u32| m <= n ==> #[trigger] months_earlier_of(ms, m) is Some,
{
    let d = chrono::DateTime::<chrono::Utc>::from_timestamp_millis(ms)?;
    let earlier = d.checked_sub_months(chrono::Months::new(n))?;
    Some(earlier.timestamp_millis())
}

/// Calls `chrono::DateTime::<Utc>::from_timestamp_millis`, then
/// `DateTime::format("%b %Y")` and `to_string`. Claims that the result is
/// `month_label_of(ms)`, that it exists exactly when the timestamp is in
/// range, that it starts with the English month abbreviation and a space
/// (chrono's `%b` without locales), and that for years 0 to 9999 the rest is
/// the year in four zero-padded digits (`%Y`, chrono's `write_year`). The
/// text of other years (a sign and five or more digits) is not stated.
#[verifier::external_body]
pub(crate) fn month_label(ms: i64) -> (r: Option<String>)
    ensures
        r is Some == month_label_of(ms) is Some,
        r matches Some(s) ==> month_label_of(ms) == Some(s@),
        r is Some == utc_year_month(ms) is Some,
        r matches Some(s) ==> (utc_year_month(ms) matches Some(ym)
            && s@.len() >= 4
            && s@.subrange(0, 3) == month_abbrev(ym.1 as int)
            && s@[3] == ' '),
        r matches Some(s) ==> (utc_year_month(ms) matches Some(ym) ==> (0 <= ym.0 <= 9999 ==> s@
            == month_abbrev(ym.1 as int) + " "@ + year_digits(ym.0 as int))),
{
    let d = chrono::DateTime::<chrono::Utc>::from_timestamp_millis(ms)?;
    Some(d.format("%b %Y").to_string())
}

/// Calls `chrono::NaiveDate::from_ymd_opt(year, month, 1)`, then
/// `NaiveDate::and_hms_opt(0, 0, 0)`, `NaiveDateTime::and_local_timezone(Utc)`,
/// `single` and `DateTime::timestamp_millis`. Claims that the result is
/// `month_start_of(year, month)` and that it falls in that very month.
#[verifier::external_body]
pub(crate) fn month_start(year: i32, month: u32) -> (r: Option<i64>)
    ensures
        r == month_start_of(year, month),
        r matches Some(t) ==> utc_year_month(t) == Some((year, month)),
{
    let day = chrono::NaiveDate::from_ymd_opt(year, month, 1)?;
    let midnight = day.and_hms_opt(0, 0, 0)?;
    let utc = midnight.and_local_timezone(chrono::Utc).single()?;
    Some(utc.timestamp_millis())
}

} // verus!
