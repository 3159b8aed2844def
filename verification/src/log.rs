//! Operation log lines: one file per day named after the date, and each line
//! stamped with the wall-clock time and a tag.

use vstd::prelude::*;

verus! {

/// An ASCII decimal digit.
pub open spec fn is_digit(c: char) -> bool {
    '0' <= c && c <= '9'
}

/// A time of day as `HH:MM:SS`: two digits, ':', two digits, ':', two digits.
pub open spec fn is_clock_time(t: Seq<char>) -> bool {
    &&& t.len() == 8
    &&& t[2] == ':'
    &&& t[5] == ':'
    &&& is_digit(t[0]) && is_digit(t[1])
    &&& is_digit(t[3]) && is_digit(t[4])
    &&& is_digit(t[6]) && is_digit(t[7])
}

/// `chrono::Local::now().format("%H:%M:%S")`: the local time of day. Each of
/// `%H`, `%M` and `%S` is two zero-padded digits, so the text always has the
/// shape `HH:MM:SS`; which time it is, nothing here states.
#[verifier::external_body]
fn clock_time() -> (t: String)
    ensures
        is_clock_time(t@),
{
    chrono::Local::now().format("%H:%M:%S").to_string()
}

/// A year as `%Y` writes it: four digits for years 0 to 9999, otherwise a
/// sign ('+' or '-') followed by at least four digits.
pub open spec fn is_year_text(y: Seq<char>) -> bool {
    ||| y.len() == 4 && forall|i: int| 0 <= i < 4 ==> is_digit(#[trigger] y[i])
    ||| y.len() >= 5 && (y[0] == '+' || y[0] == '-') && forall|i: int|
        1 <= i < y.len() ==> is_digit(#[trigger] y[i])
}

/// A date as `YYYY-MM-DD`: a year (see [`is_year_text`]), '-', two digits,
/// '-', two digits.
pub open spec fn is_date_text(d: Seq<char>) -> bool {
    let n = d.len() as int;
    &&& n >= 10
    &&& is_year_text(d.take(n - 6))
    &&& d[n - 6] == '-'
    &&& is_digit(d[n - 5]) && is_digit(d[n - 4])
    &&& d[n - 3] == '-'
    &&& is_digit(d[n - 2]) && is_digit(d[n - 1])
}

/// `chrono::Local::now().format("%Y-%m-%d")`: the local date. `%Y` writes
/// four digits for years 0 to 9999 and a sign with at least four digits
/// otherwise; `%m` and `%d` write two digits each. Which date it is, nothing
/// here states.
#[verifier::external_body]
fn local_date() -> (d: String)
    ensures
        is_date_text(d@),
{
    chrono::Local::now().format("%Y-%m-%d").to_string()
}

/// A log line: `[time] [tag] msg`.
pub open spec fn log_line(time: Seq<char>, tag: Seq<char>, msg: Seq<char>) -> Seq<char> {
    "["@ + time + "] ["@ + tag + "] "@ + msg
}

/// The line for `msg` under `tag` at `time`.
pub fn format_line(time: &str, tag: &str, msg: &str) -> (line: String)
    ensures
        line@ == log_line(time@, tag@, msg@),
{
    let mut line = "[".to_owned();
    line.append(time);
    line.append("] [");
    line.append(tag);
    line.append("] ");
    line.append(msg);
    line
}

/// The line that logs `msg` under `tag` now: stamped with the current time of
/// day, whatever it is.
pub fn info(tag: &str, msg: &str) -> (line: String)
    ensures
        exists|t: Seq<char>| is_clock_time(t) && line@ == log_line(t, tag@, msg@),
{
    let t = clock_time();
    let line = format_line(t.as_str(), tag, msg);
    assert(is_clock_time(t@) && line@ == log_line(t@, tag@, msg@));
    line
}

/// The copy of a log line shown on the console: `[tag] msg`.
pub fn console_line(tag: &str, msg: &str) -> (line: String)
    ensures
        line@ == "["@ + tag@ + "] "@ + msg@,
{
    let mut line = "[".to_owned();
    line.append(tag);
    line.append("] ");
    line.append(msg);
    line
}

/// The name of the log file of `date`: `<date>.log`.
pub fn log_file_name(date: &str) -> (name: String)
    ensures
        name@ == date@ + ".log"@,
{
    let mut name = date.to_owned();
    name.append(".log");
    name
}

/// The name of today's log file: the local date (`YYYY-MM-DD`) followed by
/// `.log`.
pub fn todays_log_file_name() -> (name: String)
    ensures
        exists|d: Seq<char>| is_date_text(d) && name@ == d + ".log"@,
{
    let d = local_date();
    let name = log_file_name(d.as_str());
    assert(is_date_text(d@) && name@ == d@ + ".log"@);
    name
}

} // verus!
