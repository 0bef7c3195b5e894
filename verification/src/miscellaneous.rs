//! The files the program writes: paths, the CSV data it appends, the log
//! entries, and the time from which sensor data is requested.

use vstd::prelude::*;
use chrono::{DateTime, FixedOffset, Local, TimeZone};
use crate::text::{
    opt_view,
    chars_eq, chars_of, free_of, lemma_lines_chars, lemma_lines_first, lines_of, push_all, split_lines,
    string_of, views,
};

verus! {

/// The time formats this library formats times with.
pub open spec fn known_time_format(fmt: Seq<char>) -> bool {
    ||| fmt == "%Y-%m-%dT%H:%M"@
    ||| fmt == "%Y-%m-%dT00:00"@
    ||| fmt == "%Y.%m.%d %H:%M:%S"@
}

/// A decimal digit.
pub open spec fn is_digit(c: char) -> bool {
    0x30 <= (c as u32) <= 0x39
}

/// What chrono writes for `%Y`: four digits for the years 0 to 9999, and for
/// other years a sign followed by four to six digits.
pub open spec fn year_text(s: Seq<char>) -> bool {
    ||| s.len() == 4 && forall|i: int| 0 <= i < 4 ==> is_digit(#[trigger] s[i])
    ||| 5 <= s.len() <= 7 && (s[0] == '+' || s[0] == '-') && forall|i: int|
        1 <= i < s.len() ==> is_digit(#[trigger] s[i])
}

/// `s` fits the pattern `p`, in which `#` stands for a digit and every other
/// character for itself.
pub open spec fn fits_pattern(s: Seq<char>, p: Seq<char>) -> bool {
    &&& s.len() == p.len()
    &&& forall|i: int|
        0 <= i < p.len() ==> if p[i] == '#' {
            is_digit(#[trigger] s[i])
        } else {
            s[i] == p[i]
        }
}

/// A year as `%Y` writes it, followed by the rest of a time stamp that fits
/// `tail`.
pub open spec fn stamp(s: Seq<char>, tail: Seq<char>) -> bool {
    &&& s.len() >= tail.len() + 4
    &&& year_text(s.take(s.len() - tail.len()))
    &&& fits_pattern(s.skip(s.len() - tail.len()), tail)
}

/// A time stamp as `%Y-%m-%dT%H:%M` writes it, such as `2024-01-31T13:45`.
pub open spec fn minute_stamp(s: Seq<char>) -> bool {
    stamp(s, "-##-##T##:##"@)
}

/// A time stamp as `%Y-%m-%dT00:00` writes it, such as `2024-01-31T00:00`.
pub open spec fn midnight_stamp(s: Seq<char>) -> bool {
    stamp(s, "-##-##T00:00"@)
}

/// A time stamp as `%Y.%m.%d %H:%M:%S` writes it, such as
/// `2024.01.31 13:45:07`.
pub open spec fn second_stamp(s: Seq<char>) -> bool {
    stamp(s, ".##.## ##:##:##"@)
}

/// What chrono writes for one of the formats of this library.
pub open spec fn formatted_as(fmt: Seq<char>, s: Seq<char>) -> bool {
    if fmt == "%Y-%m-%dT%H:%M"@ {
        minute_stamp(s)
    } else if fmt == "%Y-%m-%dT00:00"@ {
        midnight_stamp(s)
    } else {
        second_stamp(s)
    }
}

/// What chrono writes, in the format `fmt`, of the instant `secs` seconds
/// and `nanos` nanoseconds after the Unix epoch, seen at the fixed offset of
/// `offset` seconds east of UTC; `None` where chrono cannot represent the
/// instant or the offset.
pub uninterp spec fn local_text(secs: i64, nanos: u32, offset: i32, fmt: Seq<char>) -> Option<
    Seq<char>,
>;

/// A reading of the local clock: the seconds and nanoseconds since the Unix
/// epoch, and the offset of the local time zone then, in seconds east of UTC.
/// Trusted: `chrono::Local::now`, `DateTime::timestamp`,
/// `DateTime::timestamp_subsec_nanos` and `FixedOffset::local_minus_utc` of
/// its offset. The reading depends on the clock and the time zone of the
/// machine: stated is only what holds of every reading of a `DateTime` that
/// chrono represents (its range, a valid offset), and so that chrono can
/// format it again in the formats of this library.
#[verifier::external_body]
fn local_now_reading() -> (r: (i64, u32, i32))
    ensures
        -8_400_000_000_000 <= r.0 <= 8_400_000_000_000,
        -86_400 < r.2 < 86_400,
        forall|fmt: Seq<char>|
            known_time_format(fmt) ==> (#[trigger] local_text(r.0, r.1, r.2, fmt)) is Some,
{
    let now = Local::now();
    (now.timestamp(), now.timestamp_subsec_nanos(), now.offset().local_minus_utc())
}

/// The offset of the local time zone at an instant, in seconds east of UTC.
/// Trusted: `chrono::DateTime::from_timestamp` (`None` where the instant
/// cannot be represented), `<Local as TimeZone>::offset_from_utc_datetime`
/// and `FixedOffset::local_minus_utc`. The offset depends on the time zone of
/// the machine: only its range is stated.
#[verifier::external_body]
fn local_offset_at(secs: i64, nanos: u32) -> (r: Option<i32>)
    ensures
        r matches Some(o) ==> -86_400 < o < 86_400,
{
    match DateTime::from_timestamp(secs, nanos) {
        Some(t) => Some(Local.offset_from_utc_datetime(&t.naive_utc()).local_minus_utc()),
        None => None,
    }
}

/// An instant, seen at a fixed offset, formatted.
/// Trusted: `chrono::DateTime::from_timestamp`, `FixedOffset::east_opt`
/// (each `None` out of range), `DateTime::with_timezone` and
/// `DateTime::format` with its `Display`; the text is named by `local_text`.
/// Its shape is stated too (`formatted_as`), as chrono's `%Y`, `%m`, `%d`,
/// `%H`, `%M` and `%S` write their numbers (zero-padded; the year signed
/// outside 0 to 9999) and copy the other characters. Formatting fails (and
/// `to_string` panics) only on a malformed format; `requires` admits the
/// well-formed formats of this library.
#[verifier::external_body]
fn format_at(secs: i64, nanos: u32, offset: i32, fmt: &str) -> (r: Option<String>)
    requires
        known_time_format(fmt@),
    ensures
        opt_view(r) == local_text(secs, nanos, offset, fmt@),
        r matches Some(s) ==> formatted_as(fmt@, s@),
{
    match (DateTime::from_timestamp(secs, nanos), FixedOffset::east_opt(offset)) {
        (Some(t), Some(o)) => Some(t.with_timezone(&o).format(fmt).to_string()),
        _ => None,
    }
}

/// How a file is opened for writing.
#[derive(Clone, Copy, Debug, PartialEq, Eq)]
pub enum WriteMode {
    Append,
    Overwrite,
}

impl WriteMode {
    /// Whether the file is appended to (rather than truncated).
    pub fn as_bool(&self) -> (r: bool)
        ensures
            r == (*self == WriteMode::Append),
    {
        match self {
            WriteMode::Append => true,
            WriteMode::Overwrite => false,
        }
    }
}

/// An instant at an offset, as `2024-01-31T13:45` (see `local_text`).
pub fn minute_text_at(secs: i64, nanos: u32, offset: i32) -> (r: Option<String>)
    ensures
        opt_view(r) == local_text(secs, nanos, offset, "%Y-%m-%dT%H:%M"@),
        r matches Some(s) ==> minute_stamp(s@),
{
    format_at(secs, nanos, offset, "%Y-%m-%dT%H:%M")
}

/// The current local time, as `2024-01-31T13:45`: the clock read once and
/// formatted at the local offset of that moment.
pub fn current_time() -> (r: String)
    ensures
        minute_stamp(r@),
        exists|s: i64, n: u32, o: i32| #[trigger]
            local_text(s, n, o, "%Y-%m-%dT%H:%M"@) == Some(r@),
{
    let (s, n, o) = local_now_reading();
    match minute_text_at(s, n, o) {
        Some(t) => t,
        None => String::new(),
    }
}

/// Why no start time could be given.
#[derive(Clone, Copy, Debug, PartialEq, Eq)]
pub enum TimeError {
    /// The time thirty days ago cannot be represented.
    OutOfRange,
}

impl TimeError {
    /// The message that describes the error.
    pub fn message(&self) -> (r: &'static str)
        ensures
            r@ == "time out of range"@,
    {
        "time out of range"
    }
}

/// The number of characters of `l` before its first comma.
pub open spec fn field_len(l: Seq<char>) -> nat
    decreases l.len(),
{
    if l.len() == 0 || l[0] == ',' {
        0
    } else {
        1 + field_len(l.drop_first())
    }
}

proof fn lemma_field_len_at(l: Seq<char>, k: int)
    requires
        0 <= k <= l.len(),
        k < l.len() ==> l[k] == ',',
        forall|m: int| 0 <= m < k ==> l[m] != ',',
    ensures
        field_len(l) == k,
    decreases l.len(),
{
    if k > 0 {
        lemma_field_len_at(l.drop_first(), k - 1);
    }
}

/// The time stamp that a line of a CSV file of sensor data starts with: its
/// first comma-separated field, with each space turned into a `T`.
pub open spec fn line_timestamp(l: Seq<char>) -> Seq<char> {
    l.take(field_len(l) as int).map_values(|c: char| if c == ' ' { 'T' } else { c })
}

/// The time stamp of the last line of a CSV file, or the empty text where
/// there is no such line.
pub open spec fn last_log_timestamp(last_line: Option<Seq<char>>) -> Seq<char> {
    match last_line {
        Some(l) => line_timestamp(l),
        None => Seq::empty(),
    }
}

/// The time stamp of the last line of a CSV file (see `last_log_timestamp`).
pub fn timestamp_of_last_line(last_line: Option<&str>) -> (r: String)
    ensures
        r@ == last_log_timestamp(match last_line {
            Some(l) => Some(l@),
            None => None,
        }),
{
    match last_line {
        None => String::new(),
        Some(l) => {
            let v = chars_of(l);
            let n = v.len();
            let mut r: Vec<char> = Vec::new();
            let mut i: usize = 0;
            while i < n && v[i] != ','
                invariant
                    n == v.len(),
                    i <= n,
                    forall|m: int| 0 <= m < i ==> v@[m] != ',',
                    r@ == v@.take(i as int).map_values(|c: char| if c == ' ' { 'T' } else { c }),
                decreases n - i,
            {
                let c = v[i];
                r.push(if c == ' ' { 'T' } else { c });
                i = i + 1;
                assert(r@ =~= v@.take(i as int).map_values(|c: char| if c == ' ' { 'T' } else { c }));
            }
            proof {
                lemma_field_len_at(v@, i as int);
            }
            string_of(&r)
        },
    }
}

/// The seconds of thirty days of 24 hours.
pub open spec fn thirty_days() -> int {
    2_592_000
}

/// The start time where a CSV file gives none: midnight of the local day of
/// the instant thirty days of 24 hours before `secs`/`nanos`, with
/// `offset_then` the local offset at that instant, as `2024-01-31T00:00`.
pub open spec fn fallback_start(secs: i64, nanos: u32, offset_then: Option<i32>) -> Option<
    Seq<char>,
> {
    match offset_then {
        Some(o) => local_text((secs - thirty_days()) as i64, nanos, o, "%Y-%m-%dT00:00"@),
        None => None,
    }
}

/// The start time where a CSV file gives none (see `fallback_start`).
pub fn fallback_start_at(secs: i64, nanos: u32, offset_then: Option<i32>) -> (r: Option<String>)
    requires
        secs >= i64::MIN + thirty_days(),
    ensures
        opt_view(r) == fallback_start(secs, nanos, offset_then),
        r matches Some(s) ==> midnight_stamp(s@),
{
    proof {
        reveal_strlit("%Y-%m-%dT00:00");
        reveal_strlit("%Y-%m-%dT%H:%M");
        assert("%Y-%m-%dT00:00"@[9] != "%Y-%m-%dT%H:%M"@[9]);
    }
    match offset_then {
        Some(o) => format_at(secs - 2_592_000, nanos, o, "%Y-%m-%dT00:00"),
        None => None,
    }
}

/// The time from which sensor data is requested: the time stamp of the last
/// line of the sensor's CSV file, or, where there is none (no file, no line,
/// or an empty time stamp), midnight of the local day thirty days ago, as
/// `2024-01-31T00:00` (the clock read once; see `fallback_start`).
pub fn read_last_log(last_line: Option<&str>) -> (r: Result<String, TimeError>)
    ensures
        ({
            let t = last_log_timestamp(
                match last_line {
                    Some(l) => Some(l@),
                    None => None,
                },
            );
            &&& t.len() > 0 ==> (r matches Ok(s) && s@ == t)
            &&& r is Err ==> t.len() == 0
            &&& t.len() == 0 ==> (r matches Ok(s) ==> midnight_stamp(s@) && exists|
                secs: i64,
                nanos: u32,
                o: i32,
            | #[trigger] fallback_start(secs, nanos, Some(o)) == Some(s@))
        }),
{
    let t = timestamp_of_last_line(last_line);
    if t.as_str().is_empty() {
        let (secs, nanos, _offset_now) = local_now_reading();
        let offset_then = local_offset_at(secs - 2_592_000, nanos);
        match fallback_start_at(secs, nanos, offset_then) {
            Some(s) => {
                assert(fallback_start(secs, nanos, Some(offset_then->0)) == Some(s@));
                Ok(s)
            },
            None => Err(TimeError::OutOfRange),
        }
    } else {
        Ok(t)
    }
}

/// The header line of the CSV data that the web application sends.
pub open spec fn csv_header() -> Seq<char> {
    "Zeit,Name,Wert"@
}

/// The kept lines, each ended by a line feed; header lines are dropped.
pub open spec fn clean_lines(ls: Seq<Seq<char>>) -> Seq<char>
    decreases ls.len(),
{
    if ls.len() == 0 {
        Seq::empty()
    } else {
        (if ls[0] == csv_header() {
            Seq::empty()
        } else {
            ls[0] + seq!['\n']
        }) + clean_lines(ls.drop_first())
    }
}

/// CSV data as it is appended to a file: every line but the header lines,
/// each ended by a line feed.
pub open spec fn clean_csv_spec(data: Seq<char>) -> Seq<char> {
    clean_lines(lines_of(data))
}

/// CSV data as it is appended to a file (see `clean_csv_spec`).
pub fn clean_csv(data: &str) -> (r: String)
    ensures
        r@ == clean_csv_spec(data@),
{
    let lines = split_lines(&chars_of(data));
    let header = chars_of("Zeit,Name,Wert");
    let ghost ls = lines_of(data@);
    let mut r: Vec<char> = Vec::new();
    let n = lines.len();
    assert(ls.skip(0) =~= ls);
    for i in 0..n
        invariant
            n == lines.len(),
            views(lines@) == ls,
            header@ == csv_header(),
            clean_csv_spec(data@) == r@ + clean_lines(ls.skip(i as int)),
    {
        assert(ls.skip(i as int).drop_first() =~= ls.skip(i + 1));
        assert(ls.skip(i as int)[0] == lines@[i as int]@);
        let ghost before = r@;
        if !chars_eq(&lines[i], &header) {
            push_all(&mut r, &lines[i]);
            r.push('\n');
        }
        assert(before + clean_lines(ls.skip(i as int)) =~= r@ + clean_lines(ls.skip(i + 1)));
    }
    assert(ls.skip(n as int).len() == 0);
    assert(r@ + clean_lines(ls.skip(n as int)) =~= r@);
    string_of(&r)
}

/// A log entry: on a new line, the time stamp, a space and the message.
pub open spec fn log_entry_spec(timestamp: Seq<char>, message: Seq<char>) -> Seq<char> {
    "\n"@ + timestamp + " "@ + message
}

/// A log entry (see `log_entry_spec`).
pub fn log_entry(timestamp: &str, message: &str) -> (r: String)
    ensures
        r@ == log_entry_spec(timestamp@, message@),
{
    let mut r = String::new();
    r.append("\n");
    r.append(timestamp);
    r.append(" ");
    r.append(message);
    r
}

/// A log entry stamped with an instant at an offset, as
/// `2024.01.31 13:45:07` (see `local_text`).
pub fn log_entry_at(secs: i64, nanos: u32, offset: i32, message: &str) -> (r: Option<String>)
    ensures
        match local_text(secs, nanos, offset, "%Y.%m.%d %H:%M:%S"@) {
            Some(t) => r matches Some(e) && e@ == log_entry_spec(t, message@) && second_stamp(t),
            None => r is None,
        },
{
    proof {
        reveal_strlit("%Y.%m.%d %H:%M:%S");
        reveal_strlit("%Y-%m-%dT00:00");
        reveal_strlit("%Y-%m-%dT%H:%M");
        assert("%Y.%m.%d %H:%M:%S"@.len() != "%Y-%m-%dT%H:%M"@.len());
        assert("%Y.%m.%d %H:%M:%S"@.len() != "%Y-%m-%dT00:00"@.len());
    }
    match format_at(secs, nanos, offset, "%Y.%m.%d %H:%M:%S") {
        Some(t) => Some(log_entry(t.as_str(), message)),
        None => None,
    }
}

/// A log entry stamped with the current local time, as `2024.01.31 13:45:07`
/// (the clock read once).
pub fn log_entry_now(message: &str) -> (r: String)
    ensures
        exists|s: i64, n: u32, o: i32|
            #[trigger] local_text(s, n, o, "%Y.%m.%d %H:%M:%S"@) matches Some(t) && second_stamp(t)
                && r@ == log_entry_spec(t, message@),
{
    let (s, n, o) = local_now_reading();
    match log_entry_at(s, n, o, message) {
        Some(e) => e,
        None => String::new(),
    }
}

/// A file in a directory: the directory, a slash and the file name.
pub fn join_path(dir: &str, name: &str) -> (r: String)
    ensures
        r@ == dir@ + "/"@ + name@,
{
    let mut r = String::new();
    r.append(dir);
    r.append("/");
    r.append(name);
    r
}

/// The CSV file of a sensor: its name followed by `.csv`.
pub fn csv_file_name(sensor: &str) -> (r: String)
    ensures
        r@ == sensor@ + ".csv"@,
{
    let mut r = String::new();
    r.append(sensor);
    r.append(".csv");
    r
}

/// The configuration file of a program, in the program's directory.
pub fn config_file_path(dir: &str, program: &str) -> (r: String)
    ensures
        r@ == dir@ + "/config_"@ + program@ + ".txt"@,
{
    let mut r = String::new();
    r.append(dir);
    r.append("/config_");
    r.append(program);
    r.append(".txt");
    r
}

/// The login page of the web application at `ip`.
pub fn login_page_url(ip: &str) -> (r: String)
    ensures
        r@ == "http://"@ + ip@ + "/accounts/m_login/"@,
{
    let mut r = String::new();
    r.append("http://");
    r.append(ip);
    r.append("/accounts/m_login/");
    r
}

/// The logging page of the web application at `ip`.
pub fn logger_page_url(ip: &str) -> (r: String)
    ensures
        r@ == "http://"@ + ip@ + "/m_logger/1/"@,
{
    let mut r = String::new();
    r.append("http://");
    r.append(ip);
    r.append("/m_logger/1/");
    r
}


/// The lines that are not header lines, in order.
pub open spec fn kept_lines(ls: Seq<Seq<char>>) -> Seq<Seq<char>>
    decreases ls.len(),
{
    if ls.len() == 0 {
        Seq::empty()
    } else {
        (if ls[0] == csv_header() {
            Seq::empty()
        } else {
            seq![ls[0]]
        }) + kept_lines(ls.drop_first())
    }
}

proof fn lemma_lines_of_clean(ls: Seq<Seq<char>>)
    requires
        forall|i: int| 0 <= i < ls.len() ==> free_of(#[trigger] ls[i], '\n') && free_of(ls[i], '\r'),
    ensures
        lines_of(clean_lines(ls)) == kept_lines(ls),
    decreases ls.len(),
{
    if ls.len() > 0 {
        let rest = ls.drop_first();
        assert forall|i: int| 0 <= i < rest.len() implies free_of(#[trigger] rest[i], '\n')
            && free_of(rest[i], '\r') by {
            assert(rest[i] == ls[i + 1]);
        }
        lemma_lines_of_clean(rest);
        if ls[0] != csv_header() {
            assert(free_of(ls[0], '\n') && free_of(ls[0], '\r'));
            if ls[0].len() > 0 {
                assert(ls[0].last() == ls[0][ls[0].len() - 1]);
            }
            lemma_lines_first(ls[0], clean_lines(rest));
            assert(clean_lines(ls) == ls[0] + seq!['\n'] + clean_lines(rest));
        } else {
            assert(clean_lines(ls) =~= clean_lines(rest));
            assert(kept_lines(ls) =~= kept_lines(rest));
        }
    }
}

proof fn lemma_clean_kept(ls: Seq<Seq<char>>)
    ensures
        clean_lines(kept_lines(ls)) == clean_lines(ls),
    decreases ls.len(),
{
    if ls.len() > 0 {
        let rest = ls.drop_first();
        lemma_clean_kept(rest);
        if ls[0] == csv_header() {
            assert(kept_lines(ls) =~= kept_lines(rest));
            assert(clean_lines(ls) =~= clean_lines(rest));
        } else {
            let k = kept_lines(ls);
            assert(k == seq![ls[0]] + kept_lines(rest));
            assert(k[0] == ls[0]);
            assert(k.drop_first() =~= kept_lines(rest));
        }
    }
}

proof fn lemma_kept_no_header(ls: Seq<Seq<char>>)
    ensures
        forall|i: int| 0 <= i < kept_lines(ls).len() ==> #[trigger] kept_lines(ls)[i] != csv_header(),
    decreases ls.len(),
{
    if ls.len() > 0 {
        let rest = ls.drop_first();
        lemma_kept_no_header(rest);
        if ls[0] == csv_header() {
            assert(kept_lines(ls) =~= kept_lines(rest));
        } else {
            assert forall|i: int| 0 <= i < kept_lines(ls).len() implies #[trigger] kept_lines(
                ls,
            )[i] != csv_header() by {
                if i > 0 {
                    assert(kept_lines(ls)[i] == kept_lines(rest)[i - 1]);
                }
            }
        }
    }
}

/// Cleaning CSV data a second time changes nothing, for data without
/// carriage returns.
pub proof fn lemma_clean_csv_idempotent(data: Seq<char>)
    requires
        free_of(data, '\r'),
    ensures
        clean_csv_spec(clean_csv_spec(data)) == clean_csv_spec(data),
{
    let ls = lines_of(data);
    lemma_lines_chars(data);
    lemma_lines_of_clean(ls);
    lemma_clean_kept(ls);
}

/// Cleaned CSV data holds no header line, for data without carriage
/// returns.
pub proof fn lemma_clean_csv_no_header(data: Seq<char>)
    requires
        free_of(data, '\r'),
    ensures
        forall|i: int|
            0 <= i < lines_of(clean_csv_spec(data)).len() ==> #[trigger] lines_of(
                clean_csv_spec(data),
            )[i] != csv_header(),
{
    let ls = lines_of(data);
    lemma_lines_chars(data);
    lemma_lines_of_clean(ls);
    lemma_kept_no_header(ls);
}

proof fn lemma_clean_lines_ends(ls: Seq<Seq<char>>)
    ensures
        clean_lines(ls).len() == 0 || clean_lines(ls).last() == '\n',
    decreases ls.len(),
{
    if ls.len() > 0 {
        lemma_clean_lines_ends(ls.drop_first());
    }
}

/// Cleaned CSV data is empty or ends with a line feed, so that data
/// appended after it starts on a line of its own.
pub proof fn lemma_clean_csv_ends_line(data: Seq<char>)
    ensures
        clean_csv_spec(data).len() == 0 || clean_csv_spec(data).last() == '\n',
{
    lemma_clean_lines_ends(lines_of(data));
}

proof fn lemma_field_len(l: Seq<char>)
    ensures
        field_len(l) <= l.len(),
        forall|m: int| 0 <= m < field_len(l) ==> l[m] != ',',
    decreases l.len(),
{
    if l.len() > 0 && l[0] != ',' {
        lemma_field_len(l.drop_first());
        assert forall|m: int| 0 <= m < field_len(l) implies l[m] != ',' by {
            if m > 0 {
                assert(l[m] == l.drop_first()[m - 1]);
            }
        }
    }
}

/// The time stamp taken from a CSV line holds no space and no comma.
pub proof fn lemma_line_timestamp_shape(l: Seq<char>)
    ensures
        free_of(line_timestamp(l), ' '),
        free_of(line_timestamp(l), ','),
{
    lemma_field_len(l);
}

} // verus!
