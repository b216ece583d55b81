//! Generators of date-times, dates and times of day in a range, written by
//! a format.
//!
//! A date-time is handled as its Unix timestamp in seconds, a date as its
//! day number counted from 0001-01-01 as day 1, and a time of day as its
//! seconds from midnight; chrono reads and writes their texts.

use vstd::prelude::*;
use std::fmt::Write;
use chrono::{Datelike, NaiveDate, NaiveDateTime, NaiveTime, Timelike};
use crate::builder::{GeneratorBuilder, Nullable, ValueBound};
use crate::builder::bound::option_map;
use crate::context::DataValueMap;
use crate::error::{BuildError, GenerateError};
use crate::eval::{EvalError, Evaluator, ValueFormatter, template_fill};
use crate::generator::Randomizer;
use crate::generator_type::GeneratorType;
use crate::text::{push_chars, string_of};
use crate::value::{
    DataValue, DATE_DEFAULT_FORMAT, DATE_TIME_DEFAULT_FORMAT, TIME_DEFAULT_FORMAT, int_text,
    int64_to_string, value_text,
};

verus! {

/// Why a date or time could not be written.
#[derive(Debug, PartialEq, Eq, Structural, Clone, Copy)]
pub enum TimeFault {
    /// The number stands for no date or time chrono can hold.
    OutOfRange,
    /// The format is not a valid strftime format.
    BadFormat,
}

/// What a calendar generator produces.
#[derive(Debug, PartialEq, Eq, Structural, Clone, Copy)]
pub enum CalendarUnit {
    /// Date and time, as a Unix timestamp in seconds.
    DateTime,
    /// Date, as a day number from 0001-01-01 as day 1.
    Date,
    /// Time of day, as seconds from midnight.
    Time,
}

/// The timestamp of the date-time that chrono reads from `text` by
/// `format`, or the text of chrono's error.
pub uninterp spec fn chrono_date_time_parse(text: Seq<char>, format: Seq<char>) -> Result<int, Seq<char>>;

/// The day number of the date that chrono reads from `text` by `format`,
/// or the text of chrono's error.
pub uninterp spec fn chrono_date_parse(text: Seq<char>, format: Seq<char>) -> Result<int, Seq<char>>;

/// The seconds from midnight of the time that chrono reads from `text` by
/// `format`, or the text of chrono's error.
pub uninterp spec fn chrono_time_parse(text: Seq<char>, format: Seq<char>) -> Result<int, Seq<char>>;

/// The text chrono writes for the date-time at `timestamp` by `format`.
pub uninterp spec fn chrono_date_time_format(timestamp: int, format: Seq<char>) -> Result<Seq<char>, TimeFault>;

/// The text chrono writes for the date of day number `days` by `format`.
pub uninterp spec fn chrono_date_format(days: int, format: Seq<char>) -> Result<Seq<char>, TimeFault>;

/// The text chrono writes for the time `seconds` after midnight by `format`.
pub uninterp spec fn chrono_time_format(seconds: int, format: Seq<char>) -> Result<Seq<char>, TimeFault>;

/// `NaiveDateTime::parse_from_str`, then the timestamp of the result
/// (`and_utc().timestamp()`); an error gives its text.
#[verifier::external_body]
fn parse_date_time(text: &str, format: &str) -> (r: Result<i64, String>)
    ensures
        match r {
            Ok(v) => chrono_date_time_parse(text@, format@) == Ok::<int, Seq<char>>(v as int),
            Err(m) => chrono_date_time_parse(text@, format@) == Err::<int, Seq<char>>(m@),
        },
{
    NaiveDateTime::parse_from_str(text, format).map(|d| d.and_utc().timestamp()).map_err(|e| e.to_string())
}

/// `NaiveDate::parse_from_str`, then the day number of the result
/// (`num_days_from_ce`); an error gives its text.
#[verifier::external_body]
fn parse_date(text: &str, format: &str) -> (r: Result<i32, String>)
    ensures
        match r {
            Ok(v) => chrono_date_parse(text@, format@) == Ok::<int, Seq<char>>(v as int),
            Err(m) => chrono_date_parse(text@, format@) == Err::<int, Seq<char>>(m@),
        },
{
    NaiveDate::parse_from_str(text, format).map(|d| d.num_days_from_ce()).map_err(|e| e.to_string())
}

/// `NaiveTime::parse_from_str`, then the seconds from midnight of the
/// result (`num_seconds_from_midnight`); an error gives its text.
#[verifier::external_body]
fn parse_time(text: &str, format: &str) -> (r: Result<u32, String>)
    ensures
        match r {
            Ok(v) => chrono_time_parse(text@, format@) == Ok::<int, Seq<char>>(v as int),
            Err(m) => chrono_time_parse(text@, format@) == Err::<int, Seq<char>>(m@),
        },
{
    NaiveTime::parse_from_str(text, format).map(|t| t.num_seconds_from_midnight()).map_err(|e| e.to_string())
}

/// `NaiveDateTime::from_timestamp_opt`, then `format` written into a
/// string; `None` and a write error give the faults. A timestamp from
/// 0001-01-01 00:00:00 to 9999-12-31 23:59:59 written in the default
/// format has a four-digit year, and `parse_from_str` reads it back.
#[verifier::external_body]
#[allow(deprecated)]
fn format_date_time(timestamp: i64, format: &str) -> (r: Result<String, TimeFault>)
    ensures
        match r {
            Ok(s) => chrono_date_time_format(timestamp as int, format@) == Ok::<Seq<char>, TimeFault>(s@),
            Err(f) => chrono_date_time_format(timestamp as int, format@) == Err::<Seq<char>, TimeFault>(f),
        },
        match r {
            Ok(t) => format@ == DATE_TIME_DEFAULT_FORMAT@ && -62135596800 <= timestamp <= 253402300799 ==> chrono_date_time_parse(t@, DATE_TIME_DEFAULT_FORMAT@) == Ok::<int, Seq<char>>(timestamp as int),
            Err(_) => !(format@ == DATE_TIME_DEFAULT_FORMAT@ && -62135596800 <= timestamp <= 253402300799),
        },
{
    match NaiveDateTime::from_timestamp_opt(timestamp, 0) {
        None => Err(TimeFault::OutOfRange),
        Some(d) => {
            let mut s = String::new();
            write!(s, "{}", d.format(format)).map(|_| s).map_err(|_| TimeFault::BadFormat)
        },
    }
}

/// `NaiveDate::from_num_days_from_ce_opt`, then `format` written into a
/// string; `None` and a write error give the faults. A day from 0001-01-01
/// to 9999-12-31 written in the default format reads back as the same day.
#[verifier::external_body]
fn format_date(days: i32, format: &str) -> (r: Result<String, TimeFault>)
    ensures
        match r {
            Ok(s) => chrono_date_format(days as int, format@) == Ok::<Seq<char>, TimeFault>(s@),
            Err(f) => chrono_date_format(days as int, format@) == Err::<Seq<char>, TimeFault>(f),
        },
        match r {
            Ok(t) => format@ == DATE_DEFAULT_FORMAT@ && 1 <= days <= 3652059 ==> chrono_date_parse(t@, DATE_DEFAULT_FORMAT@) == Ok::<int, Seq<char>>(days as int),
            Err(_) => !(format@ == DATE_DEFAULT_FORMAT@ && 1 <= days <= 3652059),
        },
{
    match NaiveDate::from_num_days_from_ce_opt(days) {
        None => Err(TimeFault::OutOfRange),
        Some(d) => {
            let mut s = String::new();
            write!(s, "{}", d.format(format)).map(|_| s).map_err(|_| TimeFault::BadFormat)
        },
    }
}

/// `NaiveTime::from_num_seconds_from_midnight_opt`, then `format` written
/// into a string; `None` and a write error give the faults. A time of day
/// written in the default format reads back as the same time.
#[verifier::external_body]
fn format_time(seconds: u32, format: &str) -> (r: Result<String, TimeFault>)
    ensures
        match r {
            Ok(s) => chrono_time_format(seconds as int, format@) == Ok::<Seq<char>, TimeFault>(s@),
            Err(f) => chrono_time_format(seconds as int, format@) == Err::<Seq<char>, TimeFault>(f),
        },
        match r {
            Ok(t) => format@ == TIME_DEFAULT_FORMAT@ && seconds < 86400 ==> chrono_time_parse(t@, TIME_DEFAULT_FORMAT@) == Ok::<int, Seq<char>>(seconds as int),
            Err(_) => !(format@ == TIME_DEFAULT_FORMAT@ && seconds < 86400),
        },
{
    match NaiveTime::from_num_seconds_from_midnight_opt(seconds, 0) {
        None => Err(TimeFault::OutOfRange),
        Some(t) => {
            let mut s = String::new();
            write!(s, "{}", t.format(format)).map(|_| s).map_err(|_| TimeFault::BadFormat)
        },
    }
}

/// The number chrono reads from `text` in the default format of `unit`.
pub open spec fn unit_parse(unit: CalendarUnit, text: Seq<char>) -> Result<int, Seq<char>> {
    match unit {
        CalendarUnit::DateTime => chrono_date_time_parse(text, DATE_TIME_DEFAULT_FORMAT@),
        CalendarUnit::Date => chrono_date_parse(text, DATE_DEFAULT_FORMAT@),
        CalendarUnit::Time => chrono_time_parse(text, TIME_DEFAULT_FORMAT@),
    }
}

/// The text chrono writes for `n` in `unit` by `format`; a date outside
/// `i32` and a time outside `u32` are out of range.
pub open spec fn unit_format(unit: CalendarUnit, n: int, format: Seq<char>) -> Result<Seq<char>, TimeFault> {
    match unit {
        CalendarUnit::DateTime => chrono_date_time_format(n, format),
        CalendarUnit::Date => if i32::MIN <= n <= i32::MAX {
            chrono_date_format(n, format)
        } else {
            Err(TimeFault::OutOfRange)
        },
        CalendarUnit::Time => if 0 <= n <= u32::MAX {
            chrono_time_format(n, format)
        } else {
            Err(TimeFault::OutOfRange)
        },
    }
}

/// The text a bound `n` of `unit` is kept as in a builder: `n` written in
/// the default format of `unit`, or its decimal digits when chrono holds no
/// such value.
pub open spec fn calendar_text(unit: CalendarUnit, n: int) -> Seq<char> {
    match unit_format(unit, n, unit_default_format(unit)) {
        Ok(t) => t,
        Err(_) => int_text(n),
    }
}

/// Whether chrono writes `n` of `unit` with a four-digit year at most:
/// date-times from 0001-01-01 00:00:00 to 9999-12-31 23:59:59, dates from
/// 0001-01-01 to 9999-12-31, and times of day.
pub open spec fn plain_calendar_range(unit: CalendarUnit, n: int) -> bool {
    match unit {
        CalendarUnit::DateTime => -62135596800 <= n <= 253402300799,
        CalendarUnit::Date => 1 <= n <= 3652059,
        CalendarUnit::Time => 0 <= n < 86400,
    }
}

/// Whether the text of `n` in `unit` reads back as `n` when `n` lies in
/// the plain range of `unit`.
pub open spec fn reads_back(unit: CalendarUnit, n: int) -> bool {
    plain_calendar_range(unit, n) ==> unit_parse(unit, calendar_text(unit, n)) == Ok::<int, Seq<char>>(n)
}

/// Whether `b` keeps the bounds of `given` as their texts in `unit`, with
/// the same inclusion of the end; a bound in the plain range reads back.
pub open spec fn calendar_bound_texts(unit: CalendarUnit, given: ValueBound<i64>, b: ValueBound<DataValue>) -> bool {
    &&& b.includes_end() == given.includes_end()
    &&& given.lower() matches Some(n) ==> reads_back(unit, n as int)
    &&& given.upper() matches Some(n) ==> reads_back(unit, n as int)
    &&& match (given.lower(), b.lower()) {
        (None, None) => true,
        (Some(n), Some(v)) => v is String && v->String_0@ == calendar_text(unit, n as int),
        _ => false,
    }
    &&& match (given.upper(), b.upper()) {
        (None, None) => true,
        (Some(n), Some(v)) => v is String && v->String_0@ == calendar_text(unit, n as int),
        _ => false,
    }
}

/// The default format of `unit`.
fn default_format_of(unit: CalendarUnit) -> (r: &'static str)
    ensures
        r@ == unit_default_format(unit),
{
    match unit {
        CalendarUnit::DateTime => DATE_TIME_DEFAULT_FORMAT,
        CalendarUnit::Date => DATE_DEFAULT_FORMAT,
        CalendarUnit::Time => TIME_DEFAULT_FORMAT,
    }
}

/// Whether `d` is the string of the text of `n` in `unit`, and that text
/// reads back when `n` lies in the plain range of `unit`.
pub open spec fn bound_text_of(unit: CalendarUnit, n: int, d: DataValue) -> bool {
    d is String && d->String_0@ == calendar_text(unit, n) && reads_back(unit, n)
}

/// The value a bound `n` of `unit` is kept as in a builder: the string of
/// [`calendar_text`].
pub fn calendar_bound_value(unit: CalendarUnit, n: i64) -> (r: DataValue)
    ensures
        r is String && r->String_0@ == calendar_text(unit, n as int),
        reads_back(unit, n as int),
{
    match format_calendar_value(unit, n, default_format_of(unit)) {
        Ok(t) => DataValue::String(t),
        Err(_) => DataValue::String(int64_to_string(n)),
    }
}

/// The range `given` of `unit` with each bound kept as its text.
pub fn calendar_bound(unit: CalendarUnit, given: ValueBound<i64>) -> (r: ValueBound<DataValue>)
    ensures
        calendar_bound_texts(unit, given, r),
{
    given.convert_with(
        |n: i64| -> (d: DataValue) ensures bound_text_of(unit, n as int, d) { calendar_bound_value(unit, n) },
    )
}

/// The kind of generator for `unit`.
pub open spec fn unit_type(unit: CalendarUnit) -> GeneratorType {
    match unit {
        CalendarUnit::DateTime => GeneratorType::DateTime,
        CalendarUnit::Date => GeneratorType::Date,
        CalendarUnit::Time => GeneratorType::Time,
    }
}

/// The type name that parse errors report for `unit`.
pub open spec fn unit_name(unit: CalendarUnit) -> Seq<char> {
    match unit {
        CalendarUnit::DateTime => "DateTime"@,
        CalendarUnit::Date => "Date"@,
        CalendarUnit::Time => "Time"@,
    }
}

/// The default format of `unit`.
pub open spec fn unit_default_format(unit: CalendarUnit) -> Seq<char> {
    match unit {
        CalendarUnit::DateTime => DATE_TIME_DEFAULT_FORMAT@,
        CalendarUnit::Date => DATE_DEFAULT_FORMAT@,
        CalendarUnit::Time => TIME_DEFAULT_FORMAT@,
    }
}

/// The default range of `unit`: from 1900-01-01 00:00:00 up to and without
/// 2151-01-01 00:00:00, from 1900-01-01 up to and without 2151-01-01, and
/// from 00:00:00 up to and with 23:59:59.
pub open spec fn default_unit_range(unit: CalendarUnit) -> ValueBound<i64> {
    match unit {
        CalendarUnit::DateTime => ValueBound::spec_new(Some(-2208988800i64), false, Some(5711817600i64)),
        CalendarUnit::Date => ValueBound::spec_new(Some(693596i64), false, Some(785272i64)),
        CalendarUnit::Time => ValueBound::spec_new(Some(0i64), true, Some(86399i64)),
    }
}

/// Whether `r` is the outcome of reading the text of `v` in `unit`.
pub open spec fn calendar_parse_outcome(unit: CalendarUnit, v: DataValue, r: Result<i64, BuildError>) -> bool {
    match r {
        Ok(n) => unit_parse(unit, value_text(v)) == Ok::<int, Seq<char>>(n as int),
        Err(e) => {
            &&& unit_parse(unit, value_text(v)) is Err
            &&& e matches BuildError::FailParseValue(t, ty, m)
            &&& t@ == value_text(v)
            &&& ty@ == unit_name(unit)
            &&& m@ == unit_parse(unit, value_text(v))->Err_0
        },
    }
}

/// The type name that parse errors report for `unit`.
fn unit_name_string(unit: CalendarUnit) -> (r: String)
    ensures
        r@ == unit_name(unit),
{
    match unit {
        CalendarUnit::DateTime => String::from_str("DateTime"),
        CalendarUnit::Date => String::from_str("Date"),
        CalendarUnit::Time => String::from_str("Time"),
    }
}

/// The number chrono reads from the text of `v` in the default format of `unit`.
pub fn parse_calendar_value(unit: CalendarUnit, v: DataValue) -> (r: Result<i64, BuildError>)
    ensures
        calendar_parse_outcome(unit, v, r),
{
    let text = v.to_parse_string();
    let parsed: Result<i64, String> = match unit {
        CalendarUnit::DateTime => parse_date_time(text.as_str(), DATE_TIME_DEFAULT_FORMAT),
        CalendarUnit::Date => match parse_date(text.as_str(), DATE_DEFAULT_FORMAT) {
            Ok(d) => Ok(d as i64),
            Err(m) => Err(m),
        },
        CalendarUnit::Time => match parse_time(text.as_str(), TIME_DEFAULT_FORMAT) {
            Ok(t) => Ok(t as i64),
            Err(m) => Err(m),
        },
    };
    match parsed {
        Ok(n) => Ok(n),
        Err(m) => Err(BuildError::FailParseValue(text, unit_name_string(unit), m)),
    }
}

/// The text chrono writes for `n` in `unit` by `format`.
pub fn format_calendar_value(unit: CalendarUnit, n: i64, format: &str) -> (r: Result<String, TimeFault>)
    ensures
        match r {
            Ok(s) => unit_format(unit, n as int, format@) == Ok::<Seq<char>, TimeFault>(s@),
            Err(f) => unit_format(unit, n as int, format@) == Err::<Seq<char>, TimeFault>(f),
        },
        match r {
            Ok(t) => plain_calendar_range(unit, n as int) && format@ == unit_default_format(unit) ==> unit_parse(unit, t@) == Ok::<int, Seq<char>>(n as int),
            Err(_) => !(plain_calendar_range(unit, n as int) && format@ == unit_default_format(unit)),
        },
{
    match unit {
        CalendarUnit::DateTime => format_date_time(n, format),
        CalendarUnit::Date => if i32::MIN as i64 <= n && n <= i32::MAX as i64 {
            format_date(n as i32, format)
        } else {
            Err(TimeFault::OutOfRange)
        },
        CalendarUnit::Time => if 0 <= n && n <= u32::MAX as i64 {
            format_time(n as u32, format)
        } else {
            Err(TimeFault::OutOfRange)
        },
    }
}

/// The default range of `unit`.
fn default_calendar_range(unit: CalendarUnit) -> (r: ValueBound<i64>)
    ensures
        r == default_unit_range(unit),
        r.lower() is Some && r.upper() is Some && !r.spec_is_empty(),
{
    let (s, incl, e): (i64, bool, i64) = match unit {
        CalendarUnit::DateTime => (-2208988800i64, false, 5711817600i64),
        CalendarUnit::Date => (693596i64, false, 785272i64),
        CalendarUnit::Time => (0i64, true, 86399i64),
    };
    let r = ValueBound::new(Some(s), Some((incl, e)));
    proof {
        ValueBound::<i64>::lemma_spec_new(Some(s), incl, Some(e));
        ValueBound::<i64>::lemma_eq(r, default_unit_range(unit));
    }
    r
}

/// The range of the numbers that the bounds of `b` stand for in `unit`.
pub open spec fn parsed_calendar_bound(unit: CalendarUnit, b: ValueBound<DataValue>) -> ValueBound<i64> {
    ValueBound::spec_new(
        option_map(b.lower(), |v: DataValue| unit_parse(unit, value_text(v))->Ok_0 as i64),
        b.includes_end(),
        option_map(b.upper(), |v: DataValue| unit_parse(unit, value_text(v))->Ok_0 as i64),
    )
}

/// Whether each bound of `b` stands for a number in `unit`.
pub open spec fn calendar_bound_parses(unit: CalendarUnit, b: ValueBound<DataValue>) -> bool {
    &&& (b.lower() matches Some(s) ==> unit_parse(unit, value_text(s)) is Ok)
    &&& (b.upper() matches Some(e) ==> unit_parse(unit, value_text(e)) is Ok)
}

/// Whether `e` reports the first bound of `b` that stands for no number in `unit`.
pub open spec fn calendar_bound_failure(unit: CalendarUnit, b: ValueBound<DataValue>, e: BuildError) -> bool {
    if b.lower() is Some && unit_parse(unit, value_text(b.lower()->0)) is Err {
        calendar_parse_outcome(unit, b.lower()->0, Err(e))
    } else {
        b.upper() is Some && calendar_parse_outcome(unit, b.upper()->0, Err(e))
    }
}

/// Whether `r` is what building a generator of `unit` from `builder` gives.
pub open spec fn calendar_create_outcome(unit: CalendarUnit, builder: GeneratorBuilder, r: Result<CalendarGenerator, BuildError>) -> bool {
    &&& builder.generator_type != unit_type(unit) ==> r == Err::<CalendarGenerator, BuildError>(
                BuildError::InvalidType(builder.generator_type),
            )
    &&& builder.generator_type == unit_type(unit) ==> match builder.range {
                None => r matches Ok(g) && g.range_of() == default_unit_range(unit) && g.unit_of() == unit
                    && g.nullable_of() == builder.nullable && (match builder.format {
                    Some(f) => g.format_of() == f,
                    None => g.format_of()@ == unit_default_format(unit),
                }),
                Some(b) => if !calendar_bound_parses(unit, b) {
                    r matches Err(e) && calendar_bound_failure(unit, b, e)
                } else if parsed_calendar_bound(unit, b).filled_from(default_unit_range(unit)).spec_is_empty() {
                    r matches Err(e) && e matches BuildError::RangeEmpty(t) && calendar_bound_texts(
                        unit,
                        parsed_calendar_bound(unit, b).filled_from(default_unit_range(unit)),
                        t,
                    )
                } else {
                    r matches Ok(g) && g.range_of() == parsed_calendar_bound(unit, b).filled_from(
                        default_unit_range(unit),
                    ) && g.unit_of() == unit && g.nullable_of() == builder.nullable && (match builder.format {
                        Some(f) => g.format_of() == f,
                        None => g.format_of()@ == unit_default_format(unit),
                    })
                },
            }
}

/// Generator of date-times, dates or times of day in a range, written by a
/// format that is first filled with the values generated so far.
#[derive(Debug)]
pub struct CalendarGenerator {
    unit: CalendarUnit,
    nullable: Nullable,
    format: String,
    range: ValueBound<i64>,
}

/// The message of a failure to write the number `n` by the format `f`.
pub open spec fn time_fault_message(fault: TimeFault, n: int, f: Seq<char>) -> Seq<char> {
    match fault {
        TimeFault::OutOfRange => "Fail parse date from timestamp: "@ + int_text(n),
        TimeFault::BadFormat => "Invalid format: "@ + f,
    }
}

/// Whether `r` may come from the calendar generator `g` in `ctx`, with the
/// formatter `F`: a number of the range written by the filled format, or
/// the failure to fill the format or to write the number.
pub open spec fn calendar_outcome<F: ValueFormatter>(
    g: CalendarGenerator,
    ctx: Map<Seq<char>, DataValue>,
    r: Result<DataValue, GenerateError>,
) -> bool {
    match r {
        Ok(v) => v is String && (template_fill::<F>(g.format_of()@, ctx) matches Ok(f) && exists|n: i64|
            #![trigger g.range_of().admits(n)]
            g.range_of().admits(n) && unit_format(g.unit_of(), n as int, f) == Ok::<Seq<char>, TimeFault>(
                v->String_0@,
            )),
        Err(e) => crate::generator::fill_failure::<F>(e, g.format_of()@, ctx) || (e matches GenerateError::FailGenerate(m)
            && template_fill::<F>(g.format_of()@, ctx) matches Ok(f) && exists|n: i64|
            #![trigger g.range_of().admits(n)]
            g.range_of().admits(n) && (unit_format(g.unit_of(), n as int, f) matches Err(fault) && m@
                == time_fault_message(fault, n as int, f))),
    }
}

impl CalendarGenerator {
    /// Both bounds are present and leave room.
    #[verifier::type_invariant]
    spec fn inv(&self) -> bool {
        &&& self.range.lower() is Some
        &&& self.range.upper() is Some
        &&& !self.range.spec_is_empty()
    }

    /// What this generator produces.
    pub closed spec fn unit_of(&self) -> CalendarUnit {
        self.unit
    }

    /// Whether this generator may produce null.
    pub closed spec fn nullable_of(&self) -> Nullable {
        self.nullable
    }

    /// The format of the texts.
    pub closed spec fn format_of(&self) -> String {
        self.format
    }

    /// The range of the numbers.
    pub closed spec fn range_of(&self) -> ValueBound<i64> {
        self.range
    }

    /// The generator of `unit` that `builder` describes: its range is the
    /// given one with each missing bound from the default range, and its
    /// format the given one or the default format.
    pub fn create(unit: CalendarUnit, builder: GeneratorBuilder) -> (r: Result<Self, BuildError>)
        ensures
            calendar_create_outcome(unit, builder, r),
    {
        let is_type = match unit {
            CalendarUnit::DateTime => builder.generator_type == GeneratorType::DateTime,
            CalendarUnit::Date => builder.generator_type == GeneratorType::Date,
            CalendarUnit::Time => builder.generator_type == GeneratorType::Time,
        };
        if !is_type {
            return Err(BuildError::InvalidType(builder.generator_type));
        }
        let default_range = default_calendar_range(unit);
        let range = match &builder.range {
            None => default_range,
            Some(b) => {
                let given = b.duplicate();
                let parsed = given.try_convert_with(
                    |v: DataValue| -> (r: Result<i64, BuildError>) ensures calendar_parse_outcome(unit, v, r) { parse_calendar_value(unit, v) },
                );
                match parsed {
                    Ok(p) => {
                        proof {
                            ValueBound::<i64>::lemma_spec_new(
                                option_map(b.lower(), |v: DataValue| unit_parse(unit, value_text(v))->Ok_0 as i64),
                                b.includes_end(),
                                option_map(b.upper(), |v: DataValue| unit_parse(unit, value_text(v))->Ok_0 as i64),
                            );
                            ValueBound::<i64>::lemma_eq(p, parsed_calendar_bound(unit, *b));
                        }
                        p.without_no_bound_from_other(default_range)
                    },
                    Err(e) => return Err(e),
                }
            },
        };
        proof {
            ValueBound::<i64>::lemma_filled_from(parsed_calendar_bound(unit, builder.range->0), default_unit_range(unit));
        }
        if range.is_empty() {
            return Err(BuildError::RangeEmpty(calendar_bound(unit, range)));
        }
        let format = match builder.format {
            Some(f) => f,
            None => String::from_str(match unit {
                CalendarUnit::DateTime => DATE_TIME_DEFAULT_FORMAT,
                CalendarUnit::Date => DATE_DEFAULT_FORMAT,
                CalendarUnit::Time => TIME_DEFAULT_FORMAT,
            }),
        };
        Ok(CalendarGenerator { unit, nullable: builder.nullable, format, range })
    }

    /// Whether this generator may produce null.
    pub fn is_nullable(&self) -> (r: bool)
        ensures
            r == self.nullable_of().allows_null(),
    {
        self.nullable.is_nullable()
    }

    /// A number of the range written by the format, which is first filled
    /// in `context`.
    pub fn generate_without_null<R: Randomizer, F: ValueFormatter>(&self, rng: &mut R, context: &DataValueMap) -> (r: Result<DataValue, GenerateError>)
        ensures
            calendar_outcome::<F>(*self, context@, r),
    {
        proof {
            use_type_invariant(self);
        }
        let low: i64 = match self.range.get_start() {
            Some(s) => *s,
            None => return Err(GenerateError::FailGenerate(String::from_str("No start of the range"))),
        };
        let high: i64 = match self.range.get_end() {
            Some(e) => if self.range.is_include_end() {
                *e
            } else {
                *e - 1
            },
            None => return Err(GenerateError::FailGenerate(String::from_str("No end of the range"))),
        };
        let n = rng.gen_i64_between(low, high);
        assert(self.range_of().admits(n));
        let evaluator = Evaluator::new(context);
        let format = match evaluator.format_script::<F>(self.format.as_str()) {
            Ok(f) => f,
            Err(e) => return Err(GenerateError::FailEval(e, self.format.clone(), context.duplicate())),
        };
        assert(template_fill::<F>(self.format_of()@, context@) == Ok::<Seq<char>, Seq<char>>(format@));
        match format_calendar_value(self.unit, n, format.as_str()) {
            Ok(s) => Ok(DataValue::String(s)),
            Err(TimeFault::OutOfRange) => {
                let mut out: Vec<char> = Vec::new();
                push_chars(&mut out, "Fail parse date from timestamp: ");
                let digits = int64_to_string(n);
                push_chars(&mut out, digits.as_str());
                Err(GenerateError::FailGenerate(string_of(out.as_slice())))
            },
            Err(TimeFault::BadFormat) => {
                let mut out: Vec<char> = Vec::new();
                push_chars(&mut out, "Invalid format: ");
                push_chars(&mut out, format.as_str());
                Err(GenerateError::FailGenerate(string_of(out.as_slice())))
            },
        }
    }
}

/// Generator of date-times in a range, written by a format.
#[derive(Debug)]
pub struct DateTimeGenerator {
    calendar: CalendarGenerator,
}

impl DateTimeGenerator {
    /// The calendar generator beneath.
    pub closed spec fn calendar_of(&self) -> CalendarGenerator {
        self.calendar
    }

    /// The generator `builder` describes, as [`CalendarGenerator::create`] builds it.
    pub fn create(builder: GeneratorBuilder) -> (r: Result<Self, BuildError>)
        ensures
            match r {
                Ok(g) => calendar_create_outcome(CalendarUnit::DateTime, builder, Ok(g.calendar_of())),
                Err(e) => calendar_create_outcome(CalendarUnit::DateTime, builder, Err(e)),
            },
    {
        match CalendarGenerator::create(CalendarUnit::DateTime, builder) {
            Ok(calendar) => Ok(DateTimeGenerator { calendar }),
            Err(e) => Err(e),
        }
    }

    /// Whether this generator may produce null.
    pub fn is_nullable(&self) -> (r: bool)
        ensures
            r == self.calendar_of().nullable_of().allows_null(),
    {
        self.calendar.is_nullable()
    }

    /// A value of the range written by the format filled in `context`.
    pub fn generate_without_null<R: Randomizer, F: ValueFormatter>(&self, rng: &mut R, context: &DataValueMap) -> (r: Result<DataValue, GenerateError>)
        ensures
            calendar_outcome::<F>(self.calendar_of(), context@, r),
    {
        self.calendar.generate_without_null::<R, F>(rng, context)
    }
}

/// Generator of dates in a range, written by a format.
#[derive(Debug)]
pub struct DateGenerator {
    calendar: CalendarGenerator,
}

impl DateGenerator {
    /// The calendar generator beneath.
    pub closed spec fn calendar_of(&self) -> CalendarGenerator {
        self.calendar
    }

    /// The generator `builder` describes, as [`CalendarGenerator::create`] builds it.
    pub fn create(builder: GeneratorBuilder) -> (r: Result<Self, BuildError>)
        ensures
            match r {
                Ok(g) => calendar_create_outcome(CalendarUnit::Date, builder, Ok(g.calendar_of())),
                Err(e) => calendar_create_outcome(CalendarUnit::Date, builder, Err(e)),
            },
    {
        match CalendarGenerator::create(CalendarUnit::Date, builder) {
            Ok(calendar) => Ok(DateGenerator { calendar }),
            Err(e) => Err(e),
        }
    }

    /// Whether this generator may produce null.
    pub fn is_nullable(&self) -> (r: bool)
        ensures
            r == self.calendar_of().nullable_of().allows_null(),
    {
        self.calendar.is_nullable()
    }

    /// A value of the range written by the format filled in `context`.
    pub fn generate_without_null<R: Randomizer, F: ValueFormatter>(&self, rng: &mut R, context: &DataValueMap) -> (r: Result<DataValue, GenerateError>)
        ensures
            calendar_outcome::<F>(self.calendar_of(), context@, r),
    {
        self.calendar.generate_without_null::<R, F>(rng, context)
    }
}

/// Generator of times of day in a range, written by a format.
#[derive(Debug)]
pub struct TimeGenerator {
    calendar: CalendarGenerator,
}

impl TimeGenerator {
    /// The calendar generator beneath.
    pub closed spec fn calendar_of(&self) -> CalendarGenerator {
        self.calendar
    }

    /// The generator `builder` describes, as [`CalendarGenerator::create`] builds it.
    pub fn create(builder: GeneratorBuilder) -> (r: Result<Self, BuildError>)
        ensures
            match r {
                Ok(g) => calendar_create_outcome(CalendarUnit::Time, builder, Ok(g.calendar_of())),
                Err(e) => calendar_create_outcome(CalendarUnit::Time, builder, Err(e)),
            },
    {
        match CalendarGenerator::create(CalendarUnit::Time, builder) {
            Ok(calendar) => Ok(TimeGenerator { calendar }),
            Err(e) => Err(e),
        }
    }

    /// Whether this generator may produce null.
    pub fn is_nullable(&self) -> (r: bool)
        ensures
            r == self.calendar_of().nullable_of().allows_null(),
    {
        self.calendar.is_nullable()
    }

    /// A value of the range written by the format filled in `context`.
    pub fn generate_without_null<R: Randomizer, F: ValueFormatter>(&self, rng: &mut R, context: &DataValueMap) -> (r: Result<DataValue, GenerateError>)
        ensures
            calendar_outcome::<F>(self.calendar_of(), context@, r),
    {
        self.calendar.generate_without_null::<R, F>(rng, context)
    }
}

} // verus!
