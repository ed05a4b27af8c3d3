//! The record filter: an optional inclusive date range, an optional
//! inclusive time-of-day range (each compared only against the record's own
//! `date`/`time` strings, independently of each other), and zero or more
//! exact-match field filters with type-aware comparison.  A record whose
//! own `date` or `time` fails to parse is excluded from a date/time-filtered
//! run rather than causing an error.

use crate::ieee::{f64_bits_eq, spec_f64_bits_eq};
use crate::jsonrec::{JsonRecord, JsonValue, SpecJson};
use chrono::{Datelike, Timelike};
use rayon::iter::{IntoParallelRefIterator, ParallelIterator};
use vstd::prelude::*;

verus! {

broadcast use vstd::string::group_string_axioms;

/// What chrono's `NaiveDate::parse_from_str` computes for a string and a
/// format: the calendar (year, month, day), or nothing.  The result depends
/// on the two strings alone.
pub uninterp spec fn chrono_date(s: Seq<char>, fmt: Seq<char>) -> Option<(i32, u32, u32)>;

/// What chrono's `NaiveTime::parse_from_str` computes: (hour, minute,
/// second, nanosecond), or nothing.  On a leap second the nanosecond field
/// exceeds one billion, so lexicographic order on the tuple remains
/// chronological.
pub uninterp spec fn chrono_time(s: Seq<char>, fmt: Seq<char>) -> Option<(u32, u32, u32, u32)>;

/// Relies on chrono: `NaiveDate::parse_from_str`, with the `Datelike`
/// accessors `year`, `month`, `day` reading the calendar fields back.
#[verifier::external_body]
fn parse_date_fmt(s: &str, fmt: &str) -> (r: Option<(i32, u32, u32)>)
    ensures
        r == chrono_date(s@, fmt@),
{
    match chrono::NaiveDate::parse_from_str(s, fmt) {
        Ok(d) => Some((d.year(), d.month(), d.day())),
        Err(_) => None,
    }
}

/// Relies on chrono: `NaiveTime::parse_from_str`, with the `Timelike`
/// accessors `hour`, `minute`, `second`, `nanosecond`.
#[verifier::external_body]
fn parse_time_fmt(s: &str, fmt: &str) -> (r: Option<(u32, u32, u32, u32)>)
    ensures
        r == chrono_time(s@, fmt@),
{
    match chrono::NaiveTime::parse_from_str(s, fmt) {
        Ok(t) => Some((t.hour(), t.minute(), t.second(), t.nanosecond())),
        Err(_) => None,
    }
}

/// A calendar date, compared chronologically (lexicographically on year,
/// month, day).
#[derive(Debug, Clone, Copy, PartialEq, Eq, Structural)]
pub struct DateParts {
    pub y: i32,
    pub m: u32,
    pub d: u32,
}

/// A time of day, compared chronologically (lexicographically on hour,
/// minute, second, nanosecond).
#[derive(Debug, Clone, Copy, PartialEq, Eq, Structural)]
pub struct TimeParts {
    pub h: u32,
    pub mi: u32,
    pub s: u32,
    pub ns: u32,
}

pub open spec fn date_le(a: DateParts, b: DateParts) -> bool {
    a.y < b.y || (a.y == b.y && (a.m < b.m || (a.m == b.m && a.d <= b.d)))
}

pub open spec fn time_le(a: TimeParts, b: TimeParts) -> bool {
    a.h < b.h || (a.h == b.h && (a.mi < b.mi || (a.mi == b.mi && (a.s < b.s || (a.s == b.s && a.ns
        <= b.ns)))))
}

fn date_le_exec(a: DateParts, b: DateParts) -> (r: bool)
    ensures
        r == date_le(a, b),
{
    a.y < b.y || (a.y == b.y && (a.m < b.m || (a.m == b.m && a.d <= b.d)))
}

fn time_le_exec(a: TimeParts, b: TimeParts) -> (r: bool)
    ensures
        r == time_le(a, b),
{
    a.h < b.h || (a.h == b.h && (a.mi < b.mi || (a.mi == b.mi && (a.s < b.s || (a.s == b.s && a.ns
        <= b.ns)))))
}

/// A date bound or record date, parsed as `YYYY-MM-DD`.
pub open spec fn date_of(s: Seq<char>) -> Option<DateParts> {
    match chrono_date(s, "%Y-%m-%d"@) {
        Some(t) => Some(DateParts { y: t.0, m: t.1, d: t.2 }),
        None => None,
    }
}

/// A time bound, parsed as `HH:MM:SS`, or failing that `HH:MM`.
pub open spec fn time_bound_of(s: Seq<char>) -> Option<TimeParts> {
    match chrono_time(s, "%H:%M:%S"@) {
        Some(t) => Some(TimeParts { h: t.0, mi: t.1, s: t.2, ns: t.3 }),
        None => match chrono_time(s, "%H:%M"@) {
            Some(t) => Some(TimeParts { h: t.0, mi: t.1, s: t.2, ns: t.3 }),
            None => None,
        },
    }
}

/// A record's own time, parsed as `HH:MM:SS` with optional fraction, then
/// `HH:MM:SS`, then `HH:MM`.
pub open spec fn rec_time_of(s: Seq<char>) -> Option<TimeParts> {
    match chrono_time(s, "%H:%M:%S%.f"@) {
        Some(t) => Some(TimeParts { h: t.0, mi: t.1, s: t.2, ns: t.3 }),
        None => match chrono_time(s, "%H:%M:%S"@) {
            Some(t) => Some(TimeParts { h: t.0, mi: t.1, s: t.2, ns: t.3 }),
            None => match chrono_time(s, "%H:%M"@) {
                Some(t) => Some(TimeParts { h: t.0, mi: t.1, s: t.2, ns: t.3 }),
                None => None,
            },
        },
    }
}

fn parse_date_ymd(s: &str) -> (r: Option<DateParts>)
    ensures
        r == date_of(s@),
{
    match parse_date_fmt(s, "%Y-%m-%d") {
        Some(t) => Some(DateParts { y: t.0, m: t.1, d: t.2 }),
        None => None,
    }
}

fn parse_time_bound(s: &str) -> (r: Option<TimeParts>)
    ensures
        r == time_bound_of(s@),
{
    match parse_time_fmt(s, "%H:%M:%S") {
        Some(t) => Some(TimeParts { h: t.0, mi: t.1, s: t.2, ns: t.3 }),
        None => match parse_time_fmt(s, "%H:%M") {
            Some(t) => Some(TimeParts { h: t.0, mi: t.1, s: t.2, ns: t.3 }),
            None => None,
        },
    }
}

fn parse_time_rec(s: &str) -> (r: Option<TimeParts>)
    ensures
        r == rec_time_of(s@),
{
    match parse_time_fmt(s, "%H:%M:%S%.f") {
        Some(t) => Some(TimeParts { h: t.0, mi: t.1, s: t.2, ns: t.3 }),
        None => match parse_time_fmt(s, "%H:%M:%S") {
            Some(t) => Some(TimeParts { h: t.0, mi: t.1, s: t.2, ns: t.3 }),
            None => match parse_time_fmt(s, "%H:%M") {
                Some(t) => Some(TimeParts { h: t.0, mi: t.1, s: t.2, ns: t.3 }),
                None => None,
            },
        },
    }
}

/// Why a filter could not be built: which bound failed to parse.
#[derive(Debug, Clone, Copy, PartialEq, Eq, Structural)]
pub enum FilterError {
    InvalidStartDate,
    InvalidEndDate,
    InvalidStartTime,
    InvalidEndTime,
}

/// The date/time-range filter: all four bounds optional, each inclusive.
#[derive(Debug, Clone, Copy, PartialEq, Eq, Structural)]
pub struct TimeFilter {
    pub start_date: Option<DateParts>,
    pub end_date: Option<DateParts>,
    pub start_time: Option<TimeParts>,
    pub end_time: Option<TimeParts>,
}

/// The string value of a record field, or empty when the field is absent or
/// not a string.
pub open spec fn str_field(m: Map<Seq<char>, SpecJson>, k: Seq<char>) -> Seq<char> {
    if m.dom().contains(k) {
        match m[k] {
            SpecJson::Str(s) => s,
            _ => Seq::empty(),
        }
    } else {
        Seq::empty()
    }
}

/// Whether a record passes the date/time ranges.  A record whose own
/// non-empty `date` or `time` fails to parse under the expected formats is
/// excluded from a date/time-filtered run rather than causing an error.
/// Each supplied bound is inclusive.
pub open spec fn spec_time_matches(f: TimeFilter, m: Map<Seq<char>, SpecJson>) -> bool {
    let date_str = str_field(m, "date"@);
    let time_str = str_field(m, "time"@);
    if date_str.len() > 0 && date_of(date_str) is None {
        false
    } else if time_str.len() > 0 && rec_time_of(time_str) is None {
        false
    } else {
        let rec_date = if date_str.len() > 0 {
            date_of(date_str)
        } else {
            None
        };
        let rec_time = if time_str.len() > 0 {
            rec_time_of(time_str)
        } else {
            None
        };
        &&& match (rec_date, f.start_date) {
            (Some(d), Some(s)) => date_le(s, d),
            _ => true,
        }
        &&& match (rec_date, f.end_date) {
            (Some(d), Some(e)) => date_le(d, e),
            _ => true,
        }
        &&& match (rec_time, f.start_time) {
            (Some(t), Some(s)) => time_le(s, t),
            _ => true,
        }
        &&& match (rec_time, f.end_time) {
            (Some(t), Some(e)) => time_le(t, e),
            _ => true,
        }
    }
}

impl TimeFilter {
    /// Build the filter from optional bound strings.  Every supplied bound
    /// must parse, and the first that does not names the error.
    pub fn new(
        start_date: Option<&str>,
        end_date: Option<&str>,
        start_time: Option<&str>,
        end_time: Option<&str>,
    ) -> (r: Result<TimeFilter, FilterError>)
        ensures
            r is Ok <==> ((start_date is Some ==> date_of(start_date->0@) is Some) && (end_date
                is Some ==> date_of(end_date->0@) is Some) && (start_time is Some
                ==> time_bound_of(start_time->0@) is Some) && (end_time is Some ==> time_bound_of(
                end_time->0@,
            ) is Some)),
            match r {
                Ok(f) => {
                    &&& f.start_date == (match start_date {
                        Some(s) => date_of(s@),
                        None => None,
                    })
                    &&& f.end_date == (match end_date {
                        Some(s) => date_of(s@),
                        None => None,
                    })
                    &&& f.start_time == (match start_time {
                        Some(s) => time_bound_of(s@),
                        None => None,
                    })
                    &&& f.end_time == (match end_time {
                        Some(s) => time_bound_of(s@),
                        None => None,
                    })
                },
                Err(e) => e == (if start_date is Some && date_of(start_date->0@) is None {
                    FilterError::InvalidStartDate
                } else if end_date is Some && date_of(end_date->0@) is None {
                    FilterError::InvalidEndDate
                } else if start_time is Some && time_bound_of(start_time->0@) is None {
                    FilterError::InvalidStartTime
                } else {
                    FilterError::InvalidEndTime
                }),
            },
    {
        let start_date = match start_date {
            Some(s) => match parse_date_ymd(s) {
                Some(d) => Some(d),
                None => {
                    return Err(FilterError::InvalidStartDate);
                },
            },
            None => None,
        };
        let end_date = match end_date {
            Some(s) => match parse_date_ymd(s) {
                Some(d) => Some(d),
                None => {
                    return Err(FilterError::InvalidEndDate);
                },
            },
            None => None,
        };
        let start_time = match start_time {
            Some(s) => match parse_time_bound(s) {
                Some(t) => Some(t),
                None => {
                    return Err(FilterError::InvalidStartTime);
                },
            },
            None => None,
        };
        let end_time = match end_time {
            Some(s) => match parse_time_bound(s) {
                Some(t) => Some(t),
                None => {
                    return Err(FilterError::InvalidEndTime);
                },
            },
            None => None,
        };
        Ok(TimeFilter { start_date, end_date, start_time, end_time })
    }

    /// Whether the record's own `date`/`time` fields pass the ranges.
    pub fn matches(&self, record: &JsonRecord) -> (r: bool)
        requires
            record.wf(),
        ensures
            r == spec_time_matches(*self, record@),
    {
        proof {
            reveal_strlit("");
            assert(""@ =~= Seq::<char>::empty());
        }
        let date_str: &str = match record.get("date") {
            Some(v) => match v {
                JsonValue::Str(s) => s.as_str(),
                _ => "",
            },
            None => "",
        };
        let time_str: &str = match record.get("time") {
            Some(v) => match v {
                JsonValue::Str(s) => s.as_str(),
                _ => "",
            },
            None => "",
        };
        let rec_date: Option<DateParts> = if !date_str.is_empty() {
            match parse_date_ymd(date_str) {
                Some(d) => Some(d),
                None => {
                    return false;
                },
            }
        } else {
            None
        };
        let rec_time: Option<TimeParts> = if !time_str.is_empty() {
            match parse_time_rec(time_str) {
                Some(t) => Some(t),
                None => {
                    return false;
                },
            }
        } else {
            None
        };
        if let (Some(d), Some(s)) = (rec_date, self.start_date) {
            if !date_le_exec(s, d) {
                return false;
            }
        }
        if let (Some(d), Some(e)) = (rec_date, self.end_date) {
            if !date_le_exec(d, e) {
                return false;
            }
        }
        if let (Some(t), Some(s)) = (rec_time, self.start_time) {
            if !time_le_exec(s, t) {
                return false;
            }
        }
        if let (Some(t), Some(e)) = (rec_time, self.end_time) {
            if !time_le_exec(t, e) {
                return false;
            }
        }
        true
    }
}

/// The model of one field filter.
pub struct FieldFilterView {
    pub name: Seq<char>,
    pub value: Seq<char>,
    pub value_bits: Option<u64>,
}

/// One exact-match field filter.  `value_bits` should hold the IEEE 754
/// bits of `value` parsed as a double when it parses as one; the caller
/// computes them at construction, since the library itself does not parse
/// floating-point values.
#[derive(Debug, Clone)]
pub struct FieldFilter {
    pub name: String,
    pub value: String,
    pub value_bits: Option<u64>,
}

impl View for FieldFilter {
    type V = FieldFilterView;

    open spec fn view(&self) -> FieldFilterView {
        FieldFilterView { name: self.name@, value: self.value@, value_bits: self.value_bits }
    }
}

pub open spec fn filters_view(fs: Seq<FieldFilter>) -> Seq<FieldFilterView> {
    fs.map(|_i: int, f: FieldFilter| f@)
}

/// Type-aware equality of a record value against a filter: strings compare
/// verbatim, numbers as doubles, booleans against the literal `true` or
/// `false`, null against the literal `null`; arrays and objects never
/// match.
pub open spec fn spec_field_match(v: SpecJson, f: FieldFilterView) -> bool {
    match v {
        SpecJson::Str(s) => s == f.value,
        SpecJson::Num(b) => match f.value_bits {
            Some(tb) => spec_f64_bits_eq(b, tb),
            None => false,
        },
        SpecJson::Bool(x) => (f.value == "true"@ && x) || (f.value == "false"@ && !x),
        SpecJson::Null => f.value == "null"@,
        SpecJson::Other => false,
    }
}

/// One filter passes: the field exists and its value matches.
pub open spec fn spec_field_rec_ok(m: Map<Seq<char>, SpecJson>, f: FieldFilterView) -> bool {
    m.dom().contains(f.name) && spec_field_match(m[f.name], f)
}

/// A record survives when it passes the time filter, if any, and every
/// field filter.
pub open spec fn spec_filter_record(
    time: Option<TimeFilter>,
    filters: Seq<FieldFilterView>,
    m: Map<Seq<char>, SpecJson>,
) -> bool {
    &&& match time {
        Some(tf) => spec_time_matches(tf, m),
        None => true,
    }
    &&& forall|i: int| 0 <= i < filters.len() ==> spec_field_rec_ok(m, #[trigger] filters[i])
}

/// The combined record filter.
#[derive(Debug)]
pub struct SolidFireFilter {
    pub time_filter: Option<TimeFilter>,
    pub field_filters: Vec<FieldFilter>,
}

impl SolidFireFilter {
    /// Build the combined filter; a time filter exists only when at least
    /// one bound was supplied.
    pub fn new(
        start_date: Option<&str>,
        end_date: Option<&str>,
        start_time: Option<&str>,
        end_time: Option<&str>,
        field_filters: Vec<FieldFilter>,
    ) -> (r: Result<SolidFireFilter, FilterError>)
        ensures
            r is Ok <==> ((start_date is Some ==> date_of(start_date->0@) is Some) && (end_date
                is Some ==> date_of(end_date->0@) is Some) && (start_time is Some
                ==> time_bound_of(start_time->0@) is Some) && (end_time is Some ==> time_bound_of(
                end_time->0@,
            ) is Some)),
            match r {
                Ok(f) => {
                    &&& f.field_filters == field_filters
                    &&& f.time_filter == (if start_date is Some || end_date is Some || start_time
                        is Some || end_time is Some {
                        Some(
                            (TimeFilter {
                                start_date: match start_date {
                                    Some(s) => date_of(s@),
                                    None => None,
                                },
                                end_date: match end_date {
                                    Some(s) => date_of(s@),
                                    None => None,
                                },
                                start_time: match start_time {
                                    Some(s) => time_bound_of(s@),
                                    None => None,
                                },
                                end_time: match end_time {
                                    Some(s) => time_bound_of(s@),
                                    None => None,
                                },
                            }),
                        )
                    } else {
                        None
                    })
                },
                Err(e) => e == (if start_date is Some && date_of(start_date->0@) is None {
                    FilterError::InvalidStartDate
                } else if end_date is Some && date_of(end_date->0@) is None {
                    FilterError::InvalidEndDate
                } else if start_time is Some && time_bound_of(start_time->0@) is None {
                    FilterError::InvalidStartTime
                } else {
                    FilterError::InvalidEndTime
                }),
            },
    {
        let any = start_date.is_some() || end_date.is_some() || start_time.is_some()
            || end_time.is_some();
        if any {
            match TimeFilter::new(start_date, end_date, start_time, end_time) {
                Ok(tf) => Ok(SolidFireFilter { time_filter: Some(tf), field_filters }),
                Err(e) => Err(e),
            }
        } else {
            Ok(SolidFireFilter { time_filter: None, field_filters })
        }
    }

    /// Whether one record survives the whole filter.
    pub fn filter_record(&self, record: &JsonRecord) -> (r: bool)
        requires
            record.wf(),
        ensures
            r == spec_filter_record(self.time_filter, filters_view(self.field_filters@), record@),
    {
        if let Some(tf) = &self.time_filter {
            if !tf.matches(record) {
                return false;
            }
        }
        let true_str: String = "true".to_owned();
        let false_str: String = "false".to_owned();
        let null_str: String = "null".to_owned();
        let mut i: usize = 0;
        while i < self.field_filters.len()
            invariant
                record.wf(),
                0 <= i <= self.field_filters@.len(),
                true_str@ == "true"@,
                false_str@ == "false"@,
                null_str@ == "null"@,
                self.time_filter matches Some(tf) ==> spec_time_matches(tf, record@),
                forall|j: int|
                    0 <= j < i ==> spec_field_rec_ok(
                        record@,
                        #[trigger] filters_view(self.field_filters@)[j],
                    ),
            decreases self.field_filters@.len() - i,
        {
            let f = &self.field_filters[i];
            let ghost fv = filters_view(self.field_filters@)[i as int];
            proof {
                reveal_strlit("true");
                reveal_strlit("false");
                reveal_strlit("null");
                assert(fv == self.field_filters@[i as int]@);
            }
            let ok: bool = match record.get(f.name.as_str()) {
                Some(v) => {
                    proof {
                        assert(record@.dom().contains(fv.name));
                    }
                    let m: bool = match v {
                        JsonValue::Str(s) => *s == f.value,
                        JsonValue::Num(b) => match f.value_bits {
                            Some(tb) => f64_bits_eq(*b, tb),
                            None => false,
                        },
                        JsonValue::Bool(x) => {
                            if f.value == true_str {
                                *x
                            } else if f.value == false_str {
                                !*x
                            } else {
                                false
                            }
                        },
                        JsonValue::Null => f.value == null_str,
                        JsonValue::Other => false,
                    };
                    proof {
                        reveal_strlit("true");
                        reveal_strlit("false");
                        reveal_strlit("null");
                        assert("true"@.len() == 4);
                        assert("false"@.len() == 5);
                        assert("true"@ != "false"@);
                        assert(record@[fv.name] == v@);
                        assert(m == spec_field_match(v@, fv));
                    }
                    m
                },
                None => false,
            };
            proof {
                assert(ok == spec_field_rec_ok(record@, fv));
            }
            if !ok {
                return false;
            }
            i = i + 1;
        }
        true
    }

    /// Filter a whole run of records, keeping the survivors in input order.
    pub fn filter_records(&self, records: &Vec<JsonRecord>) -> (r: Vec<JsonRecord>)
        requires
            forall|i: int| 0 <= i < records@.len() ==> (#[trigger] records@[i]).wf(),
        ensures
            r@ == records@.filter(
                |rec: JsonRecord|
                    spec_filter_record(
                        self.time_filter,
                        filters_view(self.field_filters@),
                        rec@,
                    ),
            ),
    {
        par_filter_records(self, records)
    }
}

/// Relies on rayon: `par_iter`, `filter`, `cloned` and `collect`.  Rayon
/// guarantees that a parallel iterator produces the same results as its
/// sequential counterpart, so the surviving records come out in their
/// input order.  The predicate closure only calls the library's verified
/// `filter_record`.
#[verifier::external_body]
fn par_filter_records(flt: &SolidFireFilter, records: &Vec<JsonRecord>) -> (r: Vec<JsonRecord>)
    requires
        forall|i: int| 0 <= i < records@.len() ==> (#[trigger] records@[i]).wf(),
    ensures
        r@ == records@.filter(
            |rec: JsonRecord|
                spec_filter_record(flt.time_filter, filters_view(flt.field_filters@), rec@),
        ),
{
    records.par_iter().filter(|rec| flt.filter_record(rec)).cloned().collect()
}

} // verus!
