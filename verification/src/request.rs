//! The request adapter: HTTP query parameters into [`RankingOptions`].
//! Dates arrive as `YYYY-MM-DD`, are validated against the calendar, and
//! are promoted to UTC midnight (`since`) and one second before the next
//! midnight (`until`); `ranking_type` and `min_posts` get their
//! documented defaults.

use vstd::prelude::*;
use vstd::string::StringExecFns;
use crate::error::AppError;
use crate::like::chars_of;
use crate::model::{DateTimeRange, RankingOptions, Timestamp, view_opt_str};

verus! {

/// The transport-level ranking policy names.
#[derive(Clone, Copy, Debug, PartialEq, Eq, Structural)]
pub enum RankingType {
    PostCount,
    RecentActivity,
}

impl RankingType {
    /// The kernel image of the transport name.
    pub open spec fn spec_to_kernel(self) -> crate::model::RankingType {
        match self {
            RankingType::PostCount => crate::model::RankingType::PostCount,
            RankingType::RecentActivity => crate::model::RankingType::RecentActivity,
        }
    }

    /// Maps the transport name onto the kernel's.
    pub fn to_kernel(self) -> (r: crate::model::RankingType)
        ensures
            r == self.spec_to_kernel(),
    {
        match self {
            RankingType::PostCount => crate::model::RankingType::PostCount,
            RankingType::RecentActivity => crate::model::RankingType::RecentActivity,
        }
    }

    /// Maps the kernel's name onto the transport's.
    pub fn from_kernel(k: crate::model::RankingType) -> (r: Self)
        ensures
            r.spec_to_kernel() == k,
    {
        match k {
            crate::model::RankingType::PostCount => RankingType::PostCount,
            crate::model::RankingType::RecentActivity => RankingType::RecentActivity,
        }
    }
}

/// A calendar date, as the request carries it.
#[derive(Clone, Copy, Debug, PartialEq, Eq, Structural)]
pub struct Date {
    pub year: u16,
    pub month: u8,
    pub day: u8,
}

/// Gregorian leap years.
pub open spec fn spec_is_leap(y: int) -> bool {
    y % 4 == 0 && (y % 100 != 0 || y % 400 == 0)
}

/// Days in a month of the proleptic Gregorian calendar.
pub open spec fn spec_days_in_month(y: int, m: int) -> int {
    if m == 2 {
        if spec_is_leap(y) {
            29
        } else {
            28
        }
    } else if m == 4 || m == 6 || m == 9 || m == 11 {
        30
    } else {
        31
    }
}

impl Date {
    /// A real calendar date with a four-digit year.
    pub open spec fn wf(self) -> bool {
        &&& self.year <= 9999
        &&& 1 <= self.month <= 12
        &&& 1 <= self.day <= spec_days_in_month(self.year as int, self.month as int)
    }

    /// Midnight at the start of the day, UTC.
    pub open spec fn spec_start_of_day(self) -> Timestamp {
        Timestamp {
            year: self.year,
            month: self.month,
            day: self.day,
            hour: 0,
            minute: 0,
            second: 0,
        }
    }

    /// The last second of the day, UTC.
    pub open spec fn spec_end_of_day(self) -> Timestamp {
        Timestamp {
            year: self.year,
            month: self.month,
            day: self.day,
            hour: 23,
            minute: 59,
            second: 59,
        }
    }

    /// Midnight at the start of the day, UTC.
    pub fn start_of_day(self) -> (t: Timestamp)
        ensures
            t == self.spec_start_of_day(),
    {
        Timestamp {
            year: self.year,
            month: self.month,
            day: self.day,
            hour: 0,
            minute: 0,
            second: 0,
        }
    }

    /// The last second of the day, UTC.
    pub fn end_of_day(self) -> (t: Timestamp)
        ensures
            t == self.spec_end_of_day(),
    {
        Timestamp {
            year: self.year,
            month: self.month,
            day: self.day,
            hour: 23,
            minute: 59,
            second: 59,
        }
    }
}

/// A decimal digit.
pub open spec fn is_digit(c: char) -> bool {
    '0' <= c && c <= '9'
}

/// The value of a digit.
pub open spec fn dv(c: char) -> int {
    c as int - '0' as int
}

/// `YYYY-MM-DD`, all digits in place, dashes in place.
pub open spec fn date_shape(s: Seq<char>) -> bool {
    &&& s.len() == 10
    &&& is_digit(s[0]) && is_digit(s[1]) && is_digit(s[2]) && is_digit(s[3])
    &&& s[4] == '-'
    &&& is_digit(s[5]) && is_digit(s[6])
    &&& s[7] == '-'
    &&& is_digit(s[8]) && is_digit(s[9])
}

/// The date a well-shaped string denotes, before calendar checks.
pub open spec fn date_of(s: Seq<char>) -> Date {
    Date {
        year: (dv(s[0]) * 1000 + dv(s[1]) * 100 + dv(s[2]) * 10 + dv(s[3])) as u16,
        month: (dv(s[5]) * 10 + dv(s[6])) as u8,
        day: (dv(s[8]) * 10 + dv(s[9])) as u8,
    }
}

/// The request adapter's date grammar: `YYYY-MM-DD`, a real calendar
/// date; anything else parses to nothing.
pub open spec fn spec_parse_date(s: Seq<char>) -> Option<Date> {
    if date_shape(s) && date_of(s).wf() {
        Some(date_of(s))
    } else {
        None
    }
}

/// Parses a `YYYY-MM-DD` date, validating it against the calendar.
pub fn parse_date(s: &str) -> (r: Option<Date>)
    ensures
        r == spec_parse_date(s@),
{
    let cs = chars_of(s);
    if cs.len() != 10 {
        return None;
    }
    let mut ok = cs[4] == '-' && cs[7] == '-';
    let d0 = cs[0];
    let d1 = cs[1];
    let d2 = cs[2];
    let d3 = cs[3];
    let d5 = cs[5];
    let d6 = cs[6];
    let d8 = cs[8];
    let d9 = cs[9];
    ok = ok && '0' <= d0 && d0 <= '9' && '0' <= d1 && d1 <= '9' && '0' <= d2 && d2 <= '9' && '0'
        <= d3 && d3 <= '9';
    ok = ok && '0' <= d5 && d5 <= '9' && '0' <= d6 && d6 <= '9';
    ok = ok && '0' <= d8 && d8 <= '9' && '0' <= d9 && d9 <= '9';
    if !ok {
        return None;
    }
    let year: u16 = ((d0 as u32 - 48) * 1000 + (d1 as u32 - 48) * 100 + (d2 as u32 - 48) * 10 + (
    d3 as u32 - 48)) as u16;
    let month: u8 = ((d5 as u32 - 48) * 10 + (d6 as u32 - 48)) as u8;
    let day: u8 = ((d8 as u32 - 48) * 10 + (d9 as u32 - 48)) as u8;
    if month < 1 || month > 12 {
        return None;
    }
    let leap = year % 4 == 0 && (year % 100 != 0 || year % 400 == 0);
    let dim: u8 = if month == 2 {
        if leap {
            29
        } else {
            28
        }
    } else if month == 4 || month == 6 || month == 9 || month == 11 {
        30
    } else {
        31
    };
    if day < 1 || day > dim {
        return None;
    }
    Some(Date { year, month, day })
}

/// The typed ranking request, after transport decoding and before
/// promotion into options.
pub struct RankingRequest {
    pub id: Option<String>,
    pub main_text: Option<String>,
    pub name_and_trip: Option<String>,
    pub oekaki: Option<bool>,
    pub since: Option<Date>,
    pub until: Option<Date>,
    pub ranking_type: RankingType,
    pub min_posts: i32,
}

/// Mathematical image of a [`RankingRequest`].
#[verifier::ext_equal]
pub ghost struct RequestModel {
    pub id: Option<Seq<char>>,
    pub main_text: Option<Seq<char>>,
    pub name_and_trip: Option<Seq<char>>,
    pub oekaki: Option<bool>,
    pub since: Option<Date>,
    pub until: Option<Date>,
    pub ranking_type: RankingType,
    pub min_posts: i32,
}

impl View for RankingRequest {
    type V = RequestModel;

    open spec fn view(&self) -> RequestModel {
        RequestModel {
            id: view_opt_str(self.id),
            main_text: view_opt_str(self.main_text),
            name_and_trip: view_opt_str(self.name_and_trip),
            oekaki: self.oekaki,
            since: self.since,
            until: self.until,
            ranking_type: self.ranking_type,
            min_posts: self.min_posts,
        }
    }
}

/// The documented default ranking policy.
pub fn default_ranking_type() -> (r: RankingType)
    ensures
        r == RankingType::PostCount,
{
    RankingType::PostCount
}

/// The documented default `min_posts`.
pub fn default_min_posts() -> (r: i32)
    ensures
        r == 1,
{
    1
}

/// A date parameter: absent or empty means no bound; a bad date is a
/// client fault.
pub open spec fn spec_date_param(s: Option<Seq<char>>) -> Result<Option<Date>, ()> {
    match s {
        None => Ok(None),
        Some(v) => if v.len() == 0 {
            Ok(None)
        } else {
            match spec_parse_date(v) {
                Some(d) => Ok(Some(d)),
                None => Err(()),
            }
        },
    }
}

/// The ranking-type parameter: absent means the default.
pub open spec fn spec_rt_param(s: Option<Seq<char>>) -> Result<RankingType, ()> {
    match s {
        None => Ok(RankingType::PostCount),
        Some(v) => if v == "post_count"@ {
            Ok(RankingType::PostCount)
        } else if v == "recent_activity"@ {
            Ok(RankingType::RecentActivity)
        } else {
            Err(())
        },
    }
}

/// Character-sequence equality of two strings.
fn str_eq(a: &str, b: &str) -> (r: bool)
    ensures
        r == (a@ == b@),
{
    let sa = String::from_str(a);
    let sb = String::from_str(b);
    sa == sb
}

/// Builds the typed request from decoded query parameters: empty dates
/// are absent, malformed dates and ranking types fail naming their
/// field (`since` first, then `until`, then `ranking_type`), defaults
/// fill the rest. Unrecognized parameters never reach this point.
pub fn build_ranking_request(
    id: Option<String>,
    main_text: Option<String>,
    name_and_trip: Option<String>,
    oekaki: Option<bool>,
    since: Option<String>,
    until: Option<String>,
    ranking_type: Option<String>,
    min_posts: Option<i32>,
) -> (r: Result<RankingRequest, AppError>)
    ensures
        r is Ok <==> spec_date_param(view_opt_str(since)) is Ok && spec_date_param(
            view_opt_str(until),
        ) is Ok && spec_rt_param(view_opt_str(ranking_type)) is Ok,
        r matches Ok(req) ==> req@ == (RequestModel {
            id: view_opt_str(id),
            main_text: view_opt_str(main_text),
            name_and_trip: view_opt_str(name_and_trip),
            oekaki: oekaki,
            since: spec_date_param(view_opt_str(since))->Ok_0,
            until: spec_date_param(view_opt_str(until))->Ok_0,
            ranking_type: spec_rt_param(view_opt_str(ranking_type))->Ok_0,
            min_posts: match min_posts {
                Some(m) => m,
                None => 1,
            },
        }),
        r matches Err(e) ==> e is Validation,
        r is Err && spec_date_param(view_opt_str(since)) is Err ==> ((r->Err_0)
            matches AppError::Validation { field, .. } && field@ == "since"@),
        r is Err && spec_date_param(view_opt_str(since)) is Ok && spec_date_param(
            view_opt_str(until),
        ) is Err ==> ((r->Err_0) matches AppError::Validation { field, .. } && field@
            == "until"@),
        r is Err && spec_date_param(view_opt_str(since)) is Ok && spec_date_param(
            view_opt_str(until),
        ) is Ok ==> ((r->Err_0) matches AppError::Validation { field, .. } && field@
            == "ranking_type"@),
{
    let since_d: Option<Date> = match &since {
        None => None,
        Some(v) => {
            if v.as_str().unicode_len() == 0 {
                None
            } else {
                match parse_date(v.as_str()) {
                    Some(d) => Some(d),
                    None => {
                        return Err(AppError::Validation {
                            field: String::from_str("since"),
                            message: String::from_str("expected a YYYY-MM-DD date"),
                        });
                    },
                }
            }
        },
    };
    let until_d: Option<Date> = match &until {
        None => None,
        Some(v) => {
            if v.as_str().unicode_len() == 0 {
                None
            } else {
                match parse_date(v.as_str()) {
                    Some(d) => Some(d),
                    None => {
                        return Err(AppError::Validation {
                            field: String::from_str("until"),
                            message: String::from_str("expected a YYYY-MM-DD date"),
                        });
                    },
                }
            }
        },
    };
    let rt: RankingType = match &ranking_type {
        None => RankingType::PostCount,
        Some(v) => {
            if str_eq(v.as_str(), "post_count") {
                RankingType::PostCount
            } else if str_eq(v.as_str(), "recent_activity") {
                RankingType::RecentActivity
            } else {
                return Err(AppError::Validation {
                    field: String::from_str("ranking_type"),
                    message: String::from_str("expected post_count or recent_activity"),
                });
            }
        },
    };
    let mp: i32 = match min_posts {
        Some(m) => m,
        None => 1,
    };
    Ok(RankingRequest {
        id,
        main_text,
        name_and_trip,
        oekaki,
        since: since_d,
        until: until_d,
        ranking_type: rt,
        min_posts: mp,
    })
}

impl RankingOptions {
    /// Promotes a typed request into engine options: `since` at
    /// midnight, `until` at the day's last second, a range only when a
    /// bound exists.
    pub fn from_request(req: &RankingRequest) -> (r: RankingOptions)
        ensures
            r@.id == req@.id,
            r@.main_text == req@.main_text,
            r@.name_and_trip == req@.name_and_trip,
            r@.oekaki == req@.oekaki,
            r@.ranking_type == req@.ranking_type.spec_to_kernel(),
            r@.min_posts == req@.min_posts,
            req@.since is None && req@.until is None ==> r@.date_range is None,
            !(req@.since is None && req@.until is None) ==> (r@.date_range matches Some(dr)
                && dr.since == (match req@.since {
                Some(d) => Some(d.spec_start_of_day()),
                None => None,
            }) && dr.until == (match req@.until {
                Some(d) => Some(d.spec_end_of_day()),
                None => None,
            })),
            (req@.since matches Some(d) && d.wf()) ==> (r@.since_bound() matches Some(t)
                && t.wf()),
            (req@.until matches Some(d) && d.wf()) ==> (r@.until_bound() matches Some(t)
                && t.wf()),
    {
        let date_range: Option<DateTimeRange> = match (&req.since, &req.until) {
            (None, None) => None,
            (s, u) => Some(
                DateTimeRange {
                    since: match s {
                        Some(d) => Some(d.start_of_day()),
                        None => None,
                    },
                    until: match u {
                        Some(d) => Some(d.end_of_day()),
                        None => None,
                    },
                },
            ),
        };
        RankingOptions {
            id: match &req.id {
                Some(s) => Some(s.clone()),
                None => None,
            },
            main_text: match &req.main_text {
                Some(s) => Some(s.clone()),
                None => None,
            },
            name_and_trip: match &req.name_and_trip {
                Some(s) => Some(s.clone()),
                None => None,
            },
            oekaki: req.oekaki,
            date_range,
            ranking_type: req.ranking_type.to_kernel(),
            min_posts: req.min_posts,
        }
    }
}

} // verus!
