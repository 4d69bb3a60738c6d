//! The filter model: the vocabulary every layer of the ranking engine
//! shares, independent of transport and storage.

use vstd::prelude::*;

verus! {

/// A wall-clock UTC instant at second precision.
///
/// The store keeps timestamps as naive wall-clock UTC; the engine never
/// converts or localizes, so a plain calendar record is the whole truth.
/// Ordering is lexicographic over the fields, which agrees with
/// chronological order for well-formed values.
#[derive(Clone, Copy, Debug, PartialEq, Eq, Structural)]
pub struct Timestamp {
    pub year: u16,
    pub month: u8,
    pub day: u8,
    pub hour: u8,
    pub minute: u8,
    pub second: u8,
}

impl Timestamp {
    /// Field ranges under which rendering yields fixed-width digits and
    /// lexicographic comparison is chronological.
    pub open spec fn wf(self) -> bool {
        &&& self.year <= 9999
        &&& 1 <= self.month <= 12
        &&& 1 <= self.day <= 31
        &&& self.hour <= 23
        &&& self.minute <= 59
        &&& self.second <= 59
    }

    /// Chronological `<=`: lexicographic over the calendar fields.
    pub open spec fn spec_le(self, other: Self) -> bool {
        if self.year != other.year {
            self.year < other.year
        } else if self.month != other.month {
            self.month < other.month
        } else if self.day != other.day {
            self.day < other.day
        } else if self.hour != other.hour {
            self.hour < other.hour
        } else if self.minute != other.minute {
            self.minute < other.minute
        } else {
            self.second <= other.second
        }
    }
}

/// Chronological `a <= b` on timestamps.
pub fn ts_le(a: &Timestamp, b: &Timestamp) -> (r: bool)
    ensures
        r == a.spec_le(*b),
{
    if a.year != b.year {
        a.year < b.year
    } else if a.month != b.month {
        a.month < b.month
    } else if a.day != b.day {
        a.day < b.day
    } else if a.hour != b.hour {
        a.hour < b.hour
    } else if a.minute != b.minute {
        a.minute < b.minute
    } else {
        a.second <= b.second
    }
}

/// Chronological `a < b` on timestamps.
pub fn ts_lt(a: &Timestamp, b: &Timestamp) -> (r: bool)
    ensures
        r == !b.spec_le(*a),
{
    !ts_le(b, a)
}

/// Which aggregate drives the descending order of the ranking.
#[derive(Clone, Copy, Debug, PartialEq, Eq, Structural)]
pub enum RankingType {
    PostCount,
    RecentActivity,
}

/// An inclusive datetime window; either bound may be absent.
#[derive(Clone, Copy, Debug)]
pub struct DateTimeRange {
    pub since: Option<Timestamp>,
    pub until: Option<Timestamp>,
}

/// A single post as the ranking engine reads it from the store.
#[derive(Clone, Debug)]
pub struct Post {
    pub no: i32,
    pub id: String,
    pub name_and_trip: String,
    pub main_text: String,
    pub datetime: Timestamp,
    pub oekaki_id: Option<i32>,
}

/// Mathematical image of a [`Post`]: strings as character sequences.
#[verifier::ext_equal]
pub ghost struct PostModel {
    pub no: i32,
    pub id: Seq<char>,
    pub name_and_trip: Seq<char>,
    pub main_text: Seq<char>,
    pub datetime: Timestamp,
    pub oekaki_id: Option<i32>,
}

impl View for Post {
    type V = PostModel;

    open spec fn view(&self) -> PostModel {
        PostModel {
            no: self.no,
            id: self.id@,
            name_and_trip: self.name_and_trip@,
            main_text: self.main_text@,
            datetime: self.datetime,
            oekaki_id: self.oekaki_id,
        }
    }
}

/// The canonical representation of a ranking request.
#[derive(Clone, Debug)]
pub struct RankingOptions {
    pub id: Option<String>,
    pub main_text: Option<String>,
    pub name_and_trip: Option<String>,
    pub oekaki: Option<bool>,
    pub date_range: Option<DateTimeRange>,
    pub ranking_type: RankingType,
    pub min_posts: i32,
}

/// View of an optional string as an optional character sequence.
pub open spec fn view_opt_str(o: Option<String>) -> Option<Seq<char>> {
    match o {
        Some(s) => Some(s@),
        None => None,
    }
}

/// Mathematical image of [`RankingOptions`].
#[verifier::ext_equal]
pub ghost struct OptionsModel {
    pub id: Option<Seq<char>>,
    pub main_text: Option<Seq<char>>,
    pub name_and_trip: Option<Seq<char>>,
    pub oekaki: Option<bool>,
    pub date_range: Option<DateTimeRange>,
    pub ranking_type: RankingType,
    pub min_posts: i32,
}

impl OptionsModel {
    /// Effective lower datetime bound, if any.
    pub open spec fn since_bound(self) -> Option<Timestamp> {
        match self.date_range {
            Some(r) => r.since,
            None => None,
        }
    }

    /// Effective upper datetime bound, if any.
    pub open spec fn until_bound(self) -> Option<Timestamp> {
        match self.date_range {
            Some(r) => r.until,
            None => None,
        }
    }

    /// Both date bounds, where present, are well-formed timestamps.
    pub open spec fn wf(self) -> bool {
        &&& match self.since_bound() {
            Some(t) => t.wf(),
            None => true,
        }
        &&& match self.until_bound() {
            Some(t) => t.wf(),
            None => true,
        }
    }
}

impl View for RankingOptions {
    type V = OptionsModel;

    open spec fn view(&self) -> OptionsModel {
        OptionsModel {
            id: view_opt_str(self.id),
            main_text: view_opt_str(self.main_text),
            name_and_trip: view_opt_str(self.name_and_trip),
            oekaki: self.oekaki,
            date_range: self.date_range,
            ranking_type: self.ranking_type,
            min_posts: self.min_posts,
        }
    }
}

impl Default for RankingOptions {
    /// No filters, rank by post count, admit every identity with at
    /// least one post.
    fn default() -> (r: Self)
        ensures
            r@.id is None,
            r@.main_text is None,
            r@.name_and_trip is None,
            r@.oekaki is None,
            r@.date_range is None,
            r@.ranking_type == RankingType::PostCount,
            r@.min_posts == 1,
    {
        RankingOptions {
            id: None,
            main_text: None,
            name_and_trip: None,
            oekaki: None,
            date_range: None,
            ranking_type: RankingType::PostCount,
            min_posts: 1,
        }
    }
}

/// One ranked identity with its aggregates.
#[derive(Clone, Debug)]
pub struct RankingEntry {
    pub rank: i64,
    pub id: String,
    pub post_count: i64,
    pub latest_post_no: i32,
    pub latest_post_datetime: Timestamp,
    pub first_post_no: i32,
    pub first_post_datetime: Timestamp,
}

/// Mathematical image of a [`RankingEntry`].
#[verifier::ext_equal]
pub ghost struct EntryModel {
    pub rank: int,
    pub id: Seq<char>,
    pub post_count: int,
    pub latest_post_no: i32,
    pub latest_post_datetime: Timestamp,
    pub first_post_no: i32,
    pub first_post_datetime: Timestamp,
}

impl View for RankingEntry {
    type V = EntryModel;

    open spec fn view(&self) -> EntryModel {
        EntryModel {
            rank: self.rank as int,
            id: self.id@,
            post_count: self.post_count as int,
            latest_post_no: self.latest_post_no,
            latest_post_datetime: self.latest_post_datetime,
            first_post_no: self.first_post_no,
            first_post_datetime: self.first_post_datetime,
        }
    }
}

/// View of a vector of posts as a sequence of post models.
pub open spec fn posts_view(s: Seq<Post>) -> Seq<PostModel> {
    s.map_values(|p: Post| p@)
}

/// Every post's timestamp is well-formed.
pub open spec fn posts_wf(posts: Seq<PostModel>) -> bool {
    forall|i: int| 0 <= i < posts.len() ==> (#[trigger] posts[i]).datetime.wf()
}

/// View of a vector of ranking entries as a sequence of entry models.
pub open spec fn entries_view(s: Seq<RankingEntry>) -> Seq<EntryModel> {
    s.map_values(|e: RankingEntry| e@)
}

/// The filters echoed back to the caller, dates already rendered.
#[derive(Clone, Debug)]
pub struct RankingSearchConditions {
    pub id: Option<String>,
    pub main_text: Option<String>,
    pub name_and_trip: Option<String>,
    pub oekaki: Option<bool>,
    pub since: Option<String>,
    pub until: Option<String>,
}

/// Mathematical image of [`RankingSearchConditions`].
#[verifier::ext_equal]
pub ghost struct ConditionsModel {
    pub id: Option<Seq<char>>,
    pub main_text: Option<Seq<char>>,
    pub name_and_trip: Option<Seq<char>>,
    pub oekaki: Option<bool>,
    pub since: Option<Seq<char>>,
    pub until: Option<Seq<char>>,
}

impl View for RankingSearchConditions {
    type V = ConditionsModel;

    open spec fn view(&self) -> ConditionsModel {
        ConditionsModel {
            id: view_opt_str(self.id),
            main_text: view_opt_str(self.main_text),
            name_and_trip: view_opt_str(self.name_and_trip),
            oekaki: self.oekaki,
            since: view_opt_str(self.since),
            until: view_opt_str(self.until),
        }
    }
}

/// The output of the ranking engine.
#[derive(Clone, Debug)]
pub struct RankingData {
    pub ranking: Vec<RankingEntry>,
    pub total_unique_ids: i64,
    pub search_conditions: RankingSearchConditions,
}

/// Mathematical image of [`RankingData`].
#[verifier::ext_equal]
pub ghost struct DataModel {
    pub ranking: Seq<EntryModel>,
    pub total_unique_ids: int,
    pub search_conditions: ConditionsModel,
}

impl View for RankingData {
    type V = DataModel;

    open spec fn view(&self) -> DataModel {
        DataModel {
            ranking: entries_view(self.ranking@),
            total_unique_ids: self.total_unique_ids as int,
            search_conditions: self.search_conditions@,
        }
    }
}

} // verus!
