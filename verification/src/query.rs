//! The query builder: a parameterized aggregation statement over the
//! `res` table plus its bind values, from [`RankingOptions`]. Values are
//! bound positionally — `$1`, `$2`, … in the order the predicates are
//! appended, with `min_posts` always the last bind — so no user text is
//! ever spliced into the statement.

use vstd::prelude::*;
use vstd::string::StringExecFns;
use crate::botquery::strs_view;
use crate::model::{OptionsModel, RankingOptions, RankingType, Timestamp};
use crate::render::{spec_sql_timestamp, sql_timestamp_string};

verus! {

/// A ready-to-run statement: the SQL text, the string binds in
/// placeholder order, and the final integer bind.
pub struct QueryPlan {
    pub sql: String,
    pub binds: Vec<String>,
    pub min_posts: i32,
}

/// A filter value as the store's pattern: `%value%`.
pub open spec fn pct_wrap(v: Seq<char>) -> Seq<char> {
    seq!['%'] + v + seq!['%']
}

/// How many filter binds the options produce.
pub open spec fn spec_bind_count(o: OptionsModel) -> int {
    (if o.id is Some {
        1int
    } else {
        0int
    }) + (if o.main_text is Some {
        1int
    } else {
        0int
    }) + (if o.name_and_trip is Some {
        1int
    } else {
        0int
    }) + (if o.since_bound() is Some {
        1int
    } else {
        0int
    }) + (if o.until_bound() is Some {
        1int
    } else {
        0int
    })
}

/// The binds of the three substring filters, in order.
pub open spec fn bind_like(o: OptionsModel) -> Seq<Seq<char>> {
    (match o.id {
        Some(v) => seq![pct_wrap(v)],
        None => Seq::empty(),
    }) + (match o.main_text {
        Some(v) => seq![pct_wrap(v)],
        None => Seq::empty(),
    }) + (match o.name_and_trip {
        Some(v) => seq![pct_wrap(v)],
        None => Seq::empty(),
    })
}

/// The binds of the two date bounds, in order.
pub open spec fn bind_dates(o: OptionsModel) -> Seq<Seq<char>> {
    (match o.since_bound() {
        Some(t) => seq![spec_sql_timestamp(t)],
        None => Seq::empty(),
    }) + (match o.until_bound() {
        Some(t) => seq![spec_sql_timestamp(t)],
        None => Seq::empty(),
    })
}

/// The bind values, in the order their placeholders are numbered.
pub open spec fn spec_binds(o: OptionsModel) -> Seq<Seq<char>> {
    bind_like(o) + bind_dates(o)
}

/// The placeholder for bind `k`.
pub open spec fn dollar(k: int) -> Seq<char> {
    if k == 1 {
        "$1"@
    } else if k == 2 {
        "$2"@
    } else if k == 3 {
        "$3"@
    } else if k == 4 {
        "$4"@
    } else if k == 5 {
        "$5"@
    } else {
        "$6"@
    }
}

/// The aggregate column the ranking policy orders by.
pub open spec fn spec_order_key(rt: RankingType) -> Seq<char> {
    match rt {
        RankingType::PostCount => "post_count"@,
        RankingType::RecentActivity => "latest_post_datetime"@,
    }
}

/// The grouping subquery's fixed head, up to the dynamic predicates.
pub open spec fn sql_head() -> Seq<char> {
    "WITH ranked_ids AS (SELECT id, COUNT(*) AS post_count, MAX(no) AS latest_post_no, MAX(datetime) AS latest_post_datetime, MIN(no) AS first_post_no, MIN(datetime) AS first_post_datetime FROM res WHERE id IS NOT NULL AND id != ''"@
}

/// Number of binds before the `main_text` one.
pub open spec fn n_id(o: OptionsModel) -> int {
    if o.id is Some {
        1int
    } else {
        0int
    }
}

/// Number of binds before the `name_and_trip` one.
pub open spec fn n_mt(o: OptionsModel) -> int {
    n_id(o) + (if o.main_text is Some {
        1int
    } else {
        0int
    })
}

/// Number of binds before the `since` one.
pub open spec fn n_nt(o: OptionsModel) -> int {
    n_mt(o) + (if o.name_and_trip is Some {
        1int
    } else {
        0int
    })
}

/// Number of binds before the `until` one.
pub open spec fn n_since(o: OptionsModel) -> int {
    n_nt(o) + (if o.since_bound() is Some {
        1int
    } else {
        0int
    })
}

/// The identity predicate, when the filter is present.
pub open spec fn part_id(o: OptionsModel) -> Seq<char> {
    match o.id {
        Some(_) => " AND id LIKE "@ + dollar(1) + "::text"@,
        None => Seq::empty(),
    }
}

/// The body-text predicate, when the filter is present.
pub open spec fn part_mt(o: OptionsModel) -> Seq<char> {
    match o.main_text {
        Some(_) => " AND main_text LIKE "@ + dollar(n_id(o) + 1) + "::text"@,
        None => Seq::empty(),
    }
}

/// The name predicate, when the filter is present.
pub open spec fn part_nt(o: OptionsModel) -> Seq<char> {
    match o.name_and_trip {
        Some(_) => " AND name_and_trip LIKE "@ + dollar(n_mt(o) + 1) + "::text"@,
        None => Seq::empty(),
    }
}

/// The image predicate, when the filter is on.
pub open spec fn part_oekaki(o: OptionsModel) -> Seq<char> {
    if o.oekaki == Some(true) {
        " AND oekaki_id IS NOT NULL"@
    } else {
        Seq::<char>::empty()
    }
}

/// The lower datetime bound, when present.
pub open spec fn part_since(o: OptionsModel) -> Seq<char> {
    match o.since_bound() {
        Some(_) => " AND datetime >= "@ + dollar(n_nt(o) + 1) + "::timestamp"@,
        None => Seq::empty(),
    }
}

/// The upper datetime bound, when present.
pub open spec fn part_until(o: OptionsModel) -> Seq<char> {
    match o.until_bound() {
        Some(_) => " AND datetime <= "@ + dollar(n_since(o) + 1) + "::timestamp"@,
        None => Seq::empty(),
    }
}

/// The threshold and the ranked outer query.
pub open spec fn part_tail(o: OptionsModel) -> Seq<char> {
    " GROUP BY id HAVING COUNT(*) >= "@ + dollar(spec_bind_count(o) + 1)
        + ") SELECT ROW_NUMBER() OVER (ORDER BY "@ + spec_order_key(o.ranking_type)
        + " DESC) AS rank, id, post_count, latest_post_no, latest_post_datetime, first_post_no, first_post_datetime FROM ranked_ids ORDER BY "@
        + spec_order_key(o.ranking_type) + " DESC"@
}

/// The exact statement the builder owes: the grouping subquery under
/// the base predicate, one `AND` predicate per present filter with
/// placeholders numbered in order, the `HAVING` threshold as the last
/// bind, and a dense `ROW_NUMBER` rank over the ranking key descending.
pub open spec fn spec_sql(o: OptionsModel) -> Seq<char> {
    sql_head() + part_id(o) + part_mt(o) + part_nt(o) + part_oekaki(o) + part_since(o)
        + part_until(o) + part_tail(o)
}

/// The placeholder text for bind `k`.
fn dollar_str(k: usize) -> (r: &'static str)
    requires
        1 <= k <= 6,
    ensures
        r@ == dollar(k as int),
{
    if k == 1 {
        "$1"
    } else if k == 2 {
        "$2"
    } else if k == 3 {
        "$3"
    } else if k == 4 {
        "$4"
    } else if k == 5 {
        "$5"
    } else {
        "$6"
    }
}

/// Wraps a filter value in `%…%` for the store's pattern language.
fn pct_wrap_string(v: &String) -> (r: String)
    ensures
        r@ == pct_wrap(v@),
{
    proof {
        reveal_strlit("%");
    }
    let r = String::from_str("%").concat(v.as_str()).concat("%");
    proof {
        assert(r@ =~= pct_wrap(v@));
    }
    r
}

/// Appends the three substring predicates and their binds.
#[verifier::rlimit(60)]
fn append_like_filters(sql: &mut String, binds: &mut Vec<String>, options: &RankingOptions) -> (k:
    usize)
    ensures
        final(sql)@ == old(sql)@ + part_id(options@) + part_mt(options@) + part_nt(options@),
        strs_view(final(binds)@) == strs_view(old(binds)@) + bind_like(options@),
        k as int == 1 + n_nt(options@),
{
    let ghost o = options@;
    let ghost sql0 = sql@;
    let ghost binds0 = strs_view(binds@);
    let mut k: usize = 1;
    if let Some(v) = &options.id {
        sql.append(" AND id LIKE ");
        sql.append(dollar_str(k));
        sql.append("::text");
        binds.push(pct_wrap_string(v));
        k = k + 1;
    }
    proof {
        assert(k as int == 1 + n_id(o));
        assert(sql@ =~= sql0 + part_id(o));
    }
    if let Some(v) = &options.main_text {
        sql.append(" AND main_text LIKE ");
        sql.append(dollar_str(k));
        sql.append("::text");
        binds.push(pct_wrap_string(v));
        k = k + 1;
    }
    proof {
        assert(k as int == 1 + n_mt(o));
        assert(sql@ =~= sql0 + part_id(o) + part_mt(o));
    }
    if let Some(v) = &options.name_and_trip {
        sql.append(" AND name_and_trip LIKE ");
        sql.append(dollar_str(k));
        sql.append("::text");
        binds.push(pct_wrap_string(v));
        k = k + 1;
    }
    proof {
        assert(k as int == 1 + n_nt(o));
        assert(sql@ =~= sql0 + part_id(o) + part_mt(o) + part_nt(o));
        assert(strs_view(binds@) =~~= binds0 + bind_like(o));
    }
    k
}

/// Appends the image predicate, the date bounds and their binds.
#[verifier::rlimit(60)]
fn append_date_filters(
    sql: &mut String,
    binds: &mut Vec<String>,
    options: &RankingOptions,
    k0: usize,
) -> (k: usize)
    requires
        options@.wf(),
        k0 as int == 1 + n_nt(options@),
    ensures
        final(sql)@ == old(sql)@ + part_oekaki(options@) + part_since(options@) + part_until(
            options@,
        ),
        strs_view(final(binds)@) == strs_view(old(binds)@) + bind_dates(options@),
        k as int == 1 + spec_bind_count(options@),
{
    let ghost o = options@;
    let ghost sql0 = sql@;
    let ghost binds0 = strs_view(binds@);
    let mut k = k0;
    let oekaki_on = match options.oekaki {
        Some(true) => true,
        _ => false,
    };
    if oekaki_on {
        sql.append(" AND oekaki_id IS NOT NULL");
    }
    proof {
        assert(sql@ =~= sql0 + part_oekaki(o));
    }
    let since_t: Option<Timestamp> = match &options.date_range {
        Some(dr) => dr.since,
        None => None,
    };
    let until_t: Option<Timestamp> = match &options.date_range {
        Some(dr) => dr.until,
        None => None,
    };
    proof {
        assert(since_t == o.since_bound());
        assert(until_t == o.until_bound());
    }
    if let Some(t) = since_t {
        sql.append(" AND datetime >= ");
        sql.append(dollar_str(k));
        sql.append("::timestamp");
        binds.push(sql_timestamp_string(&t));
        k = k + 1;
    }
    proof {
        assert(k as int == 1 + n_since(o));
        assert(sql@ =~= sql0 + part_oekaki(o) + part_since(o));
    }
    if let Some(t) = until_t {
        sql.append(" AND datetime <= ");
        sql.append(dollar_str(k));
        sql.append("::timestamp");
        binds.push(sql_timestamp_string(&t));
        k = k + 1;
    }
    proof {
        assert(k as int == 1 + spec_bind_count(o));
        assert(sql@ =~= sql0 + part_oekaki(o) + part_since(o) + part_until(o));
        assert(strs_view(binds@) =~~= binds0 + bind_dates(o));
    }
    k
}

/// Builds the parameterized ranking statement and its binds. The
/// placeholders and the bind vector are generated in the same order,
/// and `min_posts` takes the index after every filter bind.
#[verifier::rlimit(60)]
pub fn build_ranking_query(options: &RankingOptions) -> (p: QueryPlan)
    requires
        options@.wf(),
    ensures
        p.sql@ == spec_sql(options@),
        strs_view(p.binds@) == spec_binds(options@),
        p.binds@.len() == spec_bind_count(options@),
        p.min_posts == options@.min_posts,
{
    let ghost o = options@;
    let mut sql = String::new();
    let mut binds: Vec<String> = Vec::new();
    sql.append(
        "WITH ranked_ids AS (SELECT id, COUNT(*) AS post_count, MAX(no) AS latest_post_no, MAX(datetime) AS latest_post_datetime, MIN(no) AS first_post_no, MIN(datetime) AS first_post_datetime FROM res WHERE id IS NOT NULL AND id != \'\'",
    );
    proof {
        assert(sql@ =~= sql_head());
    }
    let k1 = append_like_filters(&mut sql, &mut binds, options);
    let k = append_date_filters(&mut sql, &mut binds, options, k1);
    let ghost sql_before_tail = sql@;
    sql.append(" GROUP BY id HAVING COUNT(*) >= ");
    sql.append(dollar_str(k));
    sql.append(") SELECT ROW_NUMBER() OVER (ORDER BY ");
    let key = match options.ranking_type {
        RankingType::PostCount => "post_count",
        RankingType::RecentActivity => "latest_post_datetime",
    };
    sql.append(key);
    sql.append(
        " DESC) AS rank, id, post_count, latest_post_no, latest_post_datetime, first_post_no, first_post_datetime FROM ranked_ids ORDER BY ",
    );
    sql.append(key);
    sql.append(" DESC");
    proof {
        assert(key@ == spec_order_key(o.ranking_type));
        assert(sql@ =~= sql_before_tail + part_tail(o));
        assert(sql@ =~= spec_sql(o));
        assert(strs_view(binds@) =~~= spec_binds(o));
        assert(binds@.len() == spec_bind_count(o));
    }
    QueryPlan { sql, binds, min_posts: options.min_posts }
}

} // verus!
