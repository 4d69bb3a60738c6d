//! The ranking engine: groups the posts that pass the filters by
//! identity, aggregates per identity, applies the `min_posts` threshold,
//! and orders the result by the ranking key, descending, with dense
//! ranks. The executable engine is pinned to the mathematical
//! [`spec_ranking_data`], so its output is a function of the store and
//! the options alone.

use vstd::prelude::*;
use crate::like::{contains_pattern, matches_filter};
use crate::model::{
    ConditionsModel, DataModel, EntryModel, OptionsModel, Post, PostModel, RankingData,
    RankingEntry, RankingOptions, RankingSearchConditions, RankingType, Timestamp, posts_view,
    posts_wf, entries_view, ts_le, ts_lt,
};
use crate::render::{rfc3339_string, spec_rfc3339};

verus! {

/// Whether a post passes every filter of the options. The base
/// predicate — a nonempty identity — is the engine's own, not the
/// caller's.
pub open spec fn passes(p: PostModel, o: OptionsModel) -> bool {
    &&& p.id.len() > 0
    &&& match o.id {
        Some(v) => contains_pattern(p.id, v),
        None => true,
    }
    &&& match o.main_text {
        Some(v) => contains_pattern(p.main_text, v),
        None => true,
    }
    &&& match o.name_and_trip {
        Some(v) => contains_pattern(p.name_and_trip, v),
        None => true,
    }
    &&& (o.oekaki == Some(true) ==> p.oekaki_id is Some)
    &&& match o.since_bound() {
        Some(t) => t.spec_le(p.datetime),
        None => true,
    }
    &&& match o.until_bound() {
        Some(t) => p.datetime.spec_le(t),
        None => true,
    }
}

/// Executable image of [`passes`].
pub fn post_passes(p: &Post, o: &RankingOptions) -> (r: bool)
    ensures
        r == passes(p@, o@),
{
    let id_ok = !p.id.as_str().is_empty();
    let id_f = match &o.id {
        Some(v) => matches_filter(p.id.as_str(), v.as_str()),
        None => true,
    };
    let mt_f = match &o.main_text {
        Some(v) => matches_filter(p.main_text.as_str(), v.as_str()),
        None => true,
    };
    let nt_f = match &o.name_and_trip {
        Some(v) => matches_filter(p.name_and_trip.as_str(), v.as_str()),
        None => true,
    };
    let ok_f = match o.oekaki {
        Some(true) => p.oekaki_id.is_some(),
        _ => true,
    };
    let since_f = match &o.date_range {
        Some(r) => match &r.since {
            Some(t) => ts_le(t, &p.datetime),
            None => true,
        },
        None => true,
    };
    let until_f = match &o.date_range {
        Some(r) => match &r.until {
            Some(t) => ts_le(&p.datetime, t),
            None => true,
        },
        None => true,
    };
    id_ok && id_f && mt_f && nt_f && ok_f && since_f && until_f
}

/// Per-identity aggregates of the posts seen so far.
pub struct Group {
    pub id: String,
    pub post_count: i64,
    pub latest_no: i32,
    pub latest_dt: Timestamp,
    pub first_no: i32,
    pub first_dt: Timestamp,
}

/// Mathematical image of a [`Group`].
#[verifier::ext_equal]
pub ghost struct GroupModel {
    pub id: Seq<char>,
    pub post_count: int,
    pub latest_no: i32,
    pub latest_dt: Timestamp,
    pub first_no: i32,
    pub first_dt: Timestamp,
}

impl View for Group {
    type V = GroupModel;

    open spec fn view(&self) -> GroupModel {
        GroupModel {
            id: self.id@,
            post_count: self.post_count as int,
            latest_no: self.latest_no,
            latest_dt: self.latest_dt,
            first_no: self.first_no,
            first_dt: self.first_dt,
        }
    }
}

/// View of a vector of groups as a sequence of group models.
pub open spec fn groups_view(s: Seq<Group>) -> Seq<GroupModel> {
    s.map_values(|g: Group| g@)
}

/// The aggregates of a group seeded by its first post.
pub open spec fn new_group(p: PostModel) -> GroupModel {
    GroupModel {
        id: p.id,
        post_count: 1,
        latest_no: p.no,
        latest_dt: p.datetime,
        first_no: p.no,
        first_dt: p.datetime,
    }
}

/// A group's aggregates after one more post of the same identity.
pub open spec fn merge_group(g: GroupModel, p: PostModel) -> GroupModel {
    GroupModel {
        id: g.id,
        post_count: g.post_count + 1,
        latest_no: if g.latest_no < p.no {
            p.no
        } else {
            g.latest_no
        },
        latest_dt: if !p.datetime.spec_le(g.latest_dt) {
            p.datetime
        } else {
            g.latest_dt
        },
        first_no: if p.no < g.first_no {
            p.no
        } else {
            g.first_no
        },
        first_dt: if !g.first_dt.spec_le(p.datetime) {
            p.datetime
        } else {
            g.first_dt
        },
    }
}

/// The index of the first group carrying `id`, if any.
pub open spec fn find_group(gs: Seq<GroupModel>, id: Seq<char>) -> Option<int>
    decreases gs.len(),
{
    if gs.len() == 0 {
        None
    } else if gs[0].id == id {
        Some(0)
    } else {
        match find_group(gs.drop_first(), id) {
            Some(i) => Some(i + 1),
            None => None,
        }
    }
}

/// `find_group` returns the first index with the identity, or reports
/// that none carries it.
pub proof fn lemma_find_group(gs: Seq<GroupModel>, id: Seq<char>)
    ensures
        match find_group(gs, id) {
            Some(i) => 0 <= i < gs.len() && gs[i].id == id && (forall|j: int|
                0 <= j < i ==> (#[trigger] gs[j]).id != id),
            None => forall|j: int| 0 <= j < gs.len() ==> (#[trigger] gs[j]).id != id,
        },
    decreases gs.len(),
{
    if gs.len() > 0 && gs[0].id != id {
        lemma_find_group(gs.drop_first(), id);
        assert(forall|j: int| 1 <= j < gs.len() ==> gs[j] == gs.drop_first()[j - 1]);
    }
}

/// The group list after one more post.
pub open spec fn step_groups(gs: Seq<GroupModel>, p: PostModel, o: OptionsModel) -> Seq<
    GroupModel,
> {
    if passes(p, o) {
        match find_group(gs, p.id) {
            Some(i) => gs.update(i, merge_group(gs[i], p)),
            None => gs.push(new_group(p)),
        }
    } else {
        gs
    }
}

/// The group list after the first `n` posts, in order of first
/// occurrence of each identity.
pub open spec fn groups_of(posts: Seq<PostModel>, o: OptionsModel, n: int) -> Seq<GroupModel>
    decreases n,
{
    if n <= 0 {
        Seq::empty()
    } else {
        step_groups(groups_of(posts, o, n - 1), posts[n - 1], o)
    }
}

/// How many of the first `n` posts pass the filters and carry `id`.
pub open spec fn cnt_of(posts: Seq<PostModel>, o: OptionsModel, id: Seq<char>, n: int) -> int
    decreases n,
{
    if n <= 0 {
        0
    } else {
        cnt_of(posts, o, id, n - 1) + (if passes(posts[n - 1], o) && posts[n - 1].id == id {
            1int
        } else {
            0int
        })
    }
}

/// Internal sanity of a group built from at most `n` posts.
pub open spec fn group_wf(g: GroupModel, n: int) -> bool {
    &&& 1 <= g.post_count <= n
    &&& g.id.len() > 0
    &&& g.first_no <= g.latest_no
    &&& g.first_dt.spec_le(g.latest_dt)
    &&& g.first_dt.wf()
    &&& g.latest_dt.wf()
}

/// Totality, transitivity and antisymmetry of the timestamp order on
/// any three values.
pub proof fn lemma_ts_order(a: Timestamp, b: Timestamp, c: Timestamp)
    ensures
        a.spec_le(b) || b.spec_le(a),
        a.spec_le(b) && b.spec_le(c) ==> a.spec_le(c),
        a.spec_le(b) && b.spec_le(a) ==> a == b,
{
}

/// Every group of `groups_of` is sane and the identities are distinct.
pub proof fn lemma_groups_wf(posts: Seq<PostModel>, o: OptionsModel, n: int)
    requires
        0 <= n <= posts.len(),
        posts_wf(posts),
    ensures
        groups_of(posts, o, n).len() <= n,
        forall|i: int|
            0 <= i < groups_of(posts, o, n).len() ==> group_wf(
                #[trigger] groups_of(posts, o, n)[i],
                n,
            ),
        forall|i: int, j: int|
            0 <= i < j < groups_of(posts, o, n).len() ==> groups_of(posts, o, n)[i].id
                != groups_of(posts, o, n)[j].id,
    decreases n,
{
    if n > 0 {
        lemma_groups_wf(posts, o, n - 1);
        let gs = groups_of(posts, o, n - 1);
        let p = posts[n - 1];
        lemma_find_group(gs, p.id);
        if passes(p, o) {
            match find_group(gs, p.id) {
                Some(i) => {
                    lemma_ts_order(p.datetime, gs[i].first_dt, gs[i].latest_dt);
                    lemma_ts_order(gs[i].first_dt, gs[i].latest_dt, p.datetime);
                    lemma_ts_order(gs[i].first_dt, p.datetime, gs[i].latest_dt);
                },
                None => {},
            }
        }
    }
}

/// The ranking key order: is `a` strictly below `b`?
pub open spec fn key_lt(a: GroupModel, b: GroupModel, rt: RankingType) -> bool {
    match rt {
        RankingType::PostCount => a.post_count < b.post_count,
        RankingType::RecentActivity => !b.latest_dt.spec_le(a.latest_dt),
    }
}

/// Executable image of [`key_lt`].
pub fn group_key_lt(a: &Group, b: &Group, rt: RankingType) -> (r: bool)
    ensures
        r == key_lt(a@, b@, rt),
{
    match rt {
        RankingType::PostCount => a.post_count < b.post_count,
        RankingType::RecentActivity => ts_lt(&a.latest_dt, &b.latest_dt),
    }
}

/// The first index with a maximal key.
pub open spec fn best_index(s: Seq<GroupModel>, rt: RankingType) -> int
    decreases s.len(),
{
    if s.len() <= 1 {
        0
    } else {
        let b = best_index(s.drop_last(), rt);
        if 0 <= b < s.len() - 1 && key_lt(s[b], s.last(), rt) {
            s.len() - 1
        } else {
            b
        }
    }
}

/// `best_index` is in bounds and no element has a strictly greater key.
pub proof fn lemma_best_index(s: Seq<GroupModel>, rt: RankingType)
    requires
        s.len() > 0,
    ensures
        0 <= best_index(s, rt) < s.len(),
        forall|j: int| 0 <= j < s.len() ==> !key_lt(s[best_index(s, rt)], #[trigger] s[j], rt),
    decreases s.len(),
{
    if s.len() > 1 {
        lemma_best_index(s.drop_last(), rt);
        let t = s.drop_last();
        let b = best_index(t, rt);
        assert(forall|j: int| 0 <= j < s.len() - 1 ==> s[j] == t[j]);
        assert forall|j: int| 0 <= j < s.len() implies !key_lt(
            s[best_index(s, rt)],
            #[trigger] s[j],
            rt,
        ) by {
            if j < s.len() - 1 {
                assert(!key_lt(t[b], t[j], rt));
            }
            lemma_ts_order(s[j].latest_dt, s[b].latest_dt, s.last().latest_dt);
            lemma_ts_order(s[b].latest_dt, s[j].latest_dt, s.last().latest_dt);
            lemma_ts_order(s.last().latest_dt, s[j].latest_dt, s[b].latest_dt);
        }
    }
}

/// Selection order: the first maximal element, then the rest, sorted.
pub open spec fn sel_sort(s: Seq<GroupModel>, rt: RankingType) -> Seq<GroupModel>
    decreases s.len(),
{
    if s.len() == 0 {
        Seq::empty()
    } else {
        let b = best_index(s, rt);
        if 0 <= b < s.len() {
            seq![s[b]] + sel_sort(s.remove(b), rt)
        } else {
            s
        }
    }
}

/// Removing an element keeps every other element.
pub proof fn lemma_remove_contains(s: Seq<GroupModel>, b: int, x: GroupModel)
    requires
        0 <= b < s.len(),
        s.remove(b).contains(x),
    ensures
        s.contains(x),
{
    let i = choose|i: int| 0 <= i < s.remove(b).len() && s.remove(b)[i] == x;
    if i < b {
        assert(s[i] == x);
    } else {
        assert(s[i + 1] == x);
    }
}

/// `sel_sort` keeps the length, draws every element from its input, and
/// yields keys in non-increasing order.
pub proof fn lemma_sel_sort(s: Seq<GroupModel>, rt: RankingType)
    ensures
        sel_sort(s, rt).len() == s.len(),
        forall|i: int| 0 <= i < s.len() ==> s.contains(#[trigger] sel_sort(s, rt)[i]),
        forall|i: int, j: int|
            0 <= i <= j < s.len() ==> !key_lt(sel_sort(s, rt)[i], sel_sort(s, rt)[j], rt),
    decreases s.len(),
{
    if s.len() > 0 {
        lemma_best_index(s, rt);
        let b = best_index(s, rt);
        let rest = s.remove(b);
        lemma_sel_sort(rest, rt);
        let out = sel_sort(s, rt);
        assert(out == seq![s[b]] + sel_sort(rest, rt));
        assert forall|i: int| 0 <= i < s.len() implies s.contains(#[trigger] out[i]) by {
            if i == 0 {
                assert(out[0] == s[b]);
                assert(s.contains(s[b]));
            } else {
                assert(out[i] == sel_sort(rest, rt)[i - 1]);
                assert(rest.contains(out[i]));
                lemma_remove_contains(s, b, out[i]);
            }
        }
        assert forall|i: int, j: int| 0 <= i <= j < s.len() implies !key_lt(
            out[i],
            out[j],
            rt,
        ) by {
            if i == 0 {
                if j == 0 {
                    lemma_ts_order(s[b].latest_dt, s[b].latest_dt, s[b].latest_dt);
                } else {
                    assert(out[j] == sel_sort(rest, rt)[j - 1]);
                    assert(rest.contains(out[j]));
                    lemma_remove_contains(s, b, out[j]);
                    let k = choose|k: int| 0 <= k < s.len() && s[k] == out[j];
                    assert(!key_lt(s[b], s[k], rt));
                }
            } else {
                assert(out[i] == sel_sort(rest, rt)[i - 1]);
                assert(out[j] == sel_sort(rest, rt)[j - 1]);
            }
        }
    }
}

/// The groups meeting the `min_posts` threshold, in place.
pub open spec fn qualified_of(gs: Seq<GroupModel>, min: i32) -> Seq<GroupModel>
    decreases gs.len(),
{
    if gs.len() == 0 {
        Seq::empty()
    } else {
        let rest = qualified_of(gs.drop_last(), min);
        if gs.last().post_count >= min {
            rest.push(gs.last())
        } else {
            rest
        }
    }
}

/// Qualified groups meet the threshold and come from the group list.
pub proof fn lemma_qualified_of(gs: Seq<GroupModel>, min: i32)
    ensures
        qualified_of(gs, min).len() <= gs.len(),
        forall|i: int|
            0 <= i < qualified_of(gs, min).len() ==> (#[trigger] qualified_of(gs, min)[i]).post_count
                >= min && gs.contains(qualified_of(gs, min)[i]),
    decreases gs.len(),
{
    if gs.len() > 0 {
        lemma_qualified_of(gs.drop_last(), min);
        let q = qualified_of(gs, min);
        let qr = qualified_of(gs.drop_last(), min);
        assert forall|i: int| 0 <= i < q.len() implies (#[trigger] q[i]).post_count >= min
            && gs.contains(q[i]) by {
            if i < qr.len() {
                assert(q[i] == qr[i]);
                assert(gs.drop_last().contains(qr[i]));
                let k = choose|k: int| 0 <= k < gs.drop_last().len() && gs.drop_last()[k] == qr[i];
                assert(gs[k] == qr[i]);
            } else {
                assert(q[i] == gs.last());
                assert(gs[gs.len() - 1] == gs.last());
            }
        }
    }
}

/// A contained group inherits the pointwise sanity of the list.
pub proof fn lemma_contains_wf(gs: Seq<GroupModel>, x: GroupModel, n: int)
    requires
        gs.contains(x),
        forall|i: int| 0 <= i < gs.len() ==> group_wf(#[trigger] gs[i], n),
    ensures
        group_wf(x, n),
{
    let i = choose|i: int| 0 <= i < gs.len() && gs[i] == x;
}

/// The ranking entry of a sorted group at 1-based `rank`.
pub open spec fn entry_of(g: GroupModel, rank: int) -> EntryModel {
    EntryModel {
        rank: rank,
        id: g.id,
        post_count: g.post_count,
        latest_post_no: g.latest_no,
        latest_post_datetime: g.latest_dt,
        first_post_no: g.first_no,
        first_post_datetime: g.first_dt,
    }
}

/// Entries of the sorted groups, ranks dense from 1.
pub open spec fn entries_of(sorted: Seq<GroupModel>) -> Seq<EntryModel> {
    Seq::new(sorted.len(), |i: int| entry_of(sorted[i], i + 1))
}

/// The qualified groups of the whole store under the options.
pub open spec fn spec_qualified(posts: Seq<PostModel>, o: OptionsModel) -> Seq<GroupModel> {
    qualified_of(groups_of(posts, o, posts.len() as int), o.min_posts)
}

/// The ranking the engine owes: qualified groups, sorted by the ranking
/// key descending (first occurrence breaking ties), densely ranked.
pub open spec fn spec_ranking(posts: Seq<PostModel>, o: OptionsModel) -> Seq<EntryModel> {
    entries_of(sel_sort(spec_qualified(posts, o), o.ranking_type))
}

/// The filters echoed back, dates rendered as ISO-8601 UTC strings.
pub open spec fn spec_conditions(o: OptionsModel) -> ConditionsModel {
    ConditionsModel {
        id: o.id,
        main_text: o.main_text,
        name_and_trip: o.name_and_trip,
        oekaki: o.oekaki,
        since: match o.since_bound() {
            Some(t) => Some(spec_rfc3339(t)),
            None => None,
        },
        until: match o.until_bound() {
            Some(t) => Some(spec_rfc3339(t)),
            None => None,
        },
    }
}

/// The complete output the engine owes for a store and options.
pub open spec fn spec_ranking_data(posts: Seq<PostModel>, o: OptionsModel) -> DataModel {
    DataModel {
        ranking: spec_ranking(posts, o),
        total_unique_ids: spec_ranking(posts, o).len() as int,
        search_conditions: spec_conditions(o),
    }
}

/// The index of the first group with this identity, scanning left to
/// right.
#[verifier::loop_isolation(false)]
fn find_group_index(groups: &Vec<Group>, id: &String) -> (r: Option<usize>)
    ensures
        match r {
            Some(j) => find_group(groups_view(groups@), id@) == Some(j as int),
            None => find_group(groups_view(groups@), id@) is None,
        },
{
    let ghost gm = groups_view(groups@);
    let mut j: usize = 0;
    while j < groups.len()
        invariant
            j <= groups@.len(),
            gm == groups_view(groups@),
            forall|k: int| 0 <= k < j ==> (#[trigger] gm[k]).id != id@,
        decreases groups@.len() - j,
    {
        if groups[j].id == *id {
            proof {
                lemma_find_group(gm, id@);
                assert(gm[j as int].id == id@);
                match find_group(gm, id@) {
                    Some(fi) => {
                        if fi < j as int {
                            assert(gm[fi].id == id@);
                            assert(false);
                        }
                        if fi > j as int {
                            assert(gm[j as int].id != id@);
                            assert(false);
                        }
                    },
                    None => {
                        assert(gm[j as int].id != id@);
                        assert(false);
                    },
                }
            }
            return Some(j);
        }
        j = j + 1;
    }
    proof {
        lemma_find_group(gm, id@);
        match find_group(gm, id@) {
            Some(fi) => {
                assert(gm[fi].id != id@);
                assert(false);
            },
            None => {},
        }
    }
    None
}

/// The storage-facing ranking engine over an in-memory store of posts;
/// the deployment against a relational store owes the same contract.
pub struct RankingRepositoryImpl {
    pub posts: Vec<Post>,
}

impl View for RankingRepositoryImpl {
    type V = Seq<PostModel>;

    open spec fn view(&self) -> Seq<PostModel> {
        posts_view(self.posts@)
    }
}

impl RankingRepositoryImpl {
    /// Every stored timestamp is well-formed and the store fits the
    /// entry counters.
    pub open spec fn wf(self) -> bool {
        posts_wf(self@) && self@.len() <= i64::MAX
    }

    pub fn new(posts: Vec<Post>) -> (r: Self)
        ensures
            r@ == posts_view(posts@),
    {
        RankingRepositoryImpl { posts }
    }

    /// The engine: one ranked entry per distinct identity that passes
    /// every filter and meets `min_posts`; ranks dense from 1; keys
    /// non-increasing; the options echoed back with dates rendered.
    #[verifier::loop_isolation(false)]
    #[verifier::rlimit(60)]
    pub fn get_ranking(&self, options: &RankingOptions) -> (r: RankingData)
        requires
            self.wf(),
            options@.wf(),
        ensures
            r@ == spec_ranking_data(self@, options@),
            r@.total_unique_ids == r@.ranking.len(),
            forall|i: int|
                0 <= i < r@.ranking.len() ==> {
                    let e = #[trigger] r@.ranking[i];
                    &&& e.rank == i + 1
                    &&& e.post_count >= options@.min_posts
                    &&& e.id.len() > 0
                    &&& e.first_post_no <= e.latest_post_no
                    &&& e.first_post_datetime.spec_le(e.latest_post_datetime)
                    &&& e.first_post_datetime.wf()
                    &&& e.latest_post_datetime.wf()
                },
            forall|i: int, j: int|
                0 <= i <= j < r@.ranking.len() ==> {
                    let ei = #[trigger] r@.ranking[i];
                    let ej = #[trigger] r@.ranking[j];
                    match options@.ranking_type {
                        RankingType::PostCount => ei.post_count >= ej.post_count,
                        RankingType::RecentActivity => ej.latest_post_datetime.spec_le(
                            ei.latest_post_datetime,
                        ),
                    }
                },
    {
        let ghost pm = self@;
        let ghost o = options@;

        // Group the passing posts by identity, first occurrence first.
        let mut groups: Vec<Group> = Vec::new();
        let mut i: usize = 0;
        while i < self.posts.len()
            invariant
                i <= self.posts@.len(),
                pm == posts_view(self.posts@),
                posts_wf(pm),
                pm.len() <= i64::MAX,
                groups_view(groups@) == groups_of(pm, o, i as int),
            decreases self.posts@.len() - i,
        {
            let ghost gs_old = groups_view(groups@);
            proof {
                lemma_groups_wf(pm, o, i as int);
            }
            let p = &self.posts[i];
            proof {
                assert(p@ == pm[i as int]);
            }
            if post_passes(p, options) {
                match find_group_index(&groups, &p.id) {
                    Some(j) => {
                        proof {
                            assert(find_group(gs_old, p.id@) == Some(j as int));
                            assert(find_group(gs_old, pm[i as int].id) == Some(j as int));
                            lemma_find_group(gs_old, p@.id);
                        }
                        let g = groups.remove(j);
                        let merged = Group {
                            id: g.id,
                            post_count: g.post_count + 1,
                            latest_no: if g.latest_no < p.no {
                                p.no
                            } else {
                                g.latest_no
                            },
                            latest_dt: if ts_lt(&g.latest_dt, &p.datetime) {
                                p.datetime
                            } else {
                                g.latest_dt
                            },
                            first_no: if p.no < g.first_no {
                                p.no
                            } else {
                                g.first_no
                            },
                            first_dt: if ts_lt(&p.datetime, &g.first_dt) {
                                p.datetime
                            } else {
                                g.first_dt
                            },
                        };
                        groups.insert(j, merged);
                        proof {
                            assert(merged@ == merge_group(gs_old[j as int], pm[i as int]));
                            assert(groups_view(groups@) =~= gs_old.update(
                                j as int,
                                merge_group(gs_old[j as int], pm[i as int]),
                            ));
                            assert(passes(pm[i as int], o));
                            assert(find_group(gs_old, pm[i as int].id) == Some(j as int));
                            assert(groups_view(groups@) == step_groups(gs_old, pm[i as int], o));
                        }
                    },
                    None => {
                        proof {
                            assert(find_group(gs_old, pm[i as int].id) is None);
                        }
                        let g = Group {
                            id: p.id.clone(),
                            post_count: 1,
                            latest_no: p.no,
                            latest_dt: p.datetime,
                            first_no: p.no,
                            first_dt: p.datetime,
                        };
                        groups.push(g);
                        proof {
                            assert(groups_view(groups@) =~= gs_old.push(new_group(pm[i as int])));
                            assert(passes(pm[i as int], o));
                            assert(find_group(gs_old, pm[i as int].id) is None);
                            assert(groups_view(groups@) == step_groups(gs_old, pm[i as int], o));
                        }
                    },
                }
            }
            proof {
                assert(groups_view(groups@) == step_groups(gs_old, pm[i as int], o));
            }
            i = i + 1;
            proof {
                assert(groups_of(pm, o, i as int) == step_groups(
                    groups_of(pm, o, i - 1),
                    pm[i - 1],
                    o,
                ));
                assert(groups_view(groups@) == groups_of(pm, o, i as int));
            }
        }
        proof {
            lemma_groups_wf(pm, o, pm.len() as int);
        }
        let ghost gs_all = groups_of(pm, o, pm.len() as int);

        // Keep the groups that meet the threshold.
        let min64: i64 = options.min_posts as i64;
        let mut qual: Vec<Group> = Vec::new();
        let mut k: usize = 0;
        while k < groups.len()
            invariant
                k <= groups@.len(),
                groups_view(groups@) == gs_all,
                groups_view(qual@) == qualified_of(gs_all.subrange(0, k as int), options@.min_posts),
                min64 == options@.min_posts as i64,
            decreases groups@.len() - k,
        {
            let ghost pre = gs_all.subrange(0, k as int);
            if groups[k].post_count >= min64 {
                let g = &groups[k];
                let g2 = Group {
                    id: g.id.clone(),
                    post_count: g.post_count,
                    latest_no: g.latest_no,
                    latest_dt: g.latest_dt,
                    first_no: g.first_no,
                    first_dt: g.first_dt,
                };
                proof {
                    assert(g2@ == gs_all[k as int]);
                }
                qual.push(g2);
            }
            k = k + 1;
            proof {
                assert(gs_all.subrange(0, k as int).drop_last() =~= pre);
                assert(gs_all.subrange(0, k as int).last() == gs_all[k as int - 1]);
                assert(groups_view(qual@) == qualified_of(
                    gs_all.subrange(0, k as int),
                    options@.min_posts,
                ));
            }
        }
        proof {
            assert(gs_all.subrange(0, gs_all.len() as int) =~= gs_all);
        }
        let ghost q0 = qualified_of(gs_all, o.min_posts);

        // Selection sort by the ranking key, descending; the scan keeps
        // the first maximal element, so earlier identities win ties.
        let rt = options.ranking_type;
        let mut rest = qual;
        let mut sorted_g: Vec<Group> = Vec::new();
        while rest.len() > 0
            invariant
                rt == o.ranking_type,
                sel_sort(q0, rt) == groups_view(sorted_g@) + sel_sort(groups_view(rest@), rt),
                groups_view(sorted_g@).len() + groups_view(rest@).len() == q0.len(),
            decreases rest@.len(),
        {
            let ghost rm = groups_view(rest@);
            let mut b: usize = 0;
            let mut j: usize = 1;
            while j < rest.len()
                invariant
                    rm == groups_view(rest@),
                    rest@.len() > 0,
                    1 <= j <= rest@.len(),
                    b < j,
                    b as int == best_index(rm.subrange(0, j as int), rt),
                decreases rest@.len() - j,
            {
                let ghost pre = rm.subrange(0, j as int);
                if group_key_lt(&rest[b], &rest[j], rt) {
                    b = j;
                }
                j = j + 1;
                proof {
                    assert(rm.subrange(0, j as int).drop_last() =~= pre);
                    assert(rm.subrange(0, j as int).last() == rm[j - 1]);
                }
            }
            proof {
                assert(rm.subrange(0, rm.len() as int) =~= rm);
                lemma_best_index(rm, rt);
            }
            let g = rest.remove(b);
            sorted_g.push(g);
            proof {
                assert(groups_view(rest@) =~= rm.remove(b as int));
                assert(sel_sort(rm, rt) == seq![rm[b as int]] + sel_sort(rm.remove(b as int), rt));
                assert(groups_view(sorted_g@) =~= groups_view(sorted_g@.drop_last()).push(g@));
                assert(groups_view(sorted_g@) + sel_sort(groups_view(rest@), rt) =~= sel_sort(
                    q0,
                    rt,
                ));
            }
        }
        proof {
            assert(groups_view(rest@).len() == 0);
            assert(sel_sort(groups_view(rest@), rt) =~= Seq::<GroupModel>::empty());
            assert(groups_view(sorted_g@) =~= sel_sort(q0, rt));
            lemma_sel_sort(q0, rt);
            lemma_qualified_of(gs_all, o.min_posts);
        }
        let ghost sorted_m = sel_sort(q0, rt);

        // Dense 1-based ranks over the sorted groups.
        let mut ranking: Vec<RankingEntry> = Vec::new();
        let mut e: usize = 0;
        while e < sorted_g.len()
            invariant
                e <= sorted_g@.len(),
                groups_view(sorted_g@) == sorted_m,
                sorted_m.len() <= pm.len() <= i64::MAX,
                ranking@.len() == e,
                entries_view(ranking@) == entries_of(sorted_m).subrange(0, e as int),
            decreases sorted_g@.len() - e,
        {
            let ghost pre = entries_view(ranking@);
            let g = &sorted_g[e];
            let entry = RankingEntry {
                rank: (e as i64) + 1,
                id: g.id.clone(),
                post_count: g.post_count,
                latest_post_no: g.latest_no,
                latest_post_datetime: g.latest_dt,
                first_post_no: g.first_no,
                first_post_datetime: g.first_dt,
            };
            ranking.push(entry);
            e = e + 1;
            proof {
                assert(entry@ == entry_of(sorted_m[e - 1], e as int));
                assert(entries_view(ranking@) =~= pre.push(entry@));
                assert(entries_of(sorted_m).subrange(0, e as int) =~= entries_of(
                    sorted_m,
                ).subrange(0, e - 1).push(entries_of(sorted_m)[e - 1]));
            }
        }
        proof {
            assert(entries_of(sorted_m).subrange(0, sorted_m.len() as int) =~= entries_of(
                sorted_m,
            ));
            assert(entries_view(ranking@) =~= spec_ranking(pm, o));
        }

        // Echo the conditions; dates rendered at the transport form.
        let search_conditions = RankingSearchConditions {
            id: match &options.id {
                Some(s) => Some(s.clone()),
                None => None,
            },
            main_text: match &options.main_text {
                Some(s) => Some(s.clone()),
                None => None,
            },
            name_and_trip: match &options.name_and_trip {
                Some(s) => Some(s.clone()),
                None => None,
            },
            oekaki: options.oekaki,
            since: match &options.date_range {
                Some(dr) => match &dr.since {
                    Some(t) => Some(rfc3339_string(t)),
                    None => None,
                },
                None => None,
            },
            until: match &options.date_range {
                Some(dr) => match &dr.until {
                    Some(t) => Some(rfc3339_string(t)),
                    None => None,
                },
                None => None,
            },
        };
        proof {
            assert(search_conditions@ =~= spec_conditions(o));
        }

        let total: i64 = ranking.len() as i64;
        let r = RankingData { ranking, total_unique_ids: total, search_conditions };
        proof {
            assert(r@ =~= spec_ranking_data(pm, o));
            // The per-entry facts: each sorted group is a qualified group
            // of the full list, hence sane and above the threshold.
            assert forall|i: int| 0 <= i < r@.ranking.len() implies {
                let en = #[trigger] r@.ranking[i];
                &&& en.rank == i + 1
                &&& en.post_count >= o.min_posts
                &&& en.id.len() > 0
                &&& en.first_post_no <= en.latest_post_no
                &&& en.first_post_datetime.spec_le(en.latest_post_datetime)
                &&& en.first_post_datetime.wf()
                &&& en.latest_post_datetime.wf()
            } by {
                assert(r@.ranking[i] == entry_of(sorted_m[i], i + 1));
                assert(q0.contains(sorted_m[i]));
                let k0 = choose|k0: int| 0 <= k0 < q0.len() && q0[k0] == sorted_m[i];
                assert(q0[k0].post_count >= o.min_posts);
                assert(gs_all.contains(q0[k0]));
                lemma_contains_wf(gs_all, sorted_m[i], pm.len() as int);
            }
            assert forall|i: int, j: int| 0 <= i <= j < r@.ranking.len() implies {
                let ei = #[trigger] r@.ranking[i];
                let ej = #[trigger] r@.ranking[j];
                match o.ranking_type {
                    RankingType::PostCount => ei.post_count >= ej.post_count,
                    RankingType::RecentActivity => ej.latest_post_datetime.spec_le(
                        ei.latest_post_datetime,
                    ),
                }
            } by {
                assert(!key_lt(sorted_m[i], sorted_m[j], rt));
                lemma_ts_order(sorted_m[i].latest_dt, sorted_m[j].latest_dt, sorted_m[i].latest_dt);
            }
        }
        r
    }
}

} // verus!
