//! The engine's cross-cutting laws: idempotence, indifference to how a
//! date range is written down, and monotonicity of the filters in the
//! number of ranked identities.

use vstd::prelude::*;
use vstd::set_lib::lemma_len_subset;
use vstd::seq_lib::seq_to_set_is_finite;
use crate::engine::{
    cnt_of, find_group, groups_of, group_wf, lemma_find_group, lemma_groups_wf,
    lemma_qualified_of, lemma_sel_sort, passes, qualified_of, spec_conditions, spec_qualified,
    spec_ranking_data, GroupModel,
};
use crate::model::{DataModel, DateTimeRange, OptionsModel, PostModel, posts_wf};

verus! {

/// The engine is a function of the store and the options: two results
/// that both meet the engine's contract on the same store and options
/// are one and the same. With an unchanging store, two executions with
/// identical options therefore return identical data.
pub proof fn lemma_ranking_idempotent(
    posts: Seq<PostModel>,
    o: OptionsModel,
    a: DataModel,
    b: DataModel,
)
    requires
        a == spec_ranking_data(posts, o),
        b == spec_ranking_data(posts, o),
    ensures
        a == b,
{
}

/// Two options that impose the same predicates, threshold and policy —
/// however their date ranges are written down.
pub open spec fn same_filters(o1: OptionsModel, o2: OptionsModel) -> bool {
    &&& o1.id == o2.id
    &&& o1.main_text == o2.main_text
    &&& o1.name_and_trip == o2.name_and_trip
    &&& o1.oekaki == o2.oekaki
    &&& o1.since_bound() == o2.since_bound()
    &&& o1.until_bound() == o2.until_bound()
    &&& o1.ranking_type == o2.ranking_type
    &&& o1.min_posts == o2.min_posts
}

/// Grouping reads the options only through the filter predicates.
proof fn lemma_groups_congruent(posts: Seq<PostModel>, o1: OptionsModel, o2: OptionsModel, n: int)
    requires
        same_filters(o1, o2),
        n <= posts.len(),
    ensures
        groups_of(posts, o1, n) == groups_of(posts, o2, n),
    decreases n,
{
    if n > 0 {
        lemma_groups_congruent(posts, o1, o2, n - 1);
        assert(passes(posts[n - 1], o1) == passes(posts[n - 1], o2));
    }
}

/// Date-range symmetry: the engine reads a date range only through its
/// two effective bounds. Supplying only `since` at `D` and supplying
/// the range `[D, ∞)` — or any other spelling with the same bounds —
/// yield identical results, echoed conditions included.
pub proof fn lemma_date_range_symmetry(posts: Seq<PostModel>, o1: OptionsModel, o2: OptionsModel)
    requires
        same_filters(o1, o2),
    ensures
        spec_ranking_data(posts, o1) == spec_ranking_data(posts, o2),
{
    lemma_groups_congruent(posts, o1, o2, posts.len() as int);
    assert(spec_conditions(o1) =~= spec_conditions(o2));
    assert(spec_ranking_data(posts, o1) =~= spec_ranking_data(posts, o2));
}

/// An absent range and an explicitly unbounded range rank identically.
pub proof fn lemma_absent_range(posts: Seq<PostModel>, o1: OptionsModel, o2: OptionsModel)
    requires
        o1.id == o2.id,
        o1.main_text == o2.main_text,
        o1.name_and_trip == o2.name_and_trip,
        o1.oekaki == o2.oekaki,
        o1.ranking_type == o2.ranking_type,
        o1.min_posts == o2.min_posts,
        o1.date_range is None,
        o2.date_range == Some(DateTimeRange { since: None, until: None }),
    ensures
        spec_ranking_data(posts, o1) == spec_ranking_data(posts, o2),
{
    lemma_date_range_symmetry(posts, o1, o2);
}

/// `o2` keeps every filter of `o1` (it may add filters where `o1` has
/// none) and asks for at least as many posts per identity. Taking
/// `o2 == o1` up to `min_posts` gives the pure threshold case.
pub open spec fn adds_filters(o1: OptionsModel, o2: OptionsModel) -> bool {
    &&& (o1.id is Some ==> o2.id == o1.id)
    &&& (o1.main_text is Some ==> o2.main_text == o1.main_text)
    &&& (o1.name_and_trip is Some ==> o2.name_and_trip == o1.name_and_trip)
    &&& (o1.oekaki == Some(true) ==> o2.oekaki == Some(true))
    &&& (o1.since_bound() is Some ==> o2.since_bound() == o1.since_bound())
    &&& (o1.until_bound() is Some ==> o2.until_bound() == o1.until_bound())
    &&& o2.min_posts >= o1.min_posts
}

/// A post passing the stricter options passes the looser ones.
proof fn lemma_passes_monotone(p: PostModel, o1: OptionsModel, o2: OptionsModel)
    requires
        adds_filters(o1, o2),
    ensures
        passes(p, o2) ==> passes(p, o1),
{
}

/// Under stricter options no identity gains posts.
proof fn lemma_cnt_monotone(
    posts: Seq<PostModel>,
    o1: OptionsModel,
    o2: OptionsModel,
    id: Seq<char>,
    n: int,
)
    requires
        adds_filters(o1, o2),
        n <= posts.len(),
    ensures
        cnt_of(posts, o2, id, n) <= cnt_of(posts, o1, id, n),
    decreases n,
{
    if n > 0 {
        lemma_cnt_monotone(posts, o1, o2, id, n - 1);
        lemma_passes_monotone(posts[n - 1], o1, o2);
    }
}

/// The identities whose post count reaches the threshold.
pub open spec fn qual_set(posts: Seq<PostModel>, o: OptionsModel, n: int) -> Set<Seq<char>> {
    Set::new(
        |id: Seq<char>|
            cnt_of(posts, o, id, n) >= 1 && cnt_of(posts, o, id, n) >= o.min_posts,
    )
}

/// The ids of a group list, in order.
pub open spec fn ids_of(gs: Seq<GroupModel>) -> Seq<Seq<char>> {
    Seq::new(gs.len(), |i: int| gs[i].id)
}

/// A group meeting the threshold survives into the qualified list.
proof fn lemma_qualified_contains(gs: Seq<GroupModel>, min: i32, i: int)
    requires
        0 <= i < gs.len(),
        gs[i].post_count >= min,
    ensures
        qualified_of(gs, min).contains(gs[i]),
    decreases gs.len(),
{
    let q = qualified_of(gs, min);
    if i == gs.len() - 1 {
        assert(q[q.len() - 1] == gs[i]);
    } else {
        lemma_qualified_contains(gs.drop_last(), min, i);
        let qr = qualified_of(gs.drop_last(), min);
        let k = choose|k: int| 0 <= k < qr.len() && qr[k] == gs.drop_last()[i];
        assert(gs.drop_last()[i] == gs[i]);
        assert(q[k] == gs[i]);
    }
}

/// Distinct group identities stay distinct through qualification.
proof fn lemma_qualified_distinct(gs: Seq<GroupModel>, min: i32)
    requires
        forall|i: int, j: int| 0 <= i < j < gs.len() ==> gs[i].id != gs[j].id,
    ensures
        forall|i: int, j: int|
            0 <= i < j < qualified_of(gs, min).len() ==> qualified_of(gs, min)[i].id
                != qualified_of(gs, min)[j].id,
    decreases gs.len(),
{
    if gs.len() > 0 {
        let rest = gs.drop_last();
        assert(forall|i: int, j: int| 0 <= i < j < rest.len() ==> rest[i].id != rest[j].id);
        lemma_qualified_distinct(rest, min);
        lemma_qualified_of(rest, min);
        let q = qualified_of(gs, min);
        let qr = qualified_of(rest, min);
        assert forall|i: int, j: int| 0 <= i < j < q.len() implies q[i].id != q[j].id by {
            if j < qr.len() {
            } else if j == qr.len() && q.len() == qr.len() + 1 {
                let k = choose|k: int| 0 <= k < rest.len() && rest[k] == qr[i];
                assert(q[j] == gs.last());
                assert(q[i] == qr[i]);
                assert(qr[i].id == gs[k].id);
            }
        }
    }
}

/// The number of qualified groups is the cardinality of the qualified
/// identity set.
proof fn lemma_total_is_card(posts: Seq<PostModel>, o: OptionsModel, n: int)
    requires
        0 <= n <= posts.len(),
        posts_wf(posts),
    ensures
        qual_set(posts, o, n).finite(),
        qualified_of(groups_of(posts, o, n), o.min_posts).len() == qual_set(posts, o, n).len(),
{
    let gs = groups_of(posts, o, n);
    let q = qualified_of(gs, o.min_posts);
    let ids = ids_of(q);
    lemma_groups_wf(posts, o, n);
    lemma_qualified_of(gs, o.min_posts);
    lemma_qualified_distinct(gs, o.min_posts);
    assert(ids.no_duplicates());
    assert forall|id: Seq<char>| ids.to_set().contains(id) implies qual_set(
        posts,
        o,
        n,
    ).contains(id) by {
        let k = choose|k: int| 0 <= k < ids.len() && ids[k] == id;
        assert(q[k].id == id && q[k].post_count >= o.min_posts);
        assert(gs.contains(q[k]));
        let gi = choose|gi: int| 0 <= gi < gs.len() && gs[gi] == q[k];
        lemma_groups_cnt(posts, o, n, id);
        lemma_find_group(gs, id);
        match find_group(gs, id) {
            Some(fi) => {
                assert(gs[fi].id == id && gs[gi].id == id);
                if fi != gi {
                    assert(gs[fi].id != gs[gi].id);
                }
                assert(cnt_of(posts, o, id, n) == q[k].post_count);
                assert(group_wf(gs[gi], n));
            },
            None => {
                assert(gs[gi].id != id);
            },
        }
    }
    assert forall|id: Seq<char>| qual_set(posts, o, n).contains(id) implies ids.to_set().contains(
        id,
    ) by {
        lemma_groups_cnt(posts, o, n, id);
        lemma_find_group(gs, id);
        match find_group(gs, id) {
            Some(fi) => {
                lemma_qualified_contains(gs, o.min_posts, fi);
                let k = choose|k: int| 0 <= k < q.len() && q[k] == gs[fi];
                assert(ids[k] == id);
            },
            None => {},
        }
    }
    assert(ids.to_set() =~= qual_set(posts, o, n));
    ids.unique_seq_to_set();
    seq_to_set_is_finite(ids);
}

/// Counts agree between the group list and the per-identity counter.
proof fn lemma_groups_cnt(posts: Seq<PostModel>, o: OptionsModel, n: int, id: Seq<char>)
    requires
        0 <= n <= posts.len(),
    ensures
        match find_group(groups_of(posts, o, n), id) {
            Some(i) => 0 <= i < groups_of(posts, o, n).len() && groups_of(posts, o, n)[i].post_count
                == cnt_of(posts, o, id, n) && cnt_of(posts, o, id, n) >= 1,
            None => cnt_of(posts, o, id, n) == 0,
        },
    decreases n,
{
    if n > 0 {
        lemma_groups_cnt(posts, o, n - 1, id);
        let gs0 = groups_of(posts, o, n - 1);
        let gs1 = groups_of(posts, o, n);
        let p = posts[n - 1];
        lemma_find_group(gs0, id);
        lemma_find_group(gs1, id);
        if passes(p, o) {
            lemma_find_group(gs0, p.id);
            match find_group(gs0, p.id) {
                Some(j) => {
                    assert(gs1 == gs0.update(j, crate::engine::merge_group(gs0[j], p)));
                    assert(forall|x: int| 0 <= x < gs1.len() ==> gs1[x].id == gs0[x].id);
                    match find_group(gs0, id) {
                        Some(i) => {
                            assert(gs1[i].id == id);
                            match find_group(gs1, id) {
                                Some(i2) => {
                                    if i2 < i {
                                        assert(gs0[i2].id != id);
                                        assert(false);
                                    }
                                    if i2 > i {
                                        assert(gs1[i].id != id);
                                        assert(false);
                                    }
                                    if p.id == id {
                                        assert(gs0[j].id == id);
                                        if j < i {
                                            assert(gs0[j].id != id);
                                            assert(false);
                                        }
                                        if j > i {
                                            assert(gs0[i].id != id);
                                            assert(false);
                                        }
                                        assert(gs1[i].post_count == gs0[i].post_count + 1);
                                    } else {
                                        if i == j {
                                            assert(gs0[j].id == p.id);
                                            assert(false);
                                        }
                                        assert(gs1[i] == gs0[i]);
                                    }
                                },
                                None => {
                                    assert(gs1[i].id != id);
                                    assert(false);
                                },
                            }
                        },
                        None => {
                            assert(p.id != id);
                            match find_group(gs1, id) {
                                Some(i2) => {
                                    assert(gs0[i2].id == gs1[i2].id);
                                    assert(false);
                                },
                                None => {},
                            }
                        },
                    }
                },
                None => {
                    assert(gs1 == gs0.push(crate::engine::new_group(p)));
                    if p.id == id {
                        match find_group(gs0, id) {
                            Some(i) => {
                                assert(gs0[i].id != p.id);
                                assert(false);
                            },
                            None => {},
                        }
                        assert(cnt_of(posts, o, id, n - 1) == 0);
                        assert(gs1[gs0.len() as int].id == id);
                        match find_group(gs1, id) {
                            Some(i2) => {
                                if i2 < gs0.len() {
                                    assert(gs1[i2] == gs0[i2]);
                                    assert(gs0[i2].id != p.id);
                                    assert(false);
                                }
                                assert(i2 == gs0.len());
                                assert(gs1[i2].post_count == 1);
                            },
                            None => {
                                assert(gs1[gs0.len() as int].id != id);
                                assert(false);
                            },
                        }
                    } else {
                        match find_group(gs0, id) {
                            Some(i) => {
                                assert(gs1[i].id == id);
                                match find_group(gs1, id) {
                                    Some(i2) => {
                                        if i2 < i {
                                            assert(gs1[i2] == gs0[i2]);
                                            assert(false);
                                        }
                                        if i2 > i {
                                            assert(gs1[i].id != id);
                                            assert(false);
                                        }
                                        assert(gs1[i] == gs0[i]);
                                    },
                                    None => {
                                        assert(gs1[i].id != id);
                                        assert(false);
                                    },
                                }
                            },
                            None => {
                                match find_group(gs1, id) {
                                    Some(i2) => {
                                        assert(gs1[i2].id == id);
                                        if i2 < gs0.len() {
                                            assert(gs0[i2].id != id);
                                            assert(false);
                                        }
                                        assert(gs1[i2].id == p.id);
                                        assert(false);
                                    },
                                    None => {},
                                }
                            },
                        }
                    }
                },
            }
        }
    }
}

/// Filter monotonicity: keeping every filter of `o1`, adding more, or
/// raising `min_posts`, can only reduce or preserve the number of
/// ranked identities.
pub proof fn lemma_filter_monotone(posts: Seq<PostModel>, o1: OptionsModel, o2: OptionsModel)
    requires
        posts_wf(posts),
        adds_filters(o1, o2),
    ensures
        spec_ranking_data(posts, o2).total_unique_ids <= spec_ranking_data(
            posts,
            o1,
        ).total_unique_ids,
{
    let n = posts.len() as int;
    lemma_total_is_card(posts, o1, n);
    lemma_total_is_card(posts, o2, n);
    assert forall|id: Seq<char>| qual_set(posts, o2, n).contains(id) implies qual_set(
        posts,
        o1,
        n,
    ).contains(id) by {
        lemma_cnt_monotone(posts, o1, o2, id, n);
    }
    assert(qual_set(posts, o2, n).subset_of(qual_set(posts, o1, n)));
    lemma_len_subset(qual_set(posts, o2, n), qual_set(posts, o1, n));
    lemma_sel_sort(spec_qualified(posts, o1), o1.ranking_type);
    lemma_sel_sort(spec_qualified(posts, o2), o2.ranking_type);
}

} // verus!
