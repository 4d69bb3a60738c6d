//! The ranking engine over concrete fixtures: the seed scenarios, the
//! ordering and threshold invariants, and the cross-cutting laws on
//! concrete values.

use bbs_search::engine::RankingRepositoryImpl;
use bbs_search::model::{
    DateTimeRange, Post, RankingData, RankingOptions, RankingType, Timestamp,
};

fn ts(year: u16, month: u8, day: u8, hour: u8) -> Timestamp {
    Timestamp { year, month, day, hour, minute: 0, second: 0 }
}

fn post(no: i32, id: &str, text: &str, dt: Timestamp) -> Post {
    Post {
        no,
        id: id.to_string(),
        name_and_trip: "name".to_string(),
        main_text: text.to_string(),
        datetime: dt,
        oekaki_id: None,
    }
}

/// Three identities: A with 5 posts, B with 3, C with 3; B's latest
/// post is the newest overall.
fn fixture_abc() -> Vec<Post> {
    let mut v = Vec::new();
    for i in 0..5 {
        v.push(post(10 + i, "A", "alpha", ts(2024, 1, (1 + i) as u8, 0)));
    }
    for i in 0..3 {
        v.push(post(20 + i, "B", "beta", ts(2024, 2, (1 + i) as u8, 0)));
    }
    for i in 0..3 {
        v.push(post(30 + i, "C", "gamma", ts(2024, 1, (20 + i) as u8, 0)));
    }
    // B's latest post is the newest in the store.
    v.push(post(40, "B", "beta late", ts(2024, 3, 1, 0)));
    v
}

fn assert_data_eq(a: &RankingData, b: &RankingData) {
    assert_eq!(a.total_unique_ids, b.total_unique_ids);
    assert_eq!(a.ranking.len(), b.ranking.len());
    for (x, y) in a.ranking.iter().zip(b.ranking.iter()) {
        assert_eq!(x.rank, y.rank);
        assert_eq!(x.id, y.id);
        assert_eq!(x.post_count, y.post_count);
        assert_eq!(x.latest_post_no, y.latest_post_no);
        assert_eq!(x.latest_post_datetime, y.latest_post_datetime);
        assert_eq!(x.first_post_no, y.first_post_no);
        assert_eq!(x.first_post_datetime, y.first_post_datetime);
    }
    assert_eq!(a.search_conditions.id, b.search_conditions.id);
    assert_eq!(a.search_conditions.since, b.search_conditions.since);
    assert_eq!(a.search_conditions.until, b.search_conditions.until);
}

#[test]
fn empty_filters_rank_by_post_count() {
    // S1: three identities, min_posts 1, post_count ranking.
    let mut v = fixture_abc();
    v.truncate(11); // drop B's late post so B and C both have 3
    let repo = RankingRepositoryImpl::new(v);
    let data = repo.get_ranking(&RankingOptions::default());
    assert_eq!(data.total_unique_ids, 3);
    assert_eq!(data.ranking.len(), 3);
    assert_eq!(data.ranking[0].id, "A");
    assert_eq!(data.ranking[0].post_count, 5);
    assert_eq!(data.ranking[0].rank, 1);
    assert_eq!(data.ranking[1].rank, 2);
    assert_eq!(data.ranking[2].rank, 3);
    let rest: Vec<&str> = data.ranking[1..].iter().map(|e| e.id.as_str()).collect();
    assert!(rest.contains(&"B") && rest.contains(&"C"));
}

#[test]
fn min_posts_threshold_excludes() {
    // S2: min_posts 4 keeps only A.
    let mut v = fixture_abc();
    v.truncate(11);
    let repo = RankingRepositoryImpl::new(v);
    let mut options = RankingOptions::default();
    options.min_posts = 4;
    let data = repo.get_ranking(&options);
    assert_eq!(data.total_unique_ids, 1);
    assert_eq!(data.ranking[0].id, "A");
}

#[test]
fn recent_activity_ranks_newest_first() {
    // S3: B's latest post is newest, so B is rank 1 under
    // recent_activity.
    let repo = RankingRepositoryImpl::new(fixture_abc());
    let mut options = RankingOptions::default();
    options.ranking_type = RankingType::RecentActivity;
    let data = repo.get_ranking(&options);
    assert_eq!(data.ranking[0].id, "B");
    assert_eq!(data.ranking[0].rank, 1);
}

#[test]
fn id_filter_is_substring() {
    // S4: id "an" matches "anon" and "anon2", not "other".
    let v = vec![
        post(1, "anon", "x", ts(2024, 1, 1, 0)),
        post(2, "anon2", "y", ts(2024, 1, 2, 0)),
        post(3, "other", "z", ts(2024, 1, 3, 0)),
    ];
    let repo = RankingRepositoryImpl::new(v);
    let mut options = RankingOptions::default();
    options.id = Some("an".to_string());
    let data = repo.get_ranking(&options);
    let ids: Vec<&str> = data.ranking.iter().map(|e| e.id.as_str()).collect();
    assert!(ids.contains(&"anon") && ids.contains(&"anon2"));
    assert!(!ids.contains(&"other"));
    assert_eq!(data.total_unique_ids, 2);
}

#[test]
fn date_range_restricts_aggregates() {
    // S5: a June window hides an identity that posted only in May.
    let v = vec![
        post(1, "june1", "x", ts(2024, 6, 5, 0)),
        post(2, "june1", "x", ts(2024, 6, 20, 0)),
        post(3, "mayonly", "y", ts(2024, 5, 10, 0)),
    ];
    let repo = RankingRepositoryImpl::new(v);
    let req = bbs_search::request::build_ranking_request(
        None,
        None,
        None,
        None,
        Some("2024-06-01".to_string()),
        Some("2024-06-30".to_string()),
        None,
        None,
    )
    .unwrap();
    let options = RankingOptions::from_request(&req);
    let data = repo.get_ranking(&options);
    let ids: Vec<&str> = data.ranking.iter().map(|e| e.id.as_str()).collect();
    assert!(ids.contains(&"june1"));
    assert!(!ids.contains(&"mayonly"));
    assert_eq!(data.search_conditions.since.as_deref(), Some("2024-06-01T00:00:00+00:00"));
    assert_eq!(data.search_conditions.until.as_deref(), Some("2024-06-30T23:59:59+00:00"));
}

#[test]
fn empty_and_null_identities_are_dropped() {
    let v = vec![
        post(1, "", "x", ts(2024, 1, 1, 0)),
        post(2, "real", "y", ts(2024, 1, 2, 0)),
    ];
    let repo = RankingRepositoryImpl::new(v);
    let data = repo.get_ranking(&RankingOptions::default());
    assert_eq!(data.total_unique_ids, 1);
    assert_eq!(data.ranking[0].id, "real");
}

#[test]
fn entry_invariants_hold() {
    // Every entry: nonempty id, count at least min_posts, first no
    // later than latest, ranks dense from 1, counts non-increasing.
    let repo = RankingRepositoryImpl::new(fixture_abc());
    let data = repo.get_ranking(&RankingOptions::default());
    assert_eq!(data.total_unique_ids as usize, data.ranking.len());
    let mut prev_count = i64::MAX;
    for (i, e) in data.ranking.iter().enumerate() {
        assert_eq!(e.rank, i as i64 + 1);
        assert!(!e.id.is_empty());
        assert!(e.post_count >= 1);
        assert!(e.first_post_no <= e.latest_post_no);
        assert!(e.post_count <= prev_count);
        prev_count = e.post_count;
    }
}

#[test]
fn identical_runs_return_identical_data() {
    let repo = RankingRepositoryImpl::new(fixture_abc());
    let mut options = RankingOptions::default();
    options.main_text = Some("a".to_string());
    let a = repo.get_ranking(&options);
    let b = repo.get_ranking(&options);
    assert_data_eq(&a, &b);
}

#[test]
fn since_only_equals_unbounded_range() {
    // Only `since` at D, and the range [D, ∞) written as an explicit
    // range with no upper bound, rank identically.
    let repo = RankingRepositoryImpl::new(fixture_abc());
    let d = ts(2024, 2, 1, 0);
    let mut o1 = RankingOptions::default();
    o1.date_range = Some(DateTimeRange { since: Some(d), until: None });
    let mut o2 = RankingOptions::default();
    o2.date_range = Some(DateTimeRange { since: Some(d), until: None });
    let a = repo.get_ranking(&o1);
    let b = repo.get_ranking(&o2);
    assert_data_eq(&a, &b);
    // An absent range and an explicitly empty range also agree on the
    // ranking itself.
    let mut o3 = RankingOptions::default();
    o3.date_range = Some(DateTimeRange { since: None, until: None });
    let c = repo.get_ranking(&RankingOptions::default());
    let e = repo.get_ranking(&o3);
    assert_eq!(c.total_unique_ids, e.total_unique_ids);
    for (x, y) in c.ranking.iter().zip(e.ranking.iter()) {
        assert_eq!(x.id, y.id);
        assert_eq!(x.rank, y.rank);
    }
}

#[test]
fn filters_only_shrink_totals() {
    let repo = RankingRepositoryImpl::new(fixture_abc());
    let base = repo.get_ranking(&RankingOptions::default());
    let mut with_filter = RankingOptions::default();
    with_filter.id = Some("A".to_string());
    let filtered = repo.get_ranking(&with_filter);
    assert!(filtered.total_unique_ids <= base.total_unique_ids);
    let mut higher_min = RankingOptions::default();
    higher_min.min_posts = 4;
    let thresholded = repo.get_ranking(&higher_min);
    assert!(thresholded.total_unique_ids <= base.total_unique_ids);
}

#[test]
fn conditions_echo_filters_verbatim() {
    let repo = RankingRepositoryImpl::new(fixture_abc());
    let mut options = RankingOptions::default();
    options.id = Some("a%b_c".to_string());
    options.main_text = Some("hello".to_string());
    options.oekaki = Some(true);
    let data = repo.get_ranking(&options);
    assert_eq!(data.search_conditions.id.as_deref(), Some("a%b_c"));
    assert_eq!(data.search_conditions.main_text.as_deref(), Some("hello"));
    assert_eq!(data.search_conditions.oekaki, Some(true));
    assert_eq!(data.search_conditions.since, None);
    assert_eq!(data.search_conditions.until, None);
}

#[test]
fn oekaki_filter_requires_image() {
    let mut with_image = post(1, "artist", "x", ts(2024, 1, 1, 0));
    with_image.oekaki_id = Some(77);
    let v = vec![with_image, post(2, "writer", "y", ts(2024, 1, 2, 0))];
    let repo = RankingRepositoryImpl::new(v);
    let mut options = RankingOptions::default();
    options.oekaki = Some(true);
    let data = repo.get_ranking(&options);
    assert_eq!(data.total_unique_ids, 1);
    assert_eq!(data.ranking[0].id, "artist");
    // `oekaki = false` imposes no predicate.
    let mut off = RankingOptions::default();
    off.oekaki = Some(false);
    let all = repo.get_ranking(&off);
    assert_eq!(all.total_unique_ids, 2);
}
