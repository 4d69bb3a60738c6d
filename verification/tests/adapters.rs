//! The request adapter, the response adapter, the pattern matcher and
//! the query builder on concrete values.

use bbs_search::error::AppError;
use bbs_search::like::like_match;
use bbs_search::model::{
    RankingEntry, RankingOptions, RankingType, Timestamp,
};
use bbs_search::query::build_ranking_query;
use bbs_search::render::rfc3339_string;
use bbs_search::request::{
    build_ranking_request, parse_date, Date, RankingRequest,
};
use bbs_search::response::RankingItem;

fn ts(year: u16, month: u8, day: u8, hour: u8, minute: u8, second: u8) -> Timestamp {
    Timestamp { year, month, day, hour, minute, second }
}

#[test]
fn parse_date_accepts_calendar_dates() {
    assert_eq!(parse_date("2024-06-01"), Some(Date { year: 2024, month: 6, day: 1 }));
    assert_eq!(parse_date("2024-02-29"), Some(Date { year: 2024, month: 2, day: 29 }));
    assert_eq!(parse_date("0001-01-01"), Some(Date { year: 1, month: 1, day: 1 }));
}

#[test]
fn parse_date_rejects_malformed_input() {
    assert_eq!(parse_date("yesterday"), None);
    assert_eq!(parse_date(""), None);
    assert_eq!(parse_date("2024-6-1"), None);
    assert_eq!(parse_date("2023-02-29"), None);
    assert_eq!(parse_date("2024-13-01"), None);
    assert_eq!(parse_date("2024-04-31"), None);
    assert_eq!(parse_date("2024/06/01"), None);
}

#[test]
fn malformed_since_names_the_field() {
    // S6: a bad `since` is a client error naming the field, before any
    // query exists.
    let r = build_ranking_request(
        None,
        None,
        None,
        None,
        Some("yesterday".to_string()),
        None,
        None,
        None,
    );
    match r {
        Err(e) => {
            assert!(e.is_client_error());
            match e {
                AppError::Validation { field, .. } => assert_eq!(field, "since"),
                _ => panic!("expected a validation error"),
            }
        },
        _ => panic!("expected a validation error on since"),
    }
    let r = build_ranking_request(
        None,
        None,
        None,
        None,
        None,
        Some("nope".to_string()),
        None,
        None,
    );
    match r {
        Err(AppError::Validation { field, .. }) => assert_eq!(field, "until"),
        _ => panic!("expected a validation error on until"),
    }
    let r = build_ranking_request(
        None,
        None,
        None,
        None,
        None,
        None,
        Some("alphabetical".to_string()),
        None,
    );
    match r {
        Err(AppError::Validation { field, .. }) => assert_eq!(field, "ranking_type"),
        _ => panic!("expected a validation error on ranking_type"),
    }
}

#[test]
fn empty_dates_are_absent_and_defaults_fill_in() {
    let req = build_ranking_request(
        Some("abc".to_string()),
        None,
        None,
        None,
        Some("".to_string()),
        None,
        None,
        None,
    )
    .unwrap();
    assert_eq!(req.since, None);
    assert_eq!(req.until, None);
    assert_eq!(req.min_posts, 1);
    assert!(matches!(req.ranking_type, bbs_search::request::RankingType::PostCount));
    let options = RankingOptions::from_request(&req);
    assert!(options.date_range.is_none());
    assert!(matches!(options.ranking_type, RankingType::PostCount));
}

#[test]
fn dates_promote_to_day_bounds() {
    let req = build_ranking_request(
        None,
        None,
        None,
        None,
        Some("2024-06-01".to_string()),
        Some("2024-06-30".to_string()),
        Some("recent_activity".to_string()),
        Some(-3),
    )
    .unwrap();
    assert_eq!(req.min_posts, -3);
    let options = RankingOptions::from_request(&req);
    let dr = options.date_range.unwrap();
    assert_eq!(dr.since.unwrap(), ts(2024, 6, 1, 0, 0, 0));
    assert_eq!(dr.until.unwrap(), ts(2024, 6, 30, 23, 59, 59));
    assert!(matches!(options.ranking_type, RankingType::RecentActivity));
}

#[test]
fn rfc3339_renders_fixed_width_utc() {
    assert_eq!(rfc3339_string(&ts(2024, 12, 31, 23, 59, 59)), "2024-12-31T23:59:59+00:00");
    assert_eq!(rfc3339_string(&ts(7, 1, 2, 3, 4, 5)), "0007-01-02T03:04:05+00:00");
}

#[test]
fn ranking_item_renders_entry_dates() {
    let e = RankingEntry {
        rank: 1,
        id: "abc".to_string(),
        post_count: 42,
        latest_post_no: 1234,
        latest_post_datetime: ts(2024, 12, 31, 23, 59, 59),
        first_post_no: 17,
        first_post_datetime: ts(2024, 1, 1, 0, 0, 0),
    };
    let item = RankingItem::from_entry(&e);
    assert_eq!(item.rank, 1);
    assert_eq!(item.id, "abc");
    assert_eq!(item.post_count, 42);
    assert_eq!(item.latest_post_datetime, "2024-12-31T23:59:59+00:00");
    assert_eq!(item.first_post_datetime, "2024-01-01T00:00:00+00:00");
}

#[test]
fn like_match_semantics() {
    assert!(like_match("anon", "%an%"));
    assert!(like_match("xxanyy", "%an%"));
    assert!(!like_match("other", "%an%"));
    // A literal underscore in the value acts as a single-character
    // wildcard — documented behavior.
    assert!(like_match("aXc", "%a_c%"));
    assert!(!like_match("ac", "%a_c%"));
    // A literal percent in the value acts as an any-run wildcard.
    assert!(like_match("a123c", "%a%c%"));
    assert!(like_match("", "%"));
    assert!(!like_match("", "_"));
}

#[test]
fn query_builder_no_filters() {
    let plan = build_ranking_query(&RankingOptions::default());
    assert_eq!(
        plan.sql,
        "WITH ranked_ids AS (SELECT id, COUNT(*) AS post_count, MAX(no) AS latest_post_no, \
         MAX(datetime) AS latest_post_datetime, MIN(no) AS first_post_no, MIN(datetime) AS \
         first_post_datetime FROM res WHERE id IS NOT NULL AND id != '' GROUP BY id HAVING \
         COUNT(*) >= $1) SELECT ROW_NUMBER() OVER (ORDER BY post_count DESC) AS rank, id, \
         post_count, latest_post_no, latest_post_datetime, first_post_no, first_post_datetime \
         FROM ranked_ids ORDER BY post_count DESC"
    );
    assert!(plan.binds.is_empty());
    assert_eq!(plan.min_posts, 1);
}

#[test]
fn query_builder_numbers_binds_in_order() {
    let req = build_ranking_request(
        Some("an".to_string()),
        Some("hello".to_string()),
        None,
        Some(true),
        Some("2024-06-01".to_string()),
        Some("2024-06-30".to_string()),
        Some("recent_activity".to_string()),
        Some(2),
    )
    .unwrap();
    let options = RankingOptions::from_request(&req);
    let plan = build_ranking_query(&options);
    assert_eq!(
        plan.binds,
        vec![
            "%an%".to_string(),
            "%hello%".to_string(),
            "2024-06-01 00:00:00".to_string(),
            "2024-06-30 23:59:59".to_string(),
        ]
    );
    assert_eq!(plan.min_posts, 2);
    let sql = plan.sql;
    assert!(sql.contains(" AND id LIKE $1::text"));
    assert!(sql.contains(" AND main_text LIKE $2::text"));
    assert!(sql.contains(" AND oekaki_id IS NOT NULL"));
    assert!(sql.contains(" AND datetime >= $3::timestamp"));
    assert!(sql.contains(" AND datetime <= $4::timestamp"));
    assert!(sql.contains("HAVING COUNT(*) >= $5"));
    assert!(sql.contains("ORDER BY latest_post_datetime DESC"));
}

#[test]
fn response_from_data_passes_everything_through() {
    let repo = bbs_search::engine::RankingRepositoryImpl::new(vec![
        bbs_search::model::Post {
            no: 1,
            id: "a".to_string(),
            name_and_trip: "n".to_string(),
            main_text: "t".to_string(),
            datetime: ts(2024, 3, 4, 5, 6, 7),
            oekaki_id: None,
        },
    ]);
    let data = repo.get_ranking(&RankingOptions::default());
    let response = bbs_search::response::RankingResponse::from_data(&data);
    assert_eq!(response.total_unique_ids, 1);
    assert_eq!(response.ranking.len(), 1);
    assert_eq!(response.ranking[0].id, "a");
    assert_eq!(response.ranking[0].latest_post_datetime, "2024-03-04T05:06:07+00:00");
}

#[test]
fn request_struct_round_trips_filters() {
    let req = RankingRequest {
        id: Some("x".to_string()),
        main_text: None,
        name_and_trip: Some("n".to_string()),
        oekaki: Some(false),
        since: None,
        until: None,
        ranking_type: bbs_search::request::default_ranking_type(),
        min_posts: bbs_search::request::default_min_posts(),
    };
    let options = RankingOptions::from_request(&req);
    assert_eq!(options.id.as_deref(), Some("x"));
    assert_eq!(options.name_and_trip.as_deref(), Some("n"));
    assert_eq!(options.oekaki, Some(false));
    assert_eq!(options.min_posts, 1);
}
