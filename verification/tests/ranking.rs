use prism_proxy::db::stats::ranking::{
    get_profile_consumption_ranking, profile_ranking_at, ranking_limit,
};
use prism_proxy::logger::{ModelMode, RequestLog};

fn row(id: &str, profile: &str, name: &str, timestamp: i64, tokens: i32) -> RequestLog {
    let mut r = RequestLog::with_identity(
        id.to_string(),
        timestamp,
        profile.to_string(),
        name.to_string(),
        "m".to_string(),
        ModelMode::Passthrough,
        "m".to_string(),
        "u".to_string(),
        0,
    );
    r.input_tokens = tokens;
    r.cache_read_input_tokens = 1;
    r
}

fn sample() -> Vec<RequestLog> {
    vec![
        row("1", "a", "Old A", 10, 5),
        row("2", "b", "B", 20, 50),
        row("3", "a", "New A", 30, 7),
        row("4", "c", "C", 40, 13),
        row("5", "a", "Older A", 5, 1),
        row("6", "d", "D", 50, 49),
    ]
}

#[test]
fn ranking_limit_stays_between_one_and_hundred() {
    assert_eq!(ranking_limit(None), 10);
    assert_eq!(ranking_limit(Some(0)), 1);
    assert_eq!(ranking_limit(Some(-5)), 1);
    assert_eq!(ranking_limit(Some(1)), 1);
    assert_eq!(ranking_limit(Some(100)), 100);
    assert_eq!(ranking_limit(Some(101)), 100);
    assert_eq!(ranking_limit(Some(42)), 42);
}

#[test]
fn ranking_orders_profiles_by_tokens() {
    let r = profile_ranking_at(&sample(), None, None);
    let ids: Vec<&str> = r.iter().map(|e| e.profile_id.as_str()).collect();
    assert_eq!(ids, vec!["b", "d", "a", "c"]);
    let totals: Vec<i32> = r.iter().map(|e| e.total_tokens).collect();
    assert_eq!(totals, vec![51, 50, 16, 14]);
    let ranks: Vec<i32> = r.iter().map(|e| e.rank).collect();
    assert_eq!(ranks, vec![1, 2, 3, 4]);
    assert_eq!(r[2].profile_name, "New A");
}

#[test]
fn ranking_counts_only_rows_of_the_range() {
    let r = profile_ranking_at(&sample(), Some(30), Some(2));
    assert_eq!(r.len(), 2);
    assert_eq!(r[0].profile_id, "d");
    assert_eq!(r[0].total_tokens, 50);
    assert_eq!(r[1].profile_id, "c");
    let all = profile_ranking_at(&sample(), Some(30), Some(100));
    assert_eq!(all.len(), 3);
    assert_eq!(all[2].profile_id, "a");
    assert_eq!(all[2].total_tokens, 8);
    assert_eq!(all[2].profile_name, "New A");
    assert_eq!(all[2].rank, 3);
    assert!(profile_ranking_at(&sample(), Some(51), None).is_empty());
}

#[test]
fn equal_totals_keep_the_order_of_first_rows() {
    let logs = vec![
        row("1", "x", "X", 1, 4),
        row("2", "y", "Y", 2, 9),
        row("3", "z", "Z", 3, 4),
        row("4", "w", "W", 4, 9),
    ];
    let r = profile_ranking_at(&logs, None, Some(0));
    assert_eq!(r.len(), 1);
    assert_eq!(r[0].profile_id, "y");
    let all = profile_ranking_at(&logs, None, Some(4));
    let ids: Vec<&str> = all.iter().map(|e| e.profile_id.as_str()).collect();
    assert_eq!(ids, vec!["y", "w", "x", "z"]);
}

#[test]
fn latest_name_is_the_one_of_the_last_latest_row() {
    let logs = vec![
        row("1", "p", "first", 7, 1),
        row("2", "p", "second", 7, 1),
        row("3", "p", "early", 6, 1),
    ];
    let r = profile_ranking_at(&logs, Some(7), None);
    assert_eq!(r.len(), 1);
    assert_eq!(r[0].profile_name, "second");
    assert_eq!(r[0].total_tokens, 4);
}

#[test]
fn ranking_of_today_takes_every_row_without_a_range() {
    let r = get_profile_consumption_ranking(&sample(), None, Some(3)).unwrap();
    assert_eq!(r.len(), 3);
    assert_eq!(r[0].profile_id, "b");
    let unknown = get_profile_consumption_ranking(&sample(), Some("forever"), None).unwrap();
    assert_eq!(unknown.len(), 4);
    let today = get_profile_consumption_ranking(&sample(), Some("hour"), None).unwrap();
    assert!(today.is_empty());
}

#[test]
fn entries_carry_the_tokens_of_the_range() {
    let cut = profile_ranking_at(&sample(), Some(30), Some(2));
    assert_eq!(cut.len(), 2);
    assert!(cut.iter().all(|e| e.range_tokens == 72));
    let all = profile_ranking_at(&sample(), None, None);
    assert!(all.iter().all(|e| e.range_tokens == 131));
    assert_eq!(all.iter().map(|e| e.total_tokens).sum::<i32>(), 131);
    let unknown = get_profile_consumption_ranking(&sample(), Some("forever"), Some(1)).unwrap();
    assert_eq!(unknown.len(), 1);
    assert_eq!(unknown[0].profile_id, "b");
    assert_eq!(unknown[0].range_tokens, 131);
}
