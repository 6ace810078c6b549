use diminuendo::error::AppError;
use diminuendo::session::{
    group_begin_end, latest_session, read_minute_buckets, segment_sessions, MinuteBucket, Session,
    GAP_THRESHOLD_MS,
};
use diminuendo::time::{from_timestamp_millis, parse_minute_date, UtcTime, MINUTE_MS};

const TEN_O_CLOCK: i64 = 1622973600000;

fn bucket_at(minute_offset: i64) -> MinuteBucket {
    MinuteBucket {
        minute: UtcTime { millis: TEN_O_CLOCK + minute_offset * MINUTE_MS },
        byte_length: 3,
    }
}

#[test]
fn test_parse_minute_date() {
    let dt: UtcTime = parse_minute_date("2021-06-06 15:31:00").unwrap();
    println!("> dt: {:?}", dt);
    assert_eq!(dt.timestamp_millis(), 1622993460000);
}

#[test]
fn parse_rejects_malformed_labels() {
    assert!(matches!(parse_minute_date("2021-06-06 15:31:17"), Err(AppError::Chrono { .. })));
    assert!(matches!(parse_minute_date("yesterday"), Err(AppError::Chrono { .. })));
    assert!(matches!(parse_minute_date(""), Err(AppError::Chrono { .. })));
}

#[test]
fn from_timestamp_millis_keeps_the_instant() {
    let t = from_timestamp_millis(1622993460123);
    assert_eq!(t, UtcTime { millis: 1622993460123 });
    assert_eq!(t.timestamp_millis(), 1622993460123);
}

#[test]
fn scenario_two_sessions_latest_selected() {
    let buckets = vec![bucket_at(0), bucket_at(1), bucket_at(2), bucket_at(15)];
    let sessions = segment_sessions(&buckets, GAP_THRESHOLD_MS);
    assert_eq!(sessions, vec![Session { start: 0, end: 3 }, Session { start: 3, end: 4 }]);

    let (b0, e0) = group_begin_end(&buckets, sessions[0]).unwrap();
    assert_eq!(b0.millis, TEN_O_CLOCK);
    assert_eq!(e0.millis, TEN_O_CLOCK + 3 * MINUTE_MS);

    let latest = latest_session(&sessions).unwrap();
    assert_eq!(latest, Session { start: 3, end: 4 });
    let (b1, e1) = group_begin_end(&buckets, latest).unwrap();
    assert_eq!(b1.millis, TEN_O_CLOCK + 15 * MINUTE_MS);
    assert_eq!(e1.millis, TEN_O_CLOCK + 16 * MINUTE_MS);
}

#[test]
fn sessions_rebuild_the_bucket_sequence() {
    let buckets = vec![bucket_at(0), bucket_at(30), bucket_at(31), bucket_at(45), bucket_at(90)];
    let sessions = segment_sessions(&buckets, GAP_THRESHOLD_MS);
    let mut joined = Vec::new();
    for s in sessions.iter() {
        joined.extend_from_slice(&buckets[s.start..s.end]);
    }
    assert_eq!(joined, buckets);
    assert_eq!(sessions.len(), 4);
}

#[test]
fn gap_equal_to_threshold_ends_a_session() {
    let buckets = vec![bucket_at(0), bucket_at(10)];
    let sessions = segment_sessions(&buckets, GAP_THRESHOLD_MS);
    assert_eq!(sessions, vec![Session { start: 0, end: 1 }, Session { start: 1, end: 2 }]);
}

#[test]
fn gap_just_below_threshold_keeps_the_session() {
    let buckets = vec![bucket_at(0), bucket_at(9), bucket_at(18)];
    let sessions = segment_sessions(&buckets, GAP_THRESHOLD_MS);
    assert_eq!(sessions, vec![Session { start: 0, end: 3 }]);
}

#[test]
fn gap_threshold_is_configurable() {
    let buckets = vec![bucket_at(0), bucket_at(2), bucket_at(3)];
    let sessions = segment_sessions(&buckets, 2 * MINUTE_MS);
    assert_eq!(sessions, vec![Session { start: 0, end: 1 }, Session { start: 1, end: 3 }]);
}

#[test]
fn single_bucket_is_one_session() {
    let buckets = vec![bucket_at(7)];
    let sessions = segment_sessions(&buckets, GAP_THRESHOLD_MS);
    assert_eq!(sessions, vec![Session { start: 0, end: 1 }]);
    let (b, e) = group_begin_end(&buckets, sessions[0]).unwrap();
    assert_eq!(e.millis - b.millis, MINUTE_MS);
}

#[test]
fn empty_input_has_no_session_and_no_latest() {
    let buckets: Vec<MinuteBucket> = vec![];
    let sessions = segment_sessions(&buckets, GAP_THRESHOLD_MS);
    assert!(sessions.is_empty());
    assert!(matches!(latest_session(&sessions), Err(AppError::NoData { .. })));
}

#[test]
fn empty_group_has_no_bounds() {
    let buckets = vec![bucket_at(0)];
    assert!(matches!(
        group_begin_end(&buckets, Session { start: 1, end: 1 }),
        Err(AppError::NoData { .. })
    ));
    assert!(matches!(
        group_begin_end(&buckets, Session { start: 0, end: 2 }),
        Err(AppError::NoData { .. })
    ));
}

#[test]
fn aggregate_rows_become_ascending_buckets() {
    let rows = vec![
        ("2021-06-06 10:15:00".to_string(), 30),
        ("2021-06-06 10:01:00".to_string(), 20),
        ("2021-06-06 10:00:00".to_string(), 10),
    ];
    let buckets = read_minute_buckets(&rows).unwrap();
    assert_eq!(
        buckets,
        vec![
            MinuteBucket { minute: UtcTime { millis: TEN_O_CLOCK }, byte_length: 10 },
            MinuteBucket { minute: UtcTime { millis: TEN_O_CLOCK + MINUTE_MS }, byte_length: 20 },
            MinuteBucket { minute: UtcTime { millis: TEN_O_CLOCK + 15 * MINUTE_MS }, byte_length: 30 },
        ]
    );
}

#[test]
fn aggregate_row_with_bad_label_fails() {
    let rows = vec![
        ("2021-06-06 10:15:00".to_string(), 30),
        ("10:01".to_string(), 20),
    ];
    assert!(matches!(read_minute_buckets(&rows), Err(AppError::Chrono { .. })));
    let none: Vec<(String, i64)> = vec![];
    assert_eq!(read_minute_buckets(&none).unwrap(), vec![]);
}
