use mqtt_pid::record::{parse_instant, split_record, RecordError};
use mqtt_pid::replay::{ReplayCursor, ReplayRow};

fn all_rows(stamps: &Vec<i128>) -> Vec<ReplayRow> {
    let mut cursor = ReplayCursor::new(stamps);
    let mut rows = Vec::new();
    while let Some(row) = cursor.next_row() {
        rows.push(row);
    }
    rows
}

const SECOND: i128 = 1_000_000_000;

#[test]
fn replay_holds_each_value_until_the_next_sample() {
    let values = [10.0f64, 20.0];
    let stamps = vec![
        parse_instant("2023-01-01T00:00:00Z").unwrap(),
        parse_instant("2023-01-01T00:00:05Z").unwrap(),
    ];
    let rows = all_rows(&stamps);
    assert_eq!(rows.len(), 6);
    let seconds: Vec<i64> = rows.iter().map(|r| r.second()).collect();
    assert_eq!(seconds, (1672531200..=1672531205).collect::<Vec<i64>>());
    let held: Vec<f64> = rows.iter().map(|r| r.event.map_or(0.0, |i| values[i])).collect();
    assert_eq!(held, vec![10.0, 10.0, 10.0, 10.0, 10.0, 20.0]);
}

#[test]
fn replay_of_nothing_has_no_rows() {
    assert!(all_rows(&Vec::new()).is_empty());
}

#[test]
fn replay_of_one_sample_has_one_row() {
    let rows = all_rows(&vec![7 * SECOND]);
    assert_eq!(rows, vec![ReplayRow { at: 7 * SECOND, event: Some(0) }]);
}

#[test]
fn replay_sorts_samples_by_instant() {
    let rows = all_rows(&vec![2 * SECOND, 0, SECOND]);
    let events: Vec<Option<usize>> = rows.iter().map(|r| r.event).collect();
    assert_eq!(events, vec![Some(1), Some(2), Some(0)]);
    assert_eq!(rows[0].at, 0);
}

#[test]
fn replay_later_line_wins_on_equal_instants() {
    let rows = all_rows(&vec![0, 0, 2 * SECOND, 2 * SECOND]);
    let events: Vec<Option<usize>> = rows.iter().map(|r| r.event).collect();
    assert_eq!(events, vec![Some(1), Some(1), Some(3)]);
}

#[test]
fn replay_with_fractional_end_adds_a_row() {
    let rows = all_rows(&vec![0, 5 * SECOND + SECOND / 2]);
    assert_eq!(rows.len(), 7);
    assert_eq!(rows[5].event, Some(0));
    assert_eq!(rows[6].at, 6 * SECOND);
    assert_eq!(rows[6].event, Some(1));
}

#[test]
fn row_seconds_truncate_toward_zero() {
    assert_eq!(ReplayRow { at: SECOND + 999_999_999, event: None }.second(), 1);
    assert_eq!(ReplayRow { at: -SECOND - SECOND / 2, event: None }.second(), -1);
    assert_eq!(ReplayRow { at: -1, event: None }.second(), 0);
}

#[test]
fn split_record_takes_two_fields() {
    assert_eq!(
        split_record("10,2023-01-01T00:00:00Z"),
        Some(("10", "2023-01-01T00:00:00Z"))
    );
    assert_eq!(split_record("  10.5,2023-01-01T00:00:05Z \n"), Some(("10.5", "2023-01-01T00:00:05Z")));
    assert_eq!(split_record(","), Some(("", "")));
    assert_eq!(split_record("é,ü"), Some(("é", "ü")));
}

#[test]
fn split_record_skips_other_lines() {
    assert_eq!(split_record(""), None);
    assert_eq!(split_record("value"), None);
    assert_eq!(split_record("1,2,3"), None);
    assert_eq!(split_record(",,"), None);
}

#[test]
fn parse_instant_reads_rfc3339() {
    assert_eq!(parse_instant("1970-01-01T00:00:00Z"), Ok(0));
    assert_eq!(parse_instant("1970-01-01T00:00:01.5Z"), Ok(SECOND + SECOND / 2));
    assert_eq!(parse_instant("2023-01-01T00:00:00Z"), Ok(1672531200 * SECOND));
    assert_eq!(parse_instant("2023-01-01T01:00:00+01:00"), Ok(1672531200 * SECOND));
}

#[test]
fn parse_instant_rejects_other_text() {
    assert_eq!(parse_instant("yesterday"), Err(RecordError::BadTimestamp));
    assert_eq!(parse_instant(""), Err(RecordError::BadTimestamp));
}
