use kotomori::duration_ext::DurationExt;
use std::time::Duration;

#[test]
fn formats_exact_minute_boundaries() {
  assert_eq!(Duration::from_mins(1).format(), "1m 0s");
  assert_eq!(Duration::from_mins(2).format(), "2m 0s");
}

#[test]
fn formats_minutes_and_seconds_when_at_least_one_minute() {
  assert_eq!(Duration::from_mins(1).format(), "1m 0s");
  assert_eq!(Duration::from_secs(111).format(), "1m 51s");
}

#[test]
fn formats_seconds_only_when_under_one_minute() {
  assert_eq!(Duration::from_secs(0).format(), "0s");
  assert_eq!(Duration::from_secs(59).format(), "59s");
}
