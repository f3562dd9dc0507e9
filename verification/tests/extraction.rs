use librebooks_core::duration::Duration;
use librebooks_core::errors::Error;
use librebooks_core::metadata::{millis_to_time, Metadata, ProbeOutcome};
use librebooks_core::timestamp::parse_timestamp;

fn extract_bytes(json: &str) -> Result<Metadata, Error> {
    Metadata::extract("book.mp3", ProbeOutcome::Output(json.as_bytes().to_vec()))
}

const FULL_REPORT: &str = r#"{
  "chapters": [
    {"tags": {"title": "Intro"}, "start_time": "0.000000", "end_time": "600.000000"},
    {"tags": {"title": "One"}, "start_time": "600.000000", "end_time": "1200.500000"}
  ],
  "format": {
    "tags": {"title": "A Book", "artist": "Someone"},
    "duration": "1200.500000"
  }
}"#;

#[test]
fn millis_to_time_examples() {
    assert_eq!(millis_to_time(String::from("12.345")).millis, 12345);
    assert_eq!(millis_to_time(String::from("0")).millis, 0);
}

#[test]
fn parse_rounds_to_nearest_millisecond() {
    assert_eq!(parse_timestamp("7"), Ok(Duration::from_millis(7000)));
    assert_eq!(parse_timestamp("2.5"), Ok(Duration::from_millis(2500)));
    assert_eq!(parse_timestamp("0.001"), Ok(Duration::from_millis(1)));
    // A fourth fractional digit of five rounds up, four rounds down.
    assert_eq!(parse_timestamp("1.0005"), Ok(Duration::from_millis(1001)));
    assert_eq!(parse_timestamp("1.00049"), Ok(Duration::from_millis(1000)));
    // Degenerate but valid decimal spellings.
    assert_eq!(parse_timestamp("3."), Ok(Duration::from_millis(3000)));
    assert_eq!(parse_timestamp(".25"), Ok(Duration::from_millis(250)));
    assert_eq!(parse_timestamp("000.000"), Ok(Duration::from_millis(0)));
}

#[test]
fn parse_rejects_non_decimals() {
    for s in ["", ".", "1.2.3", "abc", "1a", "-1", "1e3", " 1", "1 "] {
        assert_eq!(parse_timestamp(s), Err(Error::InvalidTimestamp), "input {:?}", s);
    }
}

#[test]
fn parse_rejects_unrepresentable() {
    // 2^64 seconds does not fit in 64-bit milliseconds.
    assert_eq!(parse_timestamp("18446744073709551616"), Err(Error::InvalidTimestamp));
}

#[test]
fn extract_reads_a_full_report() {
    let m = extract_bytes(FULL_REPORT).unwrap();
    assert_eq!(m.path, "book.mp3");
    assert_eq!(m.title, "A Book");
    assert_eq!(m.artist, "Someone");
    assert_eq!(m.duration.millis, 1_200_500);
    assert_eq!(m.chapters.len(), 2);
    assert_eq!(m.chapters[0].title, "Intro");
    assert_eq!(m.chapters[0].start.millis, 0);
    assert_eq!(m.chapters[0].end.millis, 600_000);
    assert_eq!(m.chapters[1].title, "One");
    assert_eq!(m.chapters[1].start.millis, 600_000);
    assert_eq!(m.chapters[1].end.millis, 1_200_500);
}

#[test]
fn extract_round_trip_reproduces_reported_seconds() {
    // Every derived millisecond count, divided back to seconds, matches the
    // reported decimal value to within one millisecond.
    let m = extract_bytes(FULL_REPORT).unwrap();
    let reported: [f64; 2] = [0.0, 600.0];
    for (c, secs) in m.chapters.iter().zip(reported) {
        let derived = c.start.millis as f64 / 1000.0;
        assert!((derived - secs).abs() < 0.001);
    }
    assert!((m.duration.millis as f64 / 1000.0 - 1200.5).abs() < 0.001);
}

#[test]
fn extract_defaults_absent_tags_to_empty() {
    let m = extract_bytes(
        r#"{
          "chapters": [{"tags": {}, "start_time": "0", "end_time": "1"}],
          "format": {"tags": {}, "duration": "1"}
        }"#,
    )
    .unwrap();
    assert_eq!(m.title, "");
    assert_eq!(m.artist, "");
    assert_eq!(m.chapters[0].title, "");
}

#[test]
fn extract_treats_a_non_string_title_tag_as_absent() {
    let m = extract_bytes(
        r#"{
          "chapters": [{"tags": {"title": 7}, "start_time": "0", "end_time": "1"}],
          "format": {"tags": {"title": null}, "duration": "1"}
        }"#,
    )
    .unwrap();
    assert_eq!(m.title, "");
    assert_eq!(m.chapters[0].title, "");
}

#[test]
fn extract_rejects_invalid_json() {
    assert_eq!(extract_bytes("not json at all"), Err(Error::MalformedReport));
}

#[test]
fn extract_rejects_wrong_shape() {
    // chapters is not an array
    assert_eq!(
        extract_bytes(r#"{"chapters": 3, "format": {"tags": {}, "duration": "1"}}"#),
        Err(Error::MalformedReport)
    );
    // format missing
    assert_eq!(
        extract_bytes(r#"{"chapters": []}"#),
        Err(Error::MalformedReport)
    );
    // a chapter missing its start_time
    assert_eq!(
        extract_bytes(
            r#"{"chapters": [{"tags": {}, "end_time": "1"}],
                "format": {"tags": {}, "duration": "1"}}"#
        ),
        Err(Error::MalformedReport)
    );
    // a chapter missing its tag block
    assert_eq!(
        extract_bytes(
            r#"{"chapters": [{"start_time": "0", "end_time": "1"}],
                "format": {"tags": {}, "duration": "1"}}"#
        ),
        Err(Error::MalformedReport)
    );
}

#[test]
fn extract_rejects_invalid_time_field() {
    assert_eq!(
        extract_bytes(
            r#"{"chapters": [{"tags": {}, "start_time": "zero", "end_time": "1"}],
                "format": {"tags": {}, "duration": "1"}}"#
        ),
        Err(Error::InvalidTimestamp)
    );
}

#[test]
fn extract_rejects_misordered_chapters() {
    // A chapter that ends before it starts.
    assert_eq!(
        extract_bytes(
            r#"{"chapters": [{"tags": {}, "start_time": "10", "end_time": "5"}],
                "format": {"tags": {}, "duration": "10"}}"#
        ),
        Err(Error::MalformedReport)
    );
    // Overlapping neighbours.
    assert_eq!(
        extract_bytes(
            r#"{"chapters": [
                 {"tags": {}, "start_time": "0", "end_time": "20"},
                 {"tags": {}, "start_time": "10", "end_time": "30"}],
                "format": {"tags": {}, "duration": "30"}}"#
        ),
        Err(Error::MalformedReport)
    );
}

#[test]
fn extract_reports_probe_outcomes() {
    assert_eq!(
        Metadata::extract("x", ProbeOutcome::Unavailable),
        Err(Error::ProbeUnavailable)
    );
    assert_eq!(Metadata::extract("x", ProbeOutcome::Failed), Err(Error::ProbeFailed));
}
