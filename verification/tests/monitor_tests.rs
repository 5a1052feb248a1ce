use plexel::clock::{read_clock, reading_at};
use plexel::commands::{greet, recent_limit};
use plexel::hashing::sha256_hex;
use plexel::monitor::{
    capture_stamp, decide_after_capture, stamp_from, decide_after_recognition, CaptureDecision,
    IngestionOutcome, MonitorState, TextDecision, DEFAULT_INTERVAL_SECONDS,
};
use plexel::paths::{data_root, database_path, screenshot_file_name, screenshots_dir};
use plexel::record::prepare_record;

#[test]
fn new_monitor_is_stopped_at_default_interval() {
    let s = MonitorState::new();
    assert!(!s.running);
    assert_eq!(s.interval_seconds, DEFAULT_INTERVAL_SECONDS);
    assert_eq!(s.interval_seconds, 60);
    assert_eq!(s.total_items, 0);
    assert!(s.last_result.is_none() && s.last_error.is_none() && s.last_image_hash.is_none());
}

#[test]
fn start_is_idempotent_and_clears_error() {
    let mut s = MonitorState::new();
    s.record_error("boom".to_string());
    assert!(s.start());
    assert!(s.running);
    assert_eq!(s.last_error, None);
    s.record_error("again".to_string());
    assert!(!s.start());
    assert_eq!(s.last_error.as_deref(), Some("again"));
}

#[test]
fn stopped_monitor_ends_its_loop() {
    let mut s = MonitorState::new();
    s.start();
    assert_eq!(s.begin_cycle(), Some(60));
    assert!(s.last_run_at.is_some());
    s.stop();
    assert!(!s.running);
    let before = s.last_run_at.clone();
    assert_eq!(s.begin_cycle(), None);
    assert_eq!(s.last_run_at, before);
    assert!(s.start());
}

#[test]
fn same_screen_is_skipped() {
    let previous = Some("abc".to_string());
    assert_eq!(
        decide_after_capture(&previous, "abc".to_string()),
        CaptureDecision::Finish(IngestionOutcome::SkippedUnchanged { image_hash: "abc".to_string() })
    );
    assert_eq!(
        decide_after_capture(&previous, "abd".to_string()),
        CaptureDecision::Recognize { image_hash: "abd".to_string() }
    );
    assert_eq!(
        decide_after_capture(&None, "abc".to_string()),
        CaptureDecision::Recognize { image_hash: "abc".to_string() }
    );
}

#[test]
fn blank_text_is_skipped() {
    assert_eq!(
        decide_after_recognition("t", "h".to_string(), "  \n\t "),
        TextDecision::Finish(IngestionOutcome::SkippedEmpty { image_hash: "h".to_string() })
    );
}

#[test]
fn recognised_text_becomes_a_draft() {
    match decide_after_recognition("2024-01-02T03:04:05Z", "img".to_string(), "  Line One\nline two  \n") {
        TextDecision::Store(d) => {
            assert_eq!(d.captured_at, "2024-01-02T03:04:05Z");
            assert_eq!(d.image_hash, "img");
            assert_eq!(d.extracted_text, "Line One\nline two");
            assert_eq!(d.summary, "Line One | line two");
            assert_eq!(d.word_count, 4);
            assert_eq!(d.line_count, 2);
            assert_eq!(d.term_counts.iter().sum::<u64>(), 4);
            assert_eq!(d.text_hash, sha256_hex("Line One\nline two".as_bytes()));
        }
        other => panic!("unexpected decision {:?}", other),
    }
}

#[test]
fn stored_record_updates_state() {
    let mut s = MonitorState::new();
    s.record_error("old".to_string());
    let record = prepare_record("t1", "h1", "some text").into_record(7);
    assert_eq!(record.id, 7);
    let out = s.record_stored("h1".to_string(), "t1".to_string(), record.clone(), Ok(3));
    assert_eq!(out, Ok(IngestionOutcome::Stored));
    assert_eq!(s.total_items, 3);
    assert_eq!(s.last_error, None);
    assert_eq!(s.last_ingested_at.as_deref(), Some("t1"));
    assert_eq!(s.last_image_hash.as_deref(), Some("h1"));
    assert_eq!(s.last_result, Some(record));
    // the same screen again is skipped
    let prev = s.previous_image_hash();
    assert!(matches!(decide_after_capture(&prev, "h1".to_string()), CaptureDecision::Finish(_)));
}

#[test]
fn failed_count_keeps_image_and_reports_error() {
    let mut s = MonitorState::new();
    let record = prepare_record("t1", "h1", "x").into_record(1);
    let out = s.record_stored("h1".to_string(), "t1".to_string(), record, Err("db".to_string()));
    assert_eq!(out, Err("db".to_string()));
    assert_eq!(s.last_image_hash.as_deref(), Some("h1"));
    assert_eq!(s.total_items, 0);
    assert!(s.last_result.is_none());
}

#[test]
fn explicit_skips_leave_messages() {
    let mut s = MonitorState::new();
    s.apply_outcome(IngestionOutcome::SkippedUnchanged { image_hash: "a".to_string() });
    assert_eq!(s.last_error.as_deref(), Some("Skipped capture because the screen did not change"));
    assert_eq!(s.last_image_hash.as_deref(), Some("a"));
    s.apply_outcome(IngestionOutcome::SkippedEmpty { image_hash: "b".to_string() });
    assert_eq!(s.last_error.as_deref(), Some("Skipped capture because OCR returned no text"));
    assert_eq!(s.last_image_hash.as_deref(), Some("b"));
    s.apply_outcome(IngestionOutcome::Stored);
    assert_eq!(s.last_image_hash.as_deref(), Some("b"));
}

#[test]
fn status_reports_state() {
    let mut s = MonitorState::new();
    s.start();
    s.mark_run();
    let st = s.status("/tmp/db".to_string());
    assert!(st.running);
    assert_eq!(st.interval_seconds, 60);
    assert_eq!(st.database_path, "/tmp/db");
    assert_eq!(st.last_run_at, s.last_run_at);
    assert_eq!(st.total_items, 0);
}

#[test]
fn paths_under_home() {
    assert_eq!(data_root(None, '/'), Err("Could not find the home directory".to_string()));
    assert_eq!(data_root(Some("/home/u"), '/'), Ok("/home/u/plexel/plexel".to_string()));
    assert_eq!(data_root(Some("/home/u/"), '/'), Ok("/home/u/plexel/plexel".to_string()));
    assert_eq!(data_root(Some(""), '/'), Ok("plexel/plexel".to_string()));
    assert_eq!(database_path("/r", '/'), "/r/screen_memory.sqlite3");
    assert_eq!(screenshots_dir("/r", '/'), "/r/screenshots");
}

#[test]
fn paths_with_windows_separator() {
    assert_eq!(
        data_root(Some("C:\\Users\\u"), '\\'),
        Ok("C:\\Users\\u\\plexel/plexel".to_string())
    );
    assert_eq!(database_path("C:\\r\\", '\\'), "C:\\r\\screen_memory.sqlite3");
    assert_eq!(database_path("C:/r/", '\\'), "C:/r/screen_memory.sqlite3");
}

#[test]
fn screenshot_names() {
    assert_eq!(screenshot_file_name("20240102_030405"), "screenshot_20240102_030405.png");
    let stamp = capture_stamp().unwrap();
    assert!(stamp.file_name.starts_with("screenshot_") && stamp.file_name.ends_with(".png"));
    assert_eq!(stamp.file_name.len(), "screenshot_20240102_030405.png".len());
    assert!(stamp.captured_at.ends_with('Z'));
    assert_eq!(stamp.captured_at.len(), 20);
}

#[test]
fn clock_readings() {
    let r = reading_at(0).unwrap();
    assert_eq!(r.iso, "1970-01-01T00:00:00Z");
    assert_eq!(r.compact, "19700101_000000");
    let r = reading_at(1_704_164_645).unwrap();
    assert_eq!(r.iso, "2024-01-02T03:04:05Z");
    assert_eq!(r.compact, "20240102_030405");
    assert_eq!(reading_at(u64::MAX), None);
    assert!(read_clock().is_some());
}

#[test]
fn no_clock_no_stamp_unknown_run_time() {
    assert_eq!(
        stamp_from(None).unwrap_err(),
        "The system clock does not give a representable time"
    );
    let s = stamp_from(reading_at(0)).unwrap();
    assert_eq!(s.captured_at, "1970-01-01T00:00:00Z");
    assert_eq!(s.file_name, "screenshot_19700101_000000.png");
    let mut m = MonitorState::new();
    m.mark_run();
    assert!(m.last_run_at.as_deref().unwrap().ends_with('Z'));
    m.note_run(None);
    assert_eq!(m.last_run_at, None);
    m.start();
    assert_eq!(m.cycle(reading_at(60)), Some(60));
    assert_eq!(m.last_run_at.as_deref(), Some("1970-01-01T00:01:00Z"));
}

#[test]
fn greet_and_limit() {
    assert_eq!(greet("Ada"), "Hello, Ada! You've been greeted from Rust!");
    assert_eq!(recent_limit(None), 5);
    assert_eq!(recent_limit(Some(12)), 12);
}

#[test]
fn steps_keep_the_interval() {
    let mut s = MonitorState::new();
    s.start();
    s.mark_run();
    s.record_error("e".to_string());
    s.apply_outcome(IngestionOutcome::SkippedEmpty { image_hash: "x".to_string() });
    let record = prepare_record("t", "x", "words here").into_record(2);
    let _ = s.record_stored("y".to_string(), "t".to_string(), record, Ok(1));
    assert_eq!(s.begin_cycle(), Some(60));
    s.stop();
    assert_eq!(s.interval_seconds, 60);
    assert_eq!(s.total_items, 1);
}

#[test]
fn blank_text_makes_an_empty_record() {
    let d = prepare_record("t", "h", " \n\t \r\n ");
    assert_eq!(d.extracted_text, "");
    assert_eq!(d.line_count, 0);
    assert_eq!(d.word_count, 0);
    assert_eq!(d.summary, "No OCR text extracted");
    assert!(d.term_counts.iter().all(|&c| c == 0));
    assert_eq!(d.text_hash, "e3b0c44298fc1c149afbf4c8996fb92427ae41e4649b934ca495991b7852b855");
}

#[test]
fn restored_total_is_kept() {
    let mut s = MonitorState::new();
    s.restore_total(9);
    assert_eq!(s.total_items, 9);
    assert!(!s.running);
}
