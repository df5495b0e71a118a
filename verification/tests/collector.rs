//! The media collector.

use syncmesh::collector::MediaCollector;
use syncmesh::double::Double;

fn secs(x: f64) -> Double {
    Double { bits: x.to_bits() }
}

#[test]
fn emits_once_all_three_fields_present() {
    let mut c = MediaCollector::new();
    assert!(c.take_if_changed().is_none());
    c.on_filename("Movie.MKV");
    assert!(c.take_if_changed().is_none());
    c.on_duration_secs(secs(3_600.4));
    assert!(c.take_if_changed().is_none());
    c.on_file_size(1_000_000);
    let m = c.take_if_changed().expect("complete tuple must emit");
    assert_eq!(m.filename_lower, "movie.mkv");
    assert_eq!(m.duration_s, 3_600);
    assert_eq!(m.size_bytes, 1_000_000);
}

#[test]
fn does_not_re_emit_unchanged_tuple() {
    let mut c = MediaCollector::new();
    c.on_filename("a.mkv");
    c.on_duration_secs(secs(10.0));
    c.on_file_size(100);
    assert!(c.take_if_changed().is_some());
    assert!(c.take_if_changed().is_none());
}

#[test]
fn new_filename_clears_duration_and_size() {
    let mut c = MediaCollector::new();
    c.on_filename("a.mkv");
    c.on_duration_secs(secs(10.0));
    c.on_file_size(100);
    assert!(c.take_if_changed().is_some());

    // New file: filename changes first. Until duration+size re-arrive we
    // should not emit the stale tuple under the new filename.
    c.on_filename("b.mkv");
    assert!(c.take_if_changed().is_none());
    c.on_duration_secs(secs(20.0));
    assert!(c.take_if_changed().is_none());
    c.on_file_size(200);
    let m = c
        .take_if_changed()
        .expect("second file emits once complete");
    assert_eq!(m.filename_lower, "b.mkv");
    assert_eq!(m.duration_s, 20);
    assert_eq!(m.size_bytes, 200);
}

#[test]
fn filename_lowercases_and_rejects_duplicate_same_name() {
    let mut c = MediaCollector::new();
    c.on_filename("FILE.MKV");
    c.on_duration_secs(secs(1.0));
    c.on_file_size(1);
    let m = c.take_if_changed().unwrap();
    assert_eq!(m.filename_lower, "file.mkv");

    // Re-report the same name in mixed case: no reset, still no re-emit.
    c.on_filename("file.mkv");
    assert!(c.take_if_changed().is_none());
}

#[test]
fn negative_duration_clamps_to_zero() {
    let mut c = MediaCollector::new();
    c.on_filename("a.mkv");
    c.on_duration_secs(secs(-5.0));
    c.on_file_size(1);
    let m = c.take_if_changed().unwrap();
    assert_eq!(m.duration_s, 0);
}

#[test]
fn duration_rounds_to_nearest_second() {
    let mut c = MediaCollector::new();
    c.on_filename("a.mkv");
    c.on_duration_secs(secs(59.6));
    c.on_file_size(1);
    let m = c.take_if_changed().unwrap();
    assert_eq!(m.duration_s, 60);
}
