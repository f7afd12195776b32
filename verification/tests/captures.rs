use cloche::captures::capture_layout;
use cloche::captures::first_occurrences;
use cloche::captures::is_capture_name_str;
use cloche::captures::is_sidecar_name;
use cloche::captures::newest_first;
use cloche::captures::CaptureLayout;

#[test]
fn flat_sidecars_and_legacy_directories_are_captures() {
    assert_eq!(capture_layout("cloche-shot-20250101.json", false), Some(CaptureLayout::Flat));
    assert_eq!(capture_layout("appshot-old.json", false), Some(CaptureLayout::Flat));
    assert_eq!(capture_layout("cloche-shot-20250101", true), Some(CaptureLayout::Legacy));
    assert_eq!(capture_layout("appshot.json", true), Some(CaptureLayout::Legacy));
}

#[test]
fn other_entries_are_not_captures() {
    assert_eq!(capture_layout("cloche-shot-20250101.png", false), None);
    assert_eq!(capture_layout("notes.json", false), None);
    assert_eq!(capture_layout("Cloche-shot.json", false), None);
    assert_eq!(capture_layout("shots", true), None);
    assert!(!is_capture_name_str("my-cloche-shot.json"));
}

#[test]
fn sidecars_are_prefixed_json_files() {
    assert!(is_sidecar_name("cloche-shot-1.json"));
    assert!(is_sidecar_name("appshot.json"));
    assert!(!is_sidecar_name("metadata.json"));
    assert!(!is_sidecar_name("cloche-shot-1.png"));
}

#[test]
fn listings_put_the_newest_first_and_keep_ties_in_order() {
    let stamps = vec![(10, 0), (30, 0), (20, 5), (30, 0), (20, 7)];
    assert_eq!(newest_first(&stamps, 10), vec![1, 3, 4, 2, 0]);
    assert_eq!(newest_first(&stamps, 3), vec![1, 3, 4]);
    assert_eq!(newest_first(&stamps, 0), Vec::<usize>::new());
}

#[test]
fn nanoseconds_break_ties_within_a_second() {
    let stamps = vec![(5, 1), (5, 999_999_999), (-1, 0)];
    assert_eq!(newest_first(&stamps, 2), vec![1, 0]);
    assert_eq!(newest_first(&Vec::new(), 4), Vec::<usize>::new());
}

#[test]
fn a_root_named_twice_is_scanned_once() {
    let keys: Vec<Vec<u8>> = vec![b"/a".to_vec(), b"/b".to_vec(), b"/a".to_vec(), b"/c".to_vec(), b"/b".to_vec()];
    assert_eq!(first_occurrences(&keys), vec![0, 1, 3]);
    assert_eq!(first_occurrences(&Vec::new()), Vec::<usize>::new());
}
