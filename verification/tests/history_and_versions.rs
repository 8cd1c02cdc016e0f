use media_downloader::history::{
    add_history_entry, insert_history_entry, next_history_id, remove_history_entry, HistoryEntry,
    HISTORY_LIMIT,
};
use media_downloader::version::{has_update, numbers_less, version_parts};

fn entry(id: u64) -> HistoryEntry {
    HistoryEntry {
        id,
        url: format!("https://v/{}", id),
        title: format!("t{}", id),
        platform: "Youtube".to_string(),
        status: "completed".to_string(),
        file_path: None,
        date: "2024-01-01T00:00:00+00:00".to_string(),
    }
}

fn ids(v: &[HistoryEntry]) -> Vec<u64> {
    v.iter().map(|e| e.id).collect()
}

#[test]
fn next_id_is_one_more_than_the_largest() {
    assert_eq!(next_history_id(&vec![]), 1);
    assert_eq!(next_history_id(&vec![entry(3), entry(9), entry(4)]), 10);
}

#[test]
fn inserted_entry_comes_first() {
    let mut h = vec![entry(2), entry(1)];
    insert_history_entry(
        &mut h,
        "u".to_string(),
        "T".to_string(),
        "P".to_string(),
        "error".to_string(),
        Some("/f".to_string()),
        "D".to_string(),
    );
    assert_eq!(ids(&h), vec![3, 2, 1]);
    assert_eq!(h[0].url, "u");
    assert_eq!(h[0].title, "T");
    assert_eq!(h[0].platform, "P");
    assert_eq!(h[0].status, "error");
    assert_eq!(h[0].file_path.as_deref(), Some("/f"));
    assert_eq!(h[0].date, "D");
}

#[test]
fn history_is_capped_at_the_limit() {
    let mut h: Vec<HistoryEntry> = (1..=HISTORY_LIMIT as u64).rev().map(entry).collect();
    assert_eq!(h.len(), 500);
    add_history_entry(&mut h, "u".into(), "t".into(), "p".into(), "s".into(), None);
    assert_eq!(h.len(), 500);
    assert_eq!(h[0].id, 501);
    assert_eq!(h[1].id, 500);
    assert_eq!(h[499].id, 2);
    assert!(chrono::DateTime::parse_from_rfc3339(&h[0].date).is_ok());
    assert!(h[0].date.contains('T'));
}

#[test]
fn removal_keeps_the_others_in_order() {
    let mut h = vec![entry(5), entry(3), entry(5), entry(1)];
    remove_history_entry(&mut h, 5);
    assert_eq!(ids(&h), vec![3, 1]);
    remove_history_entry(&mut h, 5);
    assert_eq!(ids(&h), vec![3, 1]);
    remove_history_entry(&mut h, 1);
    assert_eq!(ids(&h), vec![3]);
}

#[test]
fn removing_a_new_entry_restores_the_history() {
    let mut h = vec![entry(7), entry(2)];
    add_history_entry(&mut h, "u".into(), "t".into(), "p".into(), "s".into(), None);
    let new_id = h[0].id;
    assert_eq!(new_id, 8);
    remove_history_entry(&mut h, new_id);
    assert_eq!(ids(&h), vec![7, 2]);
}

#[test]
fn version_numbers_are_parsed() {
    assert_eq!(version_parts("2026.03.03"), vec![2026, 3, 3]);
    assert_eq!(version_parts("2026.3.3"), vec![2026, 3, 3]);
    assert_eq!(version_parts("2024.10.22-nightly.+7"), vec![2024, 10, 7]);
    assert_eq!(version_parts(""), Vec::<u32>::new());
    assert_eq!(version_parts("4294967295.4294967296.-1"), vec![4294967295]);
}

#[test]
fn pieces_parse_like_std() {
    for s in ["0", "+5", "+", "-1", "007", " 1", "1 ", "12a", "4294967295", "4294967296", "99999999999", "", "٣"] {
        let want: Vec<u32> = s.parse::<u32>().ok().into_iter().collect();
        assert_eq!(version_parts(s), want, "piece {:?}", s);
    }
}

#[test]
fn versions_compare_lexicographically() {
    assert!(numbers_less(&vec![2024, 1, 1], &vec![2024, 1, 2]));
    assert!(numbers_less(&vec![2024, 1], &vec![2024, 1, 0]));
    assert!(!numbers_less(&vec![2024, 1, 0], &vec![2024, 1]));
    assert!(!numbers_less(&vec![3], &vec![3]));
    assert!(numbers_less(&vec![], &vec![0]));
}

#[test]
fn updates_are_detected() {
    assert!(has_update("2025.01.15", "2025.02.01"));
    assert!(!has_update("2025.02.01", "2025.01.15"));
    assert!(!has_update("2026.03.03", "2026.3.3"));
    assert!(!has_update("2026.3.3", "2026.03.03"));
    assert!(!has_update("2025.01.15", ""));
    assert!(has_update("", "2025.01.15"));
    assert!(!has_update("x", "y"));
}
