use m_reader::recent::RecentFileRecord;
use m_reader::settings::{normalize_settings, StoredSettings};
use m_reader::theme::ReaderTheme;

fn record(path: &str, t: i64) -> RecentFileRecord {
    RecentFileRecord {
        path: path.to_string(),
        display_name: path.to_string(),
        last_opened: t,
    }
}

#[test]
fn default_settings() {
    let s = StoredSettings::default();
    assert_eq!(s.selected_theme, ReaderTheme::GitHub);
    assert!(s.auto_reload);
    assert!(s.recent_files.is_empty());
}

#[test]
fn normalize_orders_newest_first_stably() {
    let s = StoredSettings {
        selected_theme: ReaderTheme::Basic,
        auto_reload: false,
        recent_files: vec![record("a", 1), record("b", 5), record("c", 3), record("d", 5), record("e", -2)],
    };
    let n = normalize_settings(s);
    assert_eq!(n.selected_theme, ReaderTheme::Basic);
    assert!(!n.auto_reload);
    let order: Vec<&str> = n.recent_files.iter().map(|r| r.path.as_str()).collect();
    assert_eq!(order, ["b", "d", "c", "a", "e"]);
}

#[test]
fn normalize_matches_std_stable_sort_and_truncate() {
    let times = [4i64, 9, 9, 1, 7, 4, 4, 12, 0, 9, 3, 12];
    let list: Vec<RecentFileRecord> =
        times.iter().enumerate().map(|(i, t)| record(&format!("p{i}"), *t)).collect();
    let mut expected = list.clone();
    expected.sort_by(|a, b| b.last_opened.cmp(&a.last_opened));
    expected.truncate(8);
    let n = normalize_settings(StoredSettings {
        selected_theme: ReaderTheme::GitHub,
        auto_reload: true,
        recent_files: list,
    });
    assert_eq!(n.recent_files, expected);
    assert_eq!(n.recent_files.len(), 8);
}

#[test]
fn normalize_is_idempotent() {
    let list: Vec<RecentFileRecord> = (0..11).map(|i| record(&format!("q{i}"), (i * 7) % 5)).collect();
    let once = normalize_settings(StoredSettings {
        selected_theme: ReaderTheme::DocC,
        auto_reload: true,
        recent_files: list,
    });
    let first = once.recent_files.clone();
    let twice = normalize_settings(once);
    assert_eq!(twice.recent_files, first);
}

#[test]
fn settings_clone_keeps_fields() {
    let s = StoredSettings {
        selected_theme: ReaderTheme::BasicDark,
        auto_reload: false,
        recent_files: vec![record("x", 1)],
    };
    let c = s.clone();
    assert_eq!(c.selected_theme, s.selected_theme);
    assert_eq!(c.auto_reload, s.auto_reload);
    assert_eq!(c.recent_files, s.recent_files);
}
