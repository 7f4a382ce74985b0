use m_reader::recent::{add_recent_record, records_without_path, RecentFileRecord, MAX_RECENT_FILES};

fn record(path: &str, t: i64) -> RecentFileRecord {
    RecentFileRecord {
        path: path.to_string(),
        display_name: path.rsplit('/').next().unwrap().to_string(),
        last_opened: t,
    }
}

fn paths(list: &[RecentFileRecord]) -> Vec<&str> {
    list.iter().map(|r| r.path.as_str()).collect()
}

#[test]
fn adding_puts_record_first() {
    let mut list = vec![record("/a.md", 1), record("/b.md", 2)];
    add_recent_record(&mut list, record("/c.md", 3));
    assert_eq!(paths(&list), ["/c.md", "/a.md", "/b.md"]);
    assert_eq!(list[0].last_opened, 3);
}

#[test]
fn adding_moves_existing_path_to_front() {
    let mut list = vec![record("/a.md", 1), record("/b.md", 2), record("/c.md", 3)];
    add_recent_record(&mut list, record("/b.md", 9));
    assert_eq!(paths(&list), ["/b.md", "/a.md", "/c.md"]);
    assert_eq!(list[0].last_opened, 9);
}

#[test]
fn adding_removes_every_duplicate_of_path() {
    let mut list = vec![record("/a.md", 1), record("/x.md", 2), record("/a.md", 3)];
    add_recent_record(&mut list, record("/a.md", 4));
    assert_eq!(paths(&list), ["/a.md", "/x.md"]);
}

#[test]
fn list_never_exceeds_limit() {
    let mut list = Vec::new();
    for i in 0..20 {
        add_recent_record(&mut list, record(&format!("/f{i}.md"), i));
        assert!(list.len() <= MAX_RECENT_FILES);
    }
    assert_eq!(list.len(), 8);
    assert_eq!(list[0].path, "/f19.md");
    assert_eq!(list[7].path, "/f12.md");
}

#[test]
fn oversized_list_is_cut_on_add() {
    let mut list: Vec<RecentFileRecord> = (0..12).map(|i| record(&format!("/g{i}.md"), i)).collect();
    add_recent_record(&mut list, record("/new.md", 50));
    assert_eq!(list.len(), MAX_RECENT_FILES);
    assert_eq!(paths(&list)[..3], ["/new.md", "/g0.md", "/g1.md"]);
}

#[test]
fn reopening_same_path_replaces_entry() {
    let base = vec![record("/a.md", 1), record("/b.md", 2)];
    let mut twice = base.clone();
    add_recent_record(&mut twice, record("/z.md", 5));
    add_recent_record(&mut twice, record("/z.md", 6));
    let mut once = base.clone();
    add_recent_record(&mut once, record("/z.md", 6));
    assert_eq!(twice, once);
}

#[test]
fn removing_path_keeps_others_in_order() {
    let list = vec![record("/a.md", 1), record("/b.md", 2), record("/a.md", 3), record("/c.md", 4)];
    let kept = records_without_path(&list, "/a.md");
    assert_eq!(paths(&kept), ["/b.md", "/c.md"]);
    let same = records_without_path(&list, "/zzz.md");
    assert_eq!(same, list);
}
