use m_reader::menu::{
    menu_command, recent_index_from_id, recent_item_id, sync_recent_menu, sync_theme,
    theme_from_id, theme_menu_id, MenuCommand, RecentMenuEntry, MENU_AUTO_RELOAD,
    MENU_CLEAR_RECENT, MENU_OPEN, MENU_RECENT_EMPTY,
};
use m_reader::recent::RecentFileRecord;
use m_reader::theme::ReaderTheme;

fn record(path: &str, name: &str, t: i64) -> RecentFileRecord {
    RecentFileRecord {
        path: path.to_string(),
        display_name: name.to_string(),
        last_opened: t,
    }
}

#[test]
fn theme_ids_select_their_themes() {
    assert_eq!(theme_from_id("mreader.theme.github"), Some(ReaderTheme::GitHub));
    assert_eq!(theme_from_id("mreader.theme.docc"), Some(ReaderTheme::DocC));
    assert_eq!(theme_from_id("mreader.theme.basic"), Some(ReaderTheme::Basic));
    assert_eq!(theme_from_id("mreader.theme.github.dark"), Some(ReaderTheme::GitHubDark));
    assert_eq!(theme_from_id("mreader.theme.docc.dark"), Some(ReaderTheme::DocCDark));
    assert_eq!(theme_from_id("mreader.theme.basic.dark"), Some(ReaderTheme::BasicDark));
    assert_eq!(theme_from_id("mreader.theme.dark"), None);
    assert_eq!(theme_from_id(MENU_OPEN), None);
    for theme in ReaderTheme::ALL {
        assert_eq!(theme_from_id(theme_menu_id(theme)), Some(theme));
        assert_eq!(menu_command(theme_menu_id(theme)), MenuCommand::SelectTheme(theme));
    }
}

#[test]
fn recent_ids_parse_to_indices() {
    assert_eq!(recent_index_from_id("mreader.recent.0"), Some(0));
    assert_eq!(recent_index_from_id("mreader.recent.7"), Some(7));
    assert_eq!(recent_index_from_id("mreader.recent.+3"), Some(3));
    assert_eq!(recent_index_from_id("mreader.recent.12"), Some(12));
    assert_eq!(recent_index_from_id(MENU_RECENT_EMPTY), None);
    assert_eq!(recent_index_from_id("mreader.recent."), None);
    assert_eq!(recent_index_from_id("mreader.recent.-1"), None);
    assert_eq!(recent_index_from_id("mreader.recent.1x"), None);
    assert_eq!(recent_index_from_id("mreader.recent.99999999999999999999999"), None);
    assert_eq!(recent_index_from_id("recent.1"), None);
    assert_eq!(recent_index_from_id(MENU_CLEAR_RECENT), None);
}

#[test]
fn recent_item_ids_round_trip() {
    assert_eq!(recent_item_id(0), "mreader.recent.0");
    assert_eq!(recent_item_id(15), "mreader.recent.15");
    for i in [0usize, 1, 7, 10, 123, usize::MAX] {
        assert_eq!(recent_index_from_id(&recent_item_id(i)), Some(i));
        assert_eq!(menu_command(&recent_item_id(i)), MenuCommand::OpenRecent(i));
    }
}

#[test]
fn menu_commands_follow_ids() {
    assert_eq!(menu_command(MENU_OPEN), MenuCommand::Open);
    assert_eq!(menu_command("mreader.open"), MenuCommand::Open);
    assert_eq!(menu_command(MENU_CLEAR_RECENT), MenuCommand::ClearRecent);
    assert_eq!(menu_command(MENU_AUTO_RELOAD), MenuCommand::ToggleAutoReload);
    assert_eq!(menu_command("mreader.theme.docc"), MenuCommand::SelectTheme(ReaderTheme::DocC));
    assert_eq!(menu_command("mreader.recent.2"), MenuCommand::OpenRecent(2));
    assert_eq!(menu_command(MENU_RECENT_EMPTY), MenuCommand::Ignore);
    assert_eq!(menu_command("quit"), MenuCommand::Ignore);
    assert_eq!(menu_command(""), MenuCommand::Ignore);
}

#[test]
fn theme_checks_mark_only_the_selected() {
    let c = sync_theme(ReaderTheme::DocCDark);
    assert_eq!(
        [c.github, c.docc, c.basic, c.github_dark, c.docc_dark, c.basic_dark],
        [false, false, false, false, true, false]
    );
    for theme in ReaderTheme::ALL {
        let c = sync_theme(theme);
        let marks = [c.github, c.docc, c.basic, c.github_dark, c.docc_dark, c.basic_dark];
        assert_eq!(marks.iter().filter(|m| **m).count(), 1);
    }
}

#[test]
fn empty_recent_menu_shows_placeholder() {
    let menu = sync_recent_menu(&[]);
    assert!(!menu.enabled);
    assert_eq!(menu.entries.len(), 1);
    match &menu.entries[0] {
        RecentMenuEntry::Item { id, label, enabled } => {
            assert_eq!(id, "mreader.recent.empty");
            assert_eq!(label, "No Recent Files");
            assert!(!enabled);
            assert_eq!(menu_command(id), MenuCommand::Ignore);
        }
        RecentMenuEntry::Separator => panic!("expected an item"),
    }
}

#[test]
fn recent_menu_lists_files_then_clear() {
    let recent = vec![record("/a/one.md", "one.md", 3), record("/b/two.md", "two.md", 2)];
    let menu = sync_recent_menu(&recent);
    assert!(menu.enabled);
    assert_eq!(menu.entries.len(), 4);
    for (i, r) in recent.iter().enumerate() {
        match &menu.entries[i] {
            RecentMenuEntry::Item { id, label, enabled } => {
                assert_eq!(id, &format!("mreader.recent.{i}"));
                assert_eq!(label, &r.display_name);
                assert!(enabled);
                assert_eq!(menu_command(id), MenuCommand::OpenRecent(i));
            }
            RecentMenuEntry::Separator => panic!("expected an item"),
        }
    }
    assert!(matches!(menu.entries[2], RecentMenuEntry::Separator));
    match &menu.entries[3] {
        RecentMenuEntry::Item { id, label, enabled } => {
            assert_eq!(id, "mreader.clear_recent");
            assert_eq!(label, "Clear Menu");
            assert!(enabled);
            assert_eq!(menu_command(id), MenuCommand::ClearRecent);
        }
        RecentMenuEntry::Separator => panic!("expected an item"),
    }
}
