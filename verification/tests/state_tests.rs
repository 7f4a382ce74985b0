use m_reader::recent::RecentFileRecord;
use m_reader::settings::StoredSettings;
use m_reader::state::{recent_display_name, AppState, UNTITLED, WELCOME_MARKDOWN};
use m_reader::theme::ReaderTheme;

fn record(path: &str, name: &str, t: i64) -> RecentFileRecord {
    RecentFileRecord {
        path: path.to_string(),
        display_name: name.to_string(),
        last_opened: t,
    }
}

fn fresh() -> AppState {
    AppState::from_settings(StoredSettings {
        selected_theme: ReaderTheme::DocC,
        auto_reload: true,
        recent_files: vec![record("/old/a.md", "a.md", 10), record("/old/b.md", "b.md", 5)],
    })
}

#[test]
fn from_settings_shows_welcome() {
    let s = fresh();
    assert_eq!(s.markdown_text, "# MReader\n\nOpen a Markdown file to preview it.");
    assert_eq!(s.markdown_text, WELCOME_MARKDOWN);
    assert_eq!(
        s.rendered_html,
        "<h1>MReader</h1>\n<p>Open a Markdown file to preview it.</p>\n"
    );
    assert_eq!(s.document_name, None);
    assert_eq!(s.current_path, None);
    assert_eq!(s.error_message, None);
    assert_eq!(s.last_modified, None);
    assert!(s.auto_reload);
    assert_eq!(s.selected_theme, ReaderTheme::DocC);
    assert_eq!(s.recent_files.len(), 2);
}

#[test]
fn settings_round_trip_through_state() {
    let settings = StoredSettings {
        selected_theme: ReaderTheme::GitHubDark,
        auto_reload: false,
        recent_files: vec![record("/x.md", "x.md", 1)],
    };
    let copy = settings.clone();
    let back = AppState::from_settings(settings).to_settings();
    assert_eq!(back.selected_theme, copy.selected_theme);
    assert_eq!(back.auto_reload, copy.auto_reload);
    assert_eq!(back.recent_files, copy.recent_files);
}

#[test]
fn recorded_names_take_last_path_component() {
    let cases = [
        ("/docs/readme.md", "readme.md"),
        ("notes.md", "notes.md"),
        ("/docs/dir/", "dir"),
        ("/", "Untitled"),
        ("/docs/..", "Untitled"),
    ];
    for (path, name) in cases {
        let mut s = fresh();
        s.record_recent_file(path, 1);
        assert_eq!(s.recent_files[0].display_name, name, "{path:?}");
    }
}

#[test]
fn display_name_falls_back_to_untitled() {
    assert_eq!(recent_display_name(Some("a.md".to_string())), "a.md");
    assert_eq!(recent_display_name(None), UNTITLED);
    assert_eq!(UNTITLED, "Untitled");
}

#[test]
fn show_document_sets_fields_only() {
    let mut s = fresh();
    s.error_message = Some("old".to_string());
    s.show_document(
        b"/p/x.md".to_vec(),
        "text".to_string(),
        "<p>text</p>".to_string(),
        Some("x.md".to_string()),
        9,
    );
    assert_eq!(s.markdown_text, "text");
    assert_eq!(s.rendered_html, "<p>text</p>");
    assert_eq!(s.document_name.as_deref(), Some("x.md"));
    assert_eq!(s.current_path.as_deref(), Some(&b"/p/x.md"[..]));
    assert_eq!(s.error_message, None);
    assert_eq!(s.last_modified, Some(9));
    assert_eq!(s.recent_files.len(), 2);
    assert_eq!(s.selected_theme, ReaderTheme::DocC);
}

#[test]
fn load_path_renders_markdown() {
    let mut s = fresh();
    s.load_path(b"/n.md".to_vec(), Ok((b"*hi*".to_vec(), 1)));
    assert_eq!(s.rendered_html, "<p><em>hi</em></p>\n");
    s.load_path(b"/e.md".to_vec(), Ok((Vec::new(), 2)));
    assert_eq!(s.rendered_html, "");
    assert_eq!(s.document_name.as_deref(), Some("e.md"));
}

#[test]
fn load_path_success_shows_file_and_records_it() {
    let mut s = fresh();
    s.error_message = Some("old".to_string());
    s.load_path(b"/docs/guide.md".to_vec(), Ok((b"# Guide".to_vec(), 77)));
    assert_eq!(s.markdown_text, "# Guide");
    assert_eq!(s.rendered_html, "<h1>Guide</h1>\n");
    assert_eq!(s.document_name.as_deref(), Some("guide.md"));
    assert_eq!(s.current_path.as_deref(), Some(&b"/docs/guide.md"[..]));
    assert_eq!(s.error_message, None);
    assert_eq!(s.last_modified, Some(77));
    assert_eq!(s.recent_files.len(), 3);
    assert_eq!(s.recent_files[0].path, "/docs/guide.md");
    assert_eq!(s.recent_files[0].display_name, "guide.md");
    assert_eq!(s.recent_files[1].path, "/old/a.md");
}

#[test]
fn load_path_failure_only_sets_error() {
    let mut s = fresh();
    s.load_path(b"/docs/missing.md".to_vec(), Err("Failed to read file: gone".to_string()));
    assert_eq!(s.error_message.as_deref(), Some("Failed to read file: gone"));
    assert_eq!(s.markdown_text, WELCOME_MARKDOWN);
    assert_eq!(s.current_path, None);
    assert_eq!(s.document_name, None);
    assert_eq!(s.recent_files.len(), 2);
}

#[test]
fn path_without_file_name_is_untitled() {
    let mut s = fresh();
    s.record_recent_file("/", 3);
    assert_eq!(s.recent_files[0].path, "/");
    assert_eq!(s.recent_files[0].display_name, "Untitled");
    assert_eq!(s.recent_files[0].last_opened, 3);
}

#[test]
fn open_recent_missing_file_reports_and_forgets_it() {
    let mut s = fresh();
    let r = s.recent_files[1].clone();
    s.open_recent(&r, None);
    assert_eq!(s.error_message.as_deref(), Some("Unable to access b.md."));
    assert_eq!(s.recent_files.len(), 1);
    assert_eq!(s.recent_files[0].path, "/old/a.md");
    assert_eq!(s.current_path, None);
}

#[test]
fn open_recent_existing_file_loads_it_first() {
    let mut s = fresh();
    let r = s.recent_files[1].clone();
    s.open_recent(&r, Some(Ok((b"body".to_vec(), 5))));
    assert_eq!(s.current_path.as_deref(), Some(&b"/old/b.md"[..]));
    assert_eq!(s.rendered_html, "<p>body</p>\n");
    assert_eq!(s.recent_files.len(), 2);
    assert_eq!(s.recent_files[0].path, "/old/b.md");
    assert_eq!(s.recent_files[1].path, "/old/a.md");
}

#[test]
fn open_recent_read_failure_keeps_list() {
    let mut s = fresh();
    let r = s.recent_files[0].clone();
    s.open_recent(&r, Some(Err("Failed to read file: denied".to_string())));
    assert_eq!(s.error_message.as_deref(), Some("Failed to read file: denied"));
    assert_eq!(s.recent_files.len(), 2);
}

#[test]
fn clear_and_toggle_and_theme() {
    let mut s = fresh();
    s.clear_recent_files();
    assert!(s.recent_files.is_empty());
    assert!(!s.toggle_auto_reload());
    assert!(!s.auto_reload);
    assert!(s.toggle_auto_reload());
    s.select_theme(ReaderTheme::BasicDark);
    assert_eq!(s.selected_theme, ReaderTheme::BasicDark);
}

#[test]
fn recent_at_and_remove() {
    let mut s = fresh();
    assert_eq!(s.recent_at(1).map(|r| r.path), Some("/old/b.md".to_string()));
    assert_eq!(s.recent_at(2), None);
    s.remove_recent_by_path("/old/a.md");
    assert_eq!(s.recent_files.len(), 1);
    assert_eq!(s.recent_files[0].path, "/old/b.md");
}

#[test]
fn load_path_keeps_raw_path_and_decodes_lossily() {
    let mut s = fresh();
    let raw = b"/d/\xffx.md".to_vec();
    s.load_path(raw.clone(), Ok((b"# T\xff".to_vec(), 4)));
    assert_eq!(s.current_path, Some(raw));
    assert_eq!(s.markdown_text, "# T\u{FFFD}");
    assert_eq!(s.recent_files[0].path, "/d/\u{FFFD}x.md");
    assert_eq!(s.recent_files[0].display_name, "\u{FFFD}x.md");
    assert_eq!(s.document_name.as_deref(), Some("\u{FFFD}x.md"));
}

#[test]
fn report_error_only_sets_error() {
    let mut s = fresh();
    s.report_error("Failed to read metadata: gone".to_string());
    assert_eq!(s.error_message.as_deref(), Some("Failed to read metadata: gone"));
    assert_eq!(s.markdown_text, WELCOME_MARKDOWN);
    assert_eq!(s.recent_files.len(), 2);
}
