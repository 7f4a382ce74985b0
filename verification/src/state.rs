//! The state of the reader window and the transitions that the user's
//! actions and the file system drive it through.

use vstd::prelude::*;
use vstd::string::StrSliceExecFns;
use vstd::utf8::encode_utf8;
use crate::recent::{add_recent_record, records_without_path, spec_add_recent, without_path};
use crate::settings::clone_records;
pub use crate::recent::{RecentFileRecord, MAX_RECENT_FILES};
pub use crate::settings::StoredSettings;
pub use crate::theme::ReaderTheme;

verus! {

/// The document shown before any file is opened.
pub const WELCOME_MARKDOWN: &'static str = "# MReader\n\nOpen a Markdown file to preview it.";

/// The name given to a recent file whose path has no final component.
pub const UNTITLED: &'static str = "Untitled";

/// The HTML that `pulldown_cmark` renders from the Markdown text `text`.
pub uninterp spec fn markdown_html(text: Seq<char>) -> Seq<char>;

/// The final component of the path `path`, as `std::path::Path::file_name` gives it.
pub uninterp spec fn path_file_name(path: Seq<char>) -> Option<Seq<char>>;

/// Renders Markdown to HTML with `pulldown_cmark::Parser::new` and
/// `pulldown_cmark::html::push_html` into an empty string. Trusted: the
/// result is the named function `markdown_html` of the text.
#[verifier::external_body]
pub(crate) fn render_markdown(text: &str) -> (html: String)
    ensures
        html@ == markdown_html(text@),
{
    let parser = pulldown_cmark::Parser::new(text);
    let mut html = String::new();
    pulldown_cmark::html::push_html(&mut html, parser);
    html
}

/// The text that `String::from_utf8_lossy` makes of the bytes `bytes`.
pub uninterp spec fn utf8_lossy(bytes: Seq<u8>) -> Seq<char>;

/// Decodes bytes as UTF-8 with `String::from_utf8_lossy`, which replaces each
/// invalid sequence with U+FFFD. Trusted: the result is the named function
/// `utf8_lossy` of the bytes.
#[verifier::external_body]
pub(crate) fn decode_lossy(bytes: &[u8]) -> (text: String)
    ensures
        text@ == utf8_lossy(bytes@),
{
    String::from_utf8_lossy(bytes).into_owned()
}

/// The final component of `path` through `std::path::Path::file_name`,
/// converted to a `String`. Trusted: the result is the named function
/// `path_file_name` of the path.
#[verifier::external_body]
pub(crate) fn file_name(path: &str) -> (name: Option<String>)
    ensures
        match name {
            Some(n) => path_file_name(path@) == Some(n@),
            None => path_file_name(path@) is None,
        },
{
    match std::path::Path::new(path).file_name() {
        Some(n) => Some(n.to_string_lossy().into_owned()),
        None => None,
    }
}

/// The current time as seconds since the Unix epoch, through
/// `time::OffsetDateTime::now_utc().unix_timestamp()`. Nothing is promised of
/// the value: it depends on the clock. (`now_utc` can panic only when the
/// system clock lies outside the years that `time` represents.)
#[verifier::external_body]
fn current_unix_timestamp() -> i64 {
    time::OffsetDateTime::now_utc().unix_timestamp()
}

/// The name under which a file at `path` is listed among the recent files.
pub open spec fn spec_recent_display_name(path: Seq<char>) -> Seq<char> {
    spec_name_or_untitled(path_file_name(path))
}

/// The name under which a file is listed, given the final component of its path.
pub open spec fn spec_name_or_untitled(file_name: Option<Seq<char>>) -> Seq<char> {
    match file_name {
        Some(n) => n,
        None => UNTITLED@,
    }
}

/// The name under which a file is listed among the recent files, given the
/// final component of its path: that component, or `UNTITLED` when there is none.
pub fn recent_display_name(file_name: Option<String>) -> (name: String)
    ensures
        name@ == spec_name_or_untitled(opt_view(file_name)),
        match file_name {
            Some(n) => name == n,
            None => name@ == "Untitled"@,
        },
{
    match file_name {
        Some(n) => n,
        None => String::from_str(UNTITLED),
    }
}

/// A file is listed under the final component of its path whenever the path
/// has one, whatever that component is, and as "Untitled" only when it has none.
pub proof fn law_listed_name(path: Seq<char>, name: Seq<char>)
    ensures
        spec_name_or_untitled(Some(name)) == name,
        spec_name_or_untitled(None) == "Untitled"@,
        path_file_name(path) == Some(name) ==> spec_recent_display_name(path) == name,
        path_file_name(path) is None ==> spec_recent_display_name(path) == "Untitled"@,
{
}

/// The message shown when a recent file can no longer be reached.
pub open spec fn spec_unreachable_message(display_name: Seq<char>) -> Seq<char> {
    "Unable to access "@ + display_name + "."@
}

/// The view of an optional string.
pub open spec fn opt_view(s: Option<String>) -> Option<Seq<char>> {
    match s {
        Some(v) => Some(v@),
        None => None,
    }
}

/// The state of the reader window.
#[derive(Clone, Debug)]
pub struct AppState {
    pub markdown_text: String,
    pub rendered_html: String,
    pub document_name: Option<String>,
    /// The shown file's path, as the bytes the operating system gave.
    pub current_path: Option<Vec<u8>>,
    pub error_message: Option<String>,
    pub auto_reload: bool,
    pub selected_theme: ReaderTheme,
    pub recent_files: Vec<RecentFileRecord>,
    /// Modification time of the shown file, in nanoseconds since the Unix epoch.
    pub last_modified: Option<i128>,
}

impl AppState {
    /// All of `self` but its recent list and error message equals `other`.
    pub open spec fn same_document(self, other: AppState) -> bool {
        &&& self.markdown_text == other.markdown_text
        &&& self.rendered_html == other.rendered_html
        &&& self.document_name == other.document_name
        &&& self.current_path == other.current_path
        &&& self.auto_reload == other.auto_reload
        &&& self.selected_theme == other.selected_theme
        &&& self.last_modified == other.last_modified
    }

    /// The state of a freshly opened window with the stored `settings`.
    pub fn from_settings(settings: StoredSettings) -> (s: Self)
        ensures
            s.markdown_text@ == WELCOME_MARKDOWN@,
            s.rendered_html@ == markdown_html(WELCOME_MARKDOWN@),
            s.document_name is None,
            s.current_path is None,
            s.error_message is None,
            s.auto_reload == settings.auto_reload,
            s.selected_theme == settings.selected_theme,
            s.recent_files@ == settings.recent_files@,
            s.last_modified is None,
    {
        AppState {
            markdown_text: String::from_str(WELCOME_MARKDOWN),
            rendered_html: render_markdown(WELCOME_MARKDOWN),
            document_name: None,
            current_path: None,
            error_message: None,
            auto_reload: settings.auto_reload,
            selected_theme: settings.selected_theme,
            recent_files: settings.recent_files,
            last_modified: None,
        }
    }

    /// The settings to store for this state.
    pub fn to_settings(&self) -> (s: StoredSettings)
        ensures
            s.selected_theme == self.selected_theme,
            s.auto_reload == self.auto_reload,
            s.recent_files@ == self.recent_files@,
    {
        StoredSettings {
            selected_theme: self.selected_theme,
            auto_reload: self.auto_reload,
            recent_files: clone_records(&self.recent_files),
        }
    }

    /// Shows the document read from `path`: its Markdown `content`, the HTML
    /// rendered from it, the name of the document and its modification time;
    /// clears any error. The settings and the recent list stay as they are.
    pub fn show_document(
        &mut self,
        path: Vec<u8>,
        content: String,
        rendered_html: String,
        document_name: Option<String>,
        modified: i128,
    )
        ensures
            final(self).markdown_text == content,
            final(self).rendered_html == rendered_html,
            final(self).document_name == document_name,
            final(self).current_path == Some(path),
            final(self).error_message is None,
            final(self).last_modified == Some(modified),
            final(self).auto_reload == old(self).auto_reload,
            final(self).selected_theme == old(self).selected_theme,
            final(self).recent_files@ == old(self).recent_files@,
    {
        self.markdown_text = content;
        self.rendered_html = rendered_html;
        self.document_name = document_name;
        self.current_path = Some(path);
        self.error_message = None;
        self.last_modified = Some(modified);
    }

    /// `self` shows, after `before`, the file at the path with bytes `path` and
    /// text `text` whose contents are the bytes `data`, modified at `modified`,
    /// and lists it first among the recent files.
    pub open spec fn shows_loaded(
        self,
        before: AppState,
        path: Seq<u8>,
        text: Seq<char>,
        data: Seq<u8>,
        modified: i128,
    ) -> bool {
        &&& self.markdown_text@ == utf8_lossy(data)
        &&& self.rendered_html@ == markdown_html(utf8_lossy(data))
        &&& opt_view(self.document_name) == path_file_name(text)
        &&& self.current_path matches Some(p) && p@ == path
        &&& self.error_message is None
        &&& self.last_modified == Some(modified)
        &&& self.auto_reload == before.auto_reload
        &&& self.selected_theme == before.selected_theme
        &&& exists|record: RecentFileRecord|
            {
                &&& record.path@ == text
                &&& record.display_name@ == spec_recent_display_name(text)
                &&& self.recent_files@ == spec_add_recent(before.recent_files@, record)
            }
    }

    /// Shows the file with path bytes `path` and path text `text`, given what
    /// reading it gave.
    fn load_decoded(
        &mut self,
        path: Vec<u8>,
        text: String,
        read: Result<(Vec<u8>, i128), String>,
    )
        ensures
            match read {
                Ok((data, modified)) => final(self).shows_loaded(
                    *old(self),
                    path@,
                    text@,
                    data@,
                    modified,
                ),
                Err(message) => {
                    &&& final(self).error_message == Some(message)
                    &&& final(self).same_document(*old(self))
                    &&& final(self).recent_files@ == old(self).recent_files@
                },
            },
    {
        match read {
            Ok((data, modified)) => {
                let content = decode_lossy(data.as_slice());
                let html = render_markdown(content.as_str());
                let name = file_name(text.as_str());
                self.add_recent_file(text.as_str());
                self.show_document(path, content, html, name, modified);
            },
            Err(message) => {
                self.error_message = Some(message);
            },
        }
    }

    /// Shows the file at `path` (the bytes the operating system gave) given
    /// what reading it gave: its bytes and modification time, or the message
    /// of the failure. On success the text is decoded as UTF-8, invalid
    /// sequences replaced, and the file becomes the first recent file, opened
    /// now, under the same decoding of its path.
    pub fn load_path(&mut self, path: Vec<u8>, read: Result<(Vec<u8>, i128), String>)
        ensures
            match read {
                Ok((data, modified)) => final(self).shows_loaded(
                    *old(self),
                    path@,
                    utf8_lossy(path@),
                    data@,
                    modified,
                ),
                Err(message) => {
                    &&& final(self).error_message == Some(message)
                    &&& final(self).same_document(*old(self))
                    &&& final(self).recent_files@ == old(self).recent_files@
                },
            },
    {
        let text = decode_lossy(path.as_slice());
        self.load_decoded(path, text, read);
    }

    /// Opens a file of the recent list given what became of it: `None` when its
    /// path no longer exists, which removes it from the list and reports it;
    /// otherwise the outcome of reading it, handled as `load_path` does for the
    /// path that the record names.
    pub fn open_recent(
        &mut self,
        record: &RecentFileRecord,
        read: Option<Result<(Vec<u8>, i128), String>>,
    )
        ensures
            match read {
                None => {
                    &&& opt_view(final(self).error_message) == Some(
                        spec_unreachable_message(record.display_name@),
                    )
                    &&& final(self).recent_files@ == without_path(
                        old(self).recent_files@,
                        record.path@,
                    )
                    &&& final(self).same_document(*old(self))
                },
                Some(Ok((data, modified))) => final(self).shows_loaded(
                    *old(self),
                    encode_utf8(record.path@),
                    record.path@,
                    data@,
                    modified,
                ),
                Some(Err(message)) => {
                    &&& final(self).error_message == Some(message)
                    &&& final(self).same_document(*old(self))
                    &&& final(self).recent_files@ == old(self).recent_files@
                },
            },
    {
        match read {
            None => {
                let mut message = String::from_str("Unable to access ");
                message.append(record.display_name.as_str());
                message.append(".");
                self.error_message = Some(message);
                self.remove_recent_by_path(record.path.as_str());
            },
            Some(outcome) => {
                let bytes = record.path.as_str().as_bytes_vec();
                self.load_decoded(bytes, record.path.clone(), outcome);
            },
        }
    }

    /// Shows an error that the shell met, leaving everything else as it is.
    pub fn report_error(&mut self, message: String)
        ensures
            final(self).error_message == Some(message),
            final(self).same_document(*old(self)),
            final(self).recent_files@ == old(self).recent_files@,
    {
        self.error_message = Some(message);
    }

    /// Empties the recent list.
    pub fn clear_recent_files(&mut self)
        ensures
            final(self).recent_files@ == Seq::<RecentFileRecord>::empty(),
            final(self).same_document(*old(self)),
            final(self).error_message == old(self).error_message,
    {
        self.recent_files.clear();
    }

    /// Puts the file at `path` first in the recent list, opened now.
    fn add_recent_file(&mut self, path: &str)
        ensures
            exists|record: RecentFileRecord|
                {
                    &&& record.path@ == path@
                    &&& record.display_name@ == spec_recent_display_name(path@)
                    &&& final(self).recent_files@ == spec_add_recent(
                        old(self).recent_files@,
                        record,
                    )
                },
            final(self).same_document(*old(self)),
            final(self).error_message == old(self).error_message,
    {
        let opened_at = current_unix_timestamp();
        self.record_recent_file(path, opened_at);
    }

    /// Puts the file at `path` first in the recent list, opened at `opened_at`.
    pub fn record_recent_file(&mut self, path: &str, opened_at: i64)
        ensures
            exists|record: RecentFileRecord|
                {
                    &&& record.path@ == path@
                    &&& record.display_name@ == spec_recent_display_name(path@)
                    &&& record.last_opened == opened_at
                    &&& final(self).recent_files@ == spec_add_recent(
                        old(self).recent_files@,
                        record,
                    )
                },
            final(self).same_document(*old(self)),
            final(self).error_message == old(self).error_message,
    {
        let display_name = recent_display_name(file_name(path));
        let record = RecentFileRecord {
            path: String::from_str(path),
            display_name,
            last_opened: opened_at,
        };
        add_recent_record(&mut self.recent_files, record);
    }

    /// Turns automatic reloading on when it was off and off when it was on,
    /// and tells which it is now.
    pub fn toggle_auto_reload(&mut self) -> (enabled: bool)
        ensures
            final(self).auto_reload == !old(self).auto_reload,
            enabled == final(self).auto_reload,
            final(self).markdown_text == old(self).markdown_text,
            final(self).rendered_html == old(self).rendered_html,
            final(self).document_name == old(self).document_name,
            final(self).current_path == old(self).current_path,
            final(self).selected_theme == old(self).selected_theme,
            final(self).last_modified == old(self).last_modified,
            final(self).error_message == old(self).error_message,
            final(self).recent_files@ == old(self).recent_files@,
    {
        self.auto_reload = !self.auto_reload;
        self.auto_reload
    }

    /// Shows the document in `theme`.
    pub fn select_theme(&mut self, theme: ReaderTheme)
        ensures
            final(self).selected_theme == theme,
            final(self).markdown_text == old(self).markdown_text,
            final(self).rendered_html == old(self).rendered_html,
            final(self).document_name == old(self).document_name,
            final(self).current_path == old(self).current_path,
            final(self).auto_reload == old(self).auto_reload,
            final(self).last_modified == old(self).last_modified,
            final(self).error_message == old(self).error_message,
            final(self).recent_files@ == old(self).recent_files@,
    {
        self.selected_theme = theme;
    }

    /// A copy of the recent record at `index`, if the list is that long.
    pub fn recent_at(&self, index: usize) -> (record: Option<RecentFileRecord>)
        ensures
            record == if index < self.recent_files@.len() {
                Some(self.recent_files@[index as int])
            } else {
                None::<RecentFileRecord>
            },
    {
        if index < self.recent_files.len() {
            Some(self.recent_files[index].clone())
        } else {
            None
        }
    }

    /// Removes every record of `path` from the recent list.
    pub fn remove_recent_by_path(&mut self, path: &str)
        ensures
            final(self).recent_files@ == without_path(old(self).recent_files@, path@),
            final(self).same_document(*old(self)),
            final(self).error_message == old(self).error_message,
    {
        self.recent_files = records_without_path(&self.recent_files, path);
    }
}

} // verus!
