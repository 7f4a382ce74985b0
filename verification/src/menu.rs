//! Identifiers of the application menu, what an activated item asks for,
//! and how the theme and recent-file menus should look.

use vstd::prelude::*;
use crate::recent::RecentFileRecord;
use crate::text::{
    decimal, format_usize, lemma_parse_decimal, parse_usize, spec_parse_usize, spec_strip_prefix,
    str_equal, strip_prefix,
};
use crate::theme::ReaderTheme;

verus! {

pub const MENU_OPEN: &'static str = "mreader.open";
pub const MENU_AUTO_RELOAD: &'static str = "mreader.auto_reload";
pub const MENU_CLEAR_RECENT: &'static str = "mreader.clear_recent";
pub const MENU_THEME_GITHUB: &'static str = "mreader.theme.github";
pub const MENU_THEME_DOCC: &'static str = "mreader.theme.docc";
pub const MENU_THEME_BASIC: &'static str = "mreader.theme.basic";
pub const MENU_THEME_GITHUB_DARK: &'static str = "mreader.theme.github.dark";
pub const MENU_THEME_DOCC_DARK: &'static str = "mreader.theme.docc.dark";
pub const MENU_THEME_BASIC_DARK: &'static str = "mreader.theme.basic.dark";
pub const MENU_RECENT_PREFIX: &'static str = "mreader.recent.";
pub const MENU_RECENT_EMPTY: &'static str = "mreader.recent.empty";

/// Label of the disabled item shown when the recent list is empty.
pub const RECENT_EMPTY_LABEL: &'static str = "No Recent Files";
/// Label of the item that empties the recent list.
pub const CLEAR_RECENT_LABEL: &'static str = "Clear Menu";

/// The menu identifier of the item that selects `theme`.
pub open spec fn spec_theme_menu_id(theme: ReaderTheme) -> Seq<char> {
    match theme {
        ReaderTheme::GitHub => MENU_THEME_GITHUB@,
        ReaderTheme::DocC => MENU_THEME_DOCC@,
        ReaderTheme::Basic => MENU_THEME_BASIC@,
        ReaderTheme::GitHubDark => MENU_THEME_GITHUB_DARK@,
        ReaderTheme::DocCDark => MENU_THEME_DOCC_DARK@,
        ReaderTheme::BasicDark => MENU_THEME_BASIC_DARK@,
    }
}

/// The theme that the menu item `id` selects, if any.
pub open spec fn spec_theme_from_id(id: Seq<char>) -> Option<ReaderTheme> {
    if id == MENU_THEME_GITHUB@ {
        Some(ReaderTheme::GitHub)
    } else if id == MENU_THEME_DOCC@ {
        Some(ReaderTheme::DocC)
    } else if id == MENU_THEME_BASIC@ {
        Some(ReaderTheme::Basic)
    } else if id == MENU_THEME_GITHUB_DARK@ {
        Some(ReaderTheme::GitHubDark)
    } else if id == MENU_THEME_DOCC_DARK@ {
        Some(ReaderTheme::DocCDark)
    } else if id == MENU_THEME_BASIC_DARK@ {
        Some(ReaderTheme::BasicDark)
    } else {
        None
    }
}

/// The index of the recent file that the menu item `id` opens, if any: the
/// identifier is the recent prefix followed by a number.
pub open spec fn spec_recent_index_from_id(id: Seq<char>) -> Option<usize> {
    match spec_strip_prefix(id, MENU_RECENT_PREFIX@) {
        Some(rest) => spec_parse_usize(rest),
        None => None,
    }
}

/// The menu identifier of the recent file at `index`.
pub open spec fn spec_recent_item_id(index: usize) -> Seq<char> {
    MENU_RECENT_PREFIX@ + decimal(index as nat)
}

/// The menu identifier of the item that selects `theme`.
pub fn theme_menu_id(theme: ReaderTheme) -> (id: &'static str)
    ensures
        id@ == spec_theme_menu_id(theme),
{
    match theme {
        ReaderTheme::GitHub => MENU_THEME_GITHUB,
        ReaderTheme::DocC => MENU_THEME_DOCC,
        ReaderTheme::Basic => MENU_THEME_BASIC,
        ReaderTheme::GitHubDark => MENU_THEME_GITHUB_DARK,
        ReaderTheme::DocCDark => MENU_THEME_DOCC_DARK,
        ReaderTheme::BasicDark => MENU_THEME_BASIC_DARK,
    }
}

pub fn theme_from_id(id: &str) -> (theme: Option<ReaderTheme>)
    ensures
        theme == spec_theme_from_id(id@),
{
    if str_equal(id, MENU_THEME_GITHUB) {
        Some(ReaderTheme::GitHub)
    } else if str_equal(id, MENU_THEME_DOCC) {
        Some(ReaderTheme::DocC)
    } else if str_equal(id, MENU_THEME_BASIC) {
        Some(ReaderTheme::Basic)
    } else if str_equal(id, MENU_THEME_GITHUB_DARK) {
        Some(ReaderTheme::GitHubDark)
    } else if str_equal(id, MENU_THEME_DOCC_DARK) {
        Some(ReaderTheme::DocCDark)
    } else if str_equal(id, MENU_THEME_BASIC_DARK) {
        Some(ReaderTheme::BasicDark)
    } else {
        None
    }
}

pub fn recent_index_from_id(id: &str) -> (index: Option<usize>)
    ensures
        index == spec_recent_index_from_id(id@),
{
    match strip_prefix(id, MENU_RECENT_PREFIX) {
        Some(suffix) => parse_usize(suffix),
        None => None,
    }
}

/// The menu identifier of the recent file at `index`.
pub fn recent_item_id(index: usize) -> (id: String)
    ensures
        id@ == spec_recent_item_id(index),
{
    let mut id = String::from_str(MENU_RECENT_PREFIX);
    let digits = format_usize(index);
    id.append(digits.as_str());
    id
}

/// Which theme items carry a check mark.
pub struct ThemeChecks {
    pub github: bool,
    pub docc: bool,
    pub basic: bool,
    pub github_dark: bool,
    pub docc_dark: bool,
    pub basic_dark: bool,
}

/// The check marks of the theme menu when `theme` is selected: the item of
/// the selected theme and no other.
pub fn sync_theme(theme: ReaderTheme) -> (checks: ThemeChecks)
    ensures
        checks.github == (theme == ReaderTheme::GitHub),
        checks.docc == (theme == ReaderTheme::DocC),
        checks.basic == (theme == ReaderTheme::Basic),
        checks.github_dark == (theme == ReaderTheme::GitHubDark),
        checks.docc_dark == (theme == ReaderTheme::DocCDark),
        checks.basic_dark == (theme == ReaderTheme::BasicDark),
{
    ThemeChecks {
        github: theme == ReaderTheme::GitHub,
        docc: theme == ReaderTheme::DocC,
        basic: theme == ReaderTheme::Basic,
        github_dark: theme == ReaderTheme::GitHubDark,
        docc_dark: theme == ReaderTheme::DocCDark,
        basic_dark: theme == ReaderTheme::BasicDark,
    }
}

/// One entry of the recent-files submenu.
pub enum RecentMenuEntry {
    Item { id: String, label: String, enabled: bool },
    Separator,
}

/// The recent-files submenu: whether it can be opened, and its entries.
pub struct RecentMenu {
    pub enabled: bool,
    pub entries: Vec<RecentMenuEntry>,
}

/// `entry` is an item with the given identifier, label and enabled state.
pub open spec fn is_item(entry: RecentMenuEntry, id: Seq<char>, label: Seq<char>, enabled: bool) -> bool {
    match entry {
        RecentMenuEntry::Item { id: i, label: l, enabled: e } => i@ == id && l@ == label && e
            == enabled,
        RecentMenuEntry::Separator => false,
    }
}

/// The shape of the recent-files submenu for `recent`: a disabled submenu
/// with a disabled placeholder when the list is empty; otherwise one enabled
/// item per file, labelled with its name and identified by its index, then a
/// separator and the item that clears the list.
pub open spec fn recent_menu_shows(menu: RecentMenu, recent: Seq<RecentFileRecord>) -> bool {
    if recent.len() == 0 {
        &&& !menu.enabled
        &&& menu.entries@.len() == 1
        &&& is_item(menu.entries@[0], MENU_RECENT_EMPTY@, RECENT_EMPTY_LABEL@, false)
    } else {
        &&& menu.enabled
        &&& menu.entries@.len() == recent.len() + 2
        &&& forall|i: int|
            0 <= i < recent.len() ==> is_item(
                #[trigger] menu.entries@[i],
                spec_recent_item_id(i as usize),
                recent[i].display_name@,
                true,
            )
        &&& menu.entries@[recent.len() as int] is Separator
        &&& is_item(
            menu.entries@[recent.len() + 1 as int],
            MENU_CLEAR_RECENT@,
            CLEAR_RECENT_LABEL@,
            true,
        )
    }
}

/// How the recent-files submenu should look for the list `recent`.
pub fn sync_recent_menu(recent: &[RecentFileRecord]) -> (menu: RecentMenu)
    ensures
        recent_menu_shows(menu, recent@),
{
    if recent.len() == 0 {
        let mut entries: Vec<RecentMenuEntry> = Vec::new();
        entries.push(
            RecentMenuEntry::Item {
                id: String::from_str(MENU_RECENT_EMPTY),
                label: String::from_str(RECENT_EMPTY_LABEL),
                enabled: false,
            },
        );
        return RecentMenu { enabled: false, entries };
    }
    let mut entries: Vec<RecentMenuEntry> = Vec::new();
    let mut index: usize = 0;
    while index < recent.len()
        invariant
            index <= recent@.len(),
            entries@.len() == index,
            forall|i: int|
                0 <= i < index ==> is_item(
                    #[trigger] entries@[i],
                    spec_recent_item_id(i as usize),
                    recent@[i].display_name@,
                    true,
                ),
        decreases recent@.len() - index,
    {
        entries.push(
            RecentMenuEntry::Item {
                id: recent_item_id(index),
                label: recent[index].display_name.clone(),
                enabled: true,
            },
        );
        index = index + 1;
    }
    entries.push(RecentMenuEntry::Separator);
    entries.push(
        RecentMenuEntry::Item {
            id: String::from_str(MENU_CLEAR_RECENT),
            label: String::from_str(CLEAR_RECENT_LABEL),
            enabled: true,
        },
    );
    RecentMenu { enabled: true, entries }
}

/// What activating a menu item asks the application to do.
#[derive(Clone, Copy, Debug, PartialEq, Eq, Structural)]
pub enum MenuCommand {
    Open,
    ClearRecent,
    ToggleAutoReload,
    SelectTheme(ReaderTheme),
    OpenRecent(usize),
    Ignore,
}

/// The command of the menu item `id`.
pub open spec fn spec_menu_command(id: Seq<char>) -> MenuCommand {
    if id == MENU_OPEN@ {
        MenuCommand::Open
    } else if id == MENU_CLEAR_RECENT@ {
        MenuCommand::ClearRecent
    } else if id == MENU_AUTO_RELOAD@ {
        MenuCommand::ToggleAutoReload
    } else if let Some(theme) = spec_theme_from_id(id) {
        MenuCommand::SelectTheme(theme)
    } else if let Some(index) = spec_recent_index_from_id(id) {
        MenuCommand::OpenRecent(index)
    } else {
        MenuCommand::Ignore
    }
}

/// Decides what the activated menu item `id` asks for, in the order the
/// application tests the identifiers.
pub fn menu_command(id: &str) -> (command: MenuCommand)
    ensures
        command == spec_menu_command(id@),
{
    if str_equal(id, MENU_OPEN) {
        MenuCommand::Open
    } else if str_equal(id, MENU_CLEAR_RECENT) {
        MenuCommand::ClearRecent
    } else if str_equal(id, MENU_AUTO_RELOAD) {
        MenuCommand::ToggleAutoReload
    } else if let Some(theme) = theme_from_id(id) {
        MenuCommand::SelectTheme(theme)
    } else if let Some(index) = recent_index_from_id(id) {
        MenuCommand::OpenRecent(index)
    } else {
        MenuCommand::Ignore
    }
}

/// The characters of the fixed menu identifiers that tell them apart.
proof fn lemma_menu_id_chars()
    ensures
        MENU_OPEN@.len() == 12 && MENU_OPEN@[8] == 'o',
        MENU_AUTO_RELOAD@.len() == 19 && MENU_AUTO_RELOAD@[8] == 'a',
        MENU_CLEAR_RECENT@.len() == 20 && MENU_CLEAR_RECENT@[8] == 'c',
        MENU_THEME_GITHUB@.len() == 20 && MENU_THEME_GITHUB@[8] == 't',
        MENU_THEME_DOCC@.len() == 18 && MENU_THEME_DOCC@[8] == 't',
        MENU_THEME_BASIC@.len() == 19 && MENU_THEME_BASIC@[8] == 't',
        MENU_THEME_GITHUB_DARK@.len() == 25 && MENU_THEME_GITHUB_DARK@[8] == 't',
        MENU_THEME_DOCC_DARK@.len() == 23 && MENU_THEME_DOCC_DARK@[8] == 't',
        MENU_THEME_BASIC_DARK@.len() == 24 && MENU_THEME_BASIC_DARK@[8] == 't',
        MENU_RECENT_PREFIX@.len() == 15 && MENU_RECENT_PREFIX@[8] == 'r',
        MENU_RECENT_EMPTY@.len() == 20,
        MENU_RECENT_EMPTY@.subrange(0, 15) == MENU_RECENT_PREFIX@,
        MENU_RECENT_EMPTY@[15] == 'e',
{
    reveal_strlit("mreader.open");
    reveal_strlit("mreader.auto_reload");
    reveal_strlit("mreader.clear_recent");
    reveal_strlit("mreader.theme.github");
    reveal_strlit("mreader.theme.docc");
    reveal_strlit("mreader.theme.basic");
    reveal_strlit("mreader.theme.github.dark");
    reveal_strlit("mreader.theme.docc.dark");
    reveal_strlit("mreader.theme.basic.dark");
    reveal_strlit("mreader.recent.");
    reveal_strlit("mreader.recent.empty");
    assert(MENU_RECENT_EMPTY@.subrange(0, 15) =~= MENU_RECENT_PREFIX@);
}

/// The item of a theme selects that theme, and nothing else decides first.
pub proof fn law_theme_menu_round_trip(theme: ReaderTheme)
    ensures
        spec_theme_from_id(spec_theme_menu_id(theme)) == Some(theme),
        spec_menu_command(spec_theme_menu_id(theme)) == MenuCommand::SelectTheme(theme),
{
    lemma_menu_id_chars();
}

/// The item of the recent file at `index` opens the recent file at `index`.
pub proof fn law_recent_item_round_trip(index: usize)
    ensures
        spec_recent_index_from_id(spec_recent_item_id(index)) == Some(index),
        spec_menu_command(spec_recent_item_id(index)) == MenuCommand::OpenRecent(index),
{
    lemma_menu_id_chars();
    let id = spec_recent_item_id(index);
    let p = MENU_RECENT_PREFIX@;
    assert(id.subrange(0, p.len() as int) =~= p);
    assert(id.skip(p.len() as int) =~= decimal(index as nat));
    lemma_parse_decimal(index);
}

/// Every item of the recent-files submenu asks for what it shows: the item of
/// a file opens that file, the last item clears the list, and the placeholder
/// of an empty list does nothing.
pub proof fn law_recent_menu_commands(menu: RecentMenu, recent: Seq<RecentFileRecord>)
    requires
        recent_menu_shows(menu, recent),
    ensures
        forall|i: int|
            0 <= i < menu.entries@.len() ==> match #[trigger] menu.entries@[i] {
                RecentMenuEntry::Item { id, .. } => spec_menu_command(id@) == if recent.len()
                    == 0 {
                    MenuCommand::Ignore
                } else if i < recent.len() {
                    MenuCommand::OpenRecent(i as usize)
                } else {
                    MenuCommand::ClearRecent
                },
                RecentMenuEntry::Separator => true,
            },
{
    lemma_menu_id_chars();
    if recent.len() == 0 {
        let id = MENU_RECENT_EMPTY@;
        let p = MENU_RECENT_PREFIX@;
        assert(id.subrange(0, p.len() as int) =~= p);
        assert(id.skip(p.len() as int)[0] == 'e');
    } else {
        assert forall|i: int| 0 <= i < menu.entries@.len() implies match #[trigger] menu.entries@[i] {
            RecentMenuEntry::Item { id, .. } => spec_menu_command(id@) == if recent.len() == 0 {
                MenuCommand::Ignore
            } else if i < recent.len() {
                MenuCommand::OpenRecent(i as usize)
            } else {
                MenuCommand::ClearRecent
            },
            RecentMenuEntry::Separator => true,
        } by {
            if i < recent.len() {
                law_recent_item_round_trip(i as usize);
            }
        }
    }
}

} // verus!
