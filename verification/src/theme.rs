//! Reader themes and their names.

use vstd::prelude::*;
use crate::text::str_equal;

verus! {

/// The visual theme of the reader pane.
#[derive(Clone, Copy, Debug, PartialEq, Eq, Structural)]
pub enum ReaderTheme {
    GitHub,
    DocC,
    Basic,
    GitHubDark,
    DocCDark,
    BasicDark,
}

/// The name shown to the user for a theme.
pub open spec fn spec_display_name(theme: ReaderTheme) -> Seq<char> {
    match theme {
        ReaderTheme::GitHub => "GitHub"@,
        ReaderTheme::DocC => "DocC"@,
        ReaderTheme::Basic => "Basic"@,
        ReaderTheme::GitHubDark => "GitHub Dark"@,
        ReaderTheme::DocCDark => "DocC Dark"@,
        ReaderTheme::BasicDark => "Basic Dark"@,
    }
}

/// The stored value of a theme, as written to the settings file.
pub open spec fn spec_value(theme: ReaderTheme) -> Seq<char> {
    match theme {
        ReaderTheme::GitHub => "github"@,
        ReaderTheme::DocC => "docc"@,
        ReaderTheme::Basic => "basic"@,
        ReaderTheme::GitHubDark => "github-dark"@,
        ReaderTheme::DocCDark => "docc-dark"@,
        ReaderTheme::BasicDark => "basic-dark"@,
    }
}

/// The CSS class that styles the reader pane in a theme.
pub open spec fn spec_css_class(theme: ReaderTheme) -> Seq<char> {
    match theme {
        ReaderTheme::GitHub => "theme-github"@,
        ReaderTheme::DocC => "theme-docc"@,
        ReaderTheme::Basic => "theme-basic"@,
        ReaderTheme::GitHubDark => "theme-github-dark"@,
        ReaderTheme::DocCDark => "theme-docc-dark"@,
        ReaderTheme::BasicDark => "theme-basic-dark"@,
    }
}

/// The theme whose stored value is `value`, if any.
pub open spec fn spec_from_value(value: Seq<char>) -> Option<ReaderTheme> {
    if value == "github"@ {
        Some(ReaderTheme::GitHub)
    } else if value == "docc"@ {
        Some(ReaderTheme::DocC)
    } else if value == "basic"@ {
        Some(ReaderTheme::Basic)
    } else if value == "github-dark"@ {
        Some(ReaderTheme::GitHubDark)
    } else if value == "docc-dark"@ {
        Some(ReaderTheme::DocCDark)
    } else if value == "basic-dark"@ {
        Some(ReaderTheme::BasicDark)
    } else {
        None
    }
}

impl ReaderTheme {
    /// Every theme, in the order the theme picker lists them.
    pub const ALL: [ReaderTheme; 6] = [
        ReaderTheme::GitHub,
        ReaderTheme::DocC,
        ReaderTheme::Basic,
        ReaderTheme::GitHubDark,
        ReaderTheme::DocCDark,
        ReaderTheme::BasicDark,
    ];

    pub fn display_name(self) -> (name: &'static str)
        ensures
            name@ == spec_display_name(self),
    {
        match self {
            ReaderTheme::GitHub => "GitHub",
            ReaderTheme::DocC => "DocC",
            ReaderTheme::Basic => "Basic",
            ReaderTheme::GitHubDark => "GitHub Dark",
            ReaderTheme::DocCDark => "DocC Dark",
            ReaderTheme::BasicDark => "Basic Dark",
        }
    }

    pub fn value(self) -> (v: &'static str)
        ensures
            v@ == spec_value(self),
    {
        match self {
            ReaderTheme::GitHub => "github",
            ReaderTheme::DocC => "docc",
            ReaderTheme::Basic => "basic",
            ReaderTheme::GitHubDark => "github-dark",
            ReaderTheme::DocCDark => "docc-dark",
            ReaderTheme::BasicDark => "basic-dark",
        }
    }

    pub fn css_class(self) -> (class: &'static str)
        ensures
            class@ == spec_css_class(self),
    {
        match self {
            ReaderTheme::GitHub => "theme-github",
            ReaderTheme::DocC => "theme-docc",
            ReaderTheme::Basic => "theme-basic",
            ReaderTheme::GitHubDark => "theme-github-dark",
            ReaderTheme::DocCDark => "theme-docc-dark",
            ReaderTheme::BasicDark => "theme-basic-dark",
        }
    }

    pub fn from_value(value: &str) -> (theme: Option<Self>)
        ensures
            theme == spec_from_value(value@),
    {
        if str_equal(value, "github") {
            Some(ReaderTheme::GitHub)
        } else if str_equal(value, "docc") {
            Some(ReaderTheme::DocC)
        } else if str_equal(value, "basic") {
            Some(ReaderTheme::Basic)
        } else if str_equal(value, "github-dark") {
            Some(ReaderTheme::GitHubDark)
        } else if str_equal(value, "docc-dark") {
            Some(ReaderTheme::DocCDark)
        } else if str_equal(value, "basic-dark") {
            Some(ReaderTheme::BasicDark)
        } else {
            None
        }
    }
}

/// Reading back the stored value of a theme gives the same theme.
pub proof fn law_theme_value_round_trip(theme: ReaderTheme)
    ensures
        spec_from_value(spec_value(theme)) == Some(theme),
{
    reveal_strlit("github");
    reveal_strlit("docc");
    reveal_strlit("basic");
    reveal_strlit("github-dark");
    reveal_strlit("docc-dark");
    reveal_strlit("basic-dark");
    assert("github"@.len() == 6);
    assert("docc"@.len() == 4);
    assert("basic"@.len() == 5);
    assert("github-dark"@.len() == 11);
    assert("docc-dark"@.len() == 9);
    assert("basic-dark"@.len() == 10);
}

} // verus!
