//! The two colour themes of the interface.
use vstd::prelude::*;
use crate::text::str_eq;

verus! {

/// A terminal colour, as the interface names it.
#[derive(Clone, Copy, Debug, PartialEq, Eq, Structural)]
pub enum Color {
    Cyan,
    Yellow,
    Green,
    LightGreen,
    Red,
    LightRed,
    Blue,
    Magenta,
    Gray,
    DarkGray,
    /// A colour of the 256-colour palette.
    Indexed(u8),
}

/// The colours the interface draws with.
#[derive(Clone, Copy, Debug, PartialEq, Eq, Structural)]
pub struct Theme {
    /// Titles, labels, section headers.
    pub accent: Color,
    /// Shortcuts, the active field, highlighted items.
    pub active: Color,
    /// Visible passwords, confirmations, checkboxes.
    pub success: Color,
    /// Errors and delete warnings.
    pub error: Color,
    /// Hints, secondary text, dates.
    pub muted: Color,
    /// Tags.
    pub tag: Color,
    /// Folder icons and names.
    pub folder: Color,
    /// Background of the selected list row.
    pub highlight_bg: Color,
}

/// The dark theme.
pub open spec fn dark_theme() -> Theme {
    Theme {
        accent: Color::Cyan,
        active: Color::Yellow,
        success: Color::Green,
        error: Color::Red,
        muted: Color::DarkGray,
        tag: Color::Magenta,
        folder: Color::Yellow,
        highlight_bg: Color::DarkGray,
    }
}

/// The light theme.
pub open spec fn light_theme() -> Theme {
    Theme {
        accent: Color::Blue,
        active: Color::Red,
        success: Color::Green,
        error: Color::LightRed,
        muted: Color::Gray,
        tag: Color::Magenta,
        folder: Color::Blue,
        highlight_bg: Color::Indexed(254),
    }
}

/// The theme a configured name selects: "light" selects the light theme,
/// every other name the dark one.
pub open spec fn theme_named(name: Seq<char>) -> Theme {
    if name == "light"@ {
        light_theme()
    } else {
        dark_theme()
    }
}

impl Theme {
    /// The dark theme.
    pub fn dark() -> (t: Self)
        ensures
            t == dark_theme(),
    {
        Theme {
            accent: Color::Cyan,
            active: Color::Yellow,
            success: Color::Green,
            error: Color::Red,
            muted: Color::DarkGray,
            tag: Color::Magenta,
            folder: Color::Yellow,
            highlight_bg: Color::DarkGray,
        }
    }

    /// The light theme.
    pub fn light() -> (t: Self)
        ensures
            t == light_theme(),
    {
        Theme {
            accent: Color::Blue,
            active: Color::Red,
            success: Color::Green,
            error: Color::LightRed,
            muted: Color::Gray,
            tag: Color::Magenta,
            folder: Color::Blue,
            highlight_bg: Color::Indexed(254),
        }
    }

    /// The theme a configured name selects.
    pub fn from_name(name: &str) -> (t: Self)
        ensures
            t == theme_named(name@),
    {
        if str_eq(name, "light") {
            Self::light()
        } else {
            Self::dark()
        }
    }
}

/// The theme names, in the order the settings cycle through them.
pub open spec fn theme_options() -> Seq<Seq<char>> {
    seq!["dark"@, "light"@]
}

/// How many theme names there are.
pub const THEME_COUNT: usize = 2;

/// The theme name at a position of the cycle.
pub fn theme_option(i: usize) -> (name: &'static str)
    requires
        i < THEME_COUNT,
    ensures
        name@ == theme_options()[i as int],
{
    if i == 0 {
        "dark"
    } else {
        "light"
    }
}

} // verus!
