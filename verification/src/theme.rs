//! The user-selected app theme.

use vstd::prelude::*;

use crate::text::str_eq;

verus! {

/// The user-selected app theme.
#[derive(Clone, Copy, Debug, PartialEq, Eq, Structural)]
pub enum ThemePreference {
    Light,
    Dark,
}

/// The daisyUI theme name of a preference.
pub open spec fn data_theme(t: ThemePreference) -> Seq<char> {
    match t {
        ThemePreference::Light => "light"@,
        ThemePreference::Dark => "dark"@,
    }
}

/// The preference a persisted theme name names, if any.
pub open spec fn theme_from(value: Seq<char>) -> Option<ThemePreference> {
    if value == "light"@ {
        Some(ThemePreference::Light)
    } else if value == "dark"@ {
        Some(ThemePreference::Dark)
    } else {
        None
    }
}

impl ThemePreference {
    /// The daisyUI theme name for this preference.
    pub fn as_data_theme(self) -> (s: &'static str)
        ensures
            s@ == data_theme(self),
    {
        match self {
            ThemePreference::Light => "light",
            ThemePreference::Dark => "dark",
        }
    }

    /// Parse a persisted daisyUI theme name.
    pub fn from_data_theme(value: &str) -> (r: Option<ThemePreference>)
        ensures
            r == theme_from(value@),
    {
        if str_eq(value, "light") {
            Some(ThemePreference::Light)
        } else if str_eq(value, "dark") {
            Some(ThemePreference::Dark)
        } else {
            None
        }
    }
}

/// Reading back a persisted theme name gives the same preference.
pub proof fn law_theme_round_trip(t: ThemePreference)
    ensures
        theme_from(data_theme(t)) == Some(t),
{
    reveal_strlit("light");
    reveal_strlit("dark");
    assert("light"@.len() != "dark"@.len());
}

} // verus!
