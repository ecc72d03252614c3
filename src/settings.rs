use vstd::prelude::*;

verus! {

/// The name under which the settings are stored in a cookie.
pub const SETTINGS_KEY: &'static str = "settings";

/// The theme used when none was chosen.
pub const DEFAULT_THEME: &'static str = "github-dark";

/// A reader's settings.
#[derive(Debug, Clone, PartialEq, Eq)]
pub struct Settings {
    pub theme: String,
}

impl Default for Settings {
    fn default() -> (r: Settings)
        ensures
            r.theme@ == DEFAULT_THEME@,
    {
        Settings { theme: String::from_str(DEFAULT_THEME) }
    }
}

/// A colour theme that readers can choose.
#[derive(Debug, Clone, PartialEq, Eq)]
pub struct Theme {
    pub id: String,
    pub name: String,
}

/// The themes on offer.
#[derive(Debug, Clone, PartialEq, Eq)]
pub struct ThemeConfig {
    pub themes: Vec<Theme>,
}

/// The settings name one of the themes.
pub open spec fn valid_among(s: Settings, themes: Seq<Theme>) -> bool {
    exists|i: int| 0 <= i < themes.len() && (#[trigger] themes[i]).id@ == s.theme@
}

impl Settings {
    /// Whether the chosen theme is one of `themes`.
    pub fn is_valid(&self, themes: &Vec<Theme>) -> (r: bool)
        ensures
            r == valid_among(*self, themes@),
    {
        let mut i: usize = 0;
        while i < themes.len()
            invariant
                0 <= i <= themes@.len(),
                forall|j: int| 0 <= j < i ==> (#[trigger] themes@[j]).id@ != self.theme@,
            decreases themes@.len() - i,
        {
            if themes[i].id == self.theme {
                return true;
            }
            i = i + 1;
        }
        false
    }
}

/// The settings to use: those read from the reader's cookie where there were any and
/// they name a known theme, else the defaults.
pub fn settings_or_default(stored: Option<Settings>, themes: &Vec<Theme>) -> (r: Settings)
    ensures
        match stored {
            Some(s) => if valid_among(s, themes@) {
                r == s
            } else {
                r.theme@ == DEFAULT_THEME@
            },
            None => r.theme@ == DEFAULT_THEME@,
        },
{
    match stored {
        Some(s) => if s.is_valid(themes) {
            s
        } else {
            Settings::default()
        },
        None => Settings::default(),
    }
}

} // verus!
