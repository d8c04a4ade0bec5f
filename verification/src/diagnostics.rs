//! Network diagnostics: whether they are collected.
use crate::repo::{in_directory, Repo};
use crate::text::copy_opt;
use vstd::prelude::*;

verus! {

/// The file in which the settings are kept.
pub const DIAGNOSTICS_SETTINGS_FILE: &'static str = "diagnostics_settings.yml";

/// What the user has chosen for diagnostics.
#[derive(Debug, Clone, Copy, PartialEq, Eq, Structural)]
pub struct DiagnosticsSettings {
    /// Whether diagnostics are collected.
    pub enabled: bool,
    /// Whether the user has been asked.
    pub prompted: bool,
}

impl Default for DiagnosticsSettings {
    fn default() -> (r: Self)
        ensures
            r == (DiagnosticsSettings { enabled: true, prompted: false }),
    {
        DiagnosticsSettings { enabled: true, prompted: false }
    }
}

/// The text of the key for the diagnostics service: that of the environment, else the one set at
/// build time.
pub fn iroh_services_api_key(env: &Option<String>, build: &Option<String>) -> (r: Option<String>)
    ensures
        r == (if env is Some {
            *env
        } else {
            *build
        }),
{
    if env.is_some() {
        copy_opt(env)
    } else {
        copy_opt(build)
    }
}

impl Repo {
    /// The file of the diagnostics settings.
    pub fn diagnostics_settings_file(&self) -> (r: String)
        ensures
            r@ == in_directory(self@, DIAGNOSTICS_SETTINGS_FILE@),
    {
        proof {
            reveal_strlit("diagnostics_settings.yml");
        }
        self.file(DIAGNOSTICS_SETTINGS_FILE)
    }

    /// The diagnostics settings, given those of the file; without a file the default ones.
    pub fn diagnostics_settings(stored: Option<DiagnosticsSettings>) -> (r: DiagnosticsSettings)
        ensures
            r == (match stored {
                Some(s) => s,
                None => DiagnosticsSettings { enabled: true, prompted: false },
            }),
    {
        match stored {
            Some(s) => s,
            None => DiagnosticsSettings::default(),
        }
    }
}

} // verus!
