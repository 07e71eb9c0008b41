//! The user's settings.
use vstd::prelude::*;

verus! {

/// The interface language.
#[derive(Debug, Clone, Copy, PartialEq, Eq, Structural)]
pub enum Language {
    EN,
    RU,
}

/// The saved settings: the chosen language, if any.
#[derive(Debug, Clone, Copy, PartialEq, Eq, Structural)]
pub struct AppConfig {
    pub language: Option<Language>,
}

impl AppConfig {
    /// The settings used when none are saved or they cannot be read.
    pub fn unset() -> (r: AppConfig)
        ensures
            r.language is None,
    {
        AppConfig { language: None }
    }
}

} // verus!
