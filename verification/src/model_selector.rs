//! Which model backend a configuration value selects. Reading the
//! configuration itself is the caller's part; the decision stands here.

use vstd::prelude::*;

verus! {

/// The model backends on offer.
#[derive(Debug, Clone, Copy, PartialEq, Eq, Structural)]
pub enum ModelType {
    Local,
    Gemini,
}

impl ModelType {
    /// The backend a configuration value selects: exactly `gemini` picks the
    /// Gemini backend; anything else — `local`, another value, or none at
    /// all — falls back to the local one.
    pub fn from_setting(setting: &Option<String>) -> (r: ModelType)
        ensures
            r == (match setting {
                Some(s) => if s@ == "gemini"@ {
                    ModelType::Gemini
                } else {
                    ModelType::Local
                },
                None => ModelType::Local,
            }),
    {
        match setting {
            Some(s) => {
                if s.eq(&String::from_str("gemini")) {
                    ModelType::Gemini
                } else {
                    ModelType::Local
                }
            },
            None => ModelType::Local,
        }
    }
}

} // verus!
