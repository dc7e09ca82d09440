//! What a run is configured with.

use vstd::prelude::*;

verus! {

/// The endpoint that is used where none is chosen.
pub const DEFAULT_ENDPOINT: &'static str = "http://localhost:11434/api/generate";

/// The model that is used where none is chosen.
pub const DEFAULT_MODEL: &'static str = "llama3:instruct";

/// The directory that is searched for notes where none is chosen.
pub const DEFAULT_NOTES_PATH: &'static str = "./notes";

/// The settings of one run, put together once at startup and handed on by
/// value.
#[derive(Debug, Clone, PartialEq, Eq)]
pub struct Config {
    /// The URL of the generation service.
    pub endpoint: String,
    /// The identifier of the model that is to answer.
    pub model: String,
    /// The directory that holds the notes.
    pub notes_path: String,
}

/// The chosen value where there is one, the default otherwise.
pub open spec fn chosen_or(chosen: Option<String>, default: Seq<char>) -> Seq<char> {
    match chosen {
        Some(value) => value@,
        None => default,
    }
}

impl Config {
    /// The settings that result from the given overrides: each one that is
    /// set is taken as it is, even where it is empty, and each one that is
    /// not set falls back to its default.
    pub fn resolve(
        endpoint: Option<String>,
        model: Option<String>,
        notes_path: Option<String>,
    ) -> (config: Config)
        ensures
            config.endpoint@ == chosen_or(endpoint, DEFAULT_ENDPOINT@),
            config.model@ == chosen_or(model, DEFAULT_MODEL@),
            config.notes_path@ == chosen_or(notes_path, DEFAULT_NOTES_PATH@),
    {
        Config {
            endpoint: match endpoint {
                Some(value) => value,
                None => String::from_str(DEFAULT_ENDPOINT),
            },
            model: match model {
                Some(value) => value,
                None => String::from_str(DEFAULT_MODEL),
            },
            notes_path: match notes_path {
                Some(value) => value,
                None => String::from_str(DEFAULT_NOTES_PATH),
            },
        }
    }
}

} // verus!
