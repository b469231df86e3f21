//! Resolution and normalization of the affix/dictionary data files that a
//! spell-checking engine needs for a language code.
//!
//! The library computes where the two data files of a language live, decides
//! in what order local directories, a cache and a network source are
//! consulted, and normalizes a fetched file to UTF-8, rewriting its embedded
//! `SET <encoding>` directive. All filesystem and network effects are issued
//! as explicit actions that a thin driver performs; the decisions between
//! them are verified here.

use vstd::prelude::*;

pub mod config;
pub mod encoding;
pub mod error;
pub mod provider;
pub mod resolver;

pub use config::Config;
pub use config::DictionariesConfig;
pub use config::SourceConfig;
pub use encoding::detect_encoding;
pub use encoding::normalize;
pub use error::ErrorModel;
pub use error::SpellError;
pub use provider::DataResolver;
pub use provider::LangProvider;
pub use resolver::Action;
pub use resolver::Event;
pub use resolver::FileResolver;
pub use resolver::WriteFailure;

verus! {

/// Result of checking one word: either it is correct, or it is not and
/// corrections are suggested.
#[derive(Debug)]
pub enum SpellResult {
    /// The checked word was correct.
    Correct,
    /// The checked word was incorrect, suggestions for correction are available.
    Incorrect { suggestions: Vec<String> },
}

impl SpellResult {
    /// Returns `true` when it is a correct result, `false` otherwise.
    pub fn correct(&self) -> (r: bool)
        ensures
            r == (*self is Correct),
    {
        match self {
            Self::Correct => true,
            _ => false,
        }
    }
}

/// A misspelt word found in a text, with its byte offset from the start of
/// the text and the engine's suggested corrections.
#[derive(Debug)]
pub struct BadWord {
    /// Offset from the text beginning, 0-based.
    pub offset: usize,
    /// The misspelt word.
    pub word: String,
    /// Possible corrections for the word.
    pub suggestions: Vec<String>,
}

} // verus!
