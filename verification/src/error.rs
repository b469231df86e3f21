use vstd::prelude::*;

verus! {

/// Everything that can go wrong while loading configuration or resolving the
/// data files of a language. Each variant corresponds to one stage of the
/// pipeline, so a caller can tell a broken environment from broken data.
#[derive(Debug)]
pub enum SpellError {
    /// A dictionary file was expected at this path and is not there.
    DicNotFound { path: String },
    /// The language has neither a local match nor a configured source URL.
    NoDicSource,
    /// Directory creation, copy, write or deletion failed while caching.
    FileCachingError { message: String },
    /// Deleting an existing final file failed.
    RemoveDicError { message: String },
    /// Reading the cached bytes or writing the normalized file failed, or the
    /// `SET ` directive names an encoding the charset registry does not know.
    ConversionError { message: String },
    /// The default configuration file could not be created on first run.
    InitConfigError { message: String },
    /// The configuration file could not be read.
    ReadConfigError { message: String },
    /// The configuration file could not be parsed.
    LoadConfigError { message: String },
}

/// Mathematical image of a [`SpellError`]: the same variants over sequences.
pub enum ErrorModel {
    DicNotFound { path: Seq<char> },
    NoDicSource,
    FileCachingError { message: Seq<char> },
    RemoveDicError { message: Seq<char> },
    ConversionError { message: Seq<char> },
    InitConfigError { message: Seq<char> },
    ReadConfigError { message: Seq<char> },
    LoadConfigError { message: Seq<char> },
}

impl View for SpellError {
    type V = ErrorModel;

    open spec fn view(&self) -> ErrorModel {
        match self {
            SpellError::DicNotFound { path } => ErrorModel::DicNotFound { path: path@ },
            SpellError::NoDicSource => ErrorModel::NoDicSource,
            SpellError::FileCachingError { message } => ErrorModel::FileCachingError {
                message: message@,
            },
            SpellError::RemoveDicError { message } => ErrorModel::RemoveDicError {
                message: message@,
            },
            SpellError::ConversionError { message } => ErrorModel::ConversionError {
                message: message@,
            },
            SpellError::InitConfigError { message } => ErrorModel::InitConfigError {
                message: message@,
            },
            SpellError::ReadConfigError { message } => ErrorModel::ReadConfigError {
                message: message@,
            },
            SpellError::LoadConfigError { message } => ErrorModel::LoadConfigError {
                message: message@,
            },
        }
    }
}

} // verus!
