use vstd::prelude::*;

verus! {

/// The failures of an invalid pattern in the `regex` crate.
#[verifier::external_type_specification]
#[verifier::external_body]
pub struct ExRegexError(regex::Error);

/// Why provisioning an application failed.
#[derive(Debug)]
pub enum Errors {
    /// The user declined the default configuration.
    UserCancelled,
    /// The directory (first field) holds no application that this tool knows.
    UnknownFolder(String, String),
    /// A file system operation failed; the message describes it.
    IOError(String),
    /// The configuration file is not UTF-8.
    InvalidFile(String),
    /// The configuration file is not valid JSON of the expected shape.
    InvalidJson(String),
    /// A command of the named phase (first field) failed; the second field is
    /// what it wrote to standard error.
    ProcessError(String, String),
    /// The configuration declares no runtime version.
    MissingNWJSVersions,
    /// A file association names no destination.
    MissingFileAssociations,
    /// A declared runtime version makes a search pattern that is refused.
    InvalidNWJSVersion(regex::Error),
    /// A request to the runtime's servers failed.
    ConnectionError(String),
    /// An input could not be read as a number.
    ParseError(String),
    /// No entry of the runtime catalog matches the declared version.
    Unknown,
}

} // verus!
