use vstd::prelude::*;

verus! {

/// Errors surfaced by the update cycle and the country table loader.
///
/// Failures that arise in the surrounding application (network,
/// filesystem, time arithmetic) are carried here as their message text, so
/// that the library itself stays free of I/O types.
#[derive(Debug, Clone)]
pub enum GDErr {
    /// A filesystem operation failed.
    IOErr(String),
    /// Clock arithmetic failed (for example, a negative duration).
    TimeErr(String),
    /// A numeric cell or marker could not be parsed.
    ParseIntErr(String),
    /// The provider credential is absent from the environment.
    MissingEnvVar(String),
    /// An HTTP transfer failed.
    ReqwestErr(String),
    /// The CSV reader rejected its input.
    CSVErr(String),
    /// A binary database file could not be opened.
    MaxmindDBErr(String),
    /// An unpacked archive did not hold the expected single entry.
    ZipExtractErr,
    /// A path could not be represented as text.
    OSStringErr,
    /// Any other failure, described by its message.
    GenericErr(String),
}

} // verus!
