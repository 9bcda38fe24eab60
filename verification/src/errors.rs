//! The pipeline's error taxonomy.

use vstd::prelude::*;

verus! {

/// Failures of the bootstrap pipeline. All are fatal by design: the pipeline
/// aborts at the failing stage and surfaces the error to the caller, leaving
/// no partial artifact behind.
#[derive(Clone, Copy, Debug, PartialEq, Eq, Structural)]
pub enum ConfigError {
    /// The operating system's entropy source was unreachable, or handed back
    /// key material whose derived identity collides with one already
    /// generated.
    Environment,
    /// The genesis transaction could not be serialized.
    Encoding,
    /// The genesis file could not be created or fully written.
    Io,
    /// A validator set of size zero was requested.
    InvalidValidatorCount,
}

} // verus!
