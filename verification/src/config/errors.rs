use vstd::prelude::*;

verus! {

/// Why the configuration could not be loaded or stored.
#[derive(Debug, Clone, Copy, PartialEq, Eq, Structural)]
pub enum ConfigError {
    /// The configuration file does not hold a configuration.
    InvalidFileFormat,
    /// The configuration file could not be read.
    NotReadable,
    /// The configuration file could not be written.
    NotWritable,
    /// The directory of the configuration file could not be created.
    CannotCreateDirectory,
}

} // verus!
