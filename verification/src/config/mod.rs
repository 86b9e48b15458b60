pub mod errors;

use vstd::prelude::*;

use errors::ConfigError;

verus! {

/// The user's settings.
#[derive(Debug, Clone, Copy, PartialEq, Eq, Structural)]
pub struct Configuration {
    pub vm: VmOptions,
    pub debug: DebugOptions,
}

/// Settings of the interpreter.
#[derive(Debug, Clone, Copy, PartialEq, Eq, Structural)]
pub struct VmOptions {
    /// How many instructions are executed per displayed frame.
    pub cycles_per_frame: u32,
}

/// Settings of the debugging aids.
#[derive(Debug, Clone, Copy, PartialEq, Eq, Structural)]
pub struct DebugOptions {
    pub enable_debug_menu: bool,
}

/// The settings used when none are stored: ten instructions per frame, no
/// debug menu.
pub open spec fn default_configuration() -> Configuration {
    Configuration {
        vm: VmOptions { cycles_per_frame: 10 },
        debug: DebugOptions { enable_debug_menu: false },
    }
}

/// The default settings run ten instructions per frame and hide the debug
/// menu.
pub proof fn law_default_configuration()
    ensures
        default_configuration().vm.cycles_per_frame == 10,
        !default_configuration().debug.enable_debug_menu,
{
}

impl Default for Configuration {
    fn default() -> (config: Self)
        ensures
            config == default_configuration(),
    {
        Configuration {
            vm: VmOptions { cycles_per_frame: 10 },
            debug: DebugOptions { enable_debug_menu: false },
        }
    }
}

/// What looking for the configuration file found.
#[derive(Debug, Clone, Copy, PartialEq, Eq, Structural)]
pub enum StoredConfiguration {
    /// There is no configuration file.
    Missing,
    /// The file is there but could not be read.
    Unreadable,
    /// The file was read but does not hold a configuration.
    Malformed,
    /// The file holds this configuration.
    Parsed(Configuration),
}

/// What is to be done with what was found.
#[derive(Debug, Clone, Copy, PartialEq, Eq, Structural)]
pub enum LoadStep {
    /// This is the configuration to use.
    Loaded(Configuration),
    /// Loading failed.
    Failed(ConfigError),
    /// This configuration is to be stored, and then used if storing succeeds;
    /// if storing fails, loading fails with the same error.
    StoreDefault(Configuration),
}

impl Configuration {
    /// Decides what loading the configuration comes to, given what the
    /// configuration file held: with no file, the default configuration is to
    /// be stored and used; an unreadable file gives `NotReadable`, a file that
    /// holds no configuration `InvalidFileFormat`; else the stored
    /// configuration is used.
    pub fn load(stored: StoredConfiguration) -> (step: LoadStep)
        ensures
            step == (match stored {
                StoredConfiguration::Missing => LoadStep::StoreDefault(default_configuration()),
                StoredConfiguration::Unreadable => LoadStep::Failed(ConfigError::NotReadable),
                StoredConfiguration::Malformed => LoadStep::Failed(ConfigError::InvalidFileFormat),
                StoredConfiguration::Parsed(config) => LoadStep::Loaded(config),
            }),
    {
        match stored {
            StoredConfiguration::Missing => LoadStep::StoreDefault(Configuration::default()),
            StoredConfiguration::Unreadable => LoadStep::Failed(ConfigError::NotReadable),
            StoredConfiguration::Malformed => LoadStep::Failed(ConfigError::InvalidFileFormat),
            StoredConfiguration::Parsed(config) => LoadStep::Loaded(config),
        }
    }

    /// What loading comes to once the configuration of `StoreDefault` has
    /// been stored, or has failed to be: the configuration, or the error that
    /// storing met.
    pub fn after_store(self, outcome: Result<(), ConfigError>) -> (loaded: Result<Configuration, ConfigError>)
        ensures
            loaded == (match outcome {
                Ok(()) => Ok(self),
                Err(error) => Err::<Configuration, ConfigError>(error),
            }),
    {
        match outcome {
            Ok(()) => Ok(self),
            Err(error) => Err(error),
        }
    }
}

} // verus!
