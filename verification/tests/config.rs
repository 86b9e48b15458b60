use hachi::config::errors::ConfigError;
use hachi::config::{
    Configuration, DebugOptions, LoadStep, StoredConfiguration, VmOptions,
};

#[test]
fn default_configuration_values() {
    let config = Configuration::default();
    assert_eq!(config.vm.cycles_per_frame, 10);
    assert!(!config.debug.enable_debug_menu);
}

#[test]
fn load_missing_file_stores_default() {
    assert_eq!(
        Configuration::load(StoredConfiguration::Missing),
        LoadStep::StoreDefault(Configuration::default())
    );
}

#[test]
fn load_unreadable_file_fails() {
    assert_eq!(
        Configuration::load(StoredConfiguration::Unreadable),
        LoadStep::Failed(ConfigError::NotReadable)
    );
}

#[test]
fn load_malformed_file_fails() {
    assert_eq!(
        Configuration::load(StoredConfiguration::Malformed),
        LoadStep::Failed(ConfigError::InvalidFileFormat)
    );
}

#[test]
fn load_parsed_file_is_used() {
    let stored = Configuration {
        vm: VmOptions { cycles_per_frame: 25 },
        debug: DebugOptions { enable_debug_menu: true },
    };
    assert_eq!(
        Configuration::load(StoredConfiguration::Parsed(stored)),
        LoadStep::Loaded(stored)
    );
}

#[test]
fn after_store_keeps_configuration_or_reports_error() {
    let config = Configuration::default();
    assert_eq!(config.after_store(Ok(())), Ok(config));
    assert_eq!(
        config.after_store(Err(ConfigError::NotWritable)),
        Err(ConfigError::NotWritable)
    );
    assert_eq!(
        config.after_store(Err(ConfigError::CannotCreateDirectory)),
        Err(ConfigError::CannotCreateDirectory)
    );
}
