pub mod config;
pub mod emu;
pub mod ui;
pub mod vm;
