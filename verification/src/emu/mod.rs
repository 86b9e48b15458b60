pub mod chip8;
pub mod consts;
pub mod font;
pub mod rom;
pub mod virtual_machine;
