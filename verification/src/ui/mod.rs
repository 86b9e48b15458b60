pub mod consts;
pub mod debug;
