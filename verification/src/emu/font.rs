pub use crate::vm::consts::FONTSET;
pub use crate::vm::consts::FONTSET_SIZE;
