use vstd::prelude::*;

verus! {

/// Why a fetch-decode-execute cycle failed.
#[derive(Debug, Clone, Copy, PartialEq, Eq)]
pub enum FdeError {
    /// The fetched opcode, split into its four nibbles, is no instruction.
    UnknownInstruction { _nibbles: [u8; 4] },
    /// A return was executed while the call stack was empty.
    SubroutineReturn,
    /// The opcode could not be split into nibbles.
    NibblesFetch { _opcode_bytes: [u8; 2] },
    /// The opcode could not be read from memory.
    OpcodeFetch,
    /// The program counter points at or past the last byte of memory.
    StackOverflow,
}

} // verus!
