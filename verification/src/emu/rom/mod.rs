use vstd::prelude::*;

use crate::emu::consts::{MEM_SIZE, START_ADDR};
use crate::emu::virtual_machine::with_rom;

verus! {

/// Writes the bytes of a program into `memory` from `START_ADDR` on.
pub fn load_rom(rom: &[u8], memory: &mut [u8; MEM_SIZE])
    requires
        START_ADDR + rom@.len() <= MEM_SIZE,
    ensures
        final(memory)@ == with_rom(old(memory)@, rom@),
{
    let mut k: usize = 0;
    while k < rom.len()
        invariant
            k <= rom@.len(),
            START_ADDR + rom@.len() <= MEM_SIZE,
            forall|j: int|
                0 <= j < MEM_SIZE ==> #[trigger] memory@[j] == (if START_ADDR <= j < START_ADDR + k {
                    rom@[j - START_ADDR]
                } else {
                    old(memory)@[j]
                }),
        decreases rom@.len() - k,
    {
        memory[START_ADDR + k] = rom[k];
        k += 1;
    }
    assert(memory@ =~= with_rom(old(memory)@, rom@));
}

} // verus!
