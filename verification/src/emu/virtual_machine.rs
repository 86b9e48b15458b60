use vstd::prelude::*;

use super::consts::{FONTSET_START_ADDR, START_ADDR};
use super::font::{FONTSET, FONTSET_SIZE};

verus! {

/// `memory` with the font written into it from `FONTSET_START_ADDR` on.
pub open spec fn with_font(memory: Seq<u8>) -> Seq<u8> {
    Seq::new(
        memory.len(),
        |j: int|
            if FONTSET_START_ADDR <= j < FONTSET_START_ADDR + FONTSET_SIZE {
                FONTSET@[j - FONTSET_START_ADDR]
            } else {
                memory[j]
            },
    )
}

/// `memory` with `rom` written into it from `START_ADDR` on.
pub open spec fn with_rom(memory: Seq<u8>, rom: Seq<u8>) -> Seq<u8> {
    Seq::new(
        memory.len(),
        |j: int|
            if START_ADDR <= j < START_ADDR + rom.len() {
                rom[j - START_ADDR]
            } else {
                memory[j]
            },
    )
}

/// Loading the font writes its bytes from `FONTSET_START_ADDR` on and leaves
/// every other memory cell as it was.
pub proof fn law_font_written(memory: Seq<u8>)
    requires
        FONTSET_START_ADDR + FONTSET_SIZE <= memory.len(),
    ensures
        with_font(memory).len() == memory.len(),
        forall|k: int|
            0 <= k < FONTSET_SIZE ==> #[trigger] with_font(memory)[FONTSET_START_ADDR + k] == FONTSET@[k],
        forall|a: int|
            0 <= a < memory.len() && !(FONTSET_START_ADDR <= a < FONTSET_START_ADDR + FONTSET_SIZE)
                ==> #[trigger] with_font(memory)[a] == memory[a],
{
}

/// Loading a ROM writes its bytes from `START_ADDR` on and leaves every other
/// memory cell as it was.
pub proof fn law_rom_written(memory: Seq<u8>, rom: Seq<u8>)
    requires
        START_ADDR + rom.len() <= memory.len(),
    ensures
        with_rom(memory, rom).len() == memory.len(),
        forall|k: int| 0 <= k < rom.len() ==> #[trigger] with_rom(memory, rom)[START_ADDR + k] == rom[k],
        forall|a: int|
            0 <= a < memory.len() && !(START_ADDR <= a < START_ADDR + rom.len()) ==> #[trigger] with_rom(
                memory,
                rom,
            )[a] == memory[a],
{
}

/// Loading a program after the font keeps the font: programs start past its
/// end.
pub proof fn lemma_rom_keeps_font(memory: Seq<u8>, rom: Seq<u8>)
    requires
        START_ADDR + rom.len() <= memory.len(),
    ensures
        forall|k: int|
            0 <= k < FONTSET_SIZE ==> #[trigger] with_rom(with_font(memory), rom)[FONTSET_START_ADDR + k]
                == FONTSET@[k],
{
}

/// A machine whose memory the font and programs are loaded into.
pub trait VirtualMachine: Sized {
    /// The machine's memory.
    spec fn memory_view(&self) -> Seq<u8>;

    /// Whether `self` and `other` agree in everything but their memory.
    spec fn same_but_memory(&self, other: &Self) -> bool;

    /// Agreeing in everything but memory is an equivalence.
    proof fn lemma_same_but_memory(a: &Self, b: &Self, c: &Self)
        ensures
            a.same_but_memory(a),
            a.same_but_memory(b) && b.same_but_memory(c) ==> a.same_but_memory(c),
    ;

    /// The machine's memory, to be written; nothing else of the machine changes.
    fn get_memory(&mut self) -> (memory: &mut [u8])
        ensures
            memory@ == old(self).memory_view(),
            final(self).memory_view() == final(memory)@,
            final(self).same_but_memory(old(self)),
    ;

    /// Writes the font into memory from `FONTSET_START_ADDR` on.
    fn load_fonts(&mut self)
        requires
            FONTSET_START_ADDR + FONTSET_SIZE <= old(self).memory_view().len(),
        ensures
            final(self).memory_view() == with_font(old(self).memory_view()),
            final(self).same_but_memory(old(self)),
    {
        proof {
            Self::lemma_same_but_memory(self, self, self);
        }
        let mut k: usize = 0;
        while k < FONTSET_SIZE
            invariant
                k <= FONTSET_SIZE,
                FONTSET_START_ADDR + FONTSET_SIZE <= self.memory_view().len(),
                self.memory_view().len() == old(self).memory_view().len(),
                self.same_but_memory(old(self)),
                forall|j: int|
                    0 <= j < self.memory_view().len() ==> #[trigger] self.memory_view()[j] == (if FONTSET_START_ADDR
                        <= j < FONTSET_START_ADDR + k {
                        FONTSET@[j - FONTSET_START_ADDR]
                    } else {
                        old(self).memory_view()[j]
                    }),
            decreases FONTSET_SIZE - k,
        {
            let ghost before = *self;
            let memory = self.get_memory();
            memory[FONTSET_START_ADDR + k] = FONTSET[k];
            proof {
                Self::lemma_same_but_memory(self, &before, old(self));
            }
            k += 1;
        }
        assert(self.memory_view() =~= with_font(old(self).memory_view()));
    }

    /// Writes `rom` into memory from `START_ADDR` on.
    fn load_rom(&mut self, rom: &[u8])
        requires
            START_ADDR + rom@.len() <= old(self).memory_view().len(),
        ensures
            final(self).memory_view() == with_rom(old(self).memory_view(), rom@),
            final(self).same_but_memory(old(self)),
    {
        proof {
            Self::lemma_same_but_memory(self, self, self);
        }
        let mut k: usize = 0;
        while k < rom.len()
            invariant
                k <= rom@.len(),
                START_ADDR + rom@.len() <= self.memory_view().len(),
                self.memory_view().len() == old(self).memory_view().len(),
                self.same_but_memory(old(self)),
                forall|j: int|
                    0 <= j < self.memory_view().len() ==> #[trigger] self.memory_view()[j] == (if START_ADDR
                        <= j < START_ADDR + k {
                        rom@[j - START_ADDR]
                    } else {
                        old(self).memory_view()[j]
                    }),
            decreases rom@.len() - k,
        {
            let ghost before = *self;
            let memory = self.get_memory();
            let len = memory.len();
            assert(START_ADDR + k < len);
            memory[START_ADDR + k] = rom[k];
            proof {
                Self::lemma_same_but_memory(self, &before, old(self));
            }
            k += 1;
        }
        assert(self.memory_view() =~= with_rom(old(self).memory_view(), rom@));
    }
}

} // verus!
