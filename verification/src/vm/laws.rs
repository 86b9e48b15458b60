use vstd::prelude::*;

use super::consts::{DISPLAY_HEIGHT, DISPLAY_WIDTH, FONTSET, FONTSET_SIZE, FONTSET_START_ADDR, MEM_SIZE};
use super::errors::FdeError;
use super::model::{
    bcd_memory, blank_video, current_instruction, cycle, cycle_executable, decode, draw_collides, drawn_video, executable,
    execute, fetched, loaded_registers, pc_out_of_memory, sprite_column, sprite_pixel, sprite_row,
    stored_registers, Instruction, Machine,
};

verus! {

/// A return executed right after a call gives back the machine as it was
/// before the call: the program counter is where the call left it, and the
/// stack is as before.
pub proof fn lemma_call_then_return(m: Machine, hi: u8, lo: u8, r1: u8, r2: u8)
    requires
        hi / 16 == 0x2,
    ensures
        ({
            let (called, _) = execute(m, decode(hi, lo), r1);
            let (returned, outcome) = execute(called, decode(0x00, 0xEE), r2);
            returned == m && outcome == Ok::<(), FdeError>(())
        }),
{
    let (called, _) = execute(m, decode(hi, lo), r1);
    assert(called.stack.drop_last() =~= m.stack);
    let (returned, _) = execute(called, decode(0x00, 0xEE), r2);
    assert(returned =~= m);
}

/// A return with an empty stack changes nothing and reports `SubroutineReturn`.
pub proof fn lemma_return_without_call(m: Machine, random: u8)
    requires
        m.stack.len() == 0,
    ensures
        execute(m, decode(0x00, 0xEE), random) == (m, Err::<(), FdeError>(FdeError::SubroutineReturn)),
{
}

proof fn lemma_xor_twice(v: u8, s: u8)
    ensures
        (v ^ s) ^ s == v,
{
    assert((v ^ s) ^ s == v) by (bit_vector);
}

/// Drawing the same sprite twice at the same place gives back the display as
/// it was; only VF differs from the machine before the first draw. The second
/// draw reports a collision exactly where the first turned a pixel on.
/// (VX and VY must not be VF, which the first draw overwrites.)
pub proof fn lemma_draw_twice(m: Machine, x: u8, y: u8, n: u8, r1: u8, r2: u8)
    requires
        m.well_formed(),
        x < 15,
        y < 15,
    ensures
        ({
            let (once, _) = execute(m, Instruction::Draw { x, y, n }, r1);
            let (twice, _) = execute(once, Instruction::Draw { x, y, n }, r2);
            &&& twice.video == m.video
            &&& twice == (Machine { registers: twice.registers, ..m })
            &&& twice.registers == m.registers.update(
                15,
                if draw_collides(once, x, y, n) { 1 } else { 0 },
            )
            &&& draw_collides(once, x, y, n) <==> exists|r: int, c: int|
                0 <= r < DISPLAY_HEIGHT && 0 <= c < DISPLAY_WIDTH && #[trigger] sprite_pixel(
                    m.memory,
                    m.i_register,
                    sprite_column(m, x),
                    sprite_row(m, y),
                    n,
                    r,
                    c,
                ) == 1 && m.video[r][c] == 0
        }),
{
    let (once, _) = execute(m, Instruction::Draw { x, y, n }, r1);
    let (twice, _) = execute(once, Instruction::Draw { x, y, n }, r2);
    assert(once.reg(x) == m.reg(x) && once.reg(y) == m.reg(y));
    assert forall|r: int, c: int| 0 <= r < DISPLAY_HEIGHT && 0 <= c < DISPLAY_WIDTH implies #[trigger] twice.video[r][c]
        == m.video[r][c] by {
        lemma_xor_twice(
            m.video[r][c],
            sprite_pixel(m.memory, m.i_register, sprite_column(m, x), sprite_row(m, y), n, r, c),
        );
    }
    assert(twice.video =~~= m.video);
    assert(twice.registers =~= m.registers.update(15, if draw_collides(once, x, y, n) { 1 } else { 0 }));
    assert(twice =~= (Machine { registers: twice.registers, ..m }));
    let found = exists|r: int, c: int|
        0 <= r < DISPLAY_HEIGHT && 0 <= c < DISPLAY_WIDTH && #[trigger] sprite_pixel(
            m.memory,
            m.i_register,
            sprite_column(m, x),
            sprite_row(m, y),
            n,
            r,
            c,
        ) == 1 && m.video[r][c] == 0;
    if draw_collides(once, x, y, n) {
        let (r, c) = choose|r: int, c: int|
            0 <= r < DISPLAY_HEIGHT && 0 <= c < DISPLAY_WIDTH && #[trigger] sprite_pixel(
                once.memory,
                once.i_register,
                sprite_column(once, x),
                sprite_row(once, y),
                n,
                r,
                c,
            ) == 1 && once.video[r][c] == 1;
        let v = m.video[r][c];
        assert(v ^ 1u8 == 1u8 ==> v == 0u8) by (bit_vector);
        assert(sprite_pixel(m.memory, m.i_register, sprite_column(m, x), sprite_row(m, y), n, r, c) == 1);
    }
    if found {
        let (r, c) = choose|r: int, c: int|
            0 <= r < DISPLAY_HEIGHT && 0 <= c < DISPLAY_WIDTH && #[trigger] sprite_pixel(
                m.memory,
                m.i_register,
                sprite_column(m, x),
                sprite_row(m, y),
                n,
                r,
                c,
            ) == 1 && m.video[r][c] == 0;
        assert(0u8 ^ 1u8 == 1u8) by (bit_vector);
        assert(sprite_pixel(once.memory, once.i_register, sprite_column(once, x), sprite_row(once, y), n, r, c)
            == 1);
    }
}

/// Registers stored to memory with `Fx55` and read back with `Fx65` from the
/// same place are the registers that were stored: the read changes nothing.
pub proof fn lemma_store_then_load_registers(m: Machine, x: u8, r1: u8, r2: u8)
    requires
        m.well_formed(),
        x < 16,
        m.i_register + x < MEM_SIZE,
    ensures
        ({
            let (stored, _) = execute(m, Instruction::StoreRegisters { x }, r1);
            let (loaded, _) = execute(stored, Instruction::LoadRegisters { x }, r2);
            loaded == stored && loaded.registers == m.registers
        }),
{
    let (stored, _) = execute(m, Instruction::StoreRegisters { x }, r1);
    assert(loaded_registers(stored, x) =~= m.registers);
    let (loaded, _) = execute(stored, Instruction::LoadRegisters { x }, r2);
    assert(loaded =~= stored);
}

/// Registers read from memory with `Fx65` and stored back with `Fx55` at the
/// same place leave memory as it was.
pub proof fn lemma_load_then_store_registers(m: Machine, x: u8, r1: u8, r2: u8)
    requires
        m.well_formed(),
        x < 16,
        m.i_register + x < MEM_SIZE,
    ensures
        ({
            let (loaded, _) = execute(m, Instruction::LoadRegisters { x }, r1);
            let (stored, _) = execute(loaded, Instruction::StoreRegisters { x }, r2);
            stored.memory == m.memory && stored == loaded
        }),
{
    let (loaded, _) = execute(m, Instruction::LoadRegisters { x }, r1);
    assert(stored_registers(loaded, x) =~= m.memory);
    let (stored, _) = execute(loaded, Instruction::StoreRegisters { x }, r2);
    assert(stored =~= loaded);
}

/// `Fx33` stores the decimal digits of VX: three digits, each below ten, that
/// make up VX; memory elsewhere is unchanged.
pub proof fn lemma_bcd_digits(m: Machine, x: u8, random: u8)
    requires
        m.well_formed(),
        m.i_register + 2 < MEM_SIZE,
    ensures
        ({
            let (after, _) = execute(m, Instruction::StoreBcd { x }, random);
            let i = m.i_register as int;
            &&& after.memory[i] < 10 && after.memory[i + 1] < 10 && after.memory[i + 2] < 10
            &&& 100 * after.memory[i] + 10 * after.memory[i + 1] + after.memory[i + 2] == m.reg(x)
            &&& forall|k: int|
                0 <= k < MEM_SIZE && !(i <= k <= i + 2) ==> #[trigger] after.memory[k] == m.memory[k]
        }),
{
    let v = m.reg(x);
    assert(v / 100 < 10 && 100 * (v / 100) + 10 * ((v / 10) % 10) + v % 10 == v) by (nonlinear_arith);
}

/// With the font in memory, `Fx29` points I at the glyph of the hexadecimal
/// digit in VX: the five bytes from I on are the digit's rows.
pub proof fn lemma_font_character(m: Machine, x: u8, random: u8)
    requires
        m.well_formed(),
        m.reg(x) < 16,
        forall|k: int|
            0 <= k < FONTSET_SIZE ==> #[trigger] m.memory[FONTSET_START_ADDR + k] == FONTSET@[k],
    ensures
        ({
            let (after, _) = execute(m, Instruction::FontCharacter { x }, random);
            forall|k: int|
                0 <= k < 5 ==> #[trigger] after.memory[after.i_register + k] == FONTSET@[5 * m.reg(x) + k]
        }),
{
    let (after, _) = execute(m, Instruction::FontCharacter { x }, random);
    assert forall|k: int| 0 <= k < 5 implies #[trigger] after.memory[after.i_register + k]
        == FONTSET@[5 * m.reg(x) + k] by {
        assert(after.i_register + k == FONTSET_START_ADDR + (5 * m.reg(x) + k));
    }
}

/// `8xy4` keeps the whole sum: VF is the carry out of VX, so that
/// 256 * VF + VX after equals VX + VY before (VX not VF).
pub proof fn lemma_add_with_carry(m: Machine, x: u8, y: u8, random: u8)
    requires
        m.well_formed(),
        x < 15,
        y < 16,
    ensures
        ({
            let (after, _) = execute(m, Instruction::AddRegisters { x, y }, random);
            256 * after.reg(15) + after.reg(x) == m.reg(x) + m.reg(y)
        }),
{
}

/// `8xy5` borrows when VY exceeds VX: VF is 1 when it did not borrow, so that
/// VX after equals VX - VY + 256 * (1 - VF) (VX not VF).
pub proof fn lemma_subtract_with_borrow(m: Machine, x: u8, y: u8, random: u8)
    requires
        m.well_formed(),
        x < 15,
        y < 16,
    ensures
        ({
            let (after, _) = execute(m, Instruction::Subtract { x, y }, random);
            after.reg(x) == m.reg(x) - m.reg(y) + 256 * (1 - after.reg(15))
        }),
{
}

/// Of `3xkk` and `4xkk` with the same operands, exactly one skips the next
/// instruction.
pub proof fn lemma_byte_skips_are_complementary(m: Machine, x: u8, kk: u8, random: u8)
    requires
        m.well_formed(),
        x < 16,
        m.program_counter + 2 <= usize::MAX,
    ensures
        (execute(m, Instruction::SkipIfEqualByte { x, kk }, random).0.program_counter
            == m.program_counter) != (execute(m, Instruction::SkipIfNotEqualByte { x, kk }, random).0.program_counter
            == m.program_counter),
{
    let equal = execute(m, Instruction::SkipIfEqualByte { x, kk }, random).0;
    let not_equal = execute(m, Instruction::SkipIfNotEqualByte { x, kk }, random).0;
    assert(equal == m.skip_when(m.reg(x) == kk));
    assert(not_equal == m.skip_when(m.reg(x) != kk));
}

/// Of `Ex9E` and `ExA1` with the same operand, exactly one skips the next
/// instruction.
pub proof fn lemma_key_skips_are_complementary(m: Machine, x: u8, random: u8)
    requires
        m.well_formed(),
        x < 16,
        m.reg(x) < 16,
        m.program_counter + 2 <= usize::MAX,
    ensures
        (execute(m, Instruction::SkipIfKey { x }, random).0.program_counter == m.program_counter) != (execute(
            m,
            Instruction::SkipIfNotKey { x },
            random,
        ).0.program_counter == m.program_counter),
{
    let down = execute(m, Instruction::SkipIfKey { x }, random).0;
    let up = execute(m, Instruction::SkipIfNotKey { x }, random).0;
    assert(down == m.skip_when(m.keypad[m.reg(x) as int]));
    assert(up == m.skip_when(!m.keypad[m.reg(x) as int]));
}

/// An opcode that is no instruction changes nothing but the program counter,
/// which moves past it, and the recorded outcome, which names its nibbles.
pub proof fn lemma_unknown_opcode_cycle(m: Machine, random: u8)
    requires
        !pc_out_of_memory(m),
        m.program_counter + 2 <= usize::MAX,
        current_instruction(m) is Unknown,
    ensures
        cycle(m, random) == (Machine {
            program_counter: (m.program_counter + 2) as usize,
            last_cycle_result: Err(
                FdeError::UnknownInstruction { _nibbles: current_instruction(m)->nibbles },
            ),
            ..m
        }),
{
}

/// A cycle with the program counter at the end of memory changes nothing but
/// the recorded outcome, `StackOverflow`.
pub proof fn lemma_cycle_out_of_memory(m: Machine, random: u8)
    requires
        pc_out_of_memory(m),
    ensures
        cycle(m, random) == (Machine { last_cycle_result: Err(FdeError::StackOverflow), ..m }),
{
}

/// While no key press is pending, a cycle on `Fx0A` leaves the program counter
/// on that instruction and marks the machine as waiting for a key; nothing else
/// changes but the recorded outcome.
pub proof fn lemma_wait_for_key_repeats(m: Machine, random: u8)
    requires
        !pc_out_of_memory(m),
        m.program_counter + 2 <= usize::MAX,
        current_instruction(m) is WaitKey,
        m.current_key_press is None,
    ensures
        cycle(m, random) == (Machine {
            is_waiting_for_key: true,
            last_cycle_result: Ok(()),
            ..m
        }),
{
    assert(cycle(m, random) =~= (Machine { is_waiting_for_key: true, last_cycle_result: Ok(()), ..m }));
}

/// Every instruction that can be executed keeps the machine's sequences at
/// the sizes of the arrays they stand for.
pub proof fn lemma_execute_well_formed(m: Machine, hi: u8, lo: u8, random: u8)
    requires
        m.well_formed(),
        executable(m, decode(hi, lo)),
    ensures
        execute(m, decode(hi, lo), random).0.well_formed(),
{
    let ins = decode(hi, lo);
    let after = execute(m, ins, random).0;
    match ins {
        Instruction::ClearScreen => {
            assert forall|r: int| 0 <= r < DISPLAY_HEIGHT implies #[trigger] after.video[r].len()
                == DISPLAY_WIDTH by {
                assert(after.video[r] == blank_video()[r]);
            }
        },
        Instruction::Draw { x, y, n } => {
            assert forall|r: int| 0 <= r < DISPLAY_HEIGHT implies #[trigger] after.video[r].len()
                == DISPLAY_WIDTH by {
                assert(after.video[r] == drawn_video(m, x, y, n)[r]);
            }
        },
        Instruction::StoreBcd { x } => {
            assert(after.memory == bcd_memory(m, x));
        },
        Instruction::AddRegisters { .. } | Instruction::Subtract { .. }
        | Instruction::SubtractReversed { .. } | Instruction::ShiftRight { .. }
        | Instruction::ShiftLeft { .. } => {
            assert(after.registers.len() == 16);
        },
        Instruction::SetByte { .. } | Instruction::AddByte { .. } | Instruction::Copy { .. }
        | Instruction::Or { .. } | Instruction::And { .. } | Instruction::Xor { .. }
        | Instruction::Random { .. } | Instruction::LoadDelay { .. } | Instruction::WaitKey { .. } => {
            assert(after.registers.len() == 16);
        },
        _ => {},
    }
}

/// Every cycle that can be run keeps the machine's sequences at the sizes of
/// the arrays they stand for.
pub proof fn lemma_cycle_well_formed(m: Machine, random: u8)
    requires
        m.well_formed(),
        cycle_executable(m),
    ensures
        cycle(m, random).well_formed(),
{
    if !pc_out_of_memory(m) {
        lemma_execute_well_formed(
            fetched(m),
            m.memory[m.program_counter as int],
            m.memory[m.program_counter + 1],
            random,
        );
    }
}

} // verus!
