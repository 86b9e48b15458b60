use vstd::prelude::*;

use super::consts::{
    DISPLAY_HEIGHT, DISPLAY_WIDTH, FONTSET, FONTSET_SIZE, FONTSET_START_ADDR, MEM_SIZE,
    PROG_MEM_START_ADDR,
};
use super::errors::FdeError;
use super::frame::ticked;
use super::model::{
    cycle, decode, draw_collides, execute, initial_machine, loaded_memory, sprite_pixel, Machine,
};

verus! {

// What each opcode does, stated for every machine and every opcode of its
// form, in terms of the opcode's fields and the machine before and after.
// `x` is the second nibble, `y` the third, `kk` the low byte and `nnn` the low
// twelve bits of the opcode.

/// `00E0` turns every pixel off and changes nothing else.
pub proof fn law_clear_screen(m: Machine, random: u8)
    requires
        m.well_formed(),
    ensures
        ({
            let (after, outcome) = execute(m, decode(0x00, 0xE0), random);
            &&& outcome == Ok::<(), FdeError>(())
            &&& forall|r: int, c: int|
                0 <= r < DISPLAY_HEIGHT && 0 <= c < DISPLAY_WIDTH ==> #[trigger] after.video[r][c] == 0
            &&& after.video.len() == DISPLAY_HEIGHT
            &&& after == (Machine { video: after.video, ..m })
        }),
{
}

/// `1nnn` sets the program counter to `nnn` and changes nothing else.
pub proof fn law_jump(m: Machine, hi: u8, lo: u8, random: u8)
    requires
        hi / 16 == 0x1,
    ensures
        ({
            let (after, outcome) = execute(m, decode(hi, lo), random);
            &&& outcome == Ok::<(), FdeError>(())
            &&& after.program_counter == (hi % 16) * 256 + lo
            &&& after == (Machine { program_counter: after.program_counter, ..m })
        }),
{
}

/// `2nnn` pushes the program counter and sets it to `nnn`; nothing else
/// changes.
pub proof fn law_call(m: Machine, hi: u8, lo: u8, random: u8)
    requires
        hi / 16 == 0x2,
    ensures
        ({
            let (after, outcome) = execute(m, decode(hi, lo), random);
            &&& outcome == Ok::<(), FdeError>(())
            &&& after.program_counter == (hi % 16) * 256 + lo
            &&& after.stack.len() == m.stack.len() + 1
            &&& after.stack.last() == m.program_counter
            &&& after.stack.drop_last() == m.stack
            &&& after == (Machine { program_counter: after.program_counter, stack: after.stack, ..m })
        }),
{
    let (after, _) = execute(m, decode(hi, lo), random);
    assert(after.stack.drop_last() =~= m.stack);
}

/// `Bnnn` sets the program counter to `nnn` plus V0; nothing else changes.
pub proof fn law_jump_with_offset(m: Machine, hi: u8, lo: u8, random: u8)
    requires
        hi / 16 == 0xB,
    ensures
        ({
            let (after, outcome) = execute(m, decode(hi, lo), random);
            &&& outcome == Ok::<(), FdeError>(())
            &&& after.program_counter == m.registers[0] + (hi % 16) * 256 + lo
            &&& after == (Machine { program_counter: after.program_counter, ..m })
        }),
{
}

/// What a skip opcode does with the machine: when `skips`, the program counter
/// moves two bytes on, else it stays; nothing else changes, and the outcome is
/// `Ok`.
pub open spec fn skipped_when(m: Machine, after: Machine, outcome: Result<(), FdeError>, skips: bool) -> bool {
    &&& outcome == Ok::<(), FdeError>(())
    &&& after.program_counter == if skips { m.program_counter + 2 } else { m.program_counter as int }
    &&& after == (Machine { program_counter: after.program_counter, ..m })
}

/// `3xkk` skips the next instruction exactly when VX equals `kk`; `4xkk`
/// exactly when it does not.
#[verifier::rlimit(30)]
pub proof fn law_skip_on_byte(m: Machine, x: u8, kk: u8, random: u8)
    requires
        m.well_formed(),
        x < 16,
        m.program_counter + 2 <= usize::MAX,
    ensures
        ({
            let (equal, equal_outcome) = execute(m, decode((0x30 + x) as u8, kk), random);
            let (differ, differ_outcome) = execute(m, decode((0x40 + x) as u8, kk), random);
            &&& skipped_when(m, equal, equal_outcome, m.registers[x as int] == kk)
            &&& skipped_when(m, differ, differ_outcome, m.registers[x as int] != kk)
        }),
{
}

/// `5xy0` skips the next instruction exactly when VX equals VY; `9xy0`
/// exactly when VX differs from VY. For the same operands exactly one of the
/// two skips.
#[verifier::rlimit(30)]
pub proof fn law_skip_on_registers(m: Machine, x: u8, y: u8, random: u8)
    requires
        m.well_formed(),
        x < 16,
        y < 16,
        m.program_counter + 2 <= usize::MAX,
    ensures
        ({
            let (equal, equal_outcome) = execute(m, decode((0x50 + x) as u8, (y * 16) as u8), random);
            let (differ, differ_outcome) = execute(m, decode((0x90 + x) as u8, (y * 16) as u8), random);
            &&& skipped_when(m, equal, equal_outcome, m.registers[x as int] == m.registers[y as int])
            &&& skipped_when(m, differ, differ_outcome, m.registers[x as int] != m.registers[y as int])
            &&& (equal.program_counter == m.program_counter) != (differ.program_counter
                == m.program_counter)
        }),
{
}

/// `Ex9E` skips the next instruction exactly when the key named by VX is
/// down; `ExA1` exactly when it is up.
#[verifier::rlimit(30)]
pub proof fn law_skip_on_key(m: Machine, x: u8, random: u8)
    requires
        m.well_formed(),
        x < 16,
        m.registers[x as int] < 16,
        m.program_counter + 2 <= usize::MAX,
    ensures
        ({
            let (down, down_outcome) = execute(m, decode((0xE0 + x) as u8, 0x9E), random);
            let (up, up_outcome) = execute(m, decode((0xE0 + x) as u8, 0xA1), random);
            &&& skipped_when(m, down, down_outcome, m.keypad[m.registers[x as int] as int])
            &&& skipped_when(m, up, up_outcome, !m.keypad[m.registers[x as int] as int])
        }),
{
}

/// What a register opcode does with the machine: the registers become
/// `registers`, nothing else changes, and the outcome is `Ok`.
pub open spec fn only_registers(m: Machine, after: Machine, outcome: Result<(), FdeError>) -> bool {
    &&& outcome == Ok::<(), FdeError>(())
    &&& after == (Machine { registers: after.registers, ..m })
    &&& after.registers.len() == 16
}

/// Whether `after` differs from `before` in no register but `x` and `f`.
pub open spec fn others_unchanged(before: Seq<u8>, after: Seq<u8>, x: int, f: int) -> bool {
    forall|k: int| 0 <= k < 16 && k != x && k != f ==> #[trigger] after[k] == before[k]
}

/// `6xkk` sets VX to `kk`; no other register changes.
pub proof fn law_set_byte(m: Machine, x: u8, kk: u8, random: u8)
    requires
        m.well_formed(),
        x < 16,
    ensures
        ({
            let (after, outcome) = execute(m, decode((0x60 + x) as u8, kk), random);
            &&& only_registers(m, after, outcome)
            &&& after.registers[x as int] == kk
            &&& others_unchanged(m.registers, after.registers, x as int, x as int)
        }),
{
}

/// `7xkk` adds `kk` to VX modulo 256, leaving VF and every other register.
pub proof fn law_add_byte(m: Machine, x: u8, kk: u8, random: u8)
    requires
        m.well_formed(),
        x < 16,
    ensures
        ({
            let (after, outcome) = execute(m, decode((0x70 + x) as u8, kk), random);
            &&& only_registers(m, after, outcome)
            &&& (after.registers[x as int] - m.registers[x as int] - kk) % 256 == 0
            &&& others_unchanged(m.registers, after.registers, x as int, x as int)
        }),
{
}

/// `8xy0` copies VY into VX; `8xy1`, `8xy2`, `8xy3` set VX to the bitwise or,
/// and, exclusive or of VX and VY. No other register changes.
#[verifier::rlimit(30)]
pub proof fn law_register_logic(m: Machine, x: u8, y: u8, random: u8)
    requires
        m.well_formed(),
        x < 16,
        y < 16,
    ensures
        ({
            let (vx, vy) = (m.registers[x as int], m.registers[y as int]);
            let (copied, copy_outcome) = execute(m, decode((0x80 + x) as u8, (y * 16) as u8), random);
            let (ored, or_outcome) = execute(m, decode((0x80 + x) as u8, (y * 16 + 1) as u8), random);
            let (anded, and_outcome) = execute(m, decode((0x80 + x) as u8, (y * 16 + 2) as u8), random);
            let (xored, xor_outcome) = execute(m, decode((0x80 + x) as u8, (y * 16 + 3) as u8), random);
            &&& only_registers(m, copied, copy_outcome) && copied.registers[x as int] == vy
            &&& only_registers(m, ored, or_outcome) && ored.registers[x as int] == vx | vy
            &&& only_registers(m, anded, and_outcome) && anded.registers[x as int] == vx & vy
            &&& only_registers(m, xored, xor_outcome) && xored.registers[x as int] == vx ^ vy
            &&& others_unchanged(m.registers, copied.registers, x as int, x as int)
            &&& others_unchanged(m.registers, ored.registers, x as int, x as int)
            &&& others_unchanged(m.registers, anded.registers, x as int, x as int)
            &&& others_unchanged(m.registers, xored.registers, x as int, x as int)
        }),
{
}

/// `8xy4` adds VY to VX with the carry in VF: 256 * VF + VX after equals
/// VX + VY before, VF is 0 or 1, and no other register changes (VX not VF).
pub proof fn law_add_registers(m: Machine, x: u8, y: u8, random: u8)
    requires
        m.well_formed(),
        x < 15,
        y < 16,
    ensures
        ({
            let (after, outcome) = execute(m, decode((0x80 + x) as u8, (y * 16 + 4) as u8), random);
            &&& only_registers(m, after, outcome)
            &&& after.registers[15] < 2
            &&& 256 * after.registers[15] + after.registers[x as int] == m.registers[x as int]
                + m.registers[y as int]
            &&& others_unchanged(m.registers, after.registers, x as int, 15)
        }),
{
}

/// `8xy5` subtracts VY from VX; VF is 1 when VY is at most VX and 0 when it
/// borrows, so that VX after + VY equals VX before + 256 * (1 - VF). No other
/// register changes (VX not VF).
pub proof fn law_subtract(m: Machine, x: u8, y: u8, random: u8)
    requires
        m.well_formed(),
        x < 15,
        y < 16,
    ensures
        ({
            let (vx, vy) = (m.registers[x as int], m.registers[y as int]);
            let (after, outcome) = execute(m, decode((0x80 + x) as u8, (y * 16 + 5) as u8), random);
            &&& only_registers(m, after, outcome)
            &&& after.registers[15] == (if vy <= vx { 1u8 } else { 0u8 })
            &&& after.registers[x as int] + vy == vx + 256 * (1 - after.registers[15])
            &&& others_unchanged(m.registers, after.registers, x as int, 15)
        }),
{
}

/// `8xy7` sets VX to VY - VX; VF is 1 when VX is at most VY and 0 when it
/// borrows, so that VX after + VX before equals VY + 256 * (1 - VF). No other
/// register changes (VX not VF).
pub proof fn law_subtract_reversed(m: Machine, x: u8, y: u8, random: u8)
    requires
        m.well_formed(),
        x < 15,
        y < 16,
    ensures
        ({
            let (vx, vy) = (m.registers[x as int], m.registers[y as int]);
            let (after, outcome) = execute(m, decode((0x80 + x) as u8, (y * 16 + 7) as u8), random);
            &&& only_registers(m, after, outcome)
            &&& after.registers[15] == (if vx <= vy { 1u8 } else { 0u8 })
            &&& after.registers[x as int] + vx == vy + 256 * (1 - after.registers[15])
            &&& others_unchanged(m.registers, after.registers, x as int, 15)
        }),
{
}

/// `8xy6` shifts VX right by one, the bit shifted out going to VF:
/// 2 * VX after + VF equals VX before, VF is 0 or 1, and no other register
/// changes (VX not VF).
pub proof fn law_shift_right(m: Machine, x: u8, y: u8, random: u8)
    requires
        m.well_formed(),
        x < 15,
        y < 16,
    ensures
        ({
            let (after, outcome) = execute(m, decode((0x80 + x) as u8, (y * 16 + 6) as u8), random);
            &&& only_registers(m, after, outcome)
            &&& after.registers[15] < 2
            &&& 2 * after.registers[x as int] + after.registers[15] == m.registers[x as int]
            &&& others_unchanged(m.registers, after.registers, x as int, 15)
        }),
{
}

/// `8xyE` shifts VX left by one, the bit shifted out going to VF:
/// VX after + 256 * VF equals 2 * VX before, VF is 0 or 1, and no other
/// register changes (VX not VF).
pub proof fn law_shift_left(m: Machine, x: u8, y: u8, random: u8)
    requires
        m.well_formed(),
        x < 15,
        y < 16,
    ensures
        ({
            let (after, outcome) = execute(m, decode((0x80 + x) as u8, (y * 16 + 0xE) as u8), random);
            &&& only_registers(m, after, outcome)
            &&& after.registers[15] < 2
            &&& after.registers[x as int] + 256 * after.registers[15] == 2 * m.registers[x as int]
            &&& others_unchanged(m.registers, after.registers, x as int, 15)
        }),
{
    let v = m.registers[x as int];
    assert(((v * 2) % 256) + 256 * (v / 128) == 2 * v) by (nonlinear_arith)
        requires
            0 <= v < 256,
    ;
}

/// `Cxkk` sets VX to the random byte masked with `kk`: every bit set in VX
/// is set in both; no other register changes.
pub proof fn law_random(m: Machine, x: u8, kk: u8, random: u8)
    requires
        m.well_formed(),
        x < 16,
    ensures
        ({
            let (after, outcome) = execute(m, decode((0xC0 + x) as u8, kk), random);
            &&& only_registers(m, after, outcome)
            &&& after.registers[x as int] == random & kk
            &&& after.registers[x as int] & kk == after.registers[x as int]
            &&& others_unchanged(m.registers, after.registers, x as int, x as int)
        }),
{
    let v = random & kk;
    assert(v & kk == v) by (bit_vector)
        requires
            v == random & kk,
    ;
}

/// `Annn` sets I to `nnn`; nothing else changes.
pub proof fn law_set_index(m: Machine, hi: u8, lo: u8, random: u8)
    requires
        hi / 16 == 0xA,
    ensures
        ({
            let (after, outcome) = execute(m, decode(hi, lo), random);
            &&& outcome == Ok::<(), FdeError>(())
            &&& after.i_register == (hi % 16) * 256 + lo
            &&& after == (Machine { i_register: after.i_register, ..m })
        }),
{
}

/// `Fx1E` adds VX to I; nothing else changes.
pub proof fn law_add_to_index(m: Machine, x: u8, random: u8)
    requires
        m.well_formed(),
        x < 16,
        m.i_register + m.registers[x as int] <= usize::MAX,
    ensures
        ({
            let (after, outcome) = execute(m, decode((0xF0 + x) as u8, 0x1E), random);
            &&& outcome == Ok::<(), FdeError>(())
            &&& after.i_register == m.i_register + m.registers[x as int]
            &&& after == (Machine { i_register: after.i_register, ..m })
        }),
{
}

/// `Fx29` sets I to the address of the five-byte font glyph of the digit in
/// VX; nothing else changes.
pub proof fn law_font_address(m: Machine, x: u8, random: u8)
    requires
        m.well_formed(),
        x < 16,
    ensures
        ({
            let (after, outcome) = execute(m, decode((0xF0 + x) as u8, 0x29), random);
            &&& outcome == Ok::<(), FdeError>(())
            &&& after.i_register == FONTSET_START_ADDR + 5 * m.registers[x as int]
            &&& after == (Machine { i_register: after.i_register, ..m })
        }),
{
}

/// `Fx07` copies the delay timer into VX; no other register changes, and
/// nothing else.
pub proof fn law_read_delay_timer(m: Machine, x: u8, random: u8)
    requires
        m.well_formed(),
        x < 16,
    ensures
        ({
            let (read, outcome) = execute(m, decode((0xF0 + x) as u8, 0x07), random);
            &&& only_registers(m, read, outcome)
            &&& read.registers[x as int] == m.delay_timer
            &&& others_unchanged(m.registers, read.registers, x as int, x as int)
        }),
{
}

/// `Fx15` copies VX into the delay timer; nothing else changes.
pub proof fn law_set_delay_timer(m: Machine, x: u8, random: u8)
    requires
        m.well_formed(),
        x < 16,
    ensures
        execute(m, decode((0xF0 + x) as u8, 0x15), random) == (
            Machine { delay_timer: m.registers[x as int], ..m },
            Ok::<(), FdeError>(()),
        ),
{
}

/// `Fx18` copies VX into the sound timer; nothing else changes.
pub proof fn law_set_sound_timer(m: Machine, x: u8, random: u8)
    requires
        m.well_formed(),
        x < 16,
    ensures
        execute(m, decode((0xF0 + x) as u8, 0x18), random) == (
            Machine { sound_timer: m.registers[x as int], ..m },
            Ok::<(), FdeError>(()),
        ),
{
}

/// Setting the delay timer from VX with `Fx15` and reading it into VY with
/// `Fy07` copies VX into VY, whatever the sound timer holds.
#[verifier::rlimit(30)]
pub proof fn law_delay_timer_round_trip(m: Machine, x: u8, y: u8, r1: u8, r2: u8)
    requires
        m.well_formed(),
        x < 16,
        y < 16,
    ensures
        ({
            let (set, _) = execute(m, decode((0xF0 + x) as u8, 0x15), r1);
            let (read, _) = execute(set, decode((0xF0 + y) as u8, 0x07), r2);
            read.registers[y as int] == m.registers[x as int]
        }),
{
}

/// `Fx0A` with a key press pending stores the key in VX, stops waiting and
/// consumes the press; the program counter and all else stay.
pub proof fn law_key_press_taken(m: Machine, x: u8, key: u8, random: u8)
    requires
        m.well_formed(),
        x < 16,
        m.current_key_press == Some(key),
    ensures
        ({
            let (after, outcome) = execute(m, decode((0xF0 + x) as u8, 0x0A), random);
            &&& outcome == Ok::<(), FdeError>(())
            &&& after.registers[x as int] == key
            &&& others_unchanged(m.registers, after.registers, x as int, x as int)
            &&& !after.is_waiting_for_key
            &&& after.current_key_press is None
            &&& after == (Machine {
                registers: after.registers,
                is_waiting_for_key: false,
                current_key_press: None,
                ..m
            })
        }),
{
}

/// `Fx55` writes V0 to VX into memory at I to I + x; `Fx65` reads them back
/// from there. All other memory cells and registers stay.
#[verifier::rlimit(30)]
pub proof fn law_register_transfers(m: Machine, x: u8, random: u8)
    requires
        m.well_formed(),
        x < 16,
        m.i_register + x < m.memory.len(),
    ensures
        ({
            let i = m.i_register as int;
            let (stored, store_outcome) = execute(m, decode((0xF0 + x) as u8, 0x55), random);
            let (loaded, load_outcome) = execute(m, decode((0xF0 + x) as u8, 0x65), random);
            &&& store_outcome == Ok::<(), FdeError>(())
            &&& stored == (Machine { memory: stored.memory, ..m })
            &&& stored.memory.len() == m.memory.len()
            &&& forall|k: int| 0 <= k <= x ==> #[trigger] stored.memory[i + k] == m.registers[k]
            &&& forall|a: int|
                0 <= a < m.memory.len() && !(i <= a <= i + x) ==> #[trigger] stored.memory[a]
                    == m.memory[a]
            &&& load_outcome == Ok::<(), FdeError>(())
            &&& loaded == (Machine { registers: loaded.registers, ..m })
            &&& loaded.registers.len() == 16
            &&& forall|k: int| 0 <= k <= x ==> #[trigger] loaded.registers[k] == m.memory[i + k]
            &&& forall|k: int| x < k < 16 ==> #[trigger] loaded.registers[k] == m.registers[k]
        }),
{
    let i = m.i_register as int;
    let (stored, _) = execute(m, decode((0xF0 + x) as u8, 0x55), random);
    assert forall|k: int| 0 <= k <= x implies #[trigger] stored.memory[i + k] == m.registers[k] by {
        assert(stored.memory[i + k] == m.registers[(i + k) - i]);
    }
}

/// Bit `k` of `byte`, counted from the least significant, as 0 or 1.
pub open spec fn bit(byte: u8, k: int) -> u8 {
    (byte >> (k as u8)) & 1u8
}

proof fn lemma_bit_facts(v: u8, byte: u8, k: u8)
    requires
        k < 8,
    ensures
        (byte >> k) & 1u8 < 2,
        v ^ 0u8 == v,
        0u8 ^ ((byte >> k) & 1u8) == (byte >> k) & 1u8,
        v ^ 1u8 != v,
        (v == 1u8 && (v ^ ((byte >> k) & 1u8)) == 0u8) <==> (v == 1u8 && (byte >> k) & 1u8 == 1u8),
{
    assert((byte >> k) & 1u8 < 2) by (bit_vector);
    assert(v ^ 0u8 == v) by (bit_vector);
    assert(0u8 ^ ((byte >> k) & 1u8) == (byte >> k) & 1u8) by (bit_vector);
    assert(v ^ 1u8 != v) by (bit_vector);
    assert((v == 1u8 && (v ^ ((byte >> k) & 1u8)) == 0u8) <==> (v == 1u8 && (byte >> k) & 1u8 == 1u8))
        by (bit_vector);
}

/// `Dxyn` on a blank display, with the sprite wholly on the display: row `r`
/// of the sprite, the byte at I + r, lights pixel (row VY + r, column VX + c)
/// exactly when bit 7 - c of the byte is set, for each of its eight columns;
/// every other pixel stays off and VF is 0. Only the display and VF change.
#[verifier::rlimit(30)]
pub proof fn law_draw_on_blank_display(m: Machine, hi: u8, lo: u8, random: u8)
    requires
        m.well_formed(),
        hi / 16 == 0xD,
        m.i_register + lo % 16 <= m.memory.len(),
        m.registers[(hi % 16) as int] % 64 + 8 <= DISPLAY_WIDTH,
        m.registers[(lo / 16) as int] % 32 + lo % 16 <= DISPLAY_HEIGHT,
        forall|r: int, c: int|
            0 <= r < DISPLAY_HEIGHT && 0 <= c < DISPLAY_WIDTH ==> #[trigger] m.video[r][c] == 0,
    ensures
        ({
            let (after, outcome) = execute(m, decode(hi, lo), random);
            let bx = m.registers[(hi % 16) as int] % 64;
            let by = m.registers[(lo / 16) as int] % 32;
            let n = lo % 16;
            let i = m.i_register as int;
            &&& outcome == Ok::<(), FdeError>(())
            &&& forall|r: int, c: int|
                0 <= r < n && 0 <= c < 8 ==> #[trigger] after.video[by + r][bx + c] == bit(
                    m.memory[i + r],
                    7 - c,
                )
            &&& forall|r: int, c: int|
                0 <= r < DISPLAY_HEIGHT && 0 <= c < DISPLAY_WIDTH && !(by <= r < by + n && bx <= c
                    < bx + 8) ==> #[trigger] after.video[r][c] == 0
            &&& after.registers[15] == 0
            &&& after == (Machine {
                video: after.video,
                registers: m.registers.update(15, after.registers[15]),
                ..m
            })
        }),
{
    let (after, _) = execute(m, decode(hi, lo), random);
    let (x, y, n) = (hi % 16, lo / 16, lo % 16);
    let bx = m.registers[x as int] % 64;
    let by = m.registers[y as int] % 32;
    let i = m.i_register as int;
    assert forall|r: int, c: int| 0 <= r < n && 0 <= c < 8 implies #[trigger] after.video[by + r][bx + c]
        == bit(m.memory[i + r], 7 - c) by {
        lemma_bit_facts(0u8, m.memory[i + r], (7 - c) as u8);
        assert(m.video[by + r][bx + c] == 0);
        assert(sprite_pixel(m.memory, m.i_register, bx as int, by as int, n, by + r, bx + c) == bit(
            m.memory[i + r],
            7 - c,
        ));
    }
    assert forall|r: int, c: int|
        0 <= r < DISPLAY_HEIGHT && 0 <= c < DISPLAY_WIDTH && !(by <= r < by + n && bx <= c < bx
            + 8) implies #[trigger] after.video[r][c] == 0 by {
        lemma_bit_facts(0u8, 0u8, 0u8);
    }
    if draw_collides(m, x, y, n) {
        let (r, c) = choose|r: int, c: int|
            0 <= r < DISPLAY_HEIGHT && 0 <= c < DISPLAY_WIDTH && #[trigger] sprite_pixel(
                m.memory,
                m.i_register,
                bx as int,
                by as int,
                n,
                r,
                c,
            ) == 1 && m.video[r][c] == 1;
        assert(m.video[r][c] == 0);
    }
    assert(after == (Machine {
        video: after.video,
        registers: m.registers.update(15, after.registers[15]),
        ..m
    }));
}

/// `Dxyn` on any display: a pixel changes exactly when it lies under the
/// sprite, clipped at the display's right and bottom edges, with its sprite
/// bit set (bit 7 - c of the byte at I + r for sprite row r, column c), and a
/// pixel that changes becomes its exclusive or with 1. VF becomes 1 exactly
/// when some pixel went from 1 to 0, else 0. Only the display and VF change.
#[verifier::rlimit(30)]
pub proof fn law_draw_flips_sprite_pixels(m: Machine, hi: u8, lo: u8, random: u8)
    requires
        m.well_formed(),
        hi / 16 == 0xD,
        m.i_register + lo % 16 <= m.memory.len(),
    ensures
        ({
            let (after, outcome) = execute(m, decode(hi, lo), random);
            let bx = m.registers[(hi % 16) as int] % 64;
            let by = m.registers[(lo / 16) as int] % 32;
            let n = lo % 16;
            let i = m.i_register as int;
            &&& outcome == Ok::<(), FdeError>(())
            &&& forall|r: int, c: int|
                0 <= r < DISPLAY_HEIGHT && 0 <= c < DISPLAY_WIDTH ==> {
                    let set = by <= r < by + n && bx <= c < bx + 8 && bit(
                        m.memory[i + (r - by)],
                        7 - (c - bx),
                    ) == 1;
                    &&& (#[trigger] after.video[r][c] != m.video[r][c]) == set
                    &&& set ==> after.video[r][c] == m.video[r][c] ^ 1u8
                }
            &&& after.registers[15] == (if exists|r: int, c: int|
                0 <= r < DISPLAY_HEIGHT && 0 <= c < DISPLAY_WIDTH && m.video[r][c] == 1
                    && #[trigger] after.video[r][c] == 0 { 1u8 } else { 0u8 })
            &&& after == (Machine {
                video: after.video,
                registers: m.registers.update(15, after.registers[15]),
                ..m
            })
        }),
{
    let (after, _) = execute(m, decode(hi, lo), random);
    let (x, y, n) = (hi % 16, lo / 16, lo % 16);
    let bx = m.registers[x as int] % 64;
    let by = m.registers[y as int] % 32;
    let i = m.i_register as int;
    assert forall|r: int, c: int| 0 <= r < DISPLAY_HEIGHT && 0 <= c < DISPLAY_WIDTH implies {
        let set = by <= r < by + n && bx <= c < bx + 8 && bit(m.memory[i + (r - by)], 7 - (c - bx))
            == 1;
        &&& (#[trigger] after.video[r][c] != m.video[r][c]) == set
        &&& set ==> after.video[r][c] == m.video[r][c] ^ 1u8
    } by {
        let p = sprite_pixel(m.memory, m.i_register, bx as int, by as int, n, r, c);
        if by <= r < by + n && bx <= c < bx + 8 {
            lemma_bit_facts(m.video[r][c], m.memory[i + (r - by)], (7 - (c - bx)) as u8);
            assert(p == bit(m.memory[i + (r - by)], 7 - (c - bx)));
        } else {
            lemma_bit_facts(m.video[r][c], 0u8, 0u8);
        }
    }
    let turned_off = exists|r: int, c: int|
        0 <= r < DISPLAY_HEIGHT && 0 <= c < DISPLAY_WIDTH && m.video[r][c] == 1
            && #[trigger] after.video[r][c] == 0;
    if draw_collides(m, x, y, n) {
        let (r, c) = choose|r: int, c: int|
            0 <= r < DISPLAY_HEIGHT && 0 <= c < DISPLAY_WIDTH && #[trigger] sprite_pixel(
                m.memory,
                m.i_register,
                bx as int,
                by as int,
                n,
                r,
                c,
            ) == 1 && m.video[r][c] == 1;
        assert(1u8 ^ 1u8 == 0u8) by (bit_vector);
        assert(after.video[r][c] == 0);
    }
    if turned_off {
        let (r, c) = choose|r: int, c: int|
            0 <= r < DISPLAY_HEIGHT && 0 <= c < DISPLAY_WIDTH && m.video[r][c] == 1
                && #[trigger] after.video[r][c] == 0;
        let p = sprite_pixel(m.memory, m.i_register, bx as int, by as int, n, r, c);
        if by <= r < by + n && bx <= c < bx + 8 {
            lemma_bit_facts(m.video[r][c], m.memory[i + (r - by)], (7 - (c - bx)) as u8);
        } else {
            lemma_bit_facts(m.video[r][c], 0u8, 0u8);
        }
        assert(sprite_pixel(m.memory, m.i_register, bx as int, by as int, n, r, c) == 1);
    }
    assert(after == (Machine {
        video: after.video,
        registers: m.registers.update(15, after.registers[15]),
        ..m
    }));
}

/// `00EE` with a non-empty stack pops the top address into the program
/// counter; nothing else changes.
pub proof fn law_return(m: Machine, random: u8)
    requires
        m.stack.len() > 0,
    ensures
        ({
            let (after, outcome) = execute(m, decode(0x00, 0xEE), random);
            &&& outcome == Ok::<(), FdeError>(())
            &&& after.program_counter == m.stack[m.stack.len() - 1]
            &&& after.stack.push(m.stack[m.stack.len() - 1]) == m.stack
            &&& after == (Machine { program_counter: after.program_counter, stack: after.stack, ..m })
        }),
{
    let (after, _) = execute(m, decode(0x00, 0xEE), random);
    assert(after.stack.push(m.stack[m.stack.len() - 1]) =~= m.stack);
}

/// `Fx33` writes the hundreds, tens and ones digit of VX at I, I + 1, I + 2;
/// no other memory cell and nothing else changes.
#[verifier::rlimit(30)]
pub proof fn law_decimal_digits(m: Machine, x: u8, random: u8)
    requires
        m.well_formed(),
        x < 16,
        m.i_register + 2 < m.memory.len(),
    ensures
        ({
            let (after, outcome) = execute(m, decode((0xF0 + x) as u8, 0x33), random);
            let (i, v) = (m.i_register as int, m.registers[x as int]);
            &&& outcome == Ok::<(), FdeError>(())
            &&& after.memory[i] < 10 && after.memory[i + 1] < 10 && after.memory[i + 2] < 10
            &&& 100 * after.memory[i] + 10 * after.memory[i + 1] + after.memory[i + 2] == v
            &&& after.memory.len() == m.memory.len()
            &&& forall|a: int|
                0 <= a < m.memory.len() && !(i <= a <= i + 2) ==> #[trigger] after.memory[a]
                    == m.memory[a]
            &&& after == (Machine { memory: after.memory, ..m })
        }),
{
    let v = m.registers[x as int];
    assert(v / 100 < 10 && 100 * (v / 100) + 10 * ((v / 10) % 10) + v % 10 == v) by (nonlinear_arith)
        requires
            0 <= v < 256,
    ;
}

/// A cycle fetches the two opcode bytes at the program counter and moves past
/// them: on `6xkk` it sets VX to `kk`, leaves the program counter two bytes
/// on, records `Ok` and changes nothing else.
#[verifier::rlimit(30)]
pub proof fn law_cycle_fetches_opcode(m: Machine, random: u8)
    requires
        m.well_formed(),
        m.program_counter + 1 < m.memory.len(),
        m.memory[m.program_counter as int] / 16 == 0x6,
    ensures
        ({
            let after = cycle(m, random);
            let x = m.memory[m.program_counter as int] % 16;
            &&& after.program_counter == m.program_counter + 2
            &&& after.registers == m.registers.update(x as int, m.memory[m.program_counter + 1])
            &&& after.last_cycle_result == Ok::<(), FdeError>(())
            &&& after == (Machine {
                program_counter: after.program_counter,
                registers: after.registers,
                last_cycle_result: after.last_cycle_result,
                ..m
            })
        }),
{
}

/// A new machine is stopped and waits for no key; its memory holds the font
/// from `FONTSET_START_ADDR` on and zeros elsewhere; its display is blank;
/// its registers, timers, I and keys are clear, its stack empty, and its
/// program counter at `PROG_MEM_START_ADDR`.
pub proof fn law_new_machine()
    ensures
        ({
            let m = initial_machine();
            &&& !m.is_running && !m.is_waiting_for_key && m.current_key_press is None
            &&& m.last_cycle_result == Ok::<(), FdeError>(())
            &&& m.memory.len() == MEM_SIZE
            &&& forall|a: int|
                0 <= a < MEM_SIZE ==> #[trigger] m.memory[a] == if FONTSET_START_ADDR <= a
                    < FONTSET_START_ADDR + FONTSET_SIZE {
                    FONTSET@[a - FONTSET_START_ADDR]
                } else {
                    0u8
                }
            &&& m.well_formed()
            &&& forall|r: int, c: int|
                0 <= r < DISPLAY_HEIGHT && 0 <= c < DISPLAY_WIDTH ==> #[trigger] m.video[r][c] == 0
            &&& forall|k: int| 0 <= k < 16 ==> #[trigger] m.registers[k] == 0 && !m.keypad[k]
            &&& m.program_counter == PROG_MEM_START_ADDR && m.i_register == 0
            &&& m.stack.len() == 0
            &&& m.delay_timer == 0 && m.sound_timer == 0
        }),
{
}

/// Loading a program writes its bytes from `PROG_MEM_START_ADDR` on and
/// leaves every other memory cell as it was.
pub proof fn law_loaded_program(memory: Seq<u8>, program: Seq<u8>)
    requires
        memory.len() == MEM_SIZE,
        program.len() <= MEM_SIZE - PROG_MEM_START_ADDR,
    ensures
        loaded_memory(memory, program).len() == MEM_SIZE,
        forall|k: int|
            0 <= k < program.len() ==> #[trigger] loaded_memory(memory, program)[PROG_MEM_START_ADDR
                + k] == program[k],
        forall|a: int|
            0 <= a < MEM_SIZE && !(PROG_MEM_START_ADDR <= a < PROG_MEM_START_ADDR + program.len())
                ==> #[trigger] loaded_memory(memory, program)[a] == memory[a],
{
}

/// Whether `hi`, `lo` is no CHIP-8 instruction: a `0nnn` other than `00E0`
/// and `00EE`, a `5xyn` or `9xyn` with n not 0, an `8xyn` with n one of 8 to D
/// or F, or an `Exkk` or `Fxkk` whose low byte names no operation.
pub open spec fn no_instruction(hi: u8, lo: u8) -> bool {
    let (a, n) = (hi / 16, lo % 16);
    ||| a == 0x0 && !(hi == 0x00 && (lo == 0xE0 || lo == 0xEE))
    ||| (a == 0x5 || a == 0x9) && n != 0x0
    ||| a == 0x8 && (0x8 <= n <= 0xD || n == 0xF)
    ||| a == 0xE && lo != 0x9E && lo != 0xA1
    ||| a == 0xF && lo != 0x07 && lo != 0x0A && lo != 0x15 && lo != 0x18 && lo != 0x1E && lo != 0x29
        && lo != 0x33 && lo != 0x55 && lo != 0x65
}

/// An opcode that is no instruction changes nothing and reports
/// `UnknownInstruction` with its four nibbles, most significant first.
#[verifier::rlimit(30)]
pub proof fn law_no_instruction(m: Machine, hi: u8, lo: u8, random: u8)
    requires
        no_instruction(hi, lo),
    ensures
        ({
            let (after, outcome) = execute(m, decode(hi, lo), random);
            &&& after == m
            &&& outcome matches Err(FdeError::UnknownInstruction { _nibbles })
            &&& outcome->Err_0->_nibbles@ == seq![hi / 16, hi % 16, lo / 16, lo % 16]
        }),
{
    let (after, outcome) = execute(m, decode(hi, lo), random);
    assert(outcome->Err_0->_nibbles@ =~= seq![hi / 16, hi % 16, lo / 16, lo % 16]);
}

/// A tick of the 60 Hz clock counts each timer down by one unless it is
/// already zero, and changes nothing else.
pub proof fn law_tick(m: Machine)
    ensures
        ticked(m).delay_timer + (if m.delay_timer > 0 { 1int } else { 0int }) == m.delay_timer,
        ticked(m).sound_timer + (if m.sound_timer > 0 { 1int } else { 0int }) == m.sound_timer,
        ticked(m) == (Machine {
            delay_timer: ticked(m).delay_timer,
            sound_timer: ticked(m).sound_timer,
            ..m
        }),
{
}

} // verus!
