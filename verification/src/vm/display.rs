use vstd::prelude::*;

use super::consts::{DISPLAY_HEIGHT, DISPLAY_WIDTH, MEM_SIZE};
use super::model::{draw_collides, drawn_video, sprite_column, sprite_pixel, sprite_row, Machine};
use super::VirtualMachine;

verus! {

/// Whether the pixel at row `r`, column `c` comes before the sprite pixel at
/// sprite row `row`, sprite column `col` in the order in which a sprite placed
/// at column `bx`, row `by` is drawn: row by row, left to right.
pub open spec fn drawn_before(bx: int, by: int, row: int, col: int, r: int, c: int) -> bool {
    r < by + row || (r == by + row && c < bx + col)
}

/// The pixel at row `r`, column `c` once the sprite of `Dxyn` has been drawn up
/// to sprite row `row`, sprite column `col`.
pub open spec fn partly_drawn_pixel(m: Machine, x: u8, y: u8, n: u8, row: int, col: int, r: int, c: int) -> u8 {
    let bx = sprite_column(m, x);
    let by = sprite_row(m, y);
    if drawn_before(bx, by, row, col, r, c) {
        m.video[r][c] ^ sprite_pixel(m.memory, m.i_register, bx, by, n, r, c)
    } else {
        m.video[r][c]
    }
}

/// Whether a pixel that was on has been turned off, once the sprite of `Dxyn`
/// has been drawn up to sprite row `row`, sprite column `col`.
pub open spec fn partly_collides(m: Machine, x: u8, y: u8, n: u8, row: int, col: int) -> bool {
    exists|r: int, c: int|
        0 <= r < DISPLAY_HEIGHT && 0 <= c < DISPLAY_WIDTH && drawn_before(
            sprite_column(m, x),
            sprite_row(m, y),
            row,
            col,
            r,
            c,
        ) && #[trigger] sprite_pixel(
            m.memory,
            m.i_register,
            sprite_column(m, x),
            sprite_row(m, y),
            n,
            r,
            c,
        ) == 1 && m.video[r][c] == 1
}

proof fn lemma_xor_zero(v: u8)
    ensures
        v ^ 0u8 == v,
{
    assert(v ^ 0u8 == v) by (bit_vector);
}

/// Drawing one more sprite pixel adds it, and only it, to the pixels that may
/// have collided.
proof fn lemma_collides_step(m: Machine, x: u8, y: u8, n: u8, row: int, col: int)
    requires
        m.well_formed(),
        0 <= sprite_row(m, y) + row < DISPLAY_HEIGHT,
        0 <= sprite_column(m, x) + col < DISPLAY_WIDTH,
    ensures
        ({
            let (r, c) = (sprite_row(m, y) + row, sprite_column(m, x) + col);
            partly_collides(m, x, y, n, row, col + 1) == (partly_collides(m, x, y, n, row, col)
                || (sprite_pixel(m.memory, m.i_register, sprite_column(m, x), sprite_row(m, y), n, r, c)
                == 1 && m.video[r][c] == 1))
        }),
{
    let bx = sprite_column(m, x);
    let by = sprite_row(m, y);
    let (r0, c0) = (by + row, bx + col);
    if sprite_pixel(m.memory, m.i_register, bx, by, n, r0, c0) == 1 && m.video[r0][c0] == 1 {
        assert(drawn_before(bx, by, row, col + 1, r0, c0));
    }
    if partly_collides(m, x, y, n, row, col + 1) {
        let (r, c) = choose|r: int, c: int|
            0 <= r < DISPLAY_HEIGHT && 0 <= c < DISPLAY_WIDTH && drawn_before(bx, by, row, col + 1, r, c)
                && #[trigger] sprite_pixel(m.memory, m.i_register, bx, by, n, r, c) == 1 && m.video[r][c]
                == 1;
        if !(r == r0 && c == c0) {
            assert(drawn_before(bx, by, row, col, r, c));
        }
    }
    if partly_collides(m, x, y, n, row, col) {
        let (r, c) = choose|r: int, c: int|
            0 <= r < DISPLAY_HEIGHT && 0 <= c < DISPLAY_WIDTH && drawn_before(bx, by, row, col, r, c)
                && #[trigger] sprite_pixel(m.memory, m.i_register, bx, by, n, r, c) == 1 && m.video[r][c]
                == 1;
        assert(drawn_before(bx, by, row, col + 1, r, c));
    }
}

/// Once drawing passes the end of a sprite row, the rest of the display row is
/// as drawn, and the next sprite row starts.
proof fn lemma_row_done(m: Machine, x: u8, y: u8, n: u8, row: int, col: int)
    requires
        m.well_formed(),
        0 <= row,
        0 <= col <= 8,
        col == 8 || sprite_column(m, x) + col == DISPLAY_WIDTH,
    ensures
        forall|r: int, c: int|
            0 <= r < DISPLAY_HEIGHT && 0 <= c < DISPLAY_WIDTH ==> #[trigger] partly_drawn_pixel(
                m,
                x,
                y,
                n,
                row,
                col,
                r,
                c,
            ) == partly_drawn_pixel(m, x, y, n, row + 1, 0, r, c),
        partly_collides(m, x, y, n, row, col) == partly_collides(m, x, y, n, row + 1, 0),
{
    let bx = sprite_column(m, x);
    let by = sprite_row(m, y);
    assert forall|r: int, c: int|
        0 <= r < DISPLAY_HEIGHT && 0 <= c < DISPLAY_WIDTH implies #[trigger] partly_drawn_pixel(
        m,
        x,
        y,
        n,
        row,
        col,
        r,
        c,
    ) == partly_drawn_pixel(m, x, y, n, row + 1, 0, r, c) by {
        if drawn_before(bx, by, row + 1, 0, r, c) && !drawn_before(bx, by, row, col, r, c) {
            assert(sprite_pixel(m.memory, m.i_register, bx, by, n, r, c) == 0);
            lemma_xor_zero(m.video[r][c]);
        }
    }
    if partly_collides(m, x, y, n, row + 1, 0) {
        let (r, c) = choose|r: int, c: int|
            0 <= r < DISPLAY_HEIGHT && 0 <= c < DISPLAY_WIDTH && drawn_before(bx, by, row + 1, 0, r, c)
                && #[trigger] sprite_pixel(m.memory, m.i_register, bx, by, n, r, c) == 1 && m.video[r][c]
                == 1;
        assert(drawn_before(bx, by, row, col, r, c));
    }
    if partly_collides(m, x, y, n, row, col) {
        let (r, c) = choose|r: int, c: int|
            0 <= r < DISPLAY_HEIGHT && 0 <= c < DISPLAY_WIDTH && drawn_before(bx, by, row, col, r, c)
                && #[trigger] sprite_pixel(m.memory, m.i_register, bx, by, n, r, c) == 1 && m.video[r][c]
                == 1;
        assert(drawn_before(bx, by, row + 1, 0, r, c));
    }
}

/// Once drawing passes the last sprite row, or the bottom of the display, the
/// whole sprite is drawn.
proof fn lemma_sprite_done(m: Machine, x: u8, y: u8, n: u8, row: int)
    requires
        m.well_formed(),
        0 <= row <= n,
        row == n || sprite_row(m, y) + row == DISPLAY_HEIGHT,
    ensures
        forall|r: int, c: int|
            0 <= r < DISPLAY_HEIGHT && 0 <= c < DISPLAY_WIDTH ==> #[trigger] partly_drawn_pixel(
                m,
                x,
                y,
                n,
                row,
                0,
                r,
                c,
            ) == drawn_video(m, x, y, n)[r][c],
        partly_collides(m, x, y, n, row, 0) == draw_collides(m, x, y, n),
{
    let bx = sprite_column(m, x);
    let by = sprite_row(m, y);
    assert forall|r: int, c: int|
        0 <= r < DISPLAY_HEIGHT && 0 <= c < DISPLAY_WIDTH implies #[trigger] partly_drawn_pixel(
        m,
        x,
        y,
        n,
        row,
        0,
        r,
        c,
    ) == drawn_video(m, x, y, n)[r][c] by {
        if !drawn_before(bx, by, row, 0, r, c) {
            assert(sprite_pixel(m.memory, m.i_register, bx, by, n, r, c) == 0);
            lemma_xor_zero(m.video[r][c]);
        }
    }
    if draw_collides(m, x, y, n) {
        let (r, c) = choose|r: int, c: int|
            0 <= r < DISPLAY_HEIGHT && 0 <= c < DISPLAY_WIDTH && #[trigger] sprite_pixel(
                m.memory,
                m.i_register,
                bx,
                by,
                n,
                r,
                c,
            ) == 1 && m.video[r][c] == 1;
        assert(drawn_before(bx, by, row, 0, r, c));
    }
}

impl VirtualMachine {
    /// Draws the sprite of `n` rows at I onto the display at column VX, row
    /// VY (each taken modulo the display's size), XORing each sprite pixel onto
    /// the pixel under it and clipping at the display's right and bottom
    /// edges; VF becomes 1 if a pixel that was on is turned off, else 0.
    pub(crate) fn draw_sprite(&mut self, x: usize, y: usize, n: u8)
        requires
            x < 16,
            y < 16,
            old(self).i_register + n <= MEM_SIZE,
        ensures
            final(self)@ == (Machine {
                video: drawn_video(old(self)@, x as u8, y as u8, n),
                registers: old(self)@.registers.update(
                    15,
                    if draw_collides(old(self)@, x as u8, y as u8, n) { 1 } else { 0 },
                ),
                ..old(self)@
            }),
    {
        let ghost m = self@;
        let ghost (xs, ys) = (x as u8, y as u8);
        proof {
            self.lemma_view_well_formed();
        }
        let base_x = self.variable_registers[x] as usize % DISPLAY_WIDTH;
        let base_y = self.variable_registers[y] as usize % DISPLAY_HEIGHT;
        assert(base_x == sprite_column(m, xs) && base_y == sprite_row(m, ys));
        self.variable_registers[0xF] = 0;
        proof {
            assert forall|r: int, c: int|
                0 <= r < DISPLAY_HEIGHT && 0 <= c < DISPLAY_WIDTH implies #[trigger] self.video_memory@[r]@[c]
                    == partly_drawn_pixel(m, xs, ys, n, 0, 0, r, c) by {
                assert(self.video_memory@[r]@[c] == m.video[r][c]);
                lemma_xor_zero(m.video[r][c]);
            }
            assert(!partly_collides(m, xs, ys, n, 0, 0));
        }
        let mut row: usize = 0;
        while row < n as usize && base_y + row < DISPLAY_HEIGHT
            invariant
                m.well_formed(),
                row <= n,
                base_x == sprite_column(m, xs) && base_x < DISPLAY_WIDTH,
                base_y == sprite_row(m, ys) && base_y + row <= DISPLAY_HEIGHT,
                m.i_register + n <= MEM_SIZE,
                self.memory@ == m.memory,
                self.i_register == m.i_register,
                self.variable_registers@ == m.registers.update(
                    15,
                    if partly_collides(m, xs, ys, n, row as int, 0) { 1u8 } else { 0u8 },
                ),
                forall|r: int, c: int|
                    0 <= r < DISPLAY_HEIGHT && 0 <= c < DISPLAY_WIDTH ==> #[trigger] self.video_memory@[r]@[c]
                        == partly_drawn_pixel(m, xs, ys, n, row as int, 0, r, c),
                self.is_running == m.is_running,
                self.is_waiting_for_key == m.is_waiting_for_key,
                self.current_key_press == m.current_key_press,
                self.last_cycle_result == m.last_cycle_result,
                self.program_counter == m.program_counter,
                self.stack@ == m.stack,
                self.keypad@ == m.keypad,
                self.delay_timer == m.delay_timer,
                self.sound_timer == m.sound_timer,
            decreases n - row,
        {
            let pixel_y = base_y + row;
            let sprite_byte = self.memory[self.i_register + row];
            let mut col: usize = 0;
            while col < 8 && base_x + col < DISPLAY_WIDTH
                invariant
                    m.well_formed(),
                    row < n,
                    col <= 8,
                    base_x == sprite_column(m, xs) && base_x + col <= DISPLAY_WIDTH,
                    base_y == sprite_row(m, ys),
                    pixel_y == base_y + row && pixel_y < DISPLAY_HEIGHT,
                    m.i_register + n <= MEM_SIZE,
                    sprite_byte == m.memory[m.i_register + row],
                    self.memory@ == m.memory,
                    self.i_register == m.i_register,
                    self.variable_registers@ == m.registers.update(
                        15,
                        if partly_collides(m, xs, ys, n, row as int, col as int) { 1u8 } else { 0u8 },
                    ),
                    forall|r: int, c: int|
                        0 <= r < DISPLAY_HEIGHT && 0 <= c < DISPLAY_WIDTH ==> #[trigger] self.video_memory@[r]@[c]
                            == partly_drawn_pixel(m, xs, ys, n, row as int, col as int, r, c),
                    self.is_running == m.is_running,
                    self.is_waiting_for_key == m.is_waiting_for_key,
                    self.current_key_press == m.current_key_press,
                    self.last_cycle_result == m.last_cycle_result,
                    self.program_counter == m.program_counter,
                    self.stack@ == m.stack,
                    self.keypad@ == m.keypad,
                    self.delay_timer == m.delay_timer,
                    self.sound_timer == m.sound_timer,
                decreases 8 - col,
            {
                let pixel_x = base_x + col;
                let sprite_bit = (sprite_byte >> (7 - col as u8)) & 1;
                let current = self.video_memory[pixel_y][pixel_x];
                proof {
                    assert(sprite_bit == sprite_pixel(
                        m.memory,
                        m.i_register,
                        base_x as int,
                        base_y as int,
                        n,
                        pixel_y as int,
                        pixel_x as int,
                    ));
                    assert(current == m.video[pixel_y as int][pixel_x as int]);
                    lemma_collides_step(m, xs, ys, n, row as int, col as int);
                }
                if sprite_bit == 1 && current == 1 {
                    self.variable_registers[0xF] = 1;
                }
                self.video_memory[pixel_y][pixel_x] = current ^ sprite_bit;
                col += 1;
                assert forall|r: int, c: int|
                    0 <= r < DISPLAY_HEIGHT && 0 <= c < DISPLAY_WIDTH implies #[trigger] self.video_memory@[r]@[c]
                        == partly_drawn_pixel(m, xs, ys, n, row as int, col as int, r, c) by {
                    if r != pixel_y || c != pixel_x {
                        assert(self.video_memory@[r]@[c] == partly_drawn_pixel(
                            m,
                            xs,
                            ys,
                            n,
                            row as int,
                            col - 1,
                            r,
                            c,
                        ));
                    }
                }
                assert(self.variable_registers@ =~= m.registers.update(
                    15,
                    if partly_collides(m, xs, ys, n, row as int, col as int) { 1u8 } else { 0u8 },
                ));
            }
            proof {
                lemma_row_done(m, xs, ys, n, row as int, col as int);
            }
            row += 1;
        }
        proof {
            lemma_sprite_done(m, xs, ys, n, row as int);
            assert(self@.video =~~= drawn_video(m, xs, ys, n));
        }
    }
}

} // verus!
