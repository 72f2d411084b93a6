//! The 64x32 monochrome screen and the glyphs for the sixteen hex digits.

use crate::cpu::{CpuState, CPU};
use crate::emulator::EmulatorComponent;
use crate::error::{follows, EmulatorError};
use crate::memory::{Memory, MemoryState, RAM_SIZE};
use vstd::prelude::*;

verus! {

pub const SCREEN_WIDTH: usize = 64;

pub const SCREEN_HEIGHT: usize = 32;

/// The number of pixels.
pub const SCREEN_SIZE: usize = 2048;

pub const FONT_SET_SIZE: usize = 80;

/// The glyphs for the hex digits 0 to F, five bytes each, one byte for each
/// row of a glyph.
pub const FONT_SET: [u8; FONT_SET_SIZE] = [
    0xF0, 0x90, 0x90, 0x90, 0xF0, // 0
    0x20, 0x60, 0x20, 0x20, 0x70, // 1
    0xF0, 0x10, 0xF0, 0x80, 0xF0, // 2
    0xF0, 0x10, 0xF0, 0x10, 0xF0, // 3
    0x90, 0x90, 0xF0, 0x10, 0x10, // 4
    0xF0, 0x80, 0xF0, 0x10, 0xF0, // 5
    0xF0, 0x80, 0xF0, 0x90, 0xF0, // 6
    0xF0, 0x10, 0x20, 0x40, 0x40, // 7
    0xF0, 0x90, 0xF0, 0x90, 0xF0, // 8
    0xF0, 0x90, 0xF0, 0x10, 0xF0, // 9
    0xF0, 0x90, 0xF0, 0x90, 0x90, // A
    0xE0, 0x90, 0xE0, 0x90, 0xE0, // B
    0xF0, 0x80, 0x80, 0x80, 0xF0, // C
    0xE0, 0x90, 0x90, 0x90, 0xE0, // D
    0xF0, 0x80, 0xF0, 0x80, 0xF0, // E
    0xF0, 0x80, 0xF0, 0x80, 0x80, // F
];

/// A screen with every pixel off.
pub open spec fn blank_screen() -> Seq<bool> {
    Seq::new(SCREEN_SIZE as nat, |index: int| false)
}

/// The place in the row-major buffer of the pixel in column `x` and row
/// `y`, both wrapped round the edges of the screen.
pub open spec fn pixel_index(x: int, y: int) -> int {
    x % 64 + 64 * (y % 32)
}

/// Whether the bit for column `column` of a sprite row is set. Column 0 is
/// the leftmost and lies in the most significant bit.
pub open spec fn sprite_bit(bits: u8, column: int) -> bool {
    0 <= column < 8 && bits & (0x80u8 >> (column as u8)) != 0
}

/// How many columns to the right of column `x` the pixel at `index` lies,
/// going round the edge of the screen.
pub open spec fn column_offset(x: int, index: int) -> int {
    (index % 64 - x) % 64
}

/// Whether drawing the sprite row `bits` with its leftmost pixel in column
/// `x` of row `y` flips the pixel at `index`.
pub open spec fn row_flips(bits: u8, x: int, y: int, index: int) -> bool {
    index / 64 == y % 32 && sprite_bit(bits, column_offset(x, index))
}

/// The screen after one sprite row is drawn: each pixel that the row flips
/// is inverted.
pub open spec fn draw_row(screen: Seq<bool>, bits: u8, x: int, y: int) -> Seq<bool> {
    Seq::new(screen.len(), |index: int| screen[index] ^ row_flips(bits, x, y, index))
}

/// Whether drawing one sprite row turns off a pixel that was lit.
pub open spec fn row_collides(screen: Seq<bool>, bits: u8, x: int, y: int) -> bool {
    exists|index: int|
        0 <= index < screen.len() && screen[index] && #[trigger] row_flips(bits, x, y, index)
}

/// The screen after the rows of `sprite` are drawn one below the other, the
/// first with its leftmost pixel in column `x` of row `y`.
pub open spec fn draw_sprite(screen: Seq<bool>, sprite: Seq<u8>, x: int, y: int) -> Seq<bool>
    decreases sprite.len(),
{
    if sprite.len() == 0 {
        screen
    } else {
        draw_row(
            draw_sprite(screen, sprite.drop_last(), x, y),
            sprite.last(),
            x,
            y + sprite.len() - 1,
        )
    }
}

/// Whether, while the rows of `sprite` are drawn in turn, one of them turns
/// off a pixel that was lit when its turn came.
pub open spec fn sprite_collides(screen: Seq<bool>, sprite: Seq<u8>, x: int, y: int) -> bool
    decreases sprite.len(),
{
    sprite.len() > 0 && (sprite_collides(screen, sprite.drop_last(), x, y) || row_collides(
        draw_sprite(screen, sprite.drop_last(), x, y),
        sprite.last(),
        x,
        y + sprite.len() - 1,
    ))
}

/// DRW: the `rows` bytes of memory from I on are drawn as a sprite at
/// (`x`, `y`), and VF becomes 1 if that turned a lit pixel off and 0 if not.
/// A sprite that reaches past the end of the memory is refused.
pub open spec fn draw(
    screen: Seq<bool>,
    cpu: CpuState,
    memory: MemoryState,
    x: int,
    y: int,
    rows: int,
) -> Result<(Seq<bool>, CpuState), EmulatorError> {
    if rows > 0 && cpu.index + rows > RAM_SIZE {
        Err(EmulatorError::AddressOutOfRange)
    } else {
        let sprite = memory.bytes_from(cpu.index as int, rows);
        Ok(
            (
                draw_sprite(screen, sprite, x, y),
                cpu.with_flag(sprite_collides(screen, sprite, x, y)),
            ),
        )
    }
}

/// The pixel that lies `column` to the right of column `x` in row `y` is the
/// one pixel of that row whose offset from `x` is `column`.
pub proof fn lemma_column_offset(x: int, y: int, column: int, index: int)
    requires
        0 <= column < 64,
        0 <= index < SCREEN_SIZE,
        index / 64 == y % 32,
    ensures
        column_offset(x, index) == column <==> index == pixel_index(x + column, y),
{
}

/// Whether one of the first `columns` columns of the sprite row flips the
/// pixel at `index`.
#[verifier::opaque]
spec fn flips_before(bits: u8, x: int, y: int, index: int, columns: int) -> bool {
    row_flips(bits, x, y, index) && column_offset(x, index) < columns
}

proof fn lemma_no_column_drawn(bits: u8, x: int, y: int)
    ensures
        forall|index: int| !#[trigger] flips_before(bits, x, y, index, 0),
{
    reveal(flips_before);
}

proof fn lemma_all_columns_drawn(bits: u8, x: int, y: int)
    ensures
        forall|index: int| #[trigger]
            flips_before(bits, x, y, index, 8) == row_flips(bits, x, y, index),
{
    reveal(flips_before);
}

/// Drawing column `column` of a row adds the pixel at `target`, if the
/// column's bit is set, to the pixels that the columns before it flip.
proof fn lemma_column_drawn(bits: u8, x: int, y: int, column: int, target: int)
    requires
        0 <= column < 8,
        target == (x % 64 + column) % 64 + 64 * (y % 32),
    ensures
        0 <= target < SCREEN_SIZE,
        !flips_before(bits, x, y, target, column),
        sprite_bit(bits, column) <==> bits & (0x80u8 >> (column as u8)) != 0,
        forall|index: int|
            0 <= index < SCREEN_SIZE ==> (#[trigger] flips_before(bits, x, y, index, column + 1)
                <==> flips_before(bits, x, y, index, column) || (index == target && sprite_bit(
                bits,
                column,
            ))),
{
    reveal(flips_before);
    assert forall|index: int| 0 <= index < SCREEN_SIZE implies (#[trigger] flips_before(
        bits,
        x,
        y,
        index,
        column + 1,
    ) <==> flips_before(bits, x, y, index, column) || (index == target && sprite_bit(
        bits,
        column,
    ))) by {
        if index / 64 == y % 32 {
            lemma_column_offset(x, y, column, index);
        }
    }
    lemma_column_offset(x, y, column, target);
}

/// The screen. Its view is the sequence of its 2048 pixels in row-major
/// order, the top left one first; a lit pixel is `true`.
pub struct Display {
    screen: [bool; SCREEN_SIZE],
}

impl View for Display {
    type V = Seq<bool>;

    closed spec fn view(&self) -> Seq<bool> {
        self.screen@
    }
}

impl Display {
    pub fn new() -> (display: Self)
        ensures
            display@ == blank_screen(),
    {
        Self { screen: [false; SCREEN_SIZE] }
    }

    /// The view of a display holds one pixel for each place of the 64x32
    /// grid.
    pub proof fn lemma_valid(&self)
        ensures
            self@.len() == SCREEN_SIZE,
    {
    }

    /// The pixels in row-major order, the top left one first.
    pub fn screen(&self) -> (pixels: &[bool; SCREEN_SIZE])
        ensures
            pixels@ == self@,
    {
        &self.screen
    }

    /// Clear screen buffer
    pub fn op_cls(&mut self)
        ensures
            final(self)@ == blank_screen(),
    {
        self.reset();
    }

    /// Draws one row of a sprite and says whether a lit pixel went off.
    fn draw_row(&mut self, bits: u8, x_coord: usize, y: usize) -> (collided: bool)
        ensures
            final(self)@ == draw_row(old(self)@, bits, x_coord as int, y as int),
            collided == row_collides(old(self)@, bits, x_coord as int, y as int),
    {
        let left = x_coord % SCREEN_WIDTH;
        let row = y % SCREEN_HEIGHT;
        let mut collided = false;
        let mut x_line: usize = 0;
        proof {
            lemma_no_column_drawn(bits, x_coord as int, y as int);
        }
        while x_line < 8
            invariant
                x_line <= 8,
                left == x_coord % 64,
                row == y % 32,
                forall|index: int|
                    0 <= index < SCREEN_SIZE ==> self.screen@[index] == (old(self).screen@[index]
                        ^ flips_before(bits, x_coord as int, y as int, index, x_line as int)),
                collided <==> exists|index: int|
                    0 <= index < SCREEN_SIZE && old(self).screen@[index] && flips_before(
                        bits,
                        x_coord as int,
                        y as int,
                        index,
                        x_line as int,
                    ),
            decreases 8 - x_line,
        {
            let idx = (left + x_line) % SCREEN_WIDTH + SCREEN_WIDTH * row;
            proof {
                lemma_column_drawn(bits, x_coord as int, y as int, x_line as int, idx as int);
            }
            // Use a mask to fetch current pixel's bit. Only flip if a 1
            if (bits & (0x80u8 >> (x_line as u8))) != 0 {
                // Check if we're about to flip the pixel and set
                if self.screen[idx] {
                    collided = true;
                }
                self.screen[idx] = !self.screen[idx];
            }
            x_line += 1;
        }
        proof {
            lemma_all_columns_drawn(bits, x_coord as int, y as int);
            assert(self@ =~= draw_row(old(self)@, bits, x_coord as int, y as int));
        }
        collided
    }

    /// Draws sprite at X Y location
    pub fn op_drw(
        &mut self,
        cpu: &mut CPU,
        memory: &Memory,
        x_coord: usize,
        y_coord: usize,
        num_rows: usize,
    ) -> (result: Result<(), EmulatorError>)
        ensures
            follows(
                (old(self)@, old(cpu)@),
                draw(
                    old(self)@,
                    old(cpu)@,
                    memory@,
                    x_coord as int,
                    y_coord as int,
                    num_rows as int,
                ),
                result,
                (final(self)@, final(cpu)@),
            ),
    {
        let base = cpu.get_i_register() as usize;
        if num_rows > 0 && (num_rows > RAM_SIZE || base + num_rows > RAM_SIZE) {
            return Err(EmulatorError::AddressOutOfRange);
        }
        let ghost sprite = memory@.bytes_from(base as int, num_rows as int);
        let top = y_coord % SCREEN_HEIGHT;
        // Keep track if any pixels were flipped
        let mut flipped = false;
        let mut y_line: usize = 0;
        proof {
            memory.lemma_valid();
        }
        // Iterate over each row of our sprite
        while y_line < num_rows
            invariant
                y_line <= num_rows,
                num_rows > 0 ==> base + num_rows <= RAM_SIZE,
                top == y_coord % 32,
                memory@.ram.len() == RAM_SIZE,
                sprite == memory@.bytes_from(base as int, num_rows as int),
                self@ == draw_sprite(
                    old(self)@,
                    sprite.take(y_line as int),
                    x_coord as int,
                    y_coord as int,
                ),
                flipped == sprite_collides(
                    old(self)@,
                    sprite.take(y_line as int),
                    x_coord as int,
                    y_coord as int,
                ),
            decreases num_rows - y_line,
        {
            // Determine which memory address our row's data is stored
            let pixels = memory.byte(base + y_line);
            let y = top + y_line % SCREEN_HEIGHT;
            let collided = self.draw_row(pixels, x_coord, y);
            flipped = flipped || collided;
            proof {
                let drawn = sprite.take(y_line as int);
                let next = sprite.take(y_line + 1);
                assert(next.drop_last() =~= drawn);
                lemma_row_wraps(pixels, x_coord as int, y as int, y_coord + y_line);
            }
            y_line += 1;
        }
        assert(sprite.take(num_rows as int) =~= sprite);
        // Populate VF register
        cpu.set_flag(flipped);
        Ok(())
    }
}

/// Rows that differ by a multiple of the screen's height are the same row.
pub proof fn lemma_row_wraps(bits: u8, x: int, y1: int, y2: int)
    requires
        y1 % 32 == y2 % 32,
    ensures
        forall|screen: Seq<bool>| #[trigger]
            draw_row(screen, bits, x, y1) == draw_row(screen, bits, x, y2),
        forall|screen: Seq<bool>| #[trigger]
            row_collides(screen, bits, x, y1) == row_collides(screen, bits, x, y2),
{
    assert forall|screen: Seq<bool>| #[trigger]
        draw_row(screen, bits, x, y1) == draw_row(screen, bits, x, y2) by {
        assert(draw_row(screen, bits, x, y1) =~= draw_row(screen, bits, x, y2));
    }
    assert forall|screen: Seq<bool>| #[trigger]
        row_collides(screen, bits, x, y1) == row_collides(screen, bits, x, y2) by {
        if row_collides(screen, bits, x, y1) {
            let index = choose|index: int|
                0 <= index < screen.len() && screen[index] && #[trigger] row_flips(
                    bits,
                    x,
                    y1,
                    index,
                );
            assert(row_flips(bits, x, y2, index));
        }
        if row_collides(screen, bits, x, y2) {
            let index = choose|index: int|
                0 <= index < screen.len() && screen[index] && #[trigger] row_flips(
                    bits,
                    x,
                    y2,
                    index,
                );
            assert(row_flips(bits, x, y1, index));
        }
    }
}

/// Whether row number `row` of `sprite`, drawn at (`x`, `y`), flips the
/// pixel at `index`.
pub open spec fn sprite_row_flips(sprite: Seq<u8>, x: int, y: int, row: int, index: int) -> bool {
    row_flips(sprite[row], x, y + row, index)
}

/// Whether a set bit of `sprite`, drawn at (`x`, `y`), lands on the pixel at
/// `index`.
pub open spec fn sprite_covers(sprite: Seq<u8>, x: int, y: int, index: int) -> bool {
    exists|row: int|
        0 <= row < sprite.len() && #[trigger] sprite_row_flips(sprite, x, y, row, index)
}

/// Whether an odd number of the rows of `sprite`, drawn at (`x`, `y`), flip
/// the pixel at `index`.
pub open spec fn sprite_flips(sprite: Seq<u8>, x: int, y: int, index: int) -> bool
    decreases sprite.len(),
{
    if sprite.len() == 0 {
        false
    } else {
        sprite_flips(sprite.drop_last(), x, y, index) ^ row_flips(
            sprite.last(),
            x,
            y + sprite.len() - 1,
            index,
        )
    }
}

/// Drawing a sprite inverts the pixels that an odd number of its rows flip,
/// and leaves the others and the size of the screen as they were.
pub proof fn lemma_draw_sprite_pixels(screen: Seq<bool>, sprite: Seq<u8>, x: int, y: int)
    ensures
        draw_sprite(screen, sprite, x, y).len() == screen.len(),
        forall|index: int|
            0 <= index < screen.len() ==> #[trigger] draw_sprite(screen, sprite, x, y)[index] == (
            screen[index] ^ sprite_flips(sprite, x, y, index)),
    decreases sprite.len(),
{
    if sprite.len() > 0 {
        lemma_draw_sprite_pixels(screen, sprite.drop_last(), x, y);
    }
}

/// Drawing the same sprite at the same place twice in a row gives back the
/// screen from before the first drawing.
pub proof fn lemma_draw_twice_restores(screen: Seq<bool>, sprite: Seq<u8>, x: int, y: int)
    ensures
        draw_sprite(draw_sprite(screen, sprite, x, y), sprite, x, y) == screen,
{
    let once = draw_sprite(screen, sprite, x, y);
    let twice = draw_sprite(once, sprite, x, y);
    lemma_draw_sprite_pixels(screen, sprite, x, y);
    lemma_draw_sprite_pixels(once, sprite, x, y);
    assert(twice =~= screen);
}

/// A drawing collides if, when the turn of one of the sprite's rows has
/// come, the pixel at `index` is lit and that row flips it: this is so where
/// the pixel starts out lit exactly if an odd number of rows flip it, and
/// some row does.
proof fn lemma_collides_on_own_trace(
    screen: Seq<bool>,
    sprite: Seq<u8>,
    x: int,
    y: int,
    index: int,
)
    requires
        0 <= index < screen.len(),
        screen[index] == sprite_flips(sprite, x, y, index),
        sprite_covers(sprite, x, y, index),
    ensures
        sprite_collides(screen, sprite, x, y),
    decreases sprite.len(),
{
    let row = choose|row: int|
        0 <= row < sprite.len() && #[trigger] sprite_row_flips(sprite, x, y, row, index);
    let rest = sprite.drop_last();
    let before_last = draw_sprite(screen, rest, x, y);
    lemma_draw_sprite_pixels(screen, rest, x, y);
    if row_flips(sprite.last(), x, y + sprite.len() - 1, index) {
        assert(before_last[index]);
        assert(row_collides(before_last, sprite.last(), x, y + sprite.len() - 1));
    } else {
        assert(sprite_row_flips(rest, x, y, row, index));
        lemma_collides_on_own_trace(screen, rest, x, y, index);
    }
}

/// Of two drawings of the same sprite at the same place in a row, the
/// second collides if a set bit of the sprite lands on a pixel that was off
/// before the first.
pub proof fn lemma_second_draw_collides(
    screen: Seq<bool>,
    sprite: Seq<u8>,
    x: int,
    y: int,
    index: int,
)
    requires
        0 <= index < screen.len(),
        !screen[index],
        sprite_covers(sprite, x, y, index),
    ensures
        sprite_collides(draw_sprite(screen, sprite, x, y), sprite, x, y),
{
    lemma_draw_sprite_pixels(screen, sprite, x, y);
    lemma_collides_on_own_trace(draw_sprite(screen, sprite, x, y), sprite, x, y, index);
}

/// For a sprite no higher than the screen, no two rows flip the same pixel:
/// the drawing inverts exactly the pixels that a set bit lands on, and it
/// collides exactly if one of those was lit.
pub proof fn lemma_draw_without_overlap(screen: Seq<bool>, sprite: Seq<u8>, x: int, y: int)
    requires
        sprite.len() <= SCREEN_HEIGHT,
    ensures
        draw_sprite(screen, sprite, x, y).len() == screen.len(),
        forall|index: int|
            0 <= index < screen.len() ==> #[trigger] draw_sprite(screen, sprite, x, y)[index] == (
            screen[index] ^ sprite_covers(sprite, x, y, index)),
        sprite_collides(screen, sprite, x, y) <==> exists|index: int|
            0 <= index < screen.len() && screen[index] && #[trigger] sprite_covers(
                sprite,
                x,
                y,
                index,
            ),
    decreases sprite.len(),
{
    lemma_draw_sprite_pixels(screen, sprite, x, y);
    lemma_flips_without_overlap(sprite, x, y);
    if sprite.len() > 0 {
        let rest = sprite.drop_last();
        let last_y = y + sprite.len() - 1;
        let before_last = draw_sprite(screen, rest, x, y);
        lemma_draw_without_overlap(screen, rest, x, y);
        lemma_flips_without_overlap(rest, x, y);
        assert forall|index: int|
            row_flips(sprite.last(), x, last_y, index) implies !sprite_covers(
            rest,
            x,
            y,
            index,
        ) by {
            if sprite_covers(rest, x, y, index) {
                let row = choose|row: int|
                    0 <= row < rest.len() && #[trigger] sprite_row_flips(rest, x, y, row, index);
                lemma_rows_apart(y, row, sprite.len() - 1);
            }
        }
        if sprite_collides(screen, sprite, x, y) {
            if sprite_collides(screen, rest, x, y) {
                let index = choose|index: int|
                    0 <= index < screen.len() && screen[index] && #[trigger] sprite_covers(
                        rest,
                        x,
                        y,
                        index,
                    );
                lemma_covers_grows(sprite, x, y, index);
            } else {
                let index = choose|index: int|
                    0 <= index < before_last.len() && before_last[index] && #[trigger] row_flips(
                        sprite.last(),
                        x,
                        last_y,
                        index,
                    );
                assert(sprite_row_flips(sprite, x, y, sprite.len() - 1, index));
                assert(screen[index] && sprite_covers(sprite, x, y, index));
            }
        }
        if exists|index: int|
            0 <= index < screen.len() && screen[index] && #[trigger] sprite_covers(
                sprite,
                x,
                y,
                index,
            ) {
            let index = choose|index: int|
                0 <= index < screen.len() && screen[index] && #[trigger] sprite_covers(
                    sprite,
                    x,
                    y,
                    index,
                );
            let row = choose|row: int|
                0 <= row < sprite.len() && #[trigger] sprite_row_flips(sprite, x, y, row, index);
            if row == sprite.len() - 1 {
                assert(before_last[index]);
                assert(row_collides(before_last, sprite.last(), x, last_y));
            } else {
                assert(sprite_row_flips(rest, x, y, row, index));
                assert(sprite_covers(rest, x, y, index));
            }
        }
    }
}

/// A pixel that a set bit of all but the last row lands on is one that a set
/// bit of the sprite lands on.
proof fn lemma_covers_grows(sprite: Seq<u8>, x: int, y: int, index: int)
    requires
        sprite.len() > 0,
        sprite_covers(sprite.drop_last(), x, y, index),
    ensures
        sprite_covers(sprite, x, y, index),
{
    let rest = sprite.drop_last();
    let row = choose|row: int|
        0 <= row < rest.len() && #[trigger] sprite_row_flips(rest, x, y, row, index);
    assert(sprite_row_flips(sprite, x, y, row, index));
}

/// Two rows of a sprite that are less than the screen's height apart lie
/// in different rows of the screen.
proof fn lemma_rows_apart(y: int, upper: int, lower: int)
    requires
        upper < lower < upper + 32,
    ensures
        (y + upper) % 32 != (y + lower) % 32,
{
}

/// For a sprite no higher than the screen, a pixel is flipped by an odd
/// number of rows exactly if it is flipped by some row.
proof fn lemma_flips_without_overlap(sprite: Seq<u8>, x: int, y: int)
    requires
        sprite.len() <= SCREEN_HEIGHT,
    ensures
        forall|index: int| #[trigger]
            sprite_flips(sprite, x, y, index) == sprite_covers(sprite, x, y, index),
    decreases sprite.len(),
{
    if sprite.len() > 0 {
        let rest = sprite.drop_last();
        let last = sprite.len() - 1;
        lemma_flips_without_overlap(rest, x, y);
        assert forall|index: int| #[trigger]
            sprite_flips(sprite, x, y, index) == sprite_covers(sprite, x, y, index) by {
            let last_flips = sprite_row_flips(sprite, x, y, last, index);
            assert(sprite_flips(sprite, x, y, index) == (sprite_flips(rest, x, y, index)
                ^ last_flips));
            if sprite_covers(rest, x, y, index) {
                let row = choose|row: int|
                    0 <= row < rest.len() && #[trigger] sprite_row_flips(rest, x, y, row, index);
                assert(sprite_row_flips(sprite, x, y, row, index));
                lemma_rows_apart(y, row, last);
            } else if !last_flips && sprite_covers(sprite, x, y, index) {
                let row = choose|row: int|
                    0 <= row < sprite.len() && #[trigger] sprite_row_flips(
                        sprite,
                        x,
                        y,
                        row,
                        index,
                    );
                assert(sprite_row_flips(rest, x, y, row, index));
            }
        }
    } else {
        assert forall|index: int| #[trigger]
            sprite_flips(sprite, x, y, index) == sprite_covers(sprite, x, y, index) by {}
    }
}

/// The bit for column `column` of row `row` of a sprite drawn at (`x`, `y`)
/// lands `column` pixels to the right of `x` and `row` pixels below `y`,
/// going round the edges of the screen.
pub proof fn lemma_sprite_wraps(sprite: Seq<u8>, x: int, y: int, row: int, column: int)
    requires
        sprite.len() <= SCREEN_HEIGHT,
        0 <= row < sprite.len(),
        0 <= column < 8,
    ensures
        0 <= pixel_index(x + column, y + row) < SCREEN_SIZE,
        sprite_covers(sprite, x, y, pixel_index(x + column, y + row)) == sprite_bit(
            sprite[row],
            column,
        ),
{
    let index = pixel_index(x + column, y + row);
    lemma_column_offset(x, y + row, column, index);
    if sprite_bit(sprite[row], column) {
        assert(sprite_row_flips(sprite, x, y, row, index));
    }
    if sprite_covers(sprite, x, y, index) {
        let other = choose|other: int|
            0 <= other < sprite.len() && #[trigger] sprite_row_flips(sprite, x, y, other, index);
        if other < row {
            lemma_rows_apart(y, other, row);
        } else if row < other {
            lemma_rows_apart(y, row, other);
        }
    }
}

/// Two DRW in a row, with the same coordinates and height and with I and
/// the memory unchanged between them: the second gives back the screen from
/// before the first. It sets VF to 1 if a set bit of the sprite lands on a
/// pixel that was off before the first; for a sprite no higher than the
/// screen it sets VF to 0 if there is no such bit.
pub proof fn lemma_draw_twice(
    screen: Seq<bool>,
    cpu: CpuState,
    memory: MemoryState,
    x: int,
    y: int,
    rows: nat,
)
    requires
        cpu.wf(),
        draw(screen, cpu, memory, x, y, rows as int) is Ok,
    ensures
        ({
            let sprite = memory.bytes_from(cpu.index as int, rows as int);
            let first = draw(screen, cpu, memory, x, y, rows as int)->Ok_0;
            let lands_on_dark = exists|index: int|
                0 <= index < screen.len() && !screen[index] && #[trigger] sprite_covers(
                    sprite,
                    x,
                    y,
                    index,
                );
            &&& draw(first.0, first.1, memory, x, y, rows as int) matches Ok(second)
            &&& second.0 == screen
            &&& lands_on_dark ==> second.1.registers[0xF] == 1
            &&& !lands_on_dark && rows <= SCREEN_HEIGHT ==> second.1.registers[0xF] == 0
        }),
{
    let sprite = memory.bytes_from(cpu.index as int, rows as int);
    let first = draw(screen, cpu, memory, x, y, rows as int)->Ok_0;
    lemma_draw_twice_restores(screen, sprite, x, y);
    lemma_draw_sprite_pixels(screen, sprite, x, y);
    if exists|index: int|
        0 <= index < screen.len() && !screen[index] && #[trigger] sprite_covers(
            sprite,
            x,
            y,
            index,
        ) {
        let index = choose|index: int|
            0 <= index < screen.len() && !screen[index] && #[trigger] sprite_covers(
                sprite,
                x,
                y,
                index,
            );
        lemma_second_draw_collides(screen, sprite, x, y, index);
    } else if rows <= SCREEN_HEIGHT {
        lemma_draw_without_overlap(screen, sprite, x, y);
        lemma_draw_without_overlap(first.0, sprite, x, y);
        if sprite_collides(first.0, sprite, x, y) {
            let index = choose|index: int|
                0 <= index < first.0.len() && first.0[index] && #[trigger] sprite_covers(
                    sprite,
                    x,
                    y,
                    index,
                );
            assert(!screen[index]);
        }
    }
}

impl EmulatorComponent for Display {
    open spec fn is_reset(&self) -> bool {
        self@ == blank_screen()
    }

    fn reset(&mut self) {
        self.screen = [false; SCREEN_SIZE];
        assert(self@ =~= blank_screen());
    }
}

} // verus!
