//! Drawing sprites onto the screen.
use super::model::{sprite_bit, sprite_row_collides, sprite_row_pixel, Sprite, StateView};
use super::{Chip8InterpreterState, MEMORY_SIZE, SCREEN_HEIGHT, SCREEN_WIDTH};
use vstd::prelude::*;

verus! {

/// What XOR does to a pixel: a zero bit leaves it, and a lit pixel goes off
/// exactly when it is 1 and the bit is 1.
proof fn lemma_pixel_xor(pixel: u8, bit: u8)
    by (bit_vector)
    ensures
        pixel ^ 0 == pixel,
        bit <= 1 ==> ((pixel > 0 && pixel ^ bit == 0) <==> (pixel == 1 && bit == 1)),
        pixel & 1 <= 1,
{
}

/// The pixel that a sprite row puts on `column` when only its `done`
/// rightmost pixels are counted.
spec fn row_pixel_upto(row_bits: u8, left: int, done: int, column: int) -> u8 {
    let sprite_column = (column - left) % (SCREEN_WIDTH as int);
    if 7 - done < sprite_column < 8 {
        sprite_bit(row_bits, sprite_column)
    } else {
        0
    }
}

/// Whether the `done` rightmost pixels of a sprite row turn a lit pixel of
/// `line` off.
spec fn row_collides_upto(line: Seq<u8>, row_bits: u8, left: int, done: int) -> bool {
    exists|column: int|
        0 <= column < SCREEN_WIDTH && line[column] == 1 && #[trigger] row_pixel_upto(
            row_bits,
            left,
            done,
            column,
        ) == 1
}

/// Counting one more pixel of a sprite row changes one screen column only.
proof fn lemma_row_step(line: Seq<u8>, row_bits: u8, left: int, done: int)
    requires
        0 <= done < 8,
        0 <= left,
    ensures
        ({
            let target = (left + 7 - done) % (SCREEN_WIDTH as int);
            &&& 0 <= target < SCREEN_WIDTH
            &&& row_pixel_upto(row_bits, left, done, target) == 0
            &&& row_pixel_upto(row_bits, left, done + 1, target) == sprite_bit(row_bits, 7 - done)
            &&& forall|column: int|
                0 <= column < SCREEN_WIDTH && column != target ==> #[trigger] row_pixel_upto(
                    row_bits,
                    left,
                    done + 1,
                    column,
                ) == row_pixel_upto(row_bits, left, done, column)
            &&& row_collides_upto(line, row_bits, left, done + 1) <==> (row_collides_upto(
                line,
                row_bits,
                left,
                done,
            ) || (line[target] == 1 && sprite_bit(row_bits, 7 - done) == 1))
        }),
{
    let target = (left + 7 - done) % (SCREEN_WIDTH as int);
    assert((target - left) % (SCREEN_WIDTH as int) == 7 - done);
    assert forall|column: int|
        0 <= column < SCREEN_WIDTH && column != target implies #[trigger] row_pixel_upto(
        row_bits,
        left,
        done + 1,
        column,
    ) == row_pixel_upto(row_bits, left, done, column) by {}
    if row_collides_upto(line, row_bits, left, done + 1) {
        let column = choose|column: int|
            0 <= column < SCREEN_WIDTH && line[column] == 1 && #[trigger] row_pixel_upto(
                row_bits,
                left,
                done + 1,
                column,
            ) == 1;
        if column != target {
            assert(row_pixel_upto(row_bits, left, done, column) == 1);
        }
    }
    if row_collides_upto(line, row_bits, left, done) {
        let column = choose|column: int|
            0 <= column < SCREEN_WIDTH && line[column] == 1 && #[trigger] row_pixel_upto(
                row_bits,
                left,
                done,
                column,
            ) == 1;
        assert(column != target);
        assert(row_pixel_upto(row_bits, left, done + 1, column) == 1);
    }
    if line[target] == 1 && sprite_bit(row_bits, 7 - done) == 1 {
        assert(row_pixel_upto(row_bits, left, done + 1, target) == 1);
    }
}

/// With all eight pixels counted the partial row is the whole row.
proof fn lemma_row_complete(line: Seq<u8>, row_bits: u8, left: int)
    ensures
        forall|column: int| #[trigger]
            row_pixel_upto(row_bits, left, 8, column) == sprite_row_pixel(row_bits, left, column),
        row_collides_upto(line, row_bits, left, 8) == sprite_row_collides(line, row_bits, left),
        !row_collides_upto(line, row_bits, left, 0),
        forall|column: int| #[trigger] row_pixel_upto(row_bits, left, 0, column) == 0,
{
    if row_collides_upto(line, row_bits, left, 8) {
        let column = choose|column: int|
            0 <= column < SCREEN_WIDTH && line[column] == 1 && #[trigger] row_pixel_upto(
                row_bits,
                left,
                8,
                column,
            ) == 1;
        assert(sprite_row_pixel(row_bits, left, column) == 1);
    }
    if sprite_row_collides(line, row_bits, left) {
        let column = choose|column: int|
            0 <= column < SCREEN_WIDTH && line[column] == 1 && #[trigger] sprite_row_pixel(
                row_bits,
                left,
                column,
            ) == 1;
        assert(row_pixel_upto(row_bits, left, 8, column) == 1);
    }
}

/// Drawing one more row of a sprite changes one screen row only, and that
/// row was untouched by the rows before it.
proof fn lemma_sprite_row_step(sprite: Sprite, screen: Seq<Seq<u8>>, done: int)
    requires
        0 <= done < sprite.rows.len() <= SCREEN_HEIGHT,
    ensures
        ({
            let target = (sprite.top + done) % (SCREEN_HEIGHT as int);
            &&& 0 <= target < SCREEN_HEIGHT
            &&& forall|column: int| #[trigger] sprite.first_rows(done).pixel(target, column) == 0
            &&& forall|column: int| #[trigger]
                sprite.first_rows(done + 1).pixel(target, column) == sprite_row_pixel(
                    sprite.rows[done],
                    sprite.left,
                    column,
                )
            &&& forall|row: int, column: int|
                0 <= row < SCREEN_HEIGHT && row != target ==> #[trigger] sprite.first_rows(
                    done + 1,
                ).pixel(row, column) == sprite.first_rows(done).pixel(row, column)
            &&& sprite.first_rows(done + 1).collides_with(screen) <==> (sprite.first_rows(
                done,
            ).collides_with(screen) || sprite_row_collides(
                screen[target],
                sprite.rows[done],
                sprite.left,
            ))
        }),
{
    let target = (sprite.top + done) % (SCREEN_HEIGHT as int);
    let fewer = sprite.first_rows(done);
    let more = sprite.first_rows(done + 1);
    assert((target - sprite.top) % (SCREEN_HEIGHT as int) == done);
    assert forall|row: int, column: int|
        0 <= row < SCREEN_HEIGHT && row != target implies #[trigger] more.pixel(row, column)
        == fewer.pixel(row, column) by {}
    if more.collides_with(screen) {
        let (row, column) = choose|row: int, column: int|
            0 <= row < SCREEN_HEIGHT && 0 <= column < SCREEN_WIDTH && screen[row][column] == 1
                && #[trigger] more.pixel(row, column) == 1;
        if row == target {
            assert(sprite_row_pixel(sprite.rows[done], sprite.left, column) == 1);
        } else {
            assert(fewer.pixel(row, column) == 1);
        }
    }
    if fewer.collides_with(screen) {
        let (row, column) = choose|row: int, column: int|
            0 <= row < SCREEN_HEIGHT && 0 <= column < SCREEN_WIDTH && screen[row][column] == 1
                && #[trigger] fewer.pixel(row, column) == 1;
        assert(row != target);
        assert(more.pixel(row, column) == 1);
    }
    if sprite_row_collides(screen[target], sprite.rows[done], sprite.left) {
        let column = choose|column: int|
            0 <= column < SCREEN_WIDTH && screen[target][column] == 1
                && #[trigger] sprite_row_pixel(sprite.rows[done], sprite.left, column) == 1;
        assert(more.pixel(target, column) == 1);
    }
}

impl Chip8InterpreterState {
    /// XORs one sprite row into screen row `line`, from column `left` on and
    /// wrapping at the right edge. Says whether a lit pixel went off.
    fn draw_row(&mut self, row_bits: u8, left: usize, line: usize) -> (collided: bool)
        requires
            left <= u8::MAX,
            line < SCREEN_HEIGHT,
        ensures
            *final(self) == (Chip8InterpreterState { screen: final(self).screen, ..*old(self) }),
            forall|row: int, column: int|
                0 <= row < SCREEN_HEIGHT && 0 <= column < SCREEN_WIDTH ==> #[trigger] final(self).screen[row][column]
                    == if row == line {
                    old(self).screen[row][column] ^ sprite_row_pixel(row_bits, left as int, column)
                } else {
                    old(self).screen[row][column]
                },
            collided == sprite_row_collides(old(self).screen[line as int]@, row_bits, left as int),
        no_unwind
    {
        let ghost before = old(self).screen[line as int]@;
        let mut collided = false;
        let mut bit: usize = 0;
        proof {
            lemma_row_complete(before, row_bits, left as int);
            assert forall|row: int, column: int|
                0 <= row < SCREEN_HEIGHT && 0 <= column < SCREEN_WIDTH implies #[trigger] self.screen[row][column]
                == if row == line {
                before[column] ^ row_pixel_upto(row_bits, left as int, 0, column)
            } else {
                old(self).screen[row][column]
            } by {
                lemma_pixel_xor(self.screen[row][column], 0);
            }
        }
        while bit < 8
            invariant
                bit <= 8,
                left <= u8::MAX,
                line < SCREEN_HEIGHT,
                before == old(self).screen[line as int]@,
                *self == (Chip8InterpreterState { screen: self.screen, ..*old(self) }),
                forall|row: int, column: int|
                    0 <= row < SCREEN_HEIGHT && 0 <= column < SCREEN_WIDTH ==> #[trigger] self.screen[row][column]
                        == if row == line {
                        before[column] ^ row_pixel_upto(row_bits, left as int, bit as int, column)
                    } else {
                        old(self).screen[row][column]
                    },
                collided == row_collides_upto(before, row_bits, left as int, bit as int),
            decreases 8 - bit,
        {
            let column = (left + 7 - bit) % SCREEN_WIDTH;
            let old_val = self.screen[line][column];
            let ghost earlier = self.screen;
            proof {
                lemma_row_step(before, row_bits, left as int, bit as int);
                lemma_pixel_xor(before[column as int], 0);
                lemma_pixel_xor(old_val, (row_bits >> bit) & 1);
                lemma_pixel_xor(row_bits >> bit, 0);
            }
            self.screen[line][column] = old_val ^ ((row_bits >> bit) & 1);
            if old_val > 0 && self.screen[line][column] == 0 {
                collided = true;
            }
            assert forall|row: int, other: int|
                0 <= row < SCREEN_HEIGHT && 0 <= other < SCREEN_WIDTH implies #[trigger] self.screen[row][other]
                == if row == line {
                before[other] ^ row_pixel_upto(row_bits, left as int, bit + 1, other)
            } else {
                old(self).screen[row][other]
            } by {
                assert(earlier[row][other] == if row == line {
                    before[other] ^ row_pixel_upto(row_bits, left as int, bit as int, other)
                } else {
                    old(self).screen[row][other]
                });
            }
            bit += 1;
        }
        collided
    }

    /// Draws the `len` bytes at the index register as a sprite at the
    /// position that registers `x` and `y` hold, and sets the flag register
    /// to 1 if a lit pixel went off, else to 0.
    pub(crate) fn draw_sprite(&mut self, x: usize, y: usize, len: usize)
        requires
            x < 16,
            y < 16,
            len < 16,
            old(self).i + len <= MEMORY_SIZE,
        ensures
            ({
                let sprite = old(self)@.sprite(x as int, y as int, len as int);
                final(self)@ == (StateView {
                    screen: sprite.drawn_on(old(self)@.screen),
                    ..old(self)@
                }).with_flag(sprite.collides_with(old(self)@.screen))
            }),
        no_unwind
    {
        let pos_x = self.registers[x] as usize;
        let pos_y = self.registers[y] as usize;
        let ghost sprite = self@.sprite(x as int, y as int, len as int);
        let ghost before = self@.screen;
        let mut set_flag = false;
        let mut sprite_row_index: usize = 0;
        proof {
            assert forall|row: int, column: int|
                0 <= row < SCREEN_HEIGHT && 0 <= column < SCREEN_WIDTH implies #[trigger] self.screen[row][column]
                == before[row][column] ^ sprite.first_rows(0).pixel(row, column) by {
                lemma_pixel_xor(self.screen[row][column], 0);
            }
        }
        while sprite_row_index < len
            invariant
                sprite_row_index <= len < 16,
                x < 16,
                y < 16,
                self.i + len <= MEMORY_SIZE,
                pos_x == old(self).registers[x as int],
                pos_y == old(self).registers[y as int],
                sprite == old(self)@.sprite(x as int, y as int, len as int),
                before == old(self)@.screen,
                *self == (Chip8InterpreterState { screen: self.screen, ..*old(self) }),
                forall|row: int, column: int|
                    0 <= row < SCREEN_HEIGHT && 0 <= column < SCREEN_WIDTH ==> #[trigger] self.screen[row][column]
                        == before[row][column] ^ sprite.first_rows(sprite_row_index as int).pixel(
                        row,
                        column,
                    ),
                set_flag == sprite.first_rows(sprite_row_index as int).collides_with(before),
            decreases len - sprite_row_index,
        {
            let sprite_row = self.memory[self.i as usize + sprite_row_index];
            let pixel_pos_y = (pos_y + sprite_row_index) % SCREEN_HEIGHT;
            let ghost earlier = self.screen;
            proof {
                lemma_sprite_row_step(sprite, before, sprite_row_index as int);
                assert forall|column: int| 0 <= column < SCREEN_WIDTH implies #[trigger] self.screen[pixel_pos_y as int][column]
                    == before[pixel_pos_y as int][column] by {
                    lemma_pixel_xor(before[pixel_pos_y as int][column], 0);
                    assert(sprite.first_rows(sprite_row_index as int).pixel(pixel_pos_y as int, column) == 0);
                }
                assert(self.screen[pixel_pos_y as int]@ =~= before[pixel_pos_y as int]);
            }
            let collided = self.draw_row(sprite_row, pos_x, pixel_pos_y);
            if collided {
                set_flag = true;
            }
            assert forall|row: int, column: int|
                0 <= row < SCREEN_HEIGHT && 0 <= column < SCREEN_WIDTH implies #[trigger] self.screen[row][column]
                == before[row][column] ^ sprite.first_rows(sprite_row_index + 1).pixel(
                row,
                column,
            ) by {
                assert(earlier[row][column] == before[row][column] ^ sprite.first_rows(
                    sprite_row_index as int,
                ).pixel(row, column));
                if row == pixel_pos_y {
                    assert(sprite.first_rows(sprite_row_index as int).pixel(row, column) == 0);
                    lemma_pixel_xor(before[row][column], 0);
                    assert(sprite.first_rows(sprite_row_index + 1).pixel(row, column)
                        == sprite_row_pixel(sprite_row, pos_x as int, column));
                } else {
                    assert(sprite.first_rows(sprite_row_index + 1).pixel(row, column)
                        == sprite.first_rows(sprite_row_index as int).pixel(row, column));
                }
            }
            sprite_row_index += 1;
        }
        self.registers[15] = if set_flag {
            1
        } else {
            0
        };
        proof {
            assert(sprite.first_rows(len as int) =~= sprite);
            assert(self@ =~~= (StateView {
                screen: sprite.drawn_on(old(self)@.screen),
                ..old(self)@
            }).with_flag(sprite.collides_with(old(self)@.screen)));
        }
    }
}

} // verus!
