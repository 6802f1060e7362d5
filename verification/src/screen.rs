//! The display: a 64 by 32 grid of pixels that sprites are XORed onto, and a
//! flag that tells the frontend when the grid has changed.

use vstd::prelude::*;

verus! {

/// Width of the display in pixels.
pub const WIDTH: usize = 64;

/// Height of the display in pixels.
pub const HEIGHT: usize = 32;

/// The built-in glyphs for the hexadecimal digits, five bytes each, the
/// glyph for `0` first.
pub const SPRITES: [u8; 80] = [
    0xF0, 0x90, 0x90, 0x90, 0xF0,
    0x20, 0x60, 0x20, 0x20, 0x70,
    0xF0, 0x10, 0xF0, 0x80, 0xF0,
    0xF0, 0x10, 0xF0, 0x10, 0xF0,
    0x90, 0x90, 0xF0, 0x10, 0x10,
    0xF0, 0x80, 0xF0, 0x10, 0xF0,
    0xF0, 0x80, 0xF0, 0x90, 0xF0,
    0xF0, 0x10, 0x20, 0x40, 0x40,
    0xF0, 0x90, 0xF0, 0x90, 0xF0,
    0xF0, 0x90, 0xF0, 0x10, 0xF0,
    0xF0, 0x90, 0xF0, 0x90, 0x90,
    0xE0, 0x90, 0xE0, 0x90, 0xE0,
    0xF0, 0x80, 0x80, 0x80, 0xF0,
    0xE0, 0x90, 0x90, 0x90, 0xE0,
    0xF0, 0x80, 0xF0, 0x80, 0xF0,
    0xF0, 0x80, 0xF0, 0x80, 0x80,
];

/// Whether a grid has 32 rows of 64 pixels.
pub open spec fn grid_wf(g: Seq<Seq<bool>>) -> bool {
    &&& g.len() == 32
    &&& forall|y: int| 0 <= y < 32 ==> (#[trigger] g[y]).len() == 64
}

/// The grid with no pixel lit.
pub open spec fn blank() -> Seq<Seq<bool>> {
    Seq::new(32, |y: int| Seq::new(64, |x: int| false))
}

/// Bit `col` of a sprite row, counted from the left: column 0 is the most
/// significant bit.
pub open spec fn sprite_bit(byte: u8, col: int) -> bool {
    byte & (1u8 << ((7 - col) as u8)) != 0
}

/// Whether a sprite row drawn with its left edge at column `x0` inks column
/// `x`. The row is eight pixels wide and wraps round the right edge.
pub open spec fn sprite_covers(x0: u8, byte: u8, x: int) -> bool {
    let col = (x - x0) % 64;
    col < 8 && sprite_bit(byte, col)
}

/// A display row after a sprite row has been XORed onto it.
pub open spec fn xor_row(row: Seq<bool>, x0: u8, byte: u8) -> Seq<bool> {
    Seq::new(64, |x: int| row[x] != sprite_covers(x0, byte, x))
}

/// Whether XORing a sprite row onto a display row turns a lit pixel off.
pub open spec fn row_collides(row: Seq<bool>, x0: u8, byte: u8) -> bool {
    exists|x: int| 0 <= x < 64 && #[trigger] row[x] && sprite_covers(x0, byte, x)
}

/// The display row that row `r` of a sprite drawn at height `y0` lands on.
pub open spec fn target_row(y0: u8, r: int) -> int {
    (y0 + r) % 32
}

/// The grid after the rows of `sprite` have been XORed onto it one after
/// another, the first at `(x0, y0)` and each next one a row further down,
/// wrapping round the bottom edge.
pub open spec fn draw_rows(g: Seq<Seq<bool>>, x0: u8, y0: u8, sprite: Seq<u8>) -> Seq<Seq<bool>>
    decreases sprite.len(),
{
    if sprite.len() == 0 {
        g
    } else {
        let before = draw_rows(g, x0, y0, sprite.drop_last());
        let y = target_row(y0, sprite.len() - 1);
        before.update(y, xor_row(before[y], x0, sprite.last()))
    }
}

/// Whether drawing `sprite` at `(x0, y0)` turns off a pixel that was lit at
/// the moment its sprite row was drawn.
pub open spec fn draw_collides(g: Seq<Seq<bool>>, x0: u8, y0: u8, sprite: Seq<u8>) -> bool
    decreases sprite.len(),
{
    if sprite.len() == 0 {
        false
    } else {
        let before = draw_rows(g, x0, y0, sprite.drop_last());
        let y = target_row(y0, sprite.len() - 1);
        draw_collides(g, x0, y0, sprite.drop_last()) || row_collides(
            before[y],
            x0,
            sprite.last(),
        )
    }
}

/// Whether a sprite has any bit set, so that drawing it changes a pixel.
pub open spec fn has_ink(sprite: Seq<u8>) -> bool {
    exists|r: int, col: int|
        0 <= r < sprite.len() && 0 <= col < 8 && #[trigger] sprite_bit(sprite[r], col)
}

/// Drawing a sprite with one more row is drawing the sprite and then the new
/// row.
proof fn lemma_draw_push(g: Seq<Seq<bool>>, x0: u8, y0: u8, sprite: Seq<u8>, row: u8)
    ensures
        draw_rows(g, x0, y0, sprite.push(row)) == ({
            let before = draw_rows(g, x0, y0, sprite);
            let y = target_row(y0, sprite.len() as int);
            before.update(y, xor_row(before[y], x0, row))
        }),
        draw_collides(g, x0, y0, sprite.push(row)) == ({
            let before = draw_rows(g, x0, y0, sprite);
            let y = target_row(y0, sprite.len() as int);
            draw_collides(g, x0, y0, sprite) || row_collides(before[y], x0, row)
        }),
{
    let longer = sprite.push(row);
    assert(longer.drop_last() =~= sprite);
    assert(longer.last() == row);
}

/// A sprite with one more row has ink if the sprite had, or if the new row
/// has a bit set.
proof fn lemma_has_ink_push(sprite: Seq<u8>, row: u8)
    ensures
        has_ink(sprite.push(row)) == (has_ink(sprite) || exists|col: int|
            0 <= col < 8 && #[trigger] sprite_bit(row, col)),
{
    let longer = sprite.push(row);
    if has_ink(sprite) {
        let (r, col) = choose|r: int, col: int|
            0 <= r < sprite.len() && 0 <= col < 8 && #[trigger] sprite_bit(sprite[r], col);
        assert(sprite_bit(longer[r], col));
    }
    if exists|col: int| 0 <= col < 8 && #[trigger] sprite_bit(row, col) {
        let col = choose|col: int| 0 <= col < 8 && #[trigger] sprite_bit(row, col);
        assert(sprite_bit(longer[sprite.len() as int], col));
    }
    if has_ink(longer) {
        let (r, col) = choose|r: int, col: int|
            0 <= r < longer.len() && 0 <= col < 8 && #[trigger] sprite_bit(longer[r], col);
        if r < sprite.len() {
            assert(sprite_bit(sprite[r], col));
        } else {
            assert(sprite_bit(row, col));
        }
    }
}

/// How many columns right of `x0` column `k` lies, counted round the edge.
#[verifier::opaque]
spec fn column(x0: u8, k: int) -> int {
    (k - x0) % 64
}

/// Whether one of the first `done` bits of a sprite row drawn at `x0` inks
/// column `k`.
spec fn inked_by(x0: u8, byte: u8, k: int, done: int) -> bool {
    column(x0, k) < done && sprite_bit(byte, column(x0, k))
}

/// Whether one of the first `done` bits of a sprite row drawn at `x0` inks
/// a lit pixel of `line`.
spec fn hit_by(line: Seq<bool>, x0: u8, byte: u8, done: int) -> bool {
    exists|k: int| 0 <= k < 64 && line[k] && #[trigger] inked_by(x0, byte, k, done)
}

/// Bit `c` of a sprite row drawn at `x0` lands on column `(x0 + c) % 64` and
/// on no other.
proof fn lemma_column(x0: u8, c: int)
    requires
        0 <= c < 64,
    ensures
        0 <= (x0 + c) % 64 < 64,
        column(x0, (x0 + c) % 64) == c,
        forall|k: int| 0 <= k < 64 && k != (x0 + c) % 64 ==> #[trigger] column(x0, k) != c,
        forall|k: int| 0 <= k < 64 ==> 0 <= #[trigger] column(x0, k) < 64,
{
    reveal(column);
}

/// One more bit of a sprite row hits a lit pixel if the bits before it did,
/// or if the bit is set and the pixel it lands on is lit.
proof fn lemma_hit_by_next(line: Seq<bool>, x0: u8, byte: u8, done: int)
    requires
        0 <= done < 64,
    ensures
        hit_by(line, x0, byte, 0) == false,
        hit_by(line, x0, byte, done + 1) == (hit_by(line, x0, byte, done) || (line[(x0 + done)
            % 64] && sprite_bit(byte, done))),
{
    lemma_column(x0, done);
    lemma_column(x0, 0);
    let target = (x0 + done) % 64;
    if hit_by(line, x0, byte, done) {
        let k = choose|k: int| 0 <= k < 64 && line[k] && #[trigger] inked_by(x0, byte, k, done);
        assert(inked_by(x0, byte, k, done + 1));
    }
    if line[target] && sprite_bit(byte, done) {
        assert(inked_by(x0, byte, target, done + 1));
    }
    if hit_by(line, x0, byte, done + 1) {
        let k = choose|k: int|
            0 <= k < 64 && line[k] && #[trigger] inked_by(x0, byte, k, done + 1);
        if k != target {
            assert(inked_by(x0, byte, k, done));
        }
    }
}

/// All eight bits of a sprite row ink what the row inks.
proof fn lemma_inked_by_all(line: Seq<bool>, x0: u8, byte: u8)
    ensures
        forall|k: int| #[trigger] inked_by(x0, byte, k, 8) == sprite_covers(x0, byte, k),
        hit_by(line, x0, byte, 8) == row_collides(line, x0, byte),
{
    reveal(column);
    if hit_by(line, x0, byte, 8) {
        let k = choose|k: int| 0 <= k < 64 && line[k] && #[trigger] inked_by(x0, byte, k, 8);
        assert(line[k] && sprite_covers(x0, byte, k));
    }
    if row_collides(line, x0, byte) {
        let k = choose|k: int| 0 <= k < 64 && #[trigger] line[k] && sprite_covers(x0, byte, k);
        assert(inked_by(x0, byte, k, 8));
    }
}

/// The display row that row `r` of a sprite drawn at height `y_start` lands
/// on, computed without leaving the range of `usize`.
fn wrapped_row(y_start: u8, r: usize) -> (y: usize)
    ensures
        y == target_row(y_start, r as int),
        y < 32,
{
    (y_start as usize % 32 + r % 32) % 32
}

/// What a display shows: its pixels, row by row, and whether they have
/// changed since the frontend last acknowledged them.
pub struct ScreenView {
    pub pixels: Seq<Seq<bool>>,
    pub dirty: bool,
}

/// The display.
pub struct Screen {
    buffer: [[bool; 64]; 32],
    redraw: bool,
}

impl View for Screen {
    type V = ScreenView;

    closed spec fn view(&self) -> ScreenView {
        ScreenView { pixels: Seq::new(32, |y: int| self.buffer[y]@), dirty: self.redraw }
    }
}

impl Screen {
    /// Every display has 32 rows of 64 pixels.
    pub proof fn lemma_shape(self)
        ensures
            grid_wf(self@.pixels),
    {
    }

    /// A blank display, marked as changed so that it is shown once.
    pub fn new() -> (s: Self)
        ensures
            s@.pixels == blank(),
            s@.dirty,
    {
        let s = Self { buffer: [[false; 64]; 32], redraw: true };
        assert(s@.pixels =~~= blank());
        s
    }

    /// Turns every pixel off and marks the display as changed.
    pub fn clear(&mut self)
        ensures
            final(self)@.pixels == blank(),
            final(self)@.dirty,
    {
        self.buffer = [[false; 64]; 32];
        self.redraw = true;
        assert(self@.pixels =~~= blank());
    }

    /// XORs one sprite row onto display row `y_pos`, its left edge at column
    /// `x_start`.
    fn draw_row(&mut self, x_start: u8, y_pos: usize, row: u8) -> (hit: bool)
        requires
            y_pos < 32,
        ensures
            final(self)@.pixels == old(self)@.pixels.update(
                y_pos as int,
                xor_row(old(self)@.pixels[y_pos as int], x_start, row),
            ),
            hit == row_collides(old(self)@.pixels[y_pos as int], x_start, row),
            final(self)@.dirty == (old(self)@.dirty || exists|col: int|
                0 <= col < 8 && #[trigger] sprite_bit(row, col)),
    {
        let mut hit = false;
        let ghost b0 = self.buffer;
        let ghost line = b0[y_pos as int]@;
        proof {
            lemma_column(x_start, 0);
            lemma_hit_by_next(line, x_start, row, 0);
        }
        let mut x: usize = 0;
        while x < 8
            invariant
                x <= 8,
                y_pos < 32,
                line == b0[y_pos as int]@,
                forall|j: int| 0 <= j < 32 && j != y_pos ==> #[trigger] self.buffer[j] == b0[j],
                forall|k: int|
                    0 <= k < 64 ==> #[trigger] self.buffer[y_pos as int][k] == (line[k] != inked_by(
                        x_start,
                        row,
                        k,
                        x as int,
                    )),
                hit == hit_by(line, x_start, row, x as int),
                self.redraw == (old(self).redraw || exists|col: int|
                    0 <= col < x && #[trigger] sprite_bit(row, col)),
            decreases 8 - x,
        {
            let x_pos = (x_start as usize + x) % 64;
            let sprite_pix = row & (1u8 << (7 - x)) != 0;
            let pix = self.buffer[y_pos][x_pos];
            let ghost b1 = self.buffer;
            proof {
                lemma_column(x_start, x as int);
                lemma_hit_by_next(line, x_start, row, x as int);
                assert(sprite_pix == sprite_bit(row, x as int));
                assert(pix == line[x_pos as int]);
            }
            if !pix && sprite_pix {
                self.buffer[y_pos][x_pos] = true;
                self.redraw = true;
            } else if pix && sprite_pix {
                self.buffer[y_pos][x_pos] = false;
                hit = true;
                self.redraw = true;
            }
            assert forall|k: int| 0 <= k < 64 implies #[trigger] self.buffer[y_pos as int][k] == (
            line[k] != inked_by(x_start, row, k, x + 1)) by {
                if k != x_pos {
                    assert(self.buffer[y_pos as int][k] == b1[y_pos as int][k]);
                }
            }
            x += 1;
        }
        proof {
            let before = old(self)@.pixels;
            lemma_inked_by_all(line, x_start, row);
            assert(before[y_pos as int] == line);
            assert(self@.pixels[y_pos as int] =~= xor_row(line, x_start, row));
            assert(self@.pixels =~= before.update(y_pos as int, xor_row(line, x_start, row)));
        }
        hit
    }

    /// XORs `sprite` onto the display with its top left corner at
    /// `(x_start, y_start)`. Each byte of `sprite` is one row of eight
    /// pixels; rows and columns that leave the display come back in on the
    /// opposite side. Returns whether a lit pixel was turned off. The display
    /// is marked as changed if any pixel was flipped.
    pub fn draw(&mut self, x_start: u8, y_start: u8, sprite: &[u8]) -> (collision: bool)
        ensures
            final(self)@.pixels == draw_rows(old(self)@.pixels, x_start, y_start, sprite@),
            collision == draw_collides(old(self)@.pixels, x_start, y_start, sprite@),
            final(self)@.dirty == (old(self)@.dirty || has_ink(sprite@)),
    {
        let mut collision = false;
        let ghost g0 = self@.pixels;
        let ghost dirty0 = self@.dirty;
        let mut y: usize = 0;
        while y < sprite.len()
            invariant
                y <= sprite.len(),
                self@.pixels == draw_rows(g0, x_start, y_start, sprite@.take(y as int)),
                collision == draw_collides(g0, x_start, y_start, sprite@.take(y as int)),
                self@.dirty == (dirty0 || has_ink(sprite@.take(y as int))),
            decreases sprite.len() - y,
        {
            let y_pos = wrapped_row(y_start, y);
            let row = sprite[y];
            proof {
                let done = sprite@.take(y as int);
                assert(sprite@.take(y + 1) =~= done.push(row));
                lemma_draw_push(g0, x_start, y_start, done, row);
                lemma_has_ink_push(done, row);
            }
            let hit = self.draw_row(x_start, y_pos, row);
            collision = collision || hit;
            y += 1;
        }
        assert(sprite@.take(y as int) =~= sprite@);
        collision
    }

    /// A copy of the pixels: `buffer()[y][x]` is the pixel in row `y`,
    /// column `x`.
    pub fn buffer(&self) -> (b: [[bool; 64]; 32])
        ensures
            forall|x: int, y: int|
                0 <= x < 64 && 0 <= y < 32 ==> #[trigger] b[y][x] == self@.pixels[y][x],
    {
        self.buffer
    }

    /// Whether the pixels have changed since the last call of `redrawn`.
    pub fn needs_redraw(&self) -> (b: bool)
        ensures
            b == self@.dirty,
    {
        self.redraw
    }

    /// Acknowledges that the current pixels have been shown.
    pub fn redrawn(&mut self)
        ensures
            final(self)@.pixels == old(self)@.pixels,
            !final(self)@.dirty,
    {
        self.redraw = false;
        assert(self@.pixels =~~= old(self)@.pixels);
    }
}

} // verus!
