//! Theorems about drawing: what a draw does to each pixel, that drawing is
//! its own inverse, and how a sprite wraps round the edges.

use crate::screen::{
    draw_collides, draw_rows, grid_wf, has_ink, row_collides, sprite_bit, sprite_covers, target_row,
};
use vstd::prelude::*;

verus! {

/// Whether drawing `sprite` at `(x0, y0)` flips the pixel at `(x, y)`: the
/// pixel lies at most `sprite.len()` rows below `y0` and at most eight
/// columns right of `x0`, both counted round the edges, and the sprite has
/// its bit set there.
pub open spec fn inked(x0: u8, y0: u8, sprite: Seq<u8>, x: int, y: int) -> bool {
    let r = (y - y0) % 32;
    r < sprite.len() && sprite_covers(x0, sprite[r], x)
}

/// A sprite row inks column `x` exactly if one of its eight bits is set and
/// lands on `x` when its column is taken modulo the display width.
pub proof fn lemma_covers_wraps(x0: u8, byte: u8, x: int)
    requires
        0 <= x < 64,
    ensures
        sprite_covers(x0, byte, x) <==> exists|col: int|
            0 <= col < 8 && (x0 + col) % 64 == x && #[trigger] sprite_bit(byte, col),
{
    if sprite_covers(x0, byte, x) {
        let col = (x - x0) % 64;
        assert((x0 + col) % 64 == x);
        assert(sprite_bit(byte, col));
    }
    if exists|col: int| 0 <= col < 8 && (x0 + col) % 64 == x && #[trigger] sprite_bit(byte, col) {
        let col = choose|col: int|
            0 <= col < 8 && (x0 + col) % 64 == x && #[trigger] sprite_bit(byte, col);
        assert((x - x0) % 64 == col);
    }
}

/// A sprite has ink exactly if one of its bytes is not zero.
pub proof fn lemma_has_ink_nonzero(sprite: Seq<u8>)
    ensures
        has_ink(sprite) <==> exists|r: int| 0 <= r < sprite.len() && #[trigger] sprite[r] != 0,
{
    if has_ink(sprite) {
        let (r, col) = choose|r: int, col: int|
            0 <= r < sprite.len() && 0 <= col < 8 && #[trigger] sprite_bit(sprite[r], col);
        let byte = sprite[r];
        let shift = (7 - col) as u8;
        assert(byte & (1u8 << shift) != 0 ==> byte != 0) by (bit_vector);
        assert(sprite[r] != 0);
    }
    if exists|r: int| 0 <= r < sprite.len() && #[trigger] sprite[r] != 0 {
        let r = choose|r: int| 0 <= r < sprite.len() && #[trigger] sprite[r] != 0;
        let byte = sprite[r];
        assert(byte != 0 ==> (byte & (1u8 << 7u8) != 0 || byte & (1u8 << 6u8) != 0 || byte & (1u8
            << 5u8) != 0 || byte & (1u8 << 4u8) != 0 || byte & (1u8 << 3u8) != 0 || byte & (1u8
            << 2u8) != 0 || byte & (1u8 << 1u8) != 0 || byte & (1u8 << 0u8) != 0))
            by (bit_vector);
        if byte & (1u8 << 7u8) != 0 {
            assert(sprite_bit(sprite[r], 0));
        } else if byte & (1u8 << 6u8) != 0 {
            assert(sprite_bit(sprite[r], 1));
        } else if byte & (1u8 << 5u8) != 0 {
            assert(sprite_bit(sprite[r], 2));
        } else if byte & (1u8 << 4u8) != 0 {
            assert(sprite_bit(sprite[r], 3));
        } else if byte & (1u8 << 3u8) != 0 {
            assert(sprite_bit(sprite[r], 4));
        } else if byte & (1u8 << 2u8) != 0 {
            assert(sprite_bit(sprite[r], 5));
        } else if byte & (1u8 << 1u8) != 0 {
            assert(sprite_bit(sprite[r], 6));
        } else {
            assert(sprite_bit(sprite[r], 7));
        }
    }
}

/// Drawing keeps the shape of the grid.
pub proof fn lemma_draw_keeps_shape(g: Seq<Seq<bool>>, x0: u8, y0: u8, sprite: Seq<u8>)
    requires
        grid_wf(g),
    ensures
        grid_wf(draw_rows(g, x0, y0, sprite)),
    decreases sprite.len(),
{
    if sprite.len() > 0 {
        lemma_draw_keeps_shape(g, x0, y0, sprite.drop_last());
    }
}

/// Whether drawing `sprite` at `(x0, y0)` flips the pixel at `(x, y)` an
/// odd number of times. A sprite of more than 32 rows lands on a display
/// row more than once and may flip a pixel again and again.
pub open spec fn flips(x0: u8, y0: u8, sprite: Seq<u8>, x: int, y: int) -> bool
    decreases sprite.len(),
{
    if sprite.len() == 0 {
        false
    } else {
        flips(x0, y0, sprite.drop_last(), x, y) != (y == target_row(y0, sprite.len() - 1)
            && sprite_covers(x0, sprite.last(), x))
    }
}

/// A draw of any length leaves a pixel changed exactly if it flips it an
/// odd number of times.
pub proof fn lemma_draw_flips(g: Seq<Seq<bool>>, x0: u8, y0: u8, sprite: Seq<u8>)
    requires
        grid_wf(g),
    ensures
        grid_wf(draw_rows(g, x0, y0, sprite)),
        forall|x: int, y: int|
            0 <= x < 64 && 0 <= y < 32 ==> #[trigger] draw_rows(g, x0, y0, sprite)[y][x] == (g[y][x]
                != flips(x0, y0, sprite, x, y)),
    decreases sprite.len(),
{
    lemma_draw_keeps_shape(g, x0, y0, sprite);
    if sprite.len() > 0 {
        let init = sprite.drop_last();
        let before = draw_rows(g, x0, y0, init);
        let after = draw_rows(g, x0, y0, sprite);
        lemma_draw_flips(g, x0, y0, init);
        assert forall|x: int, y: int| 0 <= x < 64 && 0 <= y < 32 implies #[trigger] after[y][x]
            == (g[y][x] != flips(x0, y0, sprite, x, y)) by {
            assert(before[y][x] == (g[y][x] != flips(x0, y0, init, x, y)));
        }
    }
}

/// Row `r` of a sprite drawn at height `y0` lands on one display row, and
/// that row lies `r` rows below `y0`, counted round the bottom edge.
proof fn lemma_row_offset(y0: u8, r: int, y: int)
    requires
        0 <= r < 32,
        0 <= y < 32,
    ensures
        0 <= target_row(y0, r) < 32,
        0 <= (y - y0) % 32 < 32,
        (y == target_row(y0, r)) <==> ((y - y0) % 32 == r),
{
}

/// For a sprite of at most 32 rows, a pixel is flipped an odd number of
/// times exactly if the sprite inks it: it is flipped at most once.
proof fn lemma_flips_once(x0: u8, y0: u8, sprite: Seq<u8>, x: int, y: int)
    requires
        sprite.len() <= 32,
        0 <= y < 32,
    ensures
        flips(x0, y0, sprite, x, y) == inked(x0, y0, sprite, x, y),
    decreases sprite.len(),
{
    if sprite.len() > 0 {
        let init = sprite.drop_last();
        let r = sprite.len() - 1;
        lemma_flips_once(x0, y0, init, x, y);
        lemma_row_offset(y0, r, y);
        let offset = (y - y0) % 32;
        if offset < init.len() {
            assert(init[offset] == sprite[offset]);
        }
    }
}

/// A sprite of at most 32 rows never lands on a display row twice, so a draw
/// is one XOR per pixel: a pixel ends up flipped exactly if the sprite inks
/// it, and the draw reports a collision exactly if the sprite inks a pixel
/// that was lit.
pub proof fn lemma_draw_per_pixel(g: Seq<Seq<bool>>, x0: u8, y0: u8, sprite: Seq<u8>)
    requires
        grid_wf(g),
        sprite.len() <= 32,
    ensures
        grid_wf(draw_rows(g, x0, y0, sprite)),
        forall|x: int, y: int|
            0 <= x < 64 && 0 <= y < 32 ==> #[trigger] draw_rows(g, x0, y0, sprite)[y][x] == (g[y][x]
                != inked(x0, y0, sprite, x, y)),
        draw_collides(g, x0, y0, sprite) <==> exists|x: int, y: int|
            0 <= x < 64 && 0 <= y < 32 && g[y][x] && #[trigger] inked(x0, y0, sprite, x, y),
{
    lemma_draw_flips(g, x0, y0, sprite);
    let after = draw_rows(g, x0, y0, sprite);
    assert forall|x: int, y: int| 0 <= x < 64 && 0 <= y < 32 implies #[trigger] after[y][x] == (
    g[y][x] != inked(x0, y0, sprite, x, y)) by {
        lemma_flips_once(x0, y0, sprite, x, y);
    }
    lemma_collides_where_inked(g, x0, y0, sprite);
}

/// A draw of a sprite of at most 32 rows reports a collision exactly if the
/// sprite inks a pixel that was lit before the draw.
proof fn lemma_collides_where_inked(g: Seq<Seq<bool>>, x0: u8, y0: u8, sprite: Seq<u8>)
    requires
        grid_wf(g),
        sprite.len() <= 32,
    ensures
        draw_collides(g, x0, y0, sprite) <==> exists|x: int, y: int|
            0 <= x < 64 && 0 <= y < 32 && g[y][x] && #[trigger] inked(x0, y0, sprite, x, y),
    decreases sprite.len(),
{
    if sprite.len() > 0 {
        let init = sprite.drop_last();
        let r = sprite.len() - 1;
        let yr = target_row(y0, r);
        let before = draw_rows(g, x0, y0, init);
        lemma_collides_where_inked(g, x0, y0, init);
        lemma_draw_flips(g, x0, y0, init);
        lemma_row_offset(y0, r, yr);
        // The rows drawn so far have left the row of the last one alone.
        assert forall|x: int| 0 <= x < 64 implies #[trigger] before[yr][x] == g[yr][x] by {
            lemma_flips_once(x0, y0, init, x, yr);
            assert(before[yr][x] == (g[yr][x] != flips(x0, y0, init, x, yr)));
        }
        let hit_row = row_collides(before[yr], x0, sprite.last());
        let hit_init = draw_collides(g, x0, y0, init);
        let hit_all = exists|x: int, y: int|
            0 <= x < 64 && 0 <= y < 32 && g[y][x] && #[trigger] inked(x0, y0, sprite, x, y);
        if hit_row {
            let x = choose|x: int|
                0 <= x < 64 && #[trigger] before[yr][x] && sprite_covers(x0, sprite.last(), x);
            assert(g[yr][x] && inked(x0, y0, sprite, x, yr));
        }
        if hit_init {
            let (x, y) = choose|x: int, y: int|
                0 <= x < 64 && 0 <= y < 32 && g[y][x] && #[trigger] inked(x0, y0, init, x, y);
            let offset = (y - y0) % 32;
            assert(init[offset] == sprite[offset]);
            assert(g[y][x] && inked(x0, y0, sprite, x, y));
        }
        if hit_all {
            let (x, y) = choose|x: int, y: int|
                0 <= x < 64 && 0 <= y < 32 && g[y][x] && #[trigger] inked(x0, y0, sprite, x, y);
            lemma_row_offset(y0, r, y);
            if y == yr {
                assert(before[yr][x] && sprite_covers(x0, sprite.last(), x));
            } else {
                let offset = (y - y0) % 32;
                assert(init[offset] == sprite[offset]);
                assert(g[y][x] && inked(x0, y0, init, x, y));
            }
        }
    }
}

/// Drawing the same sprite twice at the same place gives back the grid as it
/// was, whatever the sprite and wherever it is drawn.
pub proof fn lemma_draw_twice_restores(g: Seq<Seq<bool>>, x0: u8, y0: u8, sprite: Seq<u8>)
    requires
        grid_wf(g),
    ensures
        draw_rows(draw_rows(g, x0, y0, sprite), x0, y0, sprite) == g,
{
    let once = draw_rows(g, x0, y0, sprite);
    let twice = draw_rows(once, x0, y0, sprite);
    lemma_draw_flips(g, x0, y0, sprite);
    lemma_draw_flips(once, x0, y0, sprite);
    assert forall|y: int| 0 <= y < 32 implies #[trigger] twice[y] =~= g[y] by {
        assert forall|x: int| 0 <= x < 64 implies twice[y][x] == g[y][x] by {
            assert(once[y][x] == (g[y][x] != flips(x0, y0, sprite, x, y)));
        }
    }
    assert(twice =~= g);
}

/// The second of two draws of the same sprite of at most 32 rows at the same
/// place reports a collision exactly if the sprite inks a pixel that was
/// unlit before the first draw. On a blank display that is: exactly if the
/// sprite has ink.
pub proof fn lemma_draw_twice_collides(g: Seq<Seq<bool>>, x0: u8, y0: u8, sprite: Seq<u8>)
    requires
        grid_wf(g),
        sprite.len() <= 32,
    ensures
        draw_collides(draw_rows(g, x0, y0, sprite), x0, y0, sprite) <==> exists|x: int, y: int|
            0 <= x < 64 && 0 <= y < 32 && !g[y][x] && #[trigger] inked(x0, y0, sprite, x, y),
{
    let once = draw_rows(g, x0, y0, sprite);
    lemma_draw_per_pixel(g, x0, y0, sprite);
    lemma_draw_per_pixel(once, x0, y0, sprite);
    let unlit = exists|x: int, y: int|
        0 <= x < 64 && 0 <= y < 32 && !g[y][x] && #[trigger] inked(x0, y0, sprite, x, y);
    if draw_collides(once, x0, y0, sprite) {
        let (x, y) = choose|x: int, y: int|
            0 <= x < 64 && 0 <= y < 32 && once[y][x] && #[trigger] inked(x0, y0, sprite, x, y);
        assert(!g[y][x] && inked(x0, y0, sprite, x, y));
    }
    if unlit {
        let (x, y) = choose|x: int, y: int|
            0 <= x < 64 && 0 <= y < 32 && !g[y][x] && #[trigger] inked(x0, y0, sprite, x, y);
        assert(once[y][x] && inked(x0, y0, sprite, x, y));
    }
}

/// A sprite of eight set bits drawn on a row inks the eight columns from
/// `x0` on, counted round the right edge, and no other: drawn at column 60
/// it inks columns 60 to 63 and 0 to 3.
pub proof fn lemma_full_row_wraps(x0: u8, x: int)
    requires
        0 <= x < 64,
    ensures
        sprite_covers(x0, 0xFF, x) <==> (x - x0) % 64 < 8,
        x0 == 60 ==> (sprite_covers(x0, 0xFF, x) <==> (x >= 60 || x <= 3)),
{
    let col = (x - x0) % 64;
    if col < 8 {
        let shift = (7 - col) as u8;
        assert(shift < 8 ==> 0xFFu8 & (1u8 << shift) != 0) by (bit_vector);
    }
}

} // verus!
