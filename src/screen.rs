use vstd::prelude::*;

use crate::constants::{HEIGHT, WIDTH};

verus! {

/// Whether column `col` (0 is the leftmost, 7 the rightmost) of a sprite
/// row `byte` is set.
pub open spec fn sprite_bit(byte: u8, col: int) -> bool {
    0 <= col < 8 && (byte >> ((7 - col) as u8)) & 1 == 1
}

/// Whether the sprite `sprite`, drawn with its top-left corner at `(x, y)`,
/// has a set bit over the cell of row `r` and column `c`.
pub open spec fn in_sprite(sprite: Seq<u8>, x: int, y: int, r: int, c: int) -> bool {
    &&& y <= r < y + sprite.len()
    &&& x <= c < x + 8
    &&& sprite_bit(sprite[r - y], c - x)
}

/// The grid after XOR-ing `sprite` onto `grid` at `(x, y)`. Bits that fall
/// outside the grid are dropped.
pub open spec fn draw_sprite(grid: Seq<Seq<bool>>, sprite: Seq<u8>, x: int, y: int) -> Seq<
    Seq<bool>,
> {
    Seq::new(
        grid.len(),
        |r: int| Seq::new(grid[r].len(), |c: int| grid[r][c] != in_sprite(sprite, x, y, r, c)),
    )
}

/// Whether drawing `sprite` at `(x, y)` turns off a lit cell of `grid`.
pub open spec fn collides(grid: Seq<Seq<bool>>, sprite: Seq<u8>, x: int, y: int) -> bool {
    exists|r: int, c: int|
        0 <= r < grid.len() && 0 <= c < grid[r].len() && #[trigger] in_sprite(sprite, x, y, r, c)
            && grid[r][c]
}

/// Whether some set bit of `sprite` drawn at `(x, y)` lands inside a grid of
/// the display's size.
pub open spec fn visible(sprite: Seq<u8>, x: int, y: int) -> bool {
    exists|r: int, c: int| 0 <= r < HEIGHT && 0 <= c < WIDTH && #[trigger] in_sprite(sprite, x, y, r, c)
}

/// A display-sized grid with every cell set to `lit`.
pub open spec fn uniform_screen(lit: bool) -> Seq<Seq<bool>> {
    Seq::new(HEIGHT as nat, |r: int| Seq::new(WIDTH as nat, |c: int| lit))
}

/// Drawing a sprite twice at the same place gives back the grid it started
/// from; on a blank display the first draw reports no collision, and the
/// second reports one exactly when some bit of the sprite is on screen.
pub proof fn lemma_redraw_erases(grid: Seq<Seq<bool>>, sprite: Seq<u8>, x: int, y: int)
    ensures
        draw_sprite(draw_sprite(grid, sprite, x, y), sprite, x, y) == grid,
        !collides(uniform_screen(false), sprite, x, y),
        collides(draw_sprite(uniform_screen(false), sprite, x, y), sprite, x, y) <==> visible(
            sprite,
            x,
            y,
        ),
{
    let once = draw_sprite(grid, sprite, x, y);
    let twice = draw_sprite(once, sprite, x, y);
    assert forall|r: int| 0 <= r < grid.len() implies #[trigger] twice[r] == grid[r] by {
        assert(twice[r] =~= grid[r]);
    }
    assert(twice =~= grid);
    let blank = uniform_screen(false);
    let lit = draw_sprite(blank, sprite, x, y);
    if visible(sprite, x, y) {
        let (r, c) = choose|r: int, c: int|
            0 <= r < HEIGHT && 0 <= c < WIDTH && #[trigger] in_sprite(sprite, x, y, r, c);
        assert(lit[r][c]);
    }
}

} // verus!
