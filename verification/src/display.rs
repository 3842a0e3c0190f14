//! The monochrome framebuffer and the sprite blitter.
//!
//! The framebuffer is modelled as a sequence of `HEIGHT` rows, each a
//! sequence of `WIDTH` booleans (`true` is a lit pixel). Sprites are one byte
//! per row, bit 7 being the leftmost of eight pixels, and are composed onto
//! the framebuffer by XOR. A sprite that reaches past the right or bottom
//! edge is clipped there.

use vstd::prelude::*;

verus! {

/// Number of pixel columns of the framebuffer.
pub const WIDTH: usize = 64;

/// Number of pixel rows of the framebuffer.
pub const HEIGHT: usize = 32;

/// Number of pixels in one sprite row.
pub const SPRITE_WIDTH: usize = 8;

/// A `WIDTH` x `HEIGHT` grid of pixels, addressed as `buffer[row][column]`.
pub struct Display {
    buffer: [[bool; WIDTH]; HEIGHT],
}

/// A grid has `HEIGHT` rows of `WIDTH` pixels each.
pub open spec fn is_grid(grid: Seq<Seq<bool>>) -> bool {
    &&& grid.len() == HEIGHT
    &&& forall|row: int| 0 <= row < HEIGHT ==> (#[trigger] grid[row]).len() == WIDTH
}

/// The grid with every pixel off.
pub open spec fn blank() -> Seq<Seq<bool>> {
    Seq::new(HEIGHT as nat, |row: int| Seq::new(WIDTH as nat, |col: int| false))
}

/// Whether a sprite row lights its pixel number `column`, counted from the
/// left: that is bit `7 - column` of the byte.
pub open spec fn sprite_bit(row_bits: u8, column: int) -> bool {
    0 <= column < SPRITE_WIDTH && row_bits & (128u8 >> (column as u8)) != 0
}

/// Whether the sprite drawn with its top left corner at column `startx`, row
/// `starty` has a set bit over the position (`row`, `col`).
pub open spec fn sprite_covers(
    sprite: Seq<u8>,
    startx: int,
    starty: int,
    row: int,
    col: int,
) -> bool {
    &&& starty <= row < starty + sprite.len()
    &&& startx <= col < startx + SPRITE_WIDTH
    &&& sprite_bit(sprite[row - starty], col - startx)
}

/// The grid after the sprite was composed onto `grid` by XOR: a pixel of the
/// grid is flipped exactly where the sprite has a set bit over it. Positions
/// of the sprite that fall outside the grid have no pixel to flip.
pub open spec fn spec_draw(
    grid: Seq<Seq<bool>>,
    sprite: Seq<u8>,
    startx: int,
    starty: int,
) -> Seq<Seq<bool>> {
    Seq::new(
        HEIGHT as nat,
        |row: int|
            Seq::new(
                WIDTH as nat,
                |col: int| grid[row][col] != sprite_covers(sprite, startx, starty, row, col),
            ),
    )
}

/// Whether the pixel at (`row`, `col`) is lit and the sprite has a set bit
/// over it, so that drawing the sprite turns it off.
pub open spec fn struck(
    grid: Seq<Seq<bool>>,
    sprite: Seq<u8>,
    startx: int,
    starty: int,
    row: int,
    col: int,
) -> bool {
    grid[row][col] && sprite_covers(sprite, startx, starty, row, col)
}

/// Whether drawing the sprite turns off at least one lit pixel of `grid`.
pub open spec fn spec_collision(
    grid: Seq<Seq<bool>>,
    sprite: Seq<u8>,
    startx: int,
    starty: int,
) -> bool {
    exists|row: int, col: int|
        0 <= row < HEIGHT && 0 <= col < WIDTH && #[trigger] struck(
            grid,
            sprite,
            startx,
            starty,
            row,
            col,
        )
}

/// Number of sprite columns that fit on the grid from column `startx` on.
pub open spec fn effective_width(startx: int) -> int {
    if WIDTH - startx < SPRITE_WIDTH {
        WIDTH - startx
    } else {
        SPRITE_WIDTH as int
    }
}

/// Number of sprite rows that fit on the grid from row `starty` on.
pub open spec fn effective_height(starty: int, sprite_rows: int) -> int {
    if HEIGHT - starty < sprite_rows {
        HEIGHT - starty
    } else {
        sprite_rows
    }
}

/// Whether the blitter, walking the sprite row by row and each row from the
/// left, has passed the position (`row`, `col`) once it has finished
/// `rows_done` sprite rows and `cols_done` pixels of the next one.
spec fn passed(
    startx: int,
    starty: int,
    rows_done: int,
    cols_done: int,
    row: int,
    col: int,
) -> bool {
    row < starty + rows_done || (row == starty + rows_done && col < startx + cols_done)
}

/// The pixel of `grid` at (`row`, `col`).
spec fn lit(grid: Seq<Seq<bool>>, row: int, col: int) -> bool {
    grid[row][col]
}

/// Whether `buffer` is `before` with the sprite drawn as far as the blitter
/// has come: flipped under the set bits it has passed, untouched elsewhere.
spec fn drawn_so_far(
    buffer: [[bool; WIDTH]; HEIGHT],
    before: Seq<Seq<bool>>,
    sprite: Seq<u8>,
    startx: int,
    starty: int,
    rows_done: int,
    cols_done: int,
) -> bool {
    forall|row: int, col: int|
        0 <= row < HEIGHT && 0 <= col < WIDTH ==> buffer[row][col] == (#[trigger] lit(
            before,
            row,
            col,
        ) != (passed(startx, starty, rows_done, cols_done, row, col) && sprite_covers(
            sprite,
            startx,
            starty,
            row,
            col,
        )))
}

/// Whether the blitter has turned a lit pixel off as far as it has come.
spec fn struck_so_far(
    before: Seq<Seq<bool>>,
    sprite: Seq<u8>,
    startx: int,
    starty: int,
    rows_done: int,
    cols_done: int,
) -> bool {
    exists|row: int, col: int|
        0 <= row < HEIGHT && 0 <= col < WIDTH && passed(
            startx,
            starty,
            rows_done,
            cols_done,
            row,
            col,
        ) && #[trigger] struck(before, sprite, startx, starty, row, col)
}

impl View for Display {
    type V = Seq<Seq<bool>>;

    closed spec fn view(&self) -> Seq<Seq<bool>> {
        Seq::new(
            HEIGHT as nat,
            |row: int| Seq::new(WIDTH as nat, |col: int| self.buffer[row][col]),
        )
    }
}

impl Display {
    /// The view of a display always has the shape of the grid.
    pub proof fn lemma_view_is_grid(&self)
        ensures
            is_grid(self@),
    {
    }

    /// A display with every pixel off.
    pub fn new() -> (display: Display)
        ensures
            display@ == blank(),
    {
        let display = Display { buffer: [[false; WIDTH]; HEIGHT] };
        assert(display@ =~~= blank());
        display
    }

    /// Turns every pixel off, whatever was on the screen.
    pub fn clear(&mut self)
        ensures
            final(self)@ == blank(),
            forall|row: int, col: int|
                0 <= row < HEIGHT && 0 <= col < WIDTH ==> !(#[trigger] final(self)@[row][col]),
    {
        self.buffer = [[false; WIDTH]; HEIGHT];
        assert(self@ =~~= blank());
    }

    /// The pixel at (`row`, `col`), or `None` where the position lies outside
    /// the grid.
    pub fn pixel(&self, row: usize, col: usize) -> (pixel: Option<bool>)
        ensures
            row < HEIGHT && col < WIDTH ==> pixel == Some(self@[row as int][col as int]),
            !(row < HEIGHT && col < WIDTH) ==> pixel is None,
    {
        if row < HEIGHT && col < WIDTH {
            Some(self.buffer[row][col])
        } else {
            None
        }
    }

    /// A copy of the whole grid, for a renderer.
    pub fn snapshot(&self) -> (grid: [[bool; WIDTH]; HEIGHT])
        ensures
            forall|row: int, col: int|
                0 <= row < HEIGHT && 0 <= col < WIDTH ==> #[trigger] grid[row][col]
                    == self@[row][col],
    {
        self.buffer
    }

    /// Composes `sprite` onto the grid by XOR, its top left corner at column
    /// `startx`, row `starty`, and reports whether a lit pixel was turned off.
    /// Sprite pixels that would fall right of the last column or below the
    /// last row are not drawn.
    pub fn draw_sprite(&mut self, sprite: &[u8], startx: usize, starty: usize) -> (collision: bool)
        requires
            startx < WIDTH,
            starty < HEIGHT,
        ensures
            final(self)@ == spec_draw(old(self)@, sprite@, startx as int, starty as int),
            collision == spec_collision(old(self)@, sprite@, startx as int, starty as int),
    {
        let sprite_width: usize = if WIDTH - startx < SPRITE_WIDTH {
            WIDTH - startx
        } else {
            SPRITE_WIDTH
        };
        let sprite_height: usize = if HEIGHT - starty < sprite.len() {
            HEIGHT - starty
        } else {
            sprite.len()
        };
        let ghost before = self@;

        let mut any_switched_off = false;
        let mut r: usize = 0;
        while r < sprite_height
            invariant
                startx < WIDTH,
                starty < HEIGHT,
                r <= sprite_height,
                sprite_width == effective_width(startx as int),
                sprite_height == effective_height(starty as int, sprite@.len() as int),
                drawn_so_far(
                    self.buffer,
                    before,
                    sprite@,
                    startx as int,
                    starty as int,
                    r as int,
                    0,
                ),
                any_switched_off == struck_so_far(
                    before,
                    sprite@,
                    startx as int,
                    starty as int,
                    r as int,
                    0,
                ),
            decreases sprite_height - r,
        {
            let row_bits = sprite[r];
            let mut i: usize = 0;
            while i < sprite_width
                invariant
                    startx < WIDTH,
                    starty < HEIGHT,
                    r < sprite_height,
                    i <= sprite_width,
                    row_bits == sprite@[r as int],
                    sprite_width == effective_width(startx as int),
                    sprite_height == effective_height(starty as int, sprite@.len() as int),
                    drawn_so_far(
                        self.buffer,
                        before,
                        sprite@,
                        startx as int,
                        starty as int,
                        r as int,
                        i as int,
                    ),
                    any_switched_off == struck_so_far(
                        before,
                        sprite@,
                        startx as int,
                        starty as int,
                        r as int,
                        i as int,
                    ),
                decreases sprite_width - i,
            {
                let ghost target_row = starty + r;
                let ghost target_col = startx + i;
                assert(lit(before, target_row, target_col) == self.buffer[target_row][target_col]);
                // Only flip pixels that are 1 in the sprite.
                if row_bits & (128u8 >> i) != 0 {
                    let target_pixel = self.buffer[starty + r][startx + i];
                    assert(target_pixel == struck(
                        before,
                        sprite@,
                        startx as int,
                        starty as int,
                        target_row,
                        target_col,
                    ));
                    any_switched_off = any_switched_off || target_pixel;
                    self.buffer[starty + r][startx + i] = !target_pixel;
                }
                i += 1;
            }
            r += 1;
        }
        assert forall|row: int, col: int|
            0 <= row < HEIGHT && 0 <= col < WIDTH implies self@[row][col] == (before[row][col]
            != sprite_covers(sprite@, startx as int, starty as int, row, col)) by {
            assert(lit(before, row, col) == before[row][col]);
        }
        assert(self@ =~~= spec_draw(before, sprite@, startx as int, starty as int));
        any_switched_off
    }
}

/// Drawing keeps the shape of the grid: no pixel is ever added beyond the
/// last column or the last row.
pub proof fn lemma_draw_keeps_grid(
    grid: Seq<Seq<bool>>,
    sprite: Seq<u8>,
    startx: int,
    starty: int,
)
    ensures
        is_grid(spec_draw(grid, sprite, startx, starty)),
{
}

/// On a dark screen a sprite lights exactly the pixels under its set bits,
/// and turns none off.
pub proof fn lemma_draw_on_blank(sprite: Seq<u8>, startx: int, starty: int)
    ensures
        !spec_collision(blank(), sprite, startx, starty),
        forall|row: int, col: int|
            0 <= row < HEIGHT && 0 <= col < WIDTH ==> #[trigger] spec_draw(
                blank(),
                sprite,
                startx,
                starty,
            )[row][col] == sprite_covers(sprite, startx, starty, row, col),
{
    assert forall|row: int, col: int| 0 <= row < HEIGHT && 0 <= col < WIDTH implies !struck(
        blank(),
        sprite,
        startx,
        starty,
        row,
        col,
    ) by {}
}

/// Drawing the same sprite at the same place twice gives back the screen as
/// it was before the first draw.
pub proof fn lemma_draw_twice_restores(
    grid: Seq<Seq<bool>>,
    sprite: Seq<u8>,
    startx: int,
    starty: int,
)
    requires
        is_grid(grid),
    ensures
        spec_draw(spec_draw(grid, sprite, startx, starty), sprite, startx, starty) == grid,
{
    assert(spec_draw(spec_draw(grid, sprite, startx, starty), sprite, startx, starty) =~~= grid);
}

/// A pixel that a draw has lit is turned off by drawing the same sprite at
/// the same place again, and that second draw reports a collision.
pub proof fn lemma_redraw_collides(
    grid: Seq<Seq<bool>>,
    sprite: Seq<u8>,
    startx: int,
    starty: int,
    row: int,
    col: int,
)
    requires
        is_grid(grid),
        0 <= row < HEIGHT,
        0 <= col < WIDTH,
        !grid[row][col],
        sprite_covers(sprite, startx, starty, row, col),
    ensures
        spec_draw(grid, sprite, startx, starty)[row][col],
        spec_collision(spec_draw(grid, sprite, startx, starty), sprite, startx, starty),
        !spec_draw(spec_draw(grid, sprite, startx, starty), sprite, startx, starty)[row][col],
{
    assert(struck(spec_draw(grid, sprite, startx, starty), sprite, startx, starty, row, col));
}

/// A sprite is clipped at the right and bottom edges, never wrapped round:
/// a draw changes no pixel outside the window that starts at (`starty`,
/// `startx`) and is `effective_height` rows high and `effective_width`
/// columns wide, and inside that window it flips exactly the pixels under
/// the set bits of the sprite.
pub proof fn lemma_draw_is_clipped(
    grid: Seq<Seq<bool>>,
    sprite: Seq<u8>,
    startx: int,
    starty: int,
    row: int,
    col: int,
)
    requires
        0 <= startx < WIDTH,
        0 <= starty < HEIGHT,
        0 <= row < HEIGHT,
        0 <= col < WIDTH,
    ensures
        0 <= effective_width(startx) <= SPRITE_WIDTH,
        startx + effective_width(startx) <= WIDTH,
        0 <= effective_height(starty, sprite.len() as int) <= sprite.len(),
        starty + effective_height(starty, sprite.len() as int) <= HEIGHT,
        spec_draw(grid, sprite, startx, starty)[row][col] == (if starty <= row < starty
            + effective_height(starty, sprite.len() as int) && startx <= col < startx
            + effective_width(startx) {
            grid[row][col] != sprite_bit(sprite[row - starty], col - startx)
        } else {
            grid[row][col]
        }),
{
}

} // verus!
