use vstd::prelude::*;

verus! {

// ---------------------------------------------------------------------------
// Mathematical model of the 64x32 monochrome frame buffer: a sequence of 32
// rows, each a sequence of 64 pixels.
// ---------------------------------------------------------------------------

/// A well-formed grid has exactly 32 rows of 64 pixels each.
pub open spec fn grid_wf(g: Seq<Seq<bool>>) -> bool {
    &&& g.len() == 32
    &&& forall|r: int| 0 <= r < 32 ==> (#[trigger] g[r]).len() == 64
}

/// The grid with every pixel clear.
pub open spec fn blank_grid() -> Seq<Seq<bool>> {
    Seq::new(32, |r: int| Seq::new(64, |c: int| false))
}

/// Bit `col` of a sprite row byte, counted from the most significant bit:
/// column 0 is the leftmost pixel of the row.
pub open spec fn sprite_row_bit(b: u8, col: int) -> bool {
    (b >> ((7 - col) as u8)) & 1 == 1
}

/// The grid cells touched after the first `rows` full sprite rows and the
/// first `cols` columns of row `rows` have been composed, drawing at
/// position (`x`, `y`) in row-major order.
pub open spec fn covered(x: int, y: int, rows: int, cols: int, r: int, c: int) -> bool {
    ||| (y <= r < y + rows && x <= c < x + 8)
    ||| (r == y + rows && x <= c < x + cols)
}

/// The grid after the covered cells have been XOR-composed with their
/// sprite bits; cells that fall outside the 64x32 grid are clipped away by
/// construction.
pub open spec fn drawn_grid(
    g: Seq<Seq<bool>>,
    x: int,
    y: int,
    sprite: Seq<u8>,
    rows: int,
    cols: int,
) -> Seq<Seq<bool>> {
    Seq::new(
        32,
        |r: int|
            Seq::new(
                64,
                |c: int|
                    if covered(x, y, rows, cols, r, c) {
                        g[r][c] ^ sprite_row_bit(sprite[r - y], c - x)
                    } else {
                        g[r][c]
                    },
            ),
    )
}

/// Whether some covered, in-grid cell was set in `g` while its sprite bit
/// is also set: the XOR composition turned a set pixel off there.
pub open spec fn drawn_hit(
    g: Seq<Seq<bool>>,
    x: int,
    y: int,
    sprite: Seq<u8>,
    rows: int,
    cols: int,
) -> bool {
    exists|r: int, c: int|
        #[trigger] covered(x, y, rows, cols, r, c) && 0 <= r < 32 && 0 <= c < 64 && g[r][c]
            && sprite_row_bit(sprite[r - y], c - x)
}

/// The grid after a whole sprite is drawn at (`x`, `y`) by XOR composition,
/// with cells outside the grid clipped.
pub open spec fn draw_grid_spec(g: Seq<Seq<bool>>, x: int, y: int, sprite: Seq<u8>) -> Seq<
    Seq<bool>,
> {
    drawn_grid(g, x, y, sprite, sprite.len() as int, 0)
}

/// Whether drawing the whole sprite at (`x`, `y`) turns any set pixel off.
pub open spec fn collision_spec(g: Seq<Seq<bool>>, x: int, y: int, sprite: Seq<u8>) -> bool {
    drawn_hit(g, x, y, sprite, sprite.len() as int, 0)
}

// ---------------------------------------------------------------------------
// Trusted view of the array2d crate, which stores the pixel grid.
// ---------------------------------------------------------------------------

#[verifier::external_type_specification]
#[verifier::external_body]
#[verifier::reject_recursive_types(T)]
pub struct ExArray2D<T>(array2d::Array2D<T>);

/// The pixel rows held by a frame-buffer grid, row by row.
pub uninterp spec fn grid_of(g: array2d::Array2D<bool>) -> Seq<Seq<bool>>;

/// Relies on array2d::Array2D::filled_with: builds a grid of the asked-for
/// number of rows and columns holding the given element everywhere.
#[verifier::external_body]
pub(crate) fn grid_filled_false() -> (g: array2d::Array2D<bool>)
    ensures
        grid_of(g) == blank_grid(),
{
    array2d::Array2D::filled_with(false, 32, 64)
}

/// Relies on array2d::Array2D::get: returns the element at the given row
/// and column, which exist here because the grid is well formed and the
/// indices are in range.
#[verifier::external_body]
pub(crate) fn grid_get(g: &array2d::Array2D<bool>, row: usize, col: usize) -> (px: bool)
    requires
        grid_wf(grid_of(*g)),
        row < 32,
        col < 64,
    ensures
        px == grid_of(*g)[row as int][col as int],
{
    *g.get(row, col).unwrap()
}

/// Relies on array2d::Array2D::set: replaces the element at the given row
/// and column and leaves every other element as it was.
#[verifier::external_body]
pub(crate) fn grid_set(g: &mut array2d::Array2D<bool>, row: usize, col: usize, px: bool)
    requires
        grid_wf(grid_of(*old(g))),
        row < 32,
        col < 64,
    ensures
        grid_of(*final(g)) == grid_of(*old(g)).update(
            row as int,
            grid_of(*old(g))[row as int].update(col as int, px),
        ),
{
    let _ = g.set(row, col, px);
}

// ---------------------------------------------------------------------------
// Stepwise description of the draw loop, and the verified draw routine.
// ---------------------------------------------------------------------------

/// A drawn grid is well formed.
proof fn lemma_drawn_wf(g: Seq<Seq<bool>>, x: int, y: int, sprite: Seq<u8>, rows: int, cols: int)
    ensures
        grid_wf(drawn_grid(g, x, y, sprite, rows, cols)),
{
    assert forall|r: int| 0 <= r < 32 implies (#[trigger] drawn_grid(
        g,
        x,
        y,
        sprite,
        rows,
        cols,
    )[r]).len() == 64 by {}
}

/// Before any cell is composed, the drawn grid is the grid itself and no
/// collision has been seen.
proof fn lemma_drawn_start(g: Seq<Seq<bool>>, x: int, y: int, sprite: Seq<u8>)
    requires
        grid_wf(g),
    ensures
        drawn_grid(g, x, y, sprite, 0, 0) =~~= g,
        !drawn_hit(g, x, y, sprite, 0, 0),
{
    assert forall|r: int, c: int| !covered(x, y, 0, 0, r, c) by {}
    assert forall|r: int| 0 <= r < 32 implies #[trigger] drawn_grid(g, x, y, sprite, 0, 0)[r] =~= g[r] by {}
}

/// Composing one in-grid cell extends the drawn grid by one update and the
/// collision flag by that cell's contribution.
proof fn lemma_drawn_step(
    g: Seq<Seq<bool>>,
    x: int,
    y: int,
    sprite: Seq<u8>,
    rows: int,
    cols: int,
)
    requires
        0 <= rows < sprite.len(),
        0 <= cols < 8,
        0 <= x,
        0 <= y,
        y + rows < 32,
        x + cols < 64,
    ensures
        drawn_grid(g, x, y, sprite, rows, cols)[y + rows][x + cols] == g[y + rows][x + cols],
        drawn_grid(g, x, y, sprite, rows, cols + 1) =~~= drawn_grid(
            g,
            x,
            y,
            sprite,
            rows,
            cols,
        ).update(
            y + rows,
            drawn_grid(g, x, y, sprite, rows, cols)[y + rows].update(
                x + cols,
                g[y + rows][x + cols] ^ sprite_row_bit(sprite[rows], cols),
            ),
        ),
        drawn_hit(g, x, y, sprite, rows, cols + 1) == (drawn_hit(g, x, y, sprite, rows, cols) || (
        g[y + rows][x + cols] && sprite_row_bit(sprite[rows], cols))),
{
    let lhs = drawn_grid(g, x, y, sprite, rows, cols + 1);
    let cur = drawn_grid(g, x, y, sprite, rows, cols);
    let rhs = cur.update(
        y + rows,
        cur[y + rows].update(x + cols, g[y + rows][x + cols] ^ sprite_row_bit(sprite[rows], cols)),
    );
    assert(!covered(x, y, rows, cols, y + rows, x + cols));
    assert forall|r: int| 0 <= r < 32 implies #[trigger] lhs[r] =~= rhs[r] by {
        assert forall|c: int| 0 <= c < 64 implies #[trigger] lhs[r][c] == rhs[r][c] by {
            if r == y + rows && c == x + cols {
                assert(covered(x, y, rows, cols + 1, r, c));
            } else {
                assert(covered(x, y, rows, cols + 1, r, c) == covered(x, y, rows, cols, r, c));
            }
        }
    }
    assert(lhs =~~= rhs);
    if drawn_hit(g, x, y, sprite, rows, cols) {
        let (r, c) = choose|r: int, c: int|
            #[trigger] covered(x, y, rows, cols, r, c) && 0 <= r < 32 && 0 <= c < 64 && g[r][c]
                && sprite_row_bit(sprite[r - y], c - x);
        assert(covered(x, y, rows, cols + 1, r, c));
        assert(drawn_hit(g, x, y, sprite, rows, cols + 1));
    }
    if g[y + rows][x + cols] && sprite_row_bit(sprite[rows], cols) {
        assert(covered(x, y, rows, cols + 1, y + rows, x + cols));
        assert(drawn_hit(g, x, y, sprite, rows, cols + 1));
    }
    if drawn_hit(g, x, y, sprite, rows, cols + 1) {
        let (r, c) = choose|r: int, c: int|
            #[trigger] covered(x, y, rows, cols + 1, r, c) && 0 <= r < 32 && 0 <= c < 64 && g[r][c]
                && sprite_row_bit(sprite[r - y], c - x);
        if r == y + rows && c == x + cols {
            assert(g[y + rows][x + cols] && sprite_row_bit(sprite[rows], cols));
        } else {
            assert(covered(x, y, rows, cols, r, c));
            assert(drawn_hit(g, x, y, sprite, rows, cols));
        }
    }
}

/// Skipping one clipped cell (outside the 64x32 grid) leaves the drawn grid
/// and the collision flag as they were.
proof fn lemma_drawn_skip(
    g: Seq<Seq<bool>>,
    x: int,
    y: int,
    sprite: Seq<u8>,
    rows: int,
    cols: int,
)
    requires
        0 <= rows < sprite.len(),
        0 <= cols < 8,
        0 <= x,
        0 <= y,
        y + rows >= 32 || x + cols >= 64,
    ensures
        drawn_grid(g, x, y, sprite, rows, cols + 1) =~~= drawn_grid(g, x, y, sprite, rows, cols),
        drawn_hit(g, x, y, sprite, rows, cols + 1) == drawn_hit(g, x, y, sprite, rows, cols),
{
    let lhs = drawn_grid(g, x, y, sprite, rows, cols + 1);
    let rhs = drawn_grid(g, x, y, sprite, rows, cols);
    assert forall|r: int, c: int| 0 <= r < 32 && 0 <= c < 64 implies covered(
        x,
        y,
        rows,
        cols + 1,
        r,
        c,
    ) == covered(x, y, rows, cols, r, c) by {}
    assert forall|r: int| 0 <= r < 32 implies #[trigger] lhs[r] =~= rhs[r] by {
        assert forall|c: int| 0 <= c < 64 implies #[trigger] lhs[r][c] == rhs[r][c] by {
            assert(covered(x, y, rows, cols + 1, r, c) == covered(x, y, rows, cols, r, c));
        }
    }
    assert(lhs =~~= rhs);
    if drawn_hit(g, x, y, sprite, rows, cols) {
        let (r, c) = choose|r: int, c: int|
            #[trigger] covered(x, y, rows, cols, r, c) && 0 <= r < 32 && 0 <= c < 64 && g[r][c]
                && sprite_row_bit(sprite[r - y], c - x);
        assert(covered(x, y, rows, cols + 1, r, c));
        assert(drawn_hit(g, x, y, sprite, rows, cols + 1));
    }
    if drawn_hit(g, x, y, sprite, rows, cols + 1) {
        let (r, c) = choose|r: int, c: int|
            #[trigger] covered(x, y, rows, cols + 1, r, c) && 0 <= r < 32 && 0 <= c < 64 && g[r][c]
                && sprite_row_bit(sprite[r - y], c - x);
        assert(covered(x, y, rows, cols, r, c));
        assert(drawn_hit(g, x, y, sprite, rows, cols));
    }
}

/// Finishing the eight columns of one sprite row is the same as standing at
/// the start of the next row.
proof fn lemma_drawn_row(g: Seq<Seq<bool>>, x: int, y: int, sprite: Seq<u8>, rows: int)
    requires
        0 <= rows < sprite.len(),
    ensures
        drawn_grid(g, x, y, sprite, rows, 8) =~~= drawn_grid(g, x, y, sprite, rows + 1, 0),
        drawn_hit(g, x, y, sprite, rows, 8) == drawn_hit(g, x, y, sprite, rows + 1, 0),
{
    let lhs = drawn_grid(g, x, y, sprite, rows, 8);
    let rhs = drawn_grid(g, x, y, sprite, rows + 1, 0);
    assert forall|r: int, c: int| covered(x, y, rows, 8, r, c) == covered(
        x,
        y,
        rows + 1,
        0,
        r,
        c,
    ) by {}
    assert forall|r: int| 0 <= r < 32 implies #[trigger] lhs[r] =~= rhs[r] by {
        assert forall|c: int| 0 <= c < 64 implies #[trigger] lhs[r][c] == rhs[r][c] by {
            assert(covered(x, y, rows, 8, r, c) == covered(x, y, rows + 1, 0, r, c));
        }
    }
    assert(lhs =~~= rhs);
    if drawn_hit(g, x, y, sprite, rows, 8) {
        let (r, c) = choose|r: int, c: int|
            #[trigger] covered(x, y, rows, 8, r, c) && 0 <= r < 32 && 0 <= c < 64 && g[r][c]
                && sprite_row_bit(sprite[r - y], c - x);
        assert(covered(x, y, rows + 1, 0, r, c));
        assert(drawn_hit(g, x, y, sprite, rows + 1, 0));
    }
    if drawn_hit(g, x, y, sprite, rows + 1, 0) {
        let (r, c) = choose|r: int, c: int|
            #[trigger] covered(x, y, rows + 1, 0, r, c) && 0 <= r < 32 && 0 <= c < 64 && g[r][c]
                && sprite_row_bit(sprite[r - y], c - x);
        assert(covered(x, y, rows, 8, r, c));
        assert(drawn_hit(g, x, y, sprite, rows, 8));
    }
}

/// Draws an up-to-15-row sprite at (`x`, `y`) by XOR composition, clipping
/// at the grid edges, and reports whether any set pixel was turned off.
pub(crate) fn draw_sprite(g: &mut array2d::Array2D<bool>, x: u8, y: u8, sprite: &Vec<u8>) -> (hit:
    bool)
    requires
        grid_wf(grid_of(*old(g))),
        sprite@.len() <= 15,
    ensures
        grid_of(*final(g)) =~~= draw_grid_spec(grid_of(*old(g)), x as int, y as int, sprite@),
        hit == collision_spec(grid_of(*old(g)), x as int, y as int, sprite@),
        grid_wf(grid_of(*final(g))),
{
    let ghost g0: Seq<Seq<bool>> = grid_of(*g);
    let ghost xi: int = x as int;
    let ghost yi: int = y as int;
    let mut hit: bool = false;
    let mut row: usize = 0;
    proof {
        lemma_drawn_start(g0, xi, yi, sprite@);
    }
    while row < sprite.len()
        invariant
            row <= sprite@.len(),
            sprite@.len() <= 15,
            xi == x as int,
            yi == y as int,
            grid_wf(g0),
            grid_of(*g) =~~= drawn_grid(g0, xi, yi, sprite@, row as int, 0),
            hit == drawn_hit(g0, xi, yi, sprite@, row as int, 0),
        decreases sprite@.len() - row,
    {
        let byte: u8 = sprite[row];
        let mut col: u8 = 0;
        while col < 8
            invariant
                col <= 8,
                row < sprite@.len(),
                sprite@.len() <= 15,
                byte == sprite@[row as int],
                xi == x as int,
                yi == y as int,
                grid_wf(g0),
                grid_of(*g) =~~= drawn_grid(g0, xi, yi, sprite@, row as int, col as int),
                hit == drawn_hit(g0, xi, yi, sprite@, row as int, col as int),
            decreases 8 - col,
        {
            let r: usize = y as usize + row;
            let c: usize = x as usize + col as usize;
            if r < 32 && c < 64 {
                proof {
                    lemma_drawn_wf(g0, xi, yi, sprite@, row as int, col as int);
                    lemma_drawn_step(g0, xi, yi, sprite@, row as int, col as int);
                }
                let px: bool = grid_get(g, r, c);
                let sh: u8 = 7 - col;
                let bit: bool = (byte >> sh) & 1 == 1;
                assert(bit == sprite_row_bit(sprite@[row as int], col as int));
                if px && bit {
                    hit = true;
                }
                grid_set(g, r, c, px ^ bit);
            } else {
                proof {
                    lemma_drawn_skip(g0, xi, yi, sprite@, row as int, col as int);
                }
            }
            col = col + 1;
        }
        proof {
            lemma_drawn_row(g0, xi, yi, sprite@, row as int);
        }
        row = row + 1;
    }
    proof {
        lemma_drawn_wf(g0, xi, yi, sprite@, sprite@.len() as int, 0);
    }
    hit
}

} // verus!
