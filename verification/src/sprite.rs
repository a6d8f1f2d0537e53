//! Drawing a sprite pixel by pixel: what the display holds after part of the
//! sprite was drawn, and why the last part completes the whole.

use crate::consts::{DISPLAY_HEIGHT, DISPLAY_WIDTH};
use crate::model::{collides, drawn, sprite_bit, sprite_hits, toggled, MachineState};
use vstd::prelude::*;

verus! {

/// Whether the sprite of `Dxyn` has a set pixel on (`px`, `py`) in one of
/// its rows above `row`, or in row `row` left of column `col`.
pub open spec fn hits_before(
    s: MachineState,
    x: int,
    y: int,
    n: int,
    row: int,
    col: int,
    px: int,
    py: int,
) -> bool {
    let c = (px - s.v[x]) % (DISPLAY_WIDTH as int);
    let r = (py - s.v[y]) % (DISPLAY_HEIGHT as int);
    sprite_hits(s, x, y, n, px, py) && (r < row || (r == row && c < col))
}

/// The display with the part of the sprite that `hits_before` covers drawn.
pub open spec fn drawn_before(s: MachineState, x: int, y: int, n: int, row: int, col: int) -> Seq<
    Seq<u8>,
> {
    Seq::new(
        DISPLAY_HEIGHT as nat,
        |py: int|
            Seq::new(
                DISPLAY_WIDTH as nat,
                |px: int|
                    if hits_before(s, x, y, n, row, col, px, py) {
                        toggled(s.gfx[py][px])
                    } else {
                        s.gfx[py][px]
                    },
            ),
    )
}

/// Whether that part of the sprite has a set pixel on a lit one.
pub open spec fn collides_before(s: MachineState, x: int, y: int, n: int, row: int, col: int) -> bool {
    exists|px: int, py: int|
        0 <= px < DISPLAY_WIDTH && 0 <= py < DISPLAY_HEIGHT && #[trigger] hits_before(
            s,
            x,
            y,
            n,
            row,
            col,
            px,
            py,
        ) && s.gfx[py][px] == 1
}

/// The display `gfx` with the pixel (`px`, `py`) inverted.
pub open spec fn with_pixel_toggled(gfx: Seq<Seq<u8>>, px: int, py: int) -> Seq<Seq<u8>> {
    gfx.update(py, gfx[py].update(px, toggled(gfx[py][px])))
}

/// Among the columns of the display, `(left + col) % 64` is the only one that
/// lies `col` to the right of `left`.
proof fn lemma_column(left: int, col: int, px: int)
    requires
        0 <= left,
        0 <= col < 64,
        0 <= px < 64,
    ensures
        ((px - left) % 64 == col) <==> (px == (left + col) % 64),
{
}

/// Among the rows of the display, `(top + row) % 32` is the only one that
/// lies `row` below `top`.
proof fn lemma_row(top: int, row: int, py: int)
    requires
        0 <= top,
        0 <= row < 32,
        0 <= py < 32,
    ensures
        ((py - top) % 32 == row) <==> (py == (top + row) % 32),
{
}

/// Before anything is drawn the display is as it was.
pub proof fn lemma_nothing_drawn(s: MachineState, x: int, y: int, n: int)
    requires
        s.wf(),
    ensures
        drawn_before(s, x, y, n, 0, 0) == s.gfx,
        !collides_before(s, x, y, n, 0, 0),
{
    assert(drawn_before(s, x, y, n, 0, 0) =~~= s.gfx);
}

/// Drawing the pixel in row `row` and column `col` of the sprite inverts one
/// display pixel if the sprite pixel is set, and nothing else.
pub proof fn lemma_pixel_drawn(s: MachineState, x: int, y: int, n: int, row: int, col: int)
    requires
        s.wf(),
        0 <= x < 16,
        0 <= y < 16,
        0 <= row < n <= 15,
        0 <= col < 8,
    ensures
        ({
            let px = (s.v[x] + col) % (DISPLAY_WIDTH as int);
            let py = (s.v[y] + row) % (DISPLAY_HEIGHT as int);
            let lit = sprite_bit(s.memory[s.i + row], col);
            let before = drawn_before(s, x, y, n, row, col);
            &&& before[py][px] == s.gfx[py][px]
            &&& drawn_before(s, x, y, n, row, col + 1) == (if lit {
                with_pixel_toggled(before, px, py)
            } else {
                before
            })
            &&& collides_before(s, x, y, n, row, col + 1) == (collides_before(s, x, y, n, row, col)
                || (lit && s.gfx[py][px] == 1))
        }),
{
    let px = (s.v[x] + col) % (DISPLAY_WIDTH as int);
    let py = (s.v[y] + row) % (DISPLAY_HEIGHT as int);
    let lit = sprite_bit(s.memory[s.i + row], col);
    let before = drawn_before(s, x, y, n, row, col);
    let after = drawn_before(s, x, y, n, row, col + 1);
    assert forall|qx: int, qy: int| 0 <= qx < DISPLAY_WIDTH && 0 <= qy < DISPLAY_HEIGHT implies (
    #[trigger] hits_before(s, x, y, n, row, col + 1, qx, qy)) == (hits_before(
        s,
        x,
        y,
        n,
        row,
        col,
        qx,
        qy,
    ) || (qx == px && qy == py && lit)) by {
        lemma_column(s.v[x] as int, col, qx);
        lemma_row(s.v[y] as int, row, qy);
    }
    assert(!hits_before(s, x, y, n, row, col, px, py)) by {
        lemma_column(s.v[x] as int, col, px);
        lemma_row(s.v[y] as int, row, py);
    }
    if lit {
        assert(after =~~= with_pixel_toggled(before, px, py));
    } else {
        assert(after =~~= before);
    }
    if collides_before(s, x, y, n, row, col) {
        let (wx, wy) = choose|wx: int, wy: int|
            0 <= wx < DISPLAY_WIDTH && 0 <= wy < DISPLAY_HEIGHT && #[trigger] hits_before(
                s,
                x,
                y,
                n,
                row,
                col,
                wx,
                wy,
            ) && s.gfx[wy][wx] == 1;
        assert(hits_before(s, x, y, n, row, col + 1, wx, wy));
    }
    if lit && s.gfx[py][px] == 1 {
        assert(hits_before(s, x, y, n, row, col + 1, px, py));
    }
}

/// A row is done once its eight pixels are.
pub proof fn lemma_row_drawn(s: MachineState, x: int, y: int, n: int, row: int)
    requires
        s.wf(),
        0 <= row,
    ensures
        drawn_before(s, x, y, n, row + 1, 0) == drawn_before(s, x, y, n, row, 8),
        collides_before(s, x, y, n, row + 1, 0) == collides_before(s, x, y, n, row, 8),
{
    assert forall|qx: int, qy: int| (#[trigger] hits_before(s, x, y, n, row + 1, 0, qx, qy))
        == hits_before(s, x, y, n, row, 8, qx, qy) by {}
    assert(drawn_before(s, x, y, n, row + 1, 0) =~~= drawn_before(s, x, y, n, row, 8));
    if collides_before(s, x, y, n, row, 8) {
        let (wx, wy) = choose|wx: int, wy: int|
            0 <= wx < DISPLAY_WIDTH && 0 <= wy < DISPLAY_HEIGHT && #[trigger] hits_before(
                s,
                x,
                y,
                n,
                row,
                8,
                wx,
                wy,
            ) && s.gfx[wy][wx] == 1;
        assert(hits_before(s, x, y, n, row + 1, 0, wx, wy));
    }
    if collides_before(s, x, y, n, row + 1, 0) {
        let (wx, wy) = choose|wx: int, wy: int|
            0 <= wx < DISPLAY_WIDTH && 0 <= wy < DISPLAY_HEIGHT && #[trigger] hits_before(
                s,
                x,
                y,
                n,
                row + 1,
                0,
                wx,
                wy,
            ) && s.gfx[wy][wx] == 1;
        assert(hits_before(s, x, y, n, row, 8, wx, wy));
    }
}

/// The sprite is drawn once its `n` rows are.
pub proof fn lemma_all_drawn(s: MachineState, x: int, y: int, n: int)
    requires
        s.wf(),
    ensures
        drawn_before(s, x, y, n, n, 0) == drawn(s, x, y, n),
        collides_before(s, x, y, n, n, 0) == collides(s, x, y, n),
{
    assert forall|qx: int, qy: int| (#[trigger] hits_before(s, x, y, n, n, 0, qx, qy))
        == sprite_hits(s, x, y, n, qx, qy) by {}
    assert(drawn_before(s, x, y, n, n, 0) =~~= drawn(s, x, y, n));
    if collides(s, x, y, n) {
        let (wx, wy) = choose|wx: int, wy: int|
            0 <= wx < DISPLAY_WIDTH && 0 <= wy < DISPLAY_HEIGHT && #[trigger] sprite_hits(
                s,
                x,
                y,
                n,
                wx,
                wy,
            ) && s.gfx[wy][wx] == 1;
        assert(hits_before(s, x, y, n, n, 0, wx, wy));
    }
    if collides_before(s, x, y, n, n, 0) {
        let (wx, wy) = choose|wx: int, wy: int|
            0 <= wx < DISPLAY_WIDTH && 0 <= wy < DISPLAY_HEIGHT && #[trigger] hits_before(
                s,
                x,
                y,
                n,
                n,
                0,
                wx,
                wy,
            ) && s.gfx[wy][wx] == 1;
        assert(sprite_hits(s, x, y, n, wx, wy));
    }
}

} // verus!
