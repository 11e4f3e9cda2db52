use vstd::prelude::*;
use crate::state::{RAM_SIZE, SCREEN_HEIGHT, SCREEN_SIZE, SCREEN_WIDTH};

verus! {

/// Whether bit `col` of `byte` is set, bit 0 being the most significant.
pub open spec fn bit_at(byte: u8, col: u8) -> bool {
    col < 8 && byte & (0x80u8 >> col) != 0
}

/// The sprite column that lands on display cell `p` when the sprite's left
/// edge is at column `vx`. Columns wrap around the display.
pub open spec fn source_col(vx: int, p: int) -> int {
    (p % (SCREEN_WIDTH as int) - vx) % (SCREEN_WIDTH as int)
}

/// The sprite row that lands on display cell `p` when the sprite's top edge
/// is at row `vy`. Rows wrap around the display.
pub open spec fn source_row(vy: int, p: int) -> int {
    (p / (SCREEN_WIDTH as int) - vy) % (SCREEN_HEIGHT as int)
}

/// The display cell on which column `col` of row `row` of a sprite lands
/// when the sprite's top-left corner is at (`vx`, `vy`). Each coordinate
/// wraps on its own.
pub open spec fn target_cell(vx: int, vy: int, row: int, col: int) -> int {
    (vx + col) % (SCREEN_WIDTH as int) + SCREEN_WIDTH * ((vy + row) % (SCREEN_HEIGHT as int))
}

/// Whether drawing the sprite `rows` at (`vx`, `vy`) toggles display cell `p`:
/// a set bit of the sprite lands on it.
pub open spec fn sprite_hits(rows: Seq<u8>, vx: int, vy: int, p: int) -> bool {
    let row = source_row(vy, p);
    let col = source_col(vx, p);
    row < rows.len() && col < 8 && bit_at(rows[row], col as u8)
}

/// The display after drawing the sprite `rows` at (`vx`, `vy`): every cell
/// that the sprite hits is toggled, every other cell is kept.
pub open spec fn draw_screen(screen: Seq<bool>, rows: Seq<u8>, vx: int, vy: int) -> Seq<bool> {
    Seq::new(screen.len(), |p: int| screen[p] != sprite_hits(rows, vx, vy, p))
}

/// Whether drawing the sprite `rows` at (`vx`, `vy`) turns off a cell that
/// was on: some cell is both lit and hit.
pub open spec fn collides(screen: Seq<bool>, rows: Seq<u8>, vx: int, vy: int) -> bool {
    exists|p: int| 0 <= p < screen.len() && screen[p] && #[trigger] sprite_hits(rows, vx, vy, p)
}

/// The `n` bytes of `ram` from address `start` on.
pub open spec fn sprite_rows(ram: Seq<u8>, start: int, n: int) -> Seq<u8> {
    Seq::new(n as nat, |r: int| ram[start + r])
}

/// Whether cell `p` is hit by a sprite bit that comes before column `col` of
/// row `row`, rows being drawn top to bottom and each row left to right.
spec fn hits_before(rows: Seq<u8>, vx: int, vy: int, row: int, col: int, p: int) -> bool {
    &&& sprite_hits(rows, vx, vy, p)
    &&& source_row(vy, p) < row || (source_row(vy, p) == row && source_col(vx, p) < col)
}

/// Whether a sprite bit that comes before column `col` of row `row` hits a
/// lit cell of `screen`.
spec fn collides_before(
    screen: Seq<bool>,
    rows: Seq<u8>,
    vx: int,
    vy: int,
    row: int,
    col: int,
) -> bool {
    exists|p: int|
        0 <= p < screen.len() && screen[p] && #[trigger] hits_before(rows, vx, vy, row, col, p)
}

/// A sprite position and a display cell determine each other: cell `p` shows
/// column `col` of row `row` exactly if it is that position's target.
pub proof fn lemma_target_cell(vx: int, vy: int, row: int, col: int, p: int)
    requires
        0 <= vx < 256,
        0 <= vy < 256,
        0 <= row < SCREEN_HEIGHT,
        0 <= col < SCREEN_WIDTH,
        0 <= p < SCREEN_SIZE,
    ensures
        0 <= target_cell(vx, vy, row, col) < SCREEN_SIZE,
        (source_row(vy, p) == row && source_col(vx, p) == col) <==> p == target_cell(
            vx,
            vy,
            row,
            col,
        ),
{
}

/// Draws the `n`-row sprite stored at `start` onto `screen` with its
/// top-left corner at (`vx`, `vy`) and reports whether a lit cell went dark.
pub(crate) fn draw_sprite(
    screen: &mut [bool; SCREEN_SIZE],
    ram: &[u8; RAM_SIZE],
    start: usize,
    n: u8,
    vx: u8,
    vy: u8,
) -> (flipped: bool)
    requires
        n < 16,
        n > 0 ==> start + n <= RAM_SIZE,
    ensures
        final(screen)@ == draw_screen(
            old(screen)@,
            sprite_rows(ram@, start as int, n as int),
            vx as int,
            vy as int,
        ),
        flipped == collides(
            old(screen)@,
            sprite_rows(ram@, start as int, n as int),
            vx as int,
            vy as int,
        ),
    no_unwind
{
    let ghost before = screen@;
    let ghost rows = sprite_rows(ram@, start as int, n as int);
    let mut flipped = false;
    let mut row: u8 = 0;
    while row < n
        invariant
            row <= n,
            n < 16,
            n > 0 ==> start + n <= RAM_SIZE,
            before.len() == SCREEN_SIZE,
            rows == sprite_rows(ram@, start as int, n as int),
            forall|p: int|
                0 <= p < SCREEN_SIZE ==> screen@[p] == (before[p] != hits_before(
                    rows,
                    vx as int,
                    vy as int,
                    row as int,
                    0,
                    p,
                )),
            flipped == collides_before(before, rows, vx as int, vy as int, row as int, 0),
        decreases n - row,
    {
        let pixels = ram[start + row as usize];
        let mut col: u8 = 0;
        while col < 8
            invariant
                col <= 8,
                row < n,
                n < 16,
                before.len() == SCREEN_SIZE,
                rows == sprite_rows(ram@, start as int, n as int),
                pixels == rows[row as int],
                forall|p: int|
                    0 <= p < SCREEN_SIZE ==> screen@[p] == (before[p] != hits_before(
                        rows,
                        vx as int,
                        vy as int,
                        row as int,
                        col as int,
                        p,
                    )),
                flipped == collides_before(
                    before,
                    rows,
                    vx as int,
                    vy as int,
                    row as int,
                    col as int,
                ),
            decreases 8 - col,
        {
            let ghost was_flipped = flipped;
            let ghost cell = target_cell(vx as int, vy as int, row as int, col as int);
            proof {
                assert forall|p: int| 0 <= p < SCREEN_SIZE implies (source_row(vy as int, p) == row
                    && source_col(vx as int, p) == col) == (p == cell) by {
                    lemma_target_cell(vx as int, vy as int, row as int, col as int, p);
                }
                lemma_target_cell(vx as int, vy as int, row as int, col as int, 0);
            }
            if pixels & (0x80u8 >> col) != 0 {
                let x = (vx as usize + col as usize) % SCREEN_WIDTH;
                let y = (vy as usize + row as usize) % SCREEN_HEIGHT;
                let idx = x + SCREEN_WIDTH * y;
                assert(idx == cell);
                flipped = flipped || screen[idx];
                screen[idx] = !screen[idx];
            }
            proof {
                let hit = bit_at(pixels, col);
                assert forall|p: int| 0 <= p < SCREEN_SIZE implies hits_before(
                    rows,
                    vx as int,
                    vy as int,
                    row as int,
                    col + 1,
                    p,
                ) == (hits_before(rows, vx as int, vy as int, row as int, col as int, p) || (hit
                    && p == cell)) by {}
                if collides_before(before, rows, vx as int, vy as int, row as int, col + 1) {
                    let p = choose|p: int|
                        0 <= p < before.len() && before[p] && #[trigger] hits_before(
                            rows,
                            vx as int,
                            vy as int,
                            row as int,
                            col + 1,
                            p,
                        );
                    assert(hits_before(rows, vx as int, vy as int, row as int, col as int, p) || (
                    hit && p == cell));
                }
                if hit && before[cell] {
                    assert(hits_before(rows, vx as int, vy as int, row as int, col + 1, cell));
                }
                if was_flipped {
                    let p = choose|p: int|
                        0 <= p < before.len() && before[p] && #[trigger] hits_before(
                            rows,
                            vx as int,
                            vy as int,
                            row as int,
                            col as int,
                            p,
                        );
                    assert(hits_before(rows, vx as int, vy as int, row as int, col + 1, p));
                }
            }
            col += 1;
        }
        proof {
            assert forall|p: int| 0 <= p < SCREEN_SIZE implies hits_before(
                rows,
                vx as int,
                vy as int,
                row as int,
                8,
                p,
            ) == hits_before(rows, vx as int, vy as int, row + 1, 0, p) by {}
            if collides_before(before, rows, vx as int, vy as int, row as int, 8) {
                let p = choose|p: int|
                    0 <= p < before.len() && before[p] && #[trigger] hits_before(
                        rows,
                        vx as int,
                        vy as int,
                        row as int,
                        8,
                        p,
                    );
                assert(hits_before(rows, vx as int, vy as int, row + 1, 0, p));
            }
            if collides_before(before, rows, vx as int, vy as int, row + 1, 0) {
                let p = choose|p: int|
                    0 <= p < before.len() && before[p] && #[trigger] hits_before(
                        rows,
                        vx as int,
                        vy as int,
                        row + 1,
                        0,
                        p,
                    );
                assert(hits_before(rows, vx as int, vy as int, row as int, 8, p));
            }
        }
        row += 1;
    }
    proof {
        assert forall|p: int| 0 <= p < SCREEN_SIZE implies hits_before(
            rows,
            vx as int,
            vy as int,
            n as int,
            0,
            p,
        ) == sprite_hits(rows, vx as int, vy as int, p) by {}
        assert(screen@ =~= draw_screen(before, rows, vx as int, vy as int));
        if collides_before(before, rows, vx as int, vy as int, n as int, 0) {
            let p = choose|p: int|
                0 <= p < before.len() && before[p] && #[trigger] hits_before(
                    rows,
                    vx as int,
                    vy as int,
                    n as int,
                    0,
                    p,
                );
            assert(sprite_hits(rows, vx as int, vy as int, p));
        }
        if collides(before, rows, vx as int, vy as int) {
            let p = choose|p: int|
                0 <= p < before.len() && before[p] && #[trigger] sprite_hits(
                    rows,
                    vx as int,
                    vy as int,
                    p,
                );
            assert(hits_before(rows, vx as int, vy as int, n as int, 0, p));
        }
    }
    flipped
}

} // verus!
