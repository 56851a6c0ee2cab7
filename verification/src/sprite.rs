//! Drawing a sprite onto the display.

use vstd::prelude::*;
use crate::laws::lemma_toggled;
use crate::model::{
    binary, blit, collides, covers, sprite_bit, sprite_col_at, sprite_row_at, toggled, DISPLAY_BYTES,
    DISPLAY_HEIGHT, DISPLAY_WIDTH, MEM_SIZE,
};

verus! {

/// The index of the pixel under bit `col` of row `row` of a sprite whose top left corner is
/// at (`vx`, `vy`).
spec fn pixel_index(vx: int, vy: int, row: int, col: int) -> int {
    ((vy + row) % 32) * 64 + (vx + col) % 64
}

/// `covers`, for a sprite of which rows below `row` and, of row `row`, the bits before
/// `col` were drawn.
spec fn covers_partly(mem: Seq<u8>, index: int, row: int, col: int, vx: int, vy: int, p: int) -> bool {
    let r = sprite_row_at(vy, p);
    let c = sprite_col_at(vx, p);
    (r < row && c < 8 || r == row && c < col) && sprite_bit(mem[index + r], c as u8)
}

/// `collides`, for a sprite of which only that much was drawn.
spec fn collides_partly(
    display: Seq<u8>,
    mem: Seq<u8>,
    index: int,
    row: int,
    col: int,
    vx: int,
    vy: int,
) -> bool {
    exists|p: int|
        0 <= p < 2048 && #[trigger] covers_partly(mem, index, row, col, vx, vy, p) && display[p] != 0
}

/// Each bit of a sprite falls on one pixel, and on each pixel falls at most one bit.
proof fn lemma_pixel_index(vx: int, vy: int, row: int, col: int, p: int)
    requires
        0 <= vx < 256,
        0 <= vy < 256,
        0 <= row < 32,
        0 <= col < 64,
        0 <= p < 2048,
    ensures
        0 <= pixel_index(vx, vy, row, col) < 2048,
        (sprite_row_at(vy, p) == row && sprite_col_at(vx, p) == col) <==> p == pixel_index(
            vx,
            vy,
            row,
            col,
        ),
        0 <= sprite_row_at(vy, p) < 32,
        0 <= sprite_col_at(vx, p) < 64,
{
}

/// Draws the sprite of `n` rows at `mem[index..]` with its top left corner at (`vx`, `vy`),
/// wrapped round both edges, and says whether a pixel that was on went off.
pub(crate) fn blit_into(
    display: &mut [u8; DISPLAY_BYTES],
    mem: &[u8; MEM_SIZE],
    index: usize,
    n: usize,
    vx: u8,
    vy: u8,
) -> (hit: bool)
    requires
        index + n <= 4096,
        n < 16,
        binary(old(display)@),
    ensures
        final(display)@ == blit(old(display)@, mem@, index as int, n as int, vx as int, vy as int),
        hit == collides(old(display)@, mem@, index as int, n as int, vx as int, vy as int),
        binary(final(display)@),
{
    let ghost before = display@;
    let mut hit = false;
    let mut row: usize = 0;
    while row < n
        invariant
            row <= n < 16,
            index + n <= 4096,
            binary(before),
            before.len() == 2048,
            forall|p: int|
                0 <= p < 2048 ==> display@[p] == (if covers(
                    mem@,
                    index as int,
                    row as int,
                    vx as int,
                    vy as int,
                    p,
                ) {
                    toggled(before[p])
                } else {
                    before[p]
                }),
            hit == collides(before, mem@, index as int, row as int, vx as int, vy as int),
        decreases n - row,
    {
        let bits = mem[index + row];
        let mut col: u8 = 0;
        assert forall|p: int| 0 <= p < 2048 implies covers_partly(
            mem@,
            index as int,
            row as int,
            0,
            vx as int,
            vy as int,
            p,
        ) == covers(mem@, index as int, row as int, vx as int, vy as int, p) by {
            lemma_pixel_index(vx as int, vy as int, row as int, 0, p);
        }
        proof {
            let (m, i, r, x, y) = (mem@, index as int, row as int, vx as int, vy as int);
            if collides(before, m, i, r, x, y) {
                let p = choose|p: int|
                    0 <= p < 2048 && #[trigger] covers(m, i, r, x, y, p) && before[p] != 0;
                assert(covers_partly(m, i, r, 0, x, y, p));
            }
            if collides_partly(before, m, i, r, 0, x, y) {
                let p = choose|p: int|
                    0 <= p < 2048 && #[trigger] covers_partly(m, i, r, 0, x, y, p) && before[p] != 0;
                assert(covers(m, i, r, x, y, p));
            }
        }
        while col < 8
            invariant
                col <= 8,
                row < n < 16,
                index + n <= 4096,
                bits == mem@[index + row],
                binary(before),
                before.len() == 2048,
                forall|p: int|
                    0 <= p < 2048 ==> display@[p] == (if covers_partly(
                        mem@,
                        index as int,
                        row as int,
                        col as int,
                        vx as int,
                        vy as int,
                        p,
                    ) {
                        toggled(before[p])
                    } else {
                        before[p]
                    }),
                hit == collides_partly(
                    before,
                    mem@,
                    index as int,
                    row as int,
                    col as int,
                    vx as int,
                    vy as int,
                ),
            decreases 8 - col,
        {
            let ghost was_hit = hit;
            let ghost target = pixel_index(vx as int, vy as int, row as int, col as int);
            proof {
                assert forall|p: int| 0 <= p < 2048 implies (covers_partly(
                    mem@,
                    index as int,
                    row as int,
                    col + 1,
                    vx as int,
                    vy as int,
                    p,
                ) <==> covers_partly(mem@, index as int, row as int, col as int, vx as int, vy as int, p)
                    || (p == target && sprite_bit(bits, col))) by {
                    lemma_pixel_index(vx as int, vy as int, row as int, col as int, p);
                }
                lemma_pixel_index(vx as int, vy as int, row as int, col as int, target);
            }
            if (bits >> (7 - col)) & 1 == 1 {
                let frame_y = (vy as usize + row) % DISPLAY_HEIGHT;
                let frame_x = (vx as usize + col as usize) % DISPLAY_WIDTH;
                let at = frame_y * DISPLAY_WIDTH + frame_x;
                assert(at == target);
                if display[at] != 0 {
                    hit = true;
                }
                display[at] = display[at] ^ 0xFF;
            }
            proof {
                let (m, i, r, c, x, y) = (
                    mem@,
                    index as int,
                    row as int,
                    col as int,
                    vx as int,
                    vy as int,
                );
                if was_hit {
                    let p = choose|p: int|
                        0 <= p < 2048 && #[trigger] covers_partly(m, i, r, c, x, y, p) && before[p] != 0;
                    assert(covers_partly(m, i, r, c + 1, x, y, p));
                } else if hit {
                    assert(covers_partly(m, i, r, c + 1, x, y, target));
                    assert(before[target] != 0);
                }
                if collides_partly(before, m, i, r, c + 1, x, y) {
                    let p = choose|p: int|
                        0 <= p < 2048 && #[trigger] covers_partly(m, i, r, c + 1, x, y, p) && before[p]
                            != 0;
                    if covers_partly(m, i, r, c, x, y, p) {
                        assert(was_hit);
                    } else {
                        assert(p == target && sprite_bit(bits, col));
                        assert(hit);
                    }
                }
            }
            col += 1;
        }
        proof {
            assert forall|p: int| 0 <= p < 2048 implies covers_partly(
                mem@,
                index as int,
                row as int,
                8,
                vx as int,
                vy as int,
                p,
            ) == covers(mem@, index as int, row + 1, vx as int, vy as int, p) by {
                lemma_pixel_index(vx as int, vy as int, row as int, 0, p);
            }
            let (m, i, r, x, y) = (mem@, index as int, row as int, vx as int, vy as int);
            if collides(before, m, i, r + 1, x, y) {
                let p = choose|p: int|
                    0 <= p < 2048 && #[trigger] covers(m, i, r + 1, x, y, p) && before[p] != 0;
                assert(covers_partly(m, i, r, 8, x, y, p));
            }
            if collides_partly(before, m, i, r, 8, x, y) {
                let p = choose|p: int|
                    0 <= p < 2048 && #[trigger] covers_partly(m, i, r, 8, x, y, p) && before[p] != 0;
                assert(covers(m, i, r + 1, x, y, p));
            }
        }
        row += 1;
    }
    proof {
        assert(display@ =~= blit(before, mem@, index as int, n as int, vx as int, vy as int));
        assert forall|p: int| 0 <= p < 2048 implies display@[p] == 0 || display@[p] == 0xFF by {
            lemma_toggled(before[p]);
        }
    }
    hit
}

} // verus!
