use vstd::prelude::*;

use crate::framebuffer::{
    fits_i32, in_rect, lemma_painted_identity, lemma_painted_same_region, lemma_painted_union,
    painted, Framebuffer, RasterView,
};
use crate::pixel::Pixel;

verus! {

/// Column `col` (counted from the left) of a glyph row `width` bits wide is set.
pub open spec fn row_bit(row: u16, width: int, col: int) -> bool {
    row & (1u16 << ((width - 1 - col) as u16)) != 0
}

/// `(px, py)` lies in the `scale` x `scale` cell that row `r`, column `c` of a glyph
/// placed at `(x, y)` paints. Cells whose origin does not fit in `i32` are not painted.
pub open spec fn glyph_cell(
    px: int,
    py: int,
    x: int,
    y: int,
    rows: Seq<u16>,
    width: int,
    scale: int,
    r: int,
    c: int,
) -> bool {
    &&& 0 <= r < rows.len()
    &&& 0 <= c < width
    &&& row_bit(rows[r], width, c)
    &&& fits_i32(x + c * scale)
    &&& fits_i32(y + r * scale)
    &&& in_rect(px, py, x + c * scale, y + r * scale, scale, scale)
}

/// `(px, py)` is painted by the glyph with the given rows placed at `(x, y)`.
pub open spec fn glyph_covers(
    px: int,
    py: int,
    x: int,
    y: int,
    rows: Seq<u16>,
    width: int,
    scale: int,
) -> bool {
    exists|r: int, c: int| #[trigger] glyph_cell(px, py, x, y, rows, width, scale, r, c)
}

spec fn glyph_covers_before(
    px: int,
    py: int,
    x: int,
    y: int,
    rows: Seq<u16>,
    width: int,
    scale: int,
    row: int,
    col: int,
) -> bool {
    exists|r: int, c: int|
        (r < row || (r == row && c < col)) && #[trigger] glyph_cell(px, py, x, y, rows, width, scale, r, c)
}

/// Paints every set bit of a glyph as a `scale` x `scale` block whose top-left corner is
/// `(x + column * scale, y + row * scale)`.
pub fn draw_glyph_cells(
    framebuffer: &mut Framebuffer,
    x: i128,
    y: i128,
    rows: &[u16],
    width: u32,
    scale: u32,
    pixel: Pixel,
)
    requires
        -0x1_0000_0000_0000_0000_0000_0000 <= x <= 0x1_0000_0000_0000_0000_0000_0000,
        -0x1_0000_0000_0000_0000_0000_0000 <= y <= 0x1_0000_0000_0000_0000_0000_0000,
        width <= 16,
    ensures
        painted(
            old(framebuffer)@,
            final(framebuffer)@,
            |px: int, py: int| glyph_covers(px, py, x as int, y as int, rows@, width as int, scale as int),
            pixel,
        ),
{
    let ghost base = framebuffer@;
    let ghost region = |px: int, py: int|
        glyph_covers(px, py, x as int, y as int, rows@, width as int, scale as int);
    proof {
        lemma_painted_identity(
            base,
            |px: int, py: int|
                glyph_covers_before(px, py, x as int, y as int, rows@, width as int, scale as int, 0, 0),
            pixel,
        );
    }
    let mut row_index: usize = 0;
    while row_index < rows.len()
        invariant
            0 <= row_index <= rows@.len(),
            width <= 16,
            -0x1_0000_0000_0000_0000_0000_0000 <= x <= 0x1_0000_0000_0000_0000_0000_0000,
            -0x1_0000_0000_0000_0000_0000_0000 <= y <= 0x1_0000_0000_0000_0000_0000_0000,
            painted(
                base,
                framebuffer@,
                |px: int, py: int|
                    glyph_covers_before(
                        px,
                        py,
                        x as int,
                        y as int,
                        rows@,
                        width as int,
                        scale as int,
                        row_index as int,
                        0,
                    ),
                pixel,
            ),
        decreases rows@.len() - row_index,
    {
        let row = rows[row_index];
        let mut column: u32 = 0;
        while column < width
            invariant
                0 <= row_index < rows@.len(),
                row == rows@[row_index as int],
                0 <= column <= width,
                width <= 16,
                -0x1_0000_0000_0000_0000_0000_0000 <= x <= 0x1_0000_0000_0000_0000_0000_0000,
                -0x1_0000_0000_0000_0000_0000_0000 <= y <= 0x1_0000_0000_0000_0000_0000_0000,
                painted(
                    base,
                    framebuffer@,
                    |px: int, py: int|
                        glyph_covers_before(
                            px,
                            py,
                            x as int,
                            y as int,
                            rows@,
                            width as int,
                            scale as int,
                            row_index as int,
                            column as int,
                        ),
                    pixel,
                ),
            decreases width - column,
        {
            let ghost before = framebuffer@;
            let ghost prev_region = |px: int, py: int|
                glyph_covers_before(
                    px,
                    py,
                    x as int,
                    y as int,
                    rows@,
                    width as int,
                    scale as int,
                    row_index as int,
                    column as int,
                );
            let ghost next_region = |px: int, py: int|
                glyph_covers_before(
                    px,
                    py,
                    x as int,
                    y as int,
                    rows@,
                    width as int,
                    scale as int,
                    row_index as int,
                    column + 1,
                );
            let mask: u16 = 1u16 << ((width - 1 - column) as u16);
            proof {
                assert(column as int * scale as int <= 16 * 0x1_0000_0000) by (nonlinear_arith)
                    requires
                        0 <= column <= 16,
                        0 <= scale <= 0x1_0000_0000,
                ;
                assert(row_index as int * scale as int <= 0x1_0000_0000_0000_0000 * 0x1_0000_0000)
                    by (nonlinear_arith)
                    requires
                        0 <= row_index <= 0x1_0000_0000_0000_0000,
                        0 <= scale <= 0x1_0000_0000,
                ;
            }
            let cell_x = x + column as i128 * scale as i128;
            let cell_y = y + row_index as i128 * scale as i128;
            if row & mask != 0 && i32::MIN as i128 <= cell_x && cell_x <= i32::MAX as i128
                && i32::MIN as i128 <= cell_y && cell_y <= i32::MAX as i128 {
                framebuffer.fill_rect(cell_x as i32, cell_y as i32, scale, scale, pixel);
                proof {
                    assert forall|px: int, py: int| base.in_bounds(px, py) implies (next_region(px, py)
                        == (prev_region(px, py) || in_rect(
                        px,
                        py,
                        cell_x as int,
                        cell_y as int,
                        scale as int,
                        scale as int,
                    ))) by {
                        if in_rect(px, py, cell_x as int, cell_y as int, scale as int, scale as int) {
                            assert(glyph_cell(
                                px,
                                py,
                                x as int,
                                y as int,
                                rows@,
                                width as int,
                                scale as int,
                                row_index as int,
                                column as int,
                            ));
                        }
                    }
                    lemma_painted_union(
                        base,
                        before,
                        framebuffer@,
                        prev_region,
                        |px: int, py: int|
                            in_rect(px, py, cell_x as int, cell_y as int, scale as int, scale as int),
                        next_region,
                        pixel,
                    );
                }
            } else {
                proof {
                    assert forall|px: int, py: int| base.in_bounds(px, py) implies (next_region(px, py)
                        == prev_region(px, py)) by {
                        if next_region(px, py) {
                            let (r, c) = choose|r: int, c: int|
                                (r < row_index || (r == row_index && c < column + 1)) && #[trigger] glyph_cell(
                                    px,
                                    py,
                                    x as int,
                                    y as int,
                                    rows@,
                                    width as int,
                                    scale as int,
                                    r,
                                    c,
                                );
                            if r == row_index && c == column {
                                assert(false);
                            }
                        }
                    }
                    lemma_painted_same_region(base, framebuffer@, prev_region, next_region, pixel);
                }
            }
            column = column + 1;
        }
        proof {
            assert forall|px: int, py: int| base.in_bounds(px, py) implies (glyph_covers_before(
                px,
                py,
                x as int,
                y as int,
                rows@,
                width as int,
                scale as int,
                row_index as int,
                width as int,
            ) == glyph_covers_before(
                px,
                py,
                x as int,
                y as int,
                rows@,
                width as int,
                scale as int,
                row_index + 1,
                0,
            )) by {
            }
            lemma_painted_same_region(
                base,
                framebuffer@,
                |px: int, py: int|
                    glyph_covers_before(
                        px,
                        py,
                        x as int,
                        y as int,
                        rows@,
                        width as int,
                        scale as int,
                        row_index as int,
                        width as int,
                    ),
                |px: int, py: int|
                    glyph_covers_before(
                        px,
                        py,
                        x as int,
                        y as int,
                        rows@,
                        width as int,
                        scale as int,
                        row_index + 1,
                        0,
                    ),
                pixel,
            );
        }
        row_index = row_index + 1;
    }
    proof {
        assert forall|px: int, py: int| base.in_bounds(px, py) implies (glyph_covers_before(
            px,
            py,
            x as int,
            y as int,
            rows@,
            width as int,
            scale as int,
            row_index as int,
            0,
        ) == region(px, py)) by {
        }
        lemma_painted_same_region(
            base,
            framebuffer@,
            |px: int, py: int|
                glyph_covers_before(
                    px,
                    py,
                    x as int,
                    y as int,
                    rows@,
                    width as int,
                    scale as int,
                    row_index as int,
                    0,
                ),
            region,
            pixel,
        );
    }
}

} // verus!
