use vstd::prelude::*;
use vstd::utf8::{encode_utf8, is_ascii_chars, is_ascii_chars_encode_utf8};

verus! {

/// Width and height of the engine's window icon, in pixels.
pub const ICON_SIZE: u32 = 32;

/// Number of bytes of the icon's RGBA buffer.
pub const ICON_BYTES: usize = 4096;

/// Row of the icon pixel that byte `i` of its RGBA buffer belongs to.
pub open spec fn byte_row(i: int) -> int {
    i / 128
}

/// Column of the icon pixel that byte `i` of its RGBA buffer belongs to.
pub open spec fn byte_column(i: int) -> int {
    (i % 128) / 4
}

/// `icon` with every pixel whose column lies in `[x0, x1)` and whose row lies in
/// `[y0, y1)` set to `color`.
pub open spec fn area_painted(icon: Seq<u8>, x0: int, x1: int, y0: int, y1: int, color: Seq<u8>) -> Seq<u8> {
    Seq::new(
        icon.len(),
        |i: int|
            if x0 <= byte_column(i) < x1 && y0 <= byte_row(i) < y1 {
                color[i % 4]
            } else {
                icon[i]
            },
    )
}

pub open spec fn clipped_end(start: int, length: int) -> int {
    if start + length < ICON_SIZE {
        start + length
    } else {
        ICON_SIZE as int
    }
}

/// `icon` with the rectangle at `(x, y)` of `width` by `height` pixels, clipped to
/// the icon, painted in `color`.
pub open spec fn rect_painted(icon: Seq<u8>, x: int, y: int, width: int, height: int, color: Seq<u8>) -> Seq<u8> {
    area_painted(icon, x, clipped_end(x, width), y, clipped_end(y, height), color)
}

/// Paints a clipped rectangle of the icon.
pub fn paint_rect(rgba: &mut Vec<u8>, x: u32, y: u32, width: u32, height: u32, color: [u8; 4])
    requires
        old(rgba)@.len() == ICON_BYTES,
    ensures
        final(rgba)@ == rect_painted(old(rgba)@, x as int, y as int, width as int, height as int, color@),
{
    let x_end = if x.saturating_add(width) < ICON_SIZE {
        x.saturating_add(width)
    } else {
        ICON_SIZE
    };
    let y_end = if y.saturating_add(height) < ICON_SIZE {
        y.saturating_add(height)
    } else {
        ICON_SIZE
    };
    assert(x_end == clipped_end(x as int, width as int));
    assert(y_end == clipped_end(y as int, height as int));
    let ghost before = rgba@;
    let mut py = y;
    assert(rgba@ =~= area_painted(before, x as int, x_end as int, y as int, py as int, color@));
    while py < y_end
        invariant
            y <= py,
            py <= y_end || py == y,
            y_end <= ICON_SIZE,
            x_end <= ICON_SIZE,
            before.len() == ICON_BYTES,
            rgba@ == area_painted(before, x as int, x_end as int, y as int, py as int, color@),
        decreases y_end - py,
    {
        let ghost row_start = rgba@;
        let mut px = x;
        assert(rgba@ =~= area_painted(row_start, x as int, px as int, py as int, py + 1, color@));
        while px < x_end
            invariant
                y <= py < y_end,
                y_end <= ICON_SIZE,
                x <= px,
                px <= x_end || px == x,
                x_end <= ICON_SIZE,
                row_start.len() == ICON_BYTES,
                row_start == area_painted(before, x as int, x_end as int, y as int, py as int, color@),
                before.len() == ICON_BYTES,
                rgba@ == area_painted(row_start, x as int, px as int, py as int, py + 1, color@),
            decreases x_end - px,
        {
            let offset = ((py * ICON_SIZE + px) * 4) as usize;
            let ghost old_bytes = rgba@;
            rgba.set(offset, color[0]);
            rgba.set(offset + 1, color[1]);
            rgba.set(offset + 2, color[2]);
            rgba.set(offset + 3, color[3]);
            assert forall|i: int| 0 <= i < ICON_BYTES implies #[trigger] rgba@[i] == area_painted(
                row_start,
                x as int,
                px + 1,
                py as int,
                py + 1,
                color@,
            )[i] by {
                if offset <= i < offset + 4 {
                    assert(byte_row(i) == py && byte_column(i) == px && i % 4 == i - offset);
                } else {
                    assert(!(byte_row(i) == py && byte_column(i) == px));
                }
            }
            assert(rgba@ =~= area_painted(row_start, x as int, px + 1, py as int, py + 1, color@));
            px = px + 1;
        }
        assert(rgba@ =~= area_painted(before, x as int, x_end as int, y as int, py + 1, color@));
        py = py + 1;
    }
    assert(rgba@ =~= area_painted(before, x as int, x_end as int, y as int, y_end as int, color@));
}

/// Whether cell `(row, column)` of a glyph is lit: its pattern byte is `'1'`.
pub open spec fn glyph_cell_lit(rows: Seq<Seq<u8>>, row: int, column: int) -> bool {
    &&& 0 <= row < rows.len()
    &&& 0 <= column < rows[row].len()
    &&& rows[row][column] == 0x31
}

/// Whether a glyph drawn at `(x, y)`, each cell two pixels wide and high, covers
/// pixel `(px, py)`.
pub open spec fn glyph_covers(rows: Seq<Seq<u8>>, x: int, y: int, px: int, py: int) -> bool {
    px >= x && py >= y && glyph_cell_lit(rows, (py - y) / 2, (px - x) / 2)
}

/// `glyph_covers`, counting only the cells before row `done_rows`, and those of that
/// row before column `done_columns`.
pub open spec fn glyph_covers_upto(
    rows: Seq<Seq<u8>>,
    x: int,
    y: int,
    px: int,
    py: int,
    done_rows: int,
    done_columns: int,
) -> bool {
    &&& glyph_covers(rows, x, y, px, py)
    &&& ((py - y) / 2 < done_rows || ((py - y) / 2 == done_rows && (px - x) / 2 < done_columns))
}

pub open spec fn glyph_painted_upto(
    icon: Seq<u8>,
    x: int,
    y: int,
    rows: Seq<Seq<u8>>,
    color: Seq<u8>,
    done_rows: int,
    done_columns: int,
) -> Seq<u8> {
    Seq::new(
        icon.len(),
        |i: int|
            if glyph_covers_upto(rows, x, y, byte_column(i), byte_row(i), done_rows, done_columns) {
                color[i % 4]
            } else {
                icon[i]
            },
    )
}

/// `icon` with every pixel that the glyph at `(x, y)` covers set to `color`.
pub open spec fn glyph_painted(icon: Seq<u8>, x: int, y: int, rows: Seq<Seq<u8>>, color: Seq<u8>) -> Seq<u8> {
    Seq::new(
        icon.len(),
        |i: int|
            if glyph_covers(rows, x, y, byte_column(i), byte_row(i)) {
                color[i % 4]
            } else {
                icon[i]
            },
    )
}

/// The bytes of each row pattern of a glyph.
pub open spec fn pattern_bytes(rows: Seq<&str>) -> Seq<Seq<u8>> {
    rows.map_values(|row: &str| encode_utf8(row@))
}

/// Draws a glyph of five row patterns at `(x, y)`: each `'1'` byte of a pattern is
/// a lit cell of two by two pixels.
pub fn draw_glyph(rgba: &mut Vec<u8>, x: u32, y: u32, rows: &[&str; 5], color: [u8; 4])
    requires
        old(rgba)@.len() == ICON_BYTES,
        y + 10 <= u32::MAX,
        forall|r: int| 0 <= r < 5 ==> x + 2 * encode_utf8((#[trigger] rows@[r])@).len() <= u32::MAX,
    ensures
        final(rgba)@ == glyph_painted(old(rgba)@, x as int, y as int, pattern_bytes(rows@), color@),
{
    let ghost before = rgba@;
    let ghost patterns = pattern_bytes(rows@);
    assert(rgba@ =~= glyph_painted_upto(before, x as int, y as int, patterns, color@, 0, 0));
    let mut row: usize = 0;
    while row < 5
        invariant
            row <= 5,
            before.len() == ICON_BYTES,
            patterns == pattern_bytes(rows@),
            y + 10 <= u32::MAX,
            forall|r: int| 0 <= r < 5 ==> x + 2 * encode_utf8((#[trigger] rows@[r])@).len() <= u32::MAX,
            rgba@ == glyph_painted_upto(before, x as int, y as int, patterns, color@, row as int, 0),
        decreases 5 - row,
    {
        let pattern = rows[row].as_bytes();
        assert(pattern@ == patterns[row as int]);
        assert(x + 2 * pattern@.len() <= u32::MAX);
        let mut column: usize = 0;
        while column < pattern.len()
            invariant
                row < 5,
                column <= pattern@.len(),
                x + 2 * pattern@.len() <= u32::MAX,
                y + 10 <= u32::MAX,
                before.len() == ICON_BYTES,
                pattern@ == patterns[row as int],
                patterns == pattern_bytes(rows@),
                rgba@ == glyph_painted_upto(before, x as int, y as int, patterns, color@, row as int, column as int),
            decreases pattern@.len() - column,
        {
            let ghost current = rgba@;
            if pattern[column] == 0x31u8 {
                let cell_x = x + (column as u32) * 2;
                let cell_y = y + (row as u32) * 2;
                paint_rect(rgba, cell_x, cell_y, 2, 2, color);
                assert forall|i: int| 0 <= i < ICON_BYTES implies #[trigger] rgba@[i] == glyph_painted_upto(
                    before,
                    x as int,
                    y as int,
                    patterns,
                    color@,
                    row as int,
                    column + 1,
                )[i] by {
                    let px = byte_column(i);
                    let py = byte_row(i);
                    if cell_x <= px < cell_x + 2 && cell_y <= py < cell_y + 2 {
                        assert((px - x) / 2 == column && (py - y) / 2 == row);
                    } else if px >= x && py >= y {
                        assert(!((px - x) / 2 == column && (py - y) / 2 == row));
                    }
                }
            } else {
                assert forall|i: int| 0 <= i < ICON_BYTES implies #[trigger] rgba@[i] == glyph_painted_upto(
                    before,
                    x as int,
                    y as int,
                    patterns,
                    color@,
                    row as int,
                    column + 1,
                )[i] by {
                    assert(current[i] == glyph_painted_upto(before, x as int, y as int, patterns, color@, row as int, column as int)[i]);
                }
            }
            assert(rgba@ =~= glyph_painted_upto(before, x as int, y as int, patterns, color@, row as int, column + 1));
            column = column + 1;
        }
        assert(rgba@ =~= glyph_painted_upto(before, x as int, y as int, patterns, color@, row + 1, 0));
        row = row + 1;
    }
    assert(rgba@ =~= glyph_painted(before, x as int, y as int, patterns, color@));
}

pub open spec fn transparent() -> Seq<u8> {
    seq![0u8, 0u8, 0u8, 0u8]
}

pub open spec fn panel() -> Seq<u8> {
    seq![7u8, 10u8, 18u8, 255u8]
}

pub open spec fn cyan() -> Seq<u8> {
    seq![104u8, 222u8, 255u8, 255u8]
}

pub open spec fn gold() -> Seq<u8> {
    seq![246u8, 196u8, 83u8, 255u8]
}

pub open spec fn violet() -> Seq<u8> {
    seq![185u8, 104u8, 255u8, 255u8]
}

pub open spec fn light() -> Seq<u8> {
    seq![232u8, 240u8, 255u8, 255u8]
}

fn color(r: u8, g: u8, b: u8, a: u8) -> (rgba: [u8; 4])
    ensures
        rgba@ == seq![r, g, b, a],
{
    let rgba = [r, g, b, a];
    assert(rgba@ =~= seq![r, g, b, a]);
    rgba
}

/// The engine's icon: a dark panel framed in cyan, with gold, violet and light
/// accents and the letters G, P and E drawn in gold, violet and cyan.
pub open spec fn gpe_icon() -> Seq<u8> {
    let blank = rect_painted(Seq::new(ICON_BYTES as nat, |i: int| 0u8), 0, 0, 32, 32, transparent());
    let panelled = rect_painted(blank, 2, 2, 28, 28, panel());
    let top = rect_painted(panelled, 2, 2, 28, 2, cyan());
    let bottom = rect_painted(top, 2, 28, 28, 2, cyan());
    let left = rect_painted(bottom, 2, 4, 2, 24, cyan());
    let framed = rect_painted(left, 28, 4, 2, 24, cyan());
    let gold_accent = rect_painted(framed, 5, 6, 4, 2, gold());
    let violet_accent = rect_painted(gold_accent, 23, 24, 4, 2, violet());
    let upper_light = rect_painted(violet_accent, 15, 6, 2, 2, light());
    let accented = rect_painted(upper_light, 15, 24, 2, 2, light());
    let with_g = glyph_painted(accented, 4, 11, pattern_bytes(seq!["111", "100", "101", "101", "111"]), gold());
    let with_p = glyph_painted(with_g, 13, 11, pattern_bytes(seq!["111", "101", "111", "100", "100"]), violet());
    glyph_painted(with_p, 22, 11, pattern_bytes(seq!["111", "100", "110", "100", "111"]), cyan())
}

proof fn lemma_three_ascii_bytes(row: &str)
    requires
        row@.len() == 3,
        is_ascii_chars(row@),
    ensures
        encode_utf8(row@).len() == 3,
{
    is_ascii_chars_encode_utf8(row@);
}

/// The RGBA pixels of the engine's window icon.
pub fn gpe_icon_rgba() -> (rgba: Vec<u8>)
    ensures
        rgba@ == gpe_icon(),
{
    let mut rgba: Vec<u8> = vec![0u8; ICON_BYTES];
    assert(rgba@ =~= Seq::new(ICON_BYTES as nat, |i: int| 0u8));
    paint_rect(&mut rgba, 0, 0, ICON_SIZE, ICON_SIZE, color(0, 0, 0, 0));

    paint_rect(&mut rgba, 2, 2, 28, 28, color(7, 10, 18, 255));
    paint_rect(&mut rgba, 2, 2, 28, 2, color(104, 222, 255, 255));
    paint_rect(&mut rgba, 2, 28, 28, 2, color(104, 222, 255, 255));
    paint_rect(&mut rgba, 2, 4, 2, 24, color(104, 222, 255, 255));
    paint_rect(&mut rgba, 28, 4, 2, 24, color(104, 222, 255, 255));

    // Small asymmetric accents keep the mark readable as pixel art at 16/32 px.
    paint_rect(&mut rgba, 5, 6, 4, 2, color(246, 196, 83, 255));
    paint_rect(&mut rgba, 23, 24, 4, 2, color(185, 104, 255, 255));
    paint_rect(&mut rgba, 15, 6, 2, 2, color(232, 240, 255, 255));
    paint_rect(&mut rgba, 15, 24, 2, 2, color(232, 240, 255, 255));

    proof {
        reveal_strlit("111");
        reveal_strlit("100");
        reveal_strlit("101");
        reveal_strlit("110");
        lemma_three_ascii_bytes("111");
        lemma_three_ascii_bytes("100");
        lemma_three_ascii_bytes("101");
        lemma_three_ascii_bytes("110");
    }
    let g_rows = ["111", "100", "101", "101", "111"];
    assert(g_rows@ =~= seq!["111", "100", "101", "101", "111"]);
    draw_glyph(&mut rgba, 4, 11, &g_rows, color(246, 196, 83, 255));
    let p_rows = ["111", "101", "111", "100", "100"];
    assert(p_rows@ =~= seq!["111", "101", "111", "100", "100"]);
    draw_glyph(&mut rgba, 13, 11, &p_rows, color(185, 104, 255, 255));
    let e_rows = ["111", "100", "110", "100", "111"];
    assert(e_rows@ =~= seq!["111", "100", "110", "100", "111"]);
    draw_glyph(&mut rgba, 22, 11, &e_rows, color(104, 222, 255, 255));
    rgba
}

} // verus!
