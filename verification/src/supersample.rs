use vstd::prelude::*;

use crate::framebuffer::{Framebuffer, RasterView};

verus! {

/// Maximum supersampling factor accepted when outline text is drawn through a larger
/// temporary surface and averaged back down.
pub const MAX_TEXT_RASTER_SCALE: u32 = 4;

/// A requested supersampling factor brought into `1..=MAX_TEXT_RASTER_SCALE`.
pub fn clamp_raster_scale(requested: u32) -> (scale: u32)
    ensures
        scale == if requested < 1 {
            1
        } else if requested > MAX_TEXT_RASTER_SCALE {
            MAX_TEXT_RASTER_SCALE
        } else {
            requested
        },
{
    if requested < 1 {
        1
    } else if requested > MAX_TEXT_RASTER_SCALE {
        MAX_TEXT_RASTER_SCALE
    } else {
        requested
    }
}

/// `value / divisor`, rounded up.
pub fn div_ceil_u32(value: u32, divisor: u32) -> (quotient: u32)
    requires
        divisor > 0,
    ensures
        quotient == (value + divisor - 1) / divisor as int,
{
    let quotient = value / divisor;
    let remainder = value % divisor;
    proof {
        assert(value == divisor * quotient + remainder) by (nonlinear_arith)
            requires
                quotient == value / divisor,
                remainder == value % divisor,
                divisor > 0,
        ;
        assert(remainder != 0 ==> quotient < u32::MAX) by (nonlinear_arith)
            requires
                value == divisor * quotient + remainder,
                0 <= remainder < divisor,
                value <= u32::MAX,
        ;
        assert((value + divisor - 1) / divisor as int == if remainder == 0 {
            quotient as int
        } else {
            quotient + 1
        }) by (nonlinear_arith)
            requires
                value == divisor * quotient + remainder,
                0 <= remainder < divisor,
                divisor > 0,
        ;
    }
    if remainder == 0 {
        quotient
    } else {
        quotient + 1
    }
}

/// Sum of the alpha bytes of the `count` pixels of row `y` from column `x` on.
pub open spec fn row_alpha_sum(view: RasterView, x: int, y: int, count: nat) -> int
    decreases count,
{
    if count == 0 {
        0
    } else {
        row_alpha_sum(view, x, y, (count - 1) as nat) + view.pixel(x + count - 1, y).a
    }
}

/// Sum of the alpha bytes of the `scale`-wide block whose top-left pixel is `(x, y)`,
/// over its first `rows` rows.
pub open spec fn block_alpha_sum(view: RasterView, x: int, y: int, scale: nat, rows: nat) -> int
    decreases rows,
{
    if rows == 0 {
        0
    } else {
        block_alpha_sum(view, x, y, scale, (rows - 1) as nat) + row_alpha_sum(view, x, y + rows - 1, scale)
    }
}

/// The coverage of logical pixel `(x, y)` drawn at `scale` times its size: the mean
/// alpha of its `scale` x `scale` block, rounded to nearest.
pub open spec fn downsampled_alpha_of(view: RasterView, x: int, y: int, scale: nat) -> int {
    (block_alpha_sum(view, x * scale, y * scale, scale, scale) + (scale * scale) / 2) / (scale * scale) as int
}

proof fn lemma_row_alpha_bounds(view: RasterView, x: int, y: int, count: nat)
    ensures
        0 <= row_alpha_sum(view, x, y, count) <= 255 * count,
    decreases count,
{
    if count > 0 {
        lemma_row_alpha_bounds(view, x, y, (count - 1) as nat);
    }
}

proof fn lemma_block_alpha_bounds(view: RasterView, x: int, y: int, scale: nat, rows: nat)
    ensures
        0 <= block_alpha_sum(view, x, y, scale, rows) <= 255 * scale * rows,
    decreases rows,
{
    if rows > 0 {
        lemma_block_alpha_bounds(view, x, y, scale, (rows - 1) as nat);
        lemma_row_alpha_bounds(view, x, y + rows - 1, scale);
        assert(255 * scale * (rows - 1) + 255 * scale == 255 * scale * rows) by (nonlinear_arith);
    }
}

/// The alpha byte of pixel `(x, y)`.
fn alpha_at(framebuffer: &Framebuffer, x: u32, y: u32) -> (alpha: u8)
    requires
        x < framebuffer@.width,
        y < framebuffer@.height,
    ensures
        alpha == framebuffer@.pixel(x as int, y as int).a,
{
    let bytes = framebuffer.as_rgba8();
    let width = framebuffer.width();
    let length = bytes.len();
    proof {
        assert(y * width + x < framebuffer@.height * width) by (nonlinear_arith)
            requires
                x < width,
                y < framebuffer@.height,
        ;
        assert(framebuffer@.height * width * 4 == (framebuffer@.height * width) * 4) by (nonlinear_arith);
        assert((y * width + x) * 4 + 3 < length);
    }
    let index = (y as usize * width as usize + x as usize) * 4 + 3;
    bytes[index]
}

/// The coverage of logical pixel `(logical_x, logical_y)` of text drawn `raster_scale`
/// times larger into `temp`: the rounded mean alpha of its block of samples.
pub fn downsampled_alpha(temp: &Framebuffer, logical_x: u32, logical_y: u32, raster_scale: u32) -> (alpha: u8)
    requires
        1 <= raster_scale <= MAX_TEXT_RASTER_SCALE,
        (logical_x + 1) * raster_scale <= temp@.width,
        (logical_y + 1) * raster_scale <= temp@.height,
    ensures
        alpha == downsampled_alpha_of(temp@, logical_x as int, logical_y as int, raster_scale as nat),
{
    let ghost view = temp@;
    let ghost scale = raster_scale as nat;
    let width = temp.width();
    let height = temp.height();
    proof {
        assert(logical_x * raster_scale + raster_scale == (logical_x + 1) * raster_scale) by (nonlinear_arith);
        assert(logical_y * raster_scale + raster_scale == (logical_y + 1) * raster_scale) by (nonlinear_arith);
    }
    let source_x = logical_x * raster_scale;
    let source_y = logical_y * raster_scale;
    let mut alpha_sum: u32 = 0;
    let mut sample_y: u32 = 0;
    while sample_y < raster_scale
        invariant
            view == temp@,
            scale == raster_scale,
            1 <= raster_scale <= MAX_TEXT_RASTER_SCALE,
            temp@.width == width,
            temp@.height == height,
            source_x + raster_scale <= temp@.width,
            source_y + raster_scale <= temp@.height,
            sample_y <= raster_scale,
            alpha_sum == block_alpha_sum(view, source_x as int, source_y as int, scale, sample_y as nat),
        decreases raster_scale - sample_y,
    {
        let mut row_sum: u32 = 0;
        let mut sample_x: u32 = 0;
        proof {
            lemma_block_alpha_bounds(view, source_x as int, source_y as int, scale, sample_y as nat);
            assert(255 * scale * sample_y <= 255 * 4 * 4) by (nonlinear_arith)
                requires
                    scale <= 4,
                    sample_y <= 4,
            ;
        }
        while sample_x < raster_scale
            invariant
                view == temp@,
                scale == raster_scale,
                1 <= raster_scale <= MAX_TEXT_RASTER_SCALE,
                temp@.width == width,
                temp@.height == height,
                source_x + raster_scale <= temp@.width,
                source_y + raster_scale <= temp@.height,
                sample_y < raster_scale,
                sample_x <= raster_scale,
                row_sum == row_alpha_sum(view, source_x as int, (source_y + sample_y) as int, sample_x as nat),
            decreases raster_scale - sample_x,
        {
            proof {
                lemma_row_alpha_bounds(view, source_x as int, (source_y + sample_y) as int, sample_x as nat);
            }
            row_sum = row_sum + alpha_at(temp, source_x + sample_x, source_y + sample_y) as u32;
            sample_x = sample_x + 1;
        }
        proof {
            lemma_row_alpha_bounds(view, source_x as int, (source_y + sample_y) as int, scale);
        }
        alpha_sum = alpha_sum + row_sum;
        sample_y = sample_y + 1;
    }
    assert(1 <= raster_scale * raster_scale <= 16) by (nonlinear_arith)
        requires
            1 <= raster_scale <= 4,
    ;
    let samples = raster_scale * raster_scale;
    proof {
        lemma_block_alpha_bounds(view, source_x as int, source_y as int, scale, scale);
        assert(255 * scale * scale == 255 * (scale * scale)) by (nonlinear_arith);
        assert((alpha_sum + samples / 2) / (samples as int) <= 255) by (nonlinear_arith)
            requires
                alpha_sum <= 255 * samples,
                1 <= samples,
        ;
    }
    ((alpha_sum + samples / 2) / samples) as u8
}

} // verus!
