use vstd::prelude::*;

use crate::framebuffer::{fits_i32, in_rect, mapped, Framebuffer, RasterView};
use crate::pixel::{Pixel, Rect, Size};

verus! {

/// Result of presenting one low-resolution framebuffer into a high-resolution host.
///
/// The source is scaled by one integer factor with nearest-neighbour semantics and
/// centered inside the requested bounds. The returned mapping can translate host
/// pointer/touch coordinates back into source framebuffer coordinates.
#[derive(Debug, Clone, Copy, PartialEq, Eq, Structural)]
pub struct PixelPresentation {
    pub rect: Rect,
    pub source_size: Size,
    pub scale: u32,
}

/// The source coordinates that host point `(px, py)` maps to, or `None` outside the
/// presented surface or when the offset from the surface does not fit in `i32`.
pub open spec fn mapped_point(presentation: PixelPresentation, px: int, py: int) -> Option<(int, int)> {
    let local_x = px - presentation.rect.x;
    let local_y = py - presentation.rect.y;
    if presentation.scale == 0 || presentation.rect.width == 0 || presentation.rect.height == 0 {
        None
    } else if !fits_i32(local_x) || !fits_i32(local_y) {
        None
    } else if local_x < 0 || local_y < 0 || local_x >= presentation.rect.width || local_y
        >= presentation.rect.height {
        None
    } else if presentation.scale > i32::MAX {
        None
    } else {
        Some((local_x / (presentation.scale as int), local_y / (presentation.scale as int)))
    }
}

impl PixelPresentation {
    /// Maps a host-space point into the low-resolution source framebuffer.
    /// Returns `None` when the point is outside the presented pixel surface.
    pub fn map_point(self, point: (i32, i32)) -> (source: Option<(i32, i32)>)
        ensures
            match mapped_point(self, point.0 as int, point.1 as int) {
                None => source is None,
                Some(p) => source == Some((p.0 as i32, p.1 as i32)),
            },
    {
        if self.scale == 0 || self.rect.width == 0 || self.rect.height == 0 {
            return None;
        }
        let local_x = match point.0.checked_sub(self.rect.x) {
            Some(v) => v,
            None => return None,
        };
        let local_y = match point.1.checked_sub(self.rect.y) {
            Some(v) => v,
            None => return None,
        };
        if local_x < 0 || local_y < 0 || local_x as u32 >= self.rect.width || local_y as u32
            >= self.rect.height {
            return None;
        }
        if self.scale > i32::MAX as u32 {
            return None;
        }
        let scale = self.scale as i32;
        Some((local_x / scale, local_y / scale))
    }
}

/// Where a `source_width` x `source_height` surface lands inside `bounds`: the largest
/// integer scale that fits, centered; `None` when nothing fits or the centered corner
/// does not fit in `i32`.
pub open spec fn presentation_layout(source_width: int, source_height: int, bounds: Rect) -> Option<
    PixelPresentation,
> {
    if source_width == 0 || source_height == 0 || bounds.width == 0 || bounds.height == 0 {
        None
    } else {
        let scale_x = bounds.width as int / source_width;
        let scale_y = bounds.height as int / source_height;
        let scale = if scale_x <= scale_y {
            scale_x
        } else {
            scale_y
        };
        let width = source_width * scale;
        let height = source_height * scale;
        let x = bounds.x + (bounds.width - width) / 2;
        let y = bounds.y + (bounds.height - height) / 2;
        if scale == 0 || !fits_i32(x) || !fits_i32(y) {
            None
        } else {
            Some(
                PixelPresentation {
                    rect: Rect { x: x as i32, y: y as i32, width: width as u32, height: height as u32 },
                    source_size: Size { width: source_width as u32, height: source_height as u32 },
                    scale: scale as u32,
                },
            )
        }
    }
}

/// Whether the block of source pixel `index` along one axis starts at a coordinate that
/// fits in `i32`.
pub open spec fn block_fits(origin: int, index: int, scale: int) -> bool {
    index * scale <= i32::MAX && fits_i32(origin + index * scale)
}

/// Whether every block of the layout starts at a coordinate that fits in `i32`.
pub open spec fn layout_fits(layout: PixelPresentation) -> bool {
    &&& block_fits(layout.rect.x as int, layout.source_size.width - 1, layout.scale as int)
    &&& block_fits(layout.rect.y as int, layout.source_size.height - 1, layout.scale as int)
}

/// Whether source pixel `(bx, by)` is drawn. Blocks are drawn in row-major order and
/// drawing stops at the first block whose corner does not fit in `i32`.
pub open spec fn block_drawn(layout: PixelPresentation, bx: int, by: int) -> bool {
    if block_fits(layout.rect.x as int, layout.source_size.width - 1, layout.scale as int) {
        block_fits(layout.rect.y as int, by, layout.scale as int)
    } else {
        by == 0 && block_fits(layout.rect.x as int, bx, layout.scale as int)
    }
}

/// The color left at host pixel `(px, py)` with previous color `p` by drawing each source
/// pixel `(bx, by)` for which `drawn` holds as a `scale` x `scale` block at
/// `(x + bx * scale, y + by * scale)`.
pub open spec fn presented_color(
    source: RasterView,
    x: int,
    y: int,
    scale: int,
    drawn: spec_fn(int, int) -> bool,
    px: int,
    py: int,
    p: Pixel,
) -> Pixel {
    let bx = (px - x) / scale;
    let by = (py - y) / scale;
    if x <= px && y <= py && bx < source.width && by < source.height && drawn(bx, by) {
        source.pixel(bx, by)
    } else {
        p
    }
}

proof fn lemma_block_index(p: int, origin: int, scale: int, k: int)
    requires
        scale > 0,
        origin <= p,
        k >= 0,
    ensures
        (p - origin) / scale == k <==> origin + k * scale <= p < origin + k * scale + scale,
{
    let d = p - origin;
    assert(d == scale * (d / scale) + d % scale && 0 <= d % scale < scale) by (nonlinear_arith)
        requires
            scale > 0,
    ;
    if d / scale == k {
        assert(k * scale == scale * k) by (nonlinear_arith);
    }
    if origin + k * scale <= p < origin + k * scale + scale {
        let q = d / scale;
        assert(q == k) by (nonlinear_arith)
            requires
                d == scale * q + d % scale,
                0 <= d % scale < scale,
                k * scale <= d < k * scale + scale,
                scale > 0,
        ;
    }
}

proof fn lemma_block_fits_prefix(origin: int, a: int, b: int, scale: int)
    requires
        fits_i32(origin),
        0 <= a <= b,
        scale >= 0,
        block_fits(origin, b, scale),
    ensures
        block_fits(origin, a, scale),
{
    assert(0 <= a * scale <= b * scale) by (nonlinear_arith)
        requires
            0 <= a <= b,
            scale >= 0,
    ;
}


/// When drawing stops because the block of column `sx` in row `sy` starts outside `i32`,
/// the blocks drawn so far are exactly those that `block_drawn` describes.
proof fn lemma_stop_x(
    layout: PixelPresentation,
    view: RasterView,
    old_host: RasterView,
    cur: RasterView,
    sx: int,
    sy: int,
)
    requires
        layout.scale > 0,
        layout.source_size.width == view.width,
        layout.source_size.height == view.height,
        0 <= sx < view.width,
        0 <= sy < view.height,
        forall|k: int| 0 <= k < sx ==> block_fits(layout.rect.x as int, k, layout.scale as int),
        sy > 0 ==> block_fits(layout.rect.x as int, view.width - 1, layout.scale as int),
        !block_fits(layout.rect.x as int, sx, layout.scale as int),
        cur.width == old_host.width,
        cur.height == old_host.height,
        cur.bytes.len() == old_host.bytes.len(),
        forall|px: int, py: int|
            old_host.in_bounds(px, py) ==> #[trigger] cur.pixel(px, py) == presented_color(
                view,
                layout.rect.x as int,
                layout.rect.y as int,
                layout.scale as int,
                |bx: int, by: int| by < sy || (by == sy && bx < sx),
                px,
                py,
                old_host.pixel(px, py),
            ),
    ensures
        !layout_fits(layout),
        sy == 0,
        mapped(
            old_host,
            cur,
            |px: int, py: int, p: Pixel|
                presented_color(
                    view,
                    layout.rect.x as int,
                    layout.rect.y as int,
                    layout.scale as int,
                    |bx: int, by: int| block_drawn(layout, bx, by),
                    px,
                    py,
                    p,
                ),
        ),
{
    let x = layout.rect.x as int;
    let scale = layout.scale as int;
    if block_fits(x, view.width - 1, scale) {
        lemma_block_fits_prefix(x, sx, view.width - 1, scale);
    }
    assert forall|bx: int| 0 <= bx implies block_fits(x, bx, scale) == (bx < sx) by {
        if bx >= sx && block_fits(x, bx, scale) {
            lemma_block_fits_prefix(x, sx, bx, scale);
        }
    }
    assert forall|px: int, py: int| old_host.in_bounds(px, py) implies #[trigger] cur.pixel(px, py)
        == presented_color(
        view,
        x,
        layout.rect.y as int,
        scale,
        |bx: int, by: int| block_drawn(layout, bx, by),
        px,
        py,
        old_host.pixel(px, py),
    ) by {
        if x <= px {
            let bx = (px - x) / scale;
            assert(bx >= 0) by (nonlinear_arith)
                requires
                    px - x >= 0,
                    scale > 0,
                    bx == (px - x) / scale,
            ;
            assert(block_fits(x, bx, scale) == (bx < sx));
        }
    }
}

/// When drawing stops because row `sy` starts outside `i32`, the blocks drawn so far are
/// exactly those that `block_drawn` describes.
proof fn lemma_stop_y(
    layout: PixelPresentation,
    view: RasterView,
    old_host: RasterView,
    cur: RasterView,
    sx: int,
    sy: int,
)
    requires
        layout.scale > 0,
        layout.source_size.width == view.width,
        layout.source_size.height == view.height,
        0 <= sx < view.width,
        0 <= sy < view.height,
        forall|k: int| 0 <= k < sy ==> block_fits(layout.rect.y as int, k, layout.scale as int),
        sy > 0 ==> block_fits(layout.rect.x as int, view.width - 1, layout.scale as int),
        sx > 0 ==> block_fits(layout.rect.y as int, sy, layout.scale as int),
        !block_fits(layout.rect.y as int, sy, layout.scale as int),
        cur.width == old_host.width,
        cur.height == old_host.height,
        cur.bytes.len() == old_host.bytes.len(),
        forall|px: int, py: int|
            old_host.in_bounds(px, py) ==> #[trigger] cur.pixel(px, py) == presented_color(
                view,
                layout.rect.x as int,
                layout.rect.y as int,
                layout.scale as int,
                |bx: int, by: int| by < sy || (by == sy && bx < sx),
                px,
                py,
                old_host.pixel(px, py),
            ),
    ensures
        !layout_fits(layout),
        mapped(
            old_host,
            cur,
            |px: int, py: int, p: Pixel|
                presented_color(
                    view,
                    layout.rect.x as int,
                    layout.rect.y as int,
                    layout.scale as int,
                    |bx: int, by: int| block_drawn(layout, bx, by),
                    px,
                    py,
                    p,
                ),
        ),
{
    let y = layout.rect.y as int;
    let scale = layout.scale as int;
    assert(sy > 0);
    if block_fits(y, view.height - 1, scale) {
        lemma_block_fits_prefix(y, sy, view.height - 1, scale);
    }
    assert forall|by: int| 0 <= by implies block_fits(y, by, scale) == (by < sy) by {
        if by >= sy && block_fits(y, by, scale) {
            lemma_block_fits_prefix(y, sy, by, scale);
        }
    }
    assert forall|px: int, py: int| old_host.in_bounds(px, py) implies #[trigger] cur.pixel(px, py)
        == presented_color(
        view,
        layout.rect.x as int,
        y,
        scale,
        |bx: int, by: int| block_drawn(layout, bx, by),
        px,
        py,
        old_host.pixel(px, py),
    ) by {
        if y <= py {
            let by = (py - y) / scale;
            assert(by >= 0) by (nonlinear_arith)
                requires
                    py - y >= 0,
                    scale > 0,
                    by == (py - y) / scale,
            ;
            assert(block_fits(y, by, scale) == (by < sy));
        }
    }
}

/// Presents `source` into `host` using the largest integer nearest-neighbour scale
/// that fits inside `bounds`.
///
/// This is deliberately small in scope: it is a pixel-surface composition primitive,
/// not a render graph or arbitrary layer system. Existing single-framebuffer games pay
/// no cost unless they call it.
pub fn present_pixel_surface(host: &mut Framebuffer, source: &Framebuffer, bounds: Rect) -> (presentation:
    Option<PixelPresentation>)
    ensures
        match presentation_layout(source@.width as int, source@.height as int, bounds) {
            None => presentation is None && final(host)@ == old(host)@,
            Some(layout) => {
                &&& presentation is Some <==> layout_fits(layout)
                &&& presentation matches Some(p) ==> p == layout
                &&& mapped(
                    old(host)@,
                    final(host)@,
                    |px: int, py: int, p: Pixel|
                        presented_color(
                            source@,
                            layout.rect.x as int,
                            layout.rect.y as int,
                            layout.scale as int,
                            |bx: int, by: int| block_drawn(layout, bx, by),
                            px,
                            py,
                            p,
                        ),
                )
            },
        },
{
    let ghost old_host = host@;
    let ghost view = source@;
    if source.width() == 0 || source.height() == 0 || bounds.width == 0 || bounds.height == 0 {
        return None;
    }
    let source_width = source.width();
    let source_height = source.height();
    let scale_x = bounds.width / source_width;
    let scale_y = bounds.height / source_height;
    let scale = if scale_x <= scale_y {
        scale_x
    } else {
        scale_y
    };
    if scale == 0 {
        return None;
    }
    assert(source_width * scale <= bounds.width && source_height * scale <= bounds.height)
        by (nonlinear_arith)
        requires
            scale <= bounds.width as int / (source_width as int),
            scale <= bounds.height as int / (source_height as int),
            source_width > 0,
            source_height > 0,
            scale > 0,
    ;
    let width = source_width * scale;
    let height = source_height * scale;
    let x = match bounds.x.checked_add(((bounds.width - width) / 2) as i32) {
        Some(x) => x,
        None => return None,
    };
    let y = match bounds.y.checked_add(((bounds.height - height) / 2) as i32) {
        Some(y) => y,
        None => return None,
    };
    let layout = PixelPresentation {
        rect: Rect { x, y, width, height },
        source_size: Size { width: source_width, height: source_height },
        scale,
    };
    assert(presentation_layout(view.width as int, view.height as int, bounds) == Some(layout));
    let ghost drawn = |bx: int, by: int| block_drawn(layout, bx, by);
    let mut source_y: u32 = 0;
    while source_y < source_height
        invariant
            source@ == view,
            view.width == source_width,
            view.height == source_height,
            0 < source_width,
            0 < source_height,
            width == source_width * scale,
            height == source_height * scale,
            scale > 0,
            presentation_layout(view.width as int, view.height as int, bounds) == Some(layout),
            old_host == old(host)@,
            layout.rect.x == x,
            layout.rect.y == y,
            layout.scale == scale,
            layout.source_size.width == source_width,
            layout.source_size.height == source_height,
            source_y <= source_height,
            forall|k: int| 0 <= k < source_y ==> block_fits(y as int, k, scale as int),
            source_y > 0 ==> block_fits(x as int, source_width - 1, scale as int),
            host@.width == old_host.width,
            host@.height == old_host.height,
            host@.bytes.len() == old_host.bytes.len(),
            forall|px: int, py: int|
                old_host.in_bounds(px, py) ==> #[trigger] host@.pixel(px, py) == presented_color(
                    view,
                    x as int,
                    y as int,
                    scale as int,
                    |bx: int, by: int| by < source_y,
                    px,
                    py,
                    old_host.pixel(px, py),
                ),
        decreases source_height - source_y,
    {
        let mut source_x: u32 = 0;
        while source_x < source_width
            invariant
                source@ == view,
                view.width == source_width,
                view.height == source_height,
                0 < source_width,
                0 < source_height,
                width == source_width * scale,
                height == source_height * scale,
                scale > 0,
                presentation_layout(view.width as int, view.height as int, bounds) == Some(layout),
                old_host == old(host)@,
                layout.rect.x == x,
                layout.rect.y == y,
                layout.scale == scale,
                layout.source_size.width == source_width,
                layout.source_size.height == source_height,
                source_y < source_height,
                source_x <= source_width,
                forall|k: int| 0 <= k < source_y ==> block_fits(y as int, k, scale as int),
                source_y > 0 ==> block_fits(x as int, source_width - 1, scale as int),
                forall|k: int| 0 <= k < source_x ==> block_fits(x as int, k, scale as int),
                source_x > 0 ==> block_fits(y as int, source_y as int, scale as int),
                host@.width == old_host.width,
                host@.height == old_host.height,
                host@.bytes.len() == old_host.bytes.len(),
                forall|px: int, py: int|
                    old_host.in_bounds(px, py) ==> #[trigger] host@.pixel(px, py) == presented_color(
                        view,
                        x as int,
                        y as int,
                        scale as int,
                        |bx: int, by: int| by < source_y || (by == source_y && bx < source_x),
                        px,
                        py,
                        old_host.pixel(px, py),
                    ),
            decreases source_width - source_x,
        {
            let pixel = source.pixel_in_bounds(source_x, source_y);
            assert(source_x * scale < width && source_y * scale < height) by (nonlinear_arith)
                requires
                    source_x < source_width,
                    source_y < source_height,
                    width == source_width * scale,
                    height == source_height * scale,
                    scale > 0,
            ;
            let offset_x = source_x * scale;
            let offset_y = source_y * scale;
            if offset_x > i32::MAX as u32 {
                proof {
                    assert(!block_fits(x as int, source_x as int, scale as int));
                    self::lemma_stop_x(layout, view, old_host, host@, source_x as int, source_y as int);
                }
                return None;
            }
            let destination_x = match x.checked_add(offset_x as i32) {
                Some(v) => v,
                None => {
                    proof {
                        assert(!block_fits(x as int, source_x as int, scale as int));
                        self::lemma_stop_x(layout, view, old_host, host@, source_x as int, source_y as int);
                    }
                    return None;
                },
            };
            if offset_y > i32::MAX as u32 {
                proof {
                    assert(!block_fits(y as int, source_y as int, scale as int));
                    self::lemma_stop_y(layout, view, old_host, host@, source_x as int, source_y as int);
                }
                return None;
            }
            let destination_y = match y.checked_add(offset_y as i32) {
                Some(v) => v,
                None => {
                    proof {
                        assert(!block_fits(y as int, source_y as int, scale as int));
                        self::lemma_stop_y(layout, view, old_host, host@, source_x as int, source_y as int);
                    }
                    return None;
                },
            };
            let ghost before = host@;
            host.fill_rect(destination_x, destination_y, scale, scale, pixel);
            proof {
                assert forall|px: int, py: int| old_host.in_bounds(px, py) implies #[trigger] host@.pixel(
                    px,
                    py,
                ) == presented_color(
                    view,
                    x as int,
                    y as int,
                    scale as int,
                    |bx: int, by: int| by < source_y || (by == source_y && bx < source_x + 1),
                    px,
                    py,
                    old_host.pixel(px, py),
                ) by {
                    assert(before.pixel(px, py) == presented_color(
                        view,
                        x as int,
                        y as int,
                        scale as int,
                        |bx: int, by: int| by < source_y || (by == source_y && bx < source_x),
                        px,
                        py,
                        old_host.pixel(px, py),
                    ));
                    if x <= px && y <= py {
                        lemma_block_index(px, x as int, scale as int, source_x as int);
                        lemma_block_index(py, y as int, scale as int, source_y as int);
                    }
                }
            }
            source_x = source_x + 1;
        }
        source_y = source_y + 1;
    }
    proof {
        lemma_block_fits_prefix(x as int, 0, source_width - 1, scale as int);
        assert forall|px: int, py: int| old_host.in_bounds(px, py) implies #[trigger] host@.pixel(
            px,
            py,
        ) == presented_color(
            view,
            x as int,
            y as int,
            scale as int,
            drawn,
            px,
            py,
            old_host.pixel(px, py),
        ) by {
            let by = (py - y) / (scale as int);
            if x <= px && y <= py && by < source_height {
                assert(block_fits(y as int, by, scale as int));
            }
        }
    }
    Some(layout)
}

} // verus!
