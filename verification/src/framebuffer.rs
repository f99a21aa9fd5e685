use vstd::prelude::*;

use crate::line::{
    abs_diff, lemma_minor_offset_bounds, on_line, rounded_minor_step, step_from, visible_major_steps,
    visible_step,
};
use crate::circle::{
    circle_disk_offset, circle_outline_offset, iabs, lemma_disk_contains_inner_points,
    lemma_midpoint_monotone, lemma_midpoint_facts, lemma_midpoint_leaves_octant,
    lemma_midpoint_octant_far, midpoint_state, midpoint_x,
};
use crate::pixel::Pixel;

verus! {

/// Abstract contents of a framebuffer: its extent and its RGBA8 bytes in
/// row-major order, four bytes per pixel.
pub struct RasterView {
    pub width: nat,
    pub height: nat,
    pub bytes: Seq<u8>,
}

impl RasterView {
    pub open spec fn in_bounds(self, x: int, y: int) -> bool {
        0 <= x < self.width && 0 <= y < self.height
    }

    pub open spec fn byte_index(self, x: int, y: int) -> int {
        (y * self.width + x) * 4
    }

    /// The color stored at column `x`, row `y`.
    pub open spec fn pixel(self, x: int, y: int) -> Pixel {
        let i = self.byte_index(x, y);
        Pixel { r: self.bytes[i], g: self.bytes[i + 1], b: self.bytes[i + 2], a: self.bytes[i + 3] }
    }

    pub open spec fn is_empty(self) -> bool {
        self.width == 0 || self.height == 0
    }
}

/// Whether the inclusive rectangle `[min_x, max_x] x [min_y, max_y]` shares no pixel
/// with the raster.
pub open spec fn rect_misses(view: RasterView, min_x: int, min_y: int, max_x: int, max_y: int) -> bool {
    !(!view.is_empty() && min_x <= max_x && min_y <= max_y && max_x >= 0 && max_y >= 0 && min_x
        < view.width && min_y < view.height)
}

/// The larger of two integers.
pub open spec fn max_int(a: int, b: int) -> int {
    if a > b {
        a
    } else {
        b
    }
}

/// The largest horizontal or vertical distance from `(cx, cy)` to an edge row or
/// column of the raster.
pub open spec fn farthest_edge_distance(view: RasterView, cx: int, cy: int) -> int {
    max_int(
        max_int(iabs(cx), iabs(view.width - 1 - cx)),
        max_int(iabs(cy), iabs(view.height - 1 - cy)),
    )
}

/// Whether every corner of the raster lies within `radius` of `(cx, cy)`.
pub open spec fn corners_within(view: RasterView, cx: int, cy: int, radius: int) -> bool {
    let right = view.width - 1 - cx;
    let bottom = view.height - 1 - cy;
    &&& cx * cx + cy * cy <= radius * radius
    &&& right * right + cy * cy <= radius * radius
    &&& cx * cx + bottom * bottom <= radius * radius
    &&& right * right + bottom * bottom <= radius * radius
}

/// `new` is `old` with every in-bounds pixel of `region` replaced by `color`
/// and every other pixel left unchanged.
pub open spec fn painted(
    old: RasterView,
    new: RasterView,
    region: spec_fn(int, int) -> bool,
    color: Pixel,
) -> bool {
    &&& new.width == old.width
    &&& new.height == old.height
    &&& new.bytes.len() == old.bytes.len()
    &&& forall|x: int, y: int|
        old.in_bounds(x, y) ==> #[trigger] new.pixel(x, y) == (if region(x, y) {
            color
        } else {
            old.pixel(x, y)
        })
}

/// `new` is `old` with every in-bounds pixel replaced by `f` applied to its
/// position and its previous color.
pub open spec fn mapped(
    old: RasterView,
    new: RasterView,
    f: spec_fn(int, int, Pixel) -> Pixel,
) -> bool {
    &&& new.width == old.width
    &&& new.height == old.height
    &&& new.bytes.len() == old.bytes.len()
    &&& forall|x: int, y: int|
        old.in_bounds(x, y) ==> #[trigger] new.pixel(x, y) == f(x, y, old.pixel(x, y))
}

pub proof fn lemma_painted_identity(v: RasterView, region: spec_fn(int, int) -> bool, color: Pixel)
    requires
        forall|x: int, y: int| v.in_bounds(x, y) ==> !region(x, y),
    ensures
        painted(v, v, region, color),
{
}

/// Painting `r1` and then `r2` with one color paints their union.
pub proof fn lemma_painted_union(
    a: RasterView,
    b: RasterView,
    c: RasterView,
    r1: spec_fn(int, int) -> bool,
    r2: spec_fn(int, int) -> bool,
    r: spec_fn(int, int) -> bool,
    color: Pixel,
)
    requires
        painted(a, b, r1, color),
        painted(b, c, r2, color),
        forall|x: int, y: int| a.in_bounds(x, y) ==> (r(x, y) == (r1(x, y) || r2(x, y))),
    ensures
        painted(a, c, r, color),
{
    assert forall|x: int, y: int| a.in_bounds(x, y) implies #[trigger] c.pixel(x, y) == (if r(x, y) {
        color
    } else {
        a.pixel(x, y)
    }) by {
        assert(b.pixel(x, y) == (if r1(x, y) { color } else { a.pixel(x, y) }));
        assert(c.pixel(x, y) == (if r2(x, y) { color } else { b.pixel(x, y) }));
    }
}

/// Painting a region equivalent to another on the in-bounds pixels.
pub proof fn lemma_painted_same_region(
    a: RasterView,
    b: RasterView,
    r1: spec_fn(int, int) -> bool,
    r: spec_fn(int, int) -> bool,
    color: Pixel,
)
    requires
        painted(a, b, r1, color),
        forall|x: int, y: int| a.in_bounds(x, y) ==> (r(x, y) == r1(x, y)),
    ensures
        painted(a, b, r, color),
{
    assert forall|x: int, y: int| a.in_bounds(x, y) implies #[trigger] b.pixel(x, y) == (if r(x, y) {
        color
    } else {
        a.pixel(x, y)
    }) by {
        assert(b.pixel(x, y) == (if r1(x, y) { color } else { a.pixel(x, y) }));
    }
}

pub proof fn lemma_pixel_index_bounds(w: int, h: int, x: int, y: int)
    requires
        0 <= x < w,
        0 <= y < h,
    ensures
        0 <= y * w,
        y * w + x < w * h,
        0 <= (y * w + x) * 4,
        (y * w + x) * 4 + 4 <= w * h * 4,
{
    assert(0 <= y * w) by (nonlinear_arith)
        requires
            0 <= y,
            0 <= w,
    ;
    assert(y * w + x < w * h) by (nonlinear_arith)
        requires
            0 <= x < w,
            0 <= y < h,
    ;
}

pub proof fn lemma_pixel_index_distinct(w: int, x: int, y: int, x2: int, y2: int)
    requires
        0 <= x < w,
        0 <= y,
        0 <= x2 < w,
        0 <= y2,
        x != x2 || y != y2,
    ensures
        y * w + x != y2 * w + x2,
{
    if y < y2 {
        assert((y + 1) * w <= y2 * w) by (nonlinear_arith)
            requires
                y + 1 <= y2,
                0 <= w,
        ;
        assert((y + 1) * w == y * w + w) by (nonlinear_arith);
    } else if y2 < y {
        assert((y2 + 1) * w <= y * w) by (nonlinear_arith)
            requires
                y2 + 1 <= y,
                0 <= w,
        ;
        assert((y2 + 1) * w == y2 * w + w) by (nonlinear_arith);
    }
}

/// Writing the four bytes of one pixel changes that pixel only.
pub proof fn lemma_write_pixel(old: RasterView, new: RasterView, x: int, y: int, color: Pixel)
    requires
        old.bytes.len() == old.width * old.height * 4,
        old.in_bounds(x, y),
        new.width == old.width,
        new.height == old.height,
        new.bytes == old.bytes.update(old.byte_index(x, y), color.r).update(
            old.byte_index(x, y) + 1,
            color.g,
        ).update(old.byte_index(x, y) + 2, color.b).update(old.byte_index(x, y) + 3, color.a),
    ensures
        painted(old, new, |px: int, py: int| px == x && py == y, color),
{
    lemma_pixel_index_bounds(old.width as int, old.height as int, x, y);
    assert forall|x2: int, y2: int| old.in_bounds(x2, y2) implies #[trigger] new.pixel(x2, y2) == (if x2
        == x && y2 == y {
        color
    } else {
        old.pixel(x2, y2)
    }) by {
        lemma_pixel_index_bounds(old.width as int, old.height as int, x2, y2);
        if x2 != x || y2 != y {
            lemma_pixel_index_distinct(old.width as int, x, y, x2, y2);
        }
    }
}

proof fn lemma_byte_len_fits(bytes: &Vec<u8>)
    ensures
        bytes@.len() <= usize::MAX,
{
    assert(bytes.len() == bytes@.len());
}

pub open spec fn fits_i32(v: int) -> bool {
    i32::MIN <= v <= i32::MAX
}

/// `(px, py)` lies in the rectangle with top-left corner `(x, y)` and extent `width` x `height`.
pub open spec fn in_rect(px: int, py: int, x: int, y: int, width: int, height: int) -> bool {
    x <= px < x + width && y <= py < y + height
}

/// `(px, py)` lies on the one-pixel border of the rectangle.
pub open spec fn on_rect_outline(px: int, py: int, x: int, y: int, width: int, height: int) -> bool {
    &&& in_rect(px, py, x, y, width, height)
    &&& (px == x || px == x + width - 1 || py == y || py == y + height - 1)
}

/// Inclusive corners of a non-empty rectangle, or `None` for an empty one.
pub open spec fn spec_rect_bounds(x: int, y: int, width: int, height: int) -> Option<(int, int, int, int)> {
    if width == 0 || height == 0 {
        None
    } else {
        Some((x, y, x + width - 1, y + height - 1))
    }
}

/// The pixels that `draw_rect` paints: the rectangle's border, where the
/// side columns are limited to coordinates that fit in `i32`.
pub open spec fn rect_outline_drawn(px: int, py: int, x: int, y: int, width: int, height: int) -> bool {
    &&& on_rect_outline(px, py, x, y, width, height)
    &&& (py == y || py == y + height - 1 || (fits_i32(px) && fits_i32(py)))
}

fn rect_bounds(x: i32, y: i32, width: u32, height: u32) -> (bounds: Option<(i64, i64, i64, i64)>)
    ensures
        bounds matches Some(b) ==> spec_rect_bounds(x as int, y as int, width as int, height as int)
            == Some((b.0 as int, b.1 as int, b.2 as int, b.3 as int)),
        bounds is None <==> spec_rect_bounds(x as int, y as int, width as int, height as int) is None,
{
    if width == 0 || height == 0 {
        return None;
    }
    let min_x = x as i64;
    let min_y = y as i64;
    Some((min_x, min_y, min_x + width as i64 - 1, min_y + height as i64 - 1))
}

/// Every pixel of a segment lies inside the segment's bounding box.
pub proof fn lemma_on_line_in_box(px: int, py: int, x0: int, y0: int, x1: int, y1: int)
    requires
        on_line(px, py, x0, y0, x1, y1),
    ensures
        (if x0 <= x1 { x0 } else { x1 }) <= px <= (if x0 <= x1 { x1 } else { x0 }),
        (if y0 <= y1 { y0 } else { y1 }) <= py <= (if y0 <= y1 { y1 } else { y0 }),
{
    let dx = abs_diff(x0, x1);
    let dy = abs_diff(y0, y1);
    if dx == 0 && dy == 0 {
    } else if dx >= dy {
        lemma_minor_offset_bounds(dy, step_from(x0, x1, px), dx);
    } else {
        lemma_minor_offset_bounds(dx, step_from(y0, y1, py), dy);
    }
}

/// `(a, b)` is one of the eight symmetric offsets of `(x, y)`.
pub open spec fn eight_way(a: int, b: int, x: int, y: int) -> bool {
    (a == x && b == y) || (a == y && b == x)
}

/// The pixels of the midpoint outline of radius `r` around `(cx, cy)` that `draw_circle`
/// can address.
pub open spec fn on_circle(px: int, py: int, cx: int, cy: int, r: int) -> bool {
    fits_i32(px) && fits_i32(py) && circle_outline_offset(iabs(px - cx), iabs(py - cy), r)
}

/// The outline offsets visited by the first `k` steps of the midpoint walk.
pub open spec fn outline_offset_upto(a: int, b: int, r: int, k: int) -> bool {
    ||| (b < k && b <= midpoint_x(r, b) && a == midpoint_x(r, b))
    ||| (a < k && a <= midpoint_x(r, a) && b == midpoint_x(r, a))
}

/// Every outline offset lies within the radius on both axes.
pub proof fn lemma_outline_offset_within_radius(a: int, b: int, r: int)
    requires
        r >= 0,
        a >= 0,
        b >= 0,
        circle_outline_offset(a, b, r),
    ensures
        a <= r,
        b <= r,
{
    if b <= midpoint_x(r, b) && a == midpoint_x(r, b) {
        lemma_midpoint_facts(r, b as nat);
    } else {
        lemma_midpoint_facts(r, a as nat);
    }
}

/// The pixels of the midpoint disk of radius `r` around `(cx, cy)`.
pub open spec fn in_circle(px: int, py: int, cx: int, cy: int, r: int) -> bool {
    circle_disk_offset(iabs(px - cx), iabs(py - cy), r)
}

/// The disk offsets covered by the spans of the first `k` steps of the midpoint walk.
pub open spec fn disk_offset_upto(a: int, b: int, r: int, k: int) -> bool {
    ||| (b < k && a <= midpoint_x(r, b))
    ||| (a < k && k >= 1 && midpoint_x(r, a) >= b && b >= midpoint_x(r, k - 1))
}

/// `(a, b)` lies on one of the four spans drawn for the first-octant point `(x, y)`.
pub open spec fn four_spans(a: int, b: int, x: int, y: int) -> bool {
    (b == y && a <= x) || (b == x && a <= y)
}

proof fn lemma_square_bound(v: int)
    requires
        -0x2_0000_0000 <= v <= 0x2_0000_0000,
    ensures
        0 <= v * v <= 0x4_0000_0000_0000_0000,
{
    assert(0 <= v * v <= 0x2_0000_0000 * 0x2_0000_0000) by (nonlinear_arith)
        requires
            -0x2_0000_0000 <= v <= 0x2_0000_0000,
    ;
}

proof fn lemma_square_between(lo: int, t: int, hi: int)
    requires
        lo <= t <= hi,
    ensures
        t * t <= lo * lo || t * t <= hi * hi,
{
    if t >= 0 {
        assert(t * t <= hi * hi) by (nonlinear_arith)
            requires
                0 <= t <= hi,
        ;
    } else {
        assert(t * t <= lo * lo) by (nonlinear_arith)
            requires
                lo <= t < 0,
        ;
    }
}

/// A CPU-side RGBA8 framebuffer.
#[derive(Debug, PartialEq, Eq)]
pub struct Framebuffer {
    width: u32,
    height: u32,
    pixels: Vec<u8>,
}

impl Clone for Framebuffer {
    fn clone(&self) -> (copy: Self)
        ensures
            copy@ == self@,
    {
        proof {
            use_type_invariant(self);
            self.lemma_inv();
        }
        let pixels = self.pixels.clone();
        assert(pixels@ == self.pixels@);
        Framebuffer { width: self.width, height: self.height, pixels }
    }
}

impl View for Framebuffer {
    type V = RasterView;

    closed spec fn view(&self) -> RasterView {
        RasterView { width: self.width as nat, height: self.height as nat, bytes: self.pixels@ }
    }
}

impl Framebuffer {
    #[verifier::type_invariant]
    spec fn inv(self) -> bool {
        self.pixels@.len() == self.width * self.height * 4
    }

    proof fn lemma_inv(&self)
        requires
            self.inv(),
        ensures
            self@.bytes.len() == self@.width * self@.height * 4,
            self@.bytes.len() <= usize::MAX,
    {
        lemma_byte_len_fits(&self.pixels);
    }

    pub fn new(width: u32, height: u32) -> (framebuffer: Self)
        requires
            width * height * 4 <= usize::MAX,
        ensures
            framebuffer@.width == width,
            framebuffer@.height == height,
            framebuffer@.bytes == Seq::new((width * height * 4) as nat, |i: int| 0u8),
    {
        assert(width * height <= width * height * 4) by (nonlinear_arith)
            requires
                width * height >= 0,
        ;
        let len = width as usize * height as usize * 4;
        let pixels = vec![0u8; len];
        assert(pixels@ == Seq::new((width * height * 4) as nat, |i: int| 0u8));
        Self { width, height, pixels }
    }

    pub fn width(&self) -> (width: u32)
        ensures
            width == self@.width,
    {
        self.width
    }

    pub fn height(&self) -> (height: u32)
        ensures
            height == self@.height,
    {
        self.height
    }

    pub fn as_rgba8(&self) -> (bytes: &[u8])
        ensures
            bytes@ == self@.bytes,
            bytes@.len() == self@.width * self@.height * 4,
    {
        proof {
            use_type_invariant(self);
            self.lemma_inv();
        }
        self.pixels.as_slice()
    }


    /// Writes one pixel whose coordinates the caller knows to be inside the framebuffer.
    pub fn set_pixel_in_bounds(&mut self, x: u32, y: u32, pixel: Pixel)
        requires
            x < old(self)@.width,
            y < old(self)@.height,
        ensures
            painted(old(self)@, final(self)@, |px: int, py: int| px == x && py == y, pixel),
    {
        proof {
            use_type_invariant(&*self);
            self.lemma_inv();
            lemma_pixel_index_bounds(self.width as int, self.height as int, x as int, y as int);
        }
        let ghost old_view = self@;
        let index = (y as usize * self.width as usize + x as usize) * 4;
        self.pixels[index] = pixel.r;
        self.pixels[index + 1] = pixel.g;
        self.pixels[index + 2] = pixel.b;
        self.pixels[index + 3] = pixel.a;
        proof {
            lemma_write_pixel(old_view, self@, x as int, y as int, pixel);
        }
    }

    /// Reads one pixel whose coordinates the caller knows to be inside the framebuffer.
    pub(crate) fn pixel_in_bounds(&self, x: u32, y: u32) -> (pixel: Pixel)
        requires
            x < self@.width,
            y < self@.height,
        ensures
            pixel == self@.pixel(x as int, y as int),
    {
        proof {
            use_type_invariant(self);
            self.lemma_inv();
            lemma_pixel_index_bounds(self.width as int, self.height as int, x as int, y as int);
        }
        let index = (y as usize * self.width as usize + x as usize) * 4;
        Pixel::rgba(
            self.pixels[index],
            self.pixels[index + 1],
            self.pixels[index + 2],
            self.pixels[index + 3],
        )
    }

    fn pixel_index(&self, x: i32, y: i32) -> (index: Option<usize>)
        ensures
            index is Some <==> self@.in_bounds(x as int, y as int),
            index matches Some(i) ==> i == self@.byte_index(x as int, y as int),
            index matches Some(i) ==> i + 4 <= self@.bytes.len() && i + 4 <= usize::MAX,
    {
        proof {
            use_type_invariant(self);
            self.lemma_inv();
        }
        if x < 0 || y < 0 {
            return None;
        }
        let x = x as u32;
        let y = y as u32;
        if x >= self.width || y >= self.height {
            return None;
        }
        proof {
            lemma_pixel_index_bounds(self.width as int, self.height as int, x as int, y as int);
        }
        Some((y as usize * self.width as usize + x as usize) * 4)
    }

    /// Writes one pixel; returns whether the coordinates were inside the framebuffer.
    pub fn draw(&mut self, x: i32, y: i32, pixel: Pixel) -> (drawn: bool)
        ensures
            drawn == old(self)@.in_bounds(x as int, y as int),
            painted(old(self)@, final(self)@, |px: int, py: int| px == x && py == y, pixel),
    {
        if x < 0 || y < 0 || x as u32 >= self.width || y as u32 >= self.height {
            proof {
                lemma_painted_identity(self@, |px: int, py: int| px == x && py == y, pixel);
            }
            return false;
        }
        self.set_pixel_in_bounds(x as u32, y as u32, pixel);
        true
    }

    /// Reads one pixel, or `None` outside the framebuffer.
    pub fn pixel(&self, x: i32, y: i32) -> (pixel: Option<Pixel>)
        ensures
            pixel == (if self@.in_bounds(x as int, y as int) {
                Some(self@.pixel(x as int, y as int))
            } else {
                None::<Pixel>
            }),
    {
        let index = match self.pixel_index(x, y) {
            Some(index) => index,
            None => return None,
        };
        Some(
            Pixel::rgba(
                self.pixels[index],
                self.pixels[index + 1],
                self.pixels[index + 2],
                self.pixels[index + 3],
            ),
        )
    }


    fn is_empty(&self) -> (empty: bool)
        ensures
            empty == self@.is_empty(),
    {
        self.width == 0 || self.height == 0
    }

    /// Whether the inclusive rectangle `[min_x, max_x] x [min_y, max_y]` shares a pixel
    /// with the framebuffer.
    fn rect_intersects_framebuffer(&self, min_x: i64, min_y: i64, max_x: i64, max_y: i64) -> (hit: bool)
        ensures
            hit == (!self@.is_empty() && min_x <= max_x && min_y <= max_y && max_x >= 0 && max_y
                >= 0 && min_x < self@.width && min_y < self@.height),
    {
        if self.is_empty() || min_x > max_x || min_y > max_y {
            return false;
        }
        max_x >= 0 && max_y >= 0 && min_x < self.width as i64 && min_y < self.height as i64
    }

    /// The part of an inclusive rectangle inside the framebuffer.
    fn clipped_rect_bounds(&self, min_x: i64, min_y: i64, max_x: i64, max_y: i64) -> (clipped:
        Option<(i64, i64, i64, i64)>)
        ensures
            clipped is None <==> !(!self@.is_empty() && min_x <= max_x && min_y <= max_y && max_x
                >= 0 && max_y >= 0 && min_x < self@.width && min_y < self@.height),
            clipped matches Some(c) ==> {
                &&& c.0 == (if min_x < 0 { 0 } else { min_x })
                &&& c.1 == (if min_y < 0 { 0 } else { min_y })
                &&& c.2 == (if max_x < self@.width - 1 { max_x as int } else { self@.width - 1 })
                &&& c.3 == (if max_y < self@.height - 1 { max_y as int } else { self@.height - 1 })
                &&& 0 <= c.0 <= c.2 < self@.width
                &&& 0 <= c.1 <= c.3 < self@.height
            },
    {
        if !self.rect_intersects_framebuffer(min_x, min_y, max_x, max_y) {
            return None;
        }
        let w = self.width as i64 - 1;
        let h = self.height as i64 - 1;
        Some(
            (
                if min_x < 0 { 0 } else { min_x },
                if min_y < 0 { 0 } else { min_y },
                if max_x < w { max_x } else { w },
                if max_y < h { max_y } else { h },
            ),
        )
    }

    /// Paints the pixels of row `y` from `start_x` to `end_x` inclusive, clipped.
    fn draw_horizontal_span(&mut self, start_x: i64, end_x: i64, y: i64, pixel: Pixel)
        ensures
            painted(
                old(self)@,
                final(self)@,
                |px: int, py: int| py == y && start_x <= px <= end_x,
                pixel,
            ),
    {
        let ghost old_view = self@;
        let (sx, row, ex) = match self.clipped_rect_bounds(start_x, y, end_x, y) {
            Some((sx, row, ex, _)) => (sx, row, ex),
            None => {
                proof {
                    lemma_painted_identity(
                        old_view,
                        |px: int, py: int| py == y && start_x <= px <= end_x,
                        pixel,
                    );
                }
                return;
            },
        };
        let mut x = sx;
        while x <= ex
            invariant
                0 <= sx <= x <= ex + 1,
                ex < old_view.width,
                0 <= row < old_view.height,
                row == y,
                sx == (if start_x < 0 { 0 } else { start_x }),
                ex == (if end_x < old_view.width - 1 { end_x as int } else { old_view.width - 1 }),
                painted(old_view, self@, |px: int, py: int| py == y && sx <= px < x, pixel),
            decreases ex + 1 - x,
        {
            let ghost before = self@;
            self.set_pixel_in_bounds(x as u32, row as u32, pixel);
            proof {
                lemma_painted_union(
                    old_view,
                    before,
                    self@,
                    |px: int, py: int| py == y && sx <= px < x,
                    |px: int, py: int| px == x && py == row,
                    |px: int, py: int| py == y && sx <= px < x + 1,
                    pixel,
                );
            }
            x = x + 1;
        }
        proof {
            lemma_painted_same_region(
                old_view,
                self@,
                |px: int, py: int| py == y && sx <= px < x,
                |px: int, py: int| py == y && start_x <= px <= end_x,
                pixel,
            );
        }
    }

    /// Fills the rectangle with top-left corner `(x, y)` and the given extent, clipped.
    pub fn fill_rect(&mut self, x: i32, y: i32, width: u32, height: u32, pixel: Pixel)
        ensures
            painted(
                old(self)@,
                final(self)@,
                |px: int, py: int| in_rect(px, py, x as int, y as int, width as int, height as int),
                pixel,
            ),
    {
        let ghost old_view = self@;
        let ghost region = |px: int, py: int|
            in_rect(px, py, x as int, y as int, width as int, height as int);
        let (min_x, min_y, max_x, max_y) = match rect_bounds(x, y, width, height) {
            Some(b) => b,
            None => {
                proof {
                    lemma_painted_identity(old_view, region, pixel);
                }
                return;
            },
        };
        let (vx0, vy0, vx1, vy1) = match self.clipped_rect_bounds(min_x, min_y, max_x, max_y) {
            Some(c) => c,
            None => {
                proof {
                    lemma_painted_identity(old_view, region, pixel);
                }
                return;
            },
        };
        let mut row = vy0;
        while row <= vy1
            invariant
                0 <= vy0 <= row <= vy1 + 1,
                vy1 < old_view.height,
                vx0 == (if min_x < 0 { 0 } else { min_x }),
                vx1 == (if max_x < old_view.width - 1 { max_x as int } else { old_view.width - 1 }),
                vy0 == (if min_y < 0 { 0 } else { min_y }),
                vy1 == (if max_y < old_view.height - 1 { max_y as int } else { old_view.height - 1 }),
                min_x == x,
                min_y == y,
                max_x == x + width - 1,
                max_y == y + height - 1,
                painted(
                    old_view,
                    self@,
                    |px: int, py: int| vy0 <= py < row && vx0 <= px <= vx1,
                    pixel,
                ),
            decreases vy1 + 1 - row,
        {
            let ghost before = self@;
            self.draw_horizontal_span(vx0, vx1, row, pixel);
            proof {
                lemma_painted_union(
                    old_view,
                    before,
                    self@,
                    |px: int, py: int| vy0 <= py < row && vx0 <= px <= vx1,
                    |px: int, py: int| py == row && vx0 <= px <= vx1,
                    |px: int, py: int| vy0 <= py < row + 1 && vx0 <= px <= vx1,
                    pixel,
                );
            }
            row = row + 1;
        }
        proof {
            lemma_painted_same_region(
                old_view,
                self@,
                |px: int, py: int| vy0 <= py < row && vx0 <= px <= vx1,
                region,
                pixel,
            );
        }
    }


    /// Paints one pixel given by 64-bit coordinates; coordinates outside the `i32`
    /// range are not drawn.
    fn draw_i64(&mut self, x: i64, y: i64, pixel: Pixel) -> (drawn: bool)
        ensures
            drawn == (fits_i32(x as int) && fits_i32(y as int) && old(self)@.in_bounds(
                x as int,
                y as int,
            )),
            painted(
                old(self)@,
                final(self)@,
                |px: int, py: int| px == x && py == y && fits_i32(x as int) && fits_i32(y as int),
                pixel,
            ),
    {
        if x < i32::MIN as i64 || x > i32::MAX as i64 || y < i32::MIN as i64 || y > i32::MAX as i64 {
            proof {
                lemma_painted_identity(
                    self@,
                    |px: int, py: int| px == x && py == y && fits_i32(x as int) && fits_i32(y as int),
                    pixel,
                );
            }
            return false;
        }
        self.draw(x as i32, y as i32, pixel)
    }

    /// Draws the one-pixel border of the rectangle with top-left corner `(x, y)`, clipped.
    pub fn draw_rect(&mut self, x: i32, y: i32, width: u32, height: u32, pixel: Pixel)
        ensures
            painted(
                old(self)@,
                final(self)@,
                |px: int, py: int|
                    rect_outline_drawn(px, py, x as int, y as int, width as int, height as int),
                pixel,
            ),
    {
        let ghost old_view = self@;
        let ghost region = |px: int, py: int|
            rect_outline_drawn(px, py, x as int, y as int, width as int, height as int);
        let (min_x, min_y, max_x, max_y) = match rect_bounds(x, y, width, height) {
            Some(b) => b,
            None => {
                proof {
                    lemma_painted_identity(old_view, region, pixel);
                }
                return;
            },
        };
        if !self.rect_intersects_framebuffer(min_x, min_y, max_x, max_y) {
            proof {
                lemma_painted_identity(old_view, region, pixel);
            }
            return;
        }
        self.draw_horizontal_span(min_x, max_x, min_y, pixel);
        let ghost after_top = self@;
        self.draw_horizontal_span(min_x, max_x, max_y, pixel);
        let ghost spans = |px: int, py: int| (py == min_y || py == max_y) && min_x <= px <= max_x;
        proof {
            lemma_painted_union(
                old_view,
                after_top,
                self@,
                |px: int, py: int| py == min_y && min_x <= px <= max_x,
                |px: int, py: int| py == max_y && min_x <= px <= max_x,
                spans,
                pixel,
            );
        }
        let (vy0, vy1) = match self.clipped_rect_bounds(min_x, min_y + 1, max_x, max_y - 1) {
            Some((_, vy0, _, vy1)) => (vy0, vy1),
            None => {
                proof {
                    lemma_painted_same_region(old_view, self@, spans, region, pixel);
                }
                return;
            },
        };
        let mut row = vy0;
        while row <= vy1
            invariant
                0 <= vy0 <= row <= vy1 + 1,
                vy1 < old_view.height,
                vy0 == (if min_y + 1 < 0 { 0 } else { min_y + 1 }),
                vy1 == (if max_y - 1 < old_view.height - 1 { max_y - 1 } else { old_view.height - 1 }),
                min_x == x,
                min_y == y,
                max_x == x + width - 1,
                max_y == y + height - 1,
                width > 0,
                height > 0,
                painted(
                    old_view,
                    self@,
                    |px: int, py: int|
                        spans(px, py) || (vy0 <= py < row && (px == min_x || px == max_x) && fits_i32(px)
                            && fits_i32(py)),
                    pixel,
                ),
            decreases vy1 + 1 - row,
        {
            let ghost before = self@;
            self.draw_i64(min_x, row, pixel);
            let ghost mid = self@;
            proof {
                lemma_painted_union(
                    old_view,
                    before,
                    mid,
                    |px: int, py: int|
                        spans(px, py) || (vy0 <= py < row && (px == min_x || px == max_x) && fits_i32(px)
                            && fits_i32(py)),
                    |px: int, py: int| px == min_x && py == row && fits_i32(min_x as int) && fits_i32(row as int),
                    |px: int, py: int|
                        spans(px, py) || (vy0 <= py < row && (px == min_x || px == max_x) && fits_i32(px)
                            && fits_i32(py)) || (px == min_x && py == row && fits_i32(px) && fits_i32(py)),
                    pixel,
                );
            }
            if max_x != min_x {
                self.draw_i64(max_x, row, pixel);
                proof {
                    lemma_painted_union(
                        old_view,
                        mid,
                        self@,
                        |px: int, py: int|
                            spans(px, py) || (vy0 <= py < row && (px == min_x || px == max_x) && fits_i32(px)
                                && fits_i32(py)) || (px == min_x && py == row && fits_i32(px) && fits_i32(py)),
                        |px: int, py: int| px == max_x && py == row && fits_i32(max_x as int) && fits_i32(row as int),
                        |px: int, py: int|
                            spans(px, py) || (vy0 <= py < row + 1 && (px == min_x || px == max_x)
                                && fits_i32(px) && fits_i32(py)),
                        pixel,
                    );
                }
            } else {
                proof {
                    lemma_painted_same_region(
                        old_view,
                        self@,
                        |px: int, py: int|
                            spans(px, py) || (vy0 <= py < row && (px == min_x || px == max_x) && fits_i32(px)
                                && fits_i32(py)) || (px == min_x && py == row && fits_i32(px) && fits_i32(py)),
                        |px: int, py: int|
                            spans(px, py) || (vy0 <= py < row + 1 && (px == min_x || px == max_x)
                                && fits_i32(px) && fits_i32(py)),
                        pixel,
                    );
                }
            }
            row = row + 1;
        }
        proof {
            lemma_painted_same_region(
                old_view,
                self@,
                |px: int, py: int|
                    spans(px, py) || (vy0 <= py < row && (px == min_x || px == max_x) && fits_i32(px)
                        && fits_i32(py)),
                region,
                pixel,
            );
        }
    }


    fn line_is_outside_framebuffer(&self, x0: i32, y0: i32, x1: i32, y1: i32) -> (outside: bool)
        ensures
            outside == rect_misses(
                self@,
                if x0 < x1 { x0 as int } else { x1 as int },
                if y0 < y1 { y0 as int } else { y1 as int },
                if x0 < x1 { x1 as int } else { x0 as int },
                if y0 < y1 { y1 as int } else { y0 as int },
            ),
            outside ==> forall|px: int, py: int|
                self@.in_bounds(px, py) ==> !on_line(px, py, x0 as int, y0 as int, x1 as int, y1 as int),
    {
        if self.is_empty() {
            return true;
        }
        let min_x = (if x0 < x1 { x0 } else { x1 }) as i64;
        let max_x = (if x0 < x1 { x1 } else { x0 }) as i64;
        let min_y = (if y0 < y1 { y0 } else { y1 }) as i64;
        let max_y = (if y0 < y1 { y1 } else { y0 }) as i64;
        let outside = !self.rect_intersects_framebuffer(min_x, min_y, max_x, max_y);
        proof {
            if outside {
                assert forall|px: int, py: int| self@.in_bounds(px, py) implies !on_line(
                    px,
                    py,
                    x0 as int,
                    y0 as int,
                    x1 as int,
                    y1 as int,
                ) by {
                    if on_line(px, py, x0 as int, y0 as int, x1 as int, y1 as int) {
                        lemma_on_line_in_box(px, py, x0 as int, y0 as int, x1 as int, y1 as int);
                    }
                }
            }
        }
        outside
    }

    /// Rasterizes the segment from `(x0, y0)` to `(x1, y1)`, clipped to the framebuffer.
    pub fn draw_line(&mut self, x0: i32, y0: i32, x1: i32, y1: i32, pixel: Pixel)
        ensures
            painted(
                old(self)@,
                final(self)@,
                |px: int, py: int| on_line(px, py, x0 as int, y0 as int, x1 as int, y1 as int),
                pixel,
            ),
    {
        let ghost old_view = self@;
        let ghost region = |px: int, py: int|
            on_line(px, py, x0 as int, y0 as int, x1 as int, y1 as int);
        if self.line_is_outside_framebuffer(x0, y0, x1, y1) {
            proof {
                lemma_painted_identity(old_view, region, pixel);
            }
            return;
        }
        let x0 = x0 as i64;
        let y0 = y0 as i64;
        let x1 = x1 as i64;
        let y1 = y1 as i64;
        let dx = if x1 >= x0 { x1 - x0 } else { x0 - x1 };
        let dy = if y1 >= y0 { y1 - y0 } else { y0 - y1 };
        if dx == 0 && dy == 0 {
            self.draw_i64(x0, y0, pixel);
            proof {
                lemma_painted_same_region(
                    old_view,
                    self@,
                    |px: int, py: int| px == x0 && py == y0 && fits_i32(x0 as int) && fits_i32(y0 as int),
                    region,
                    pixel,
                );
            }
            return;
        }
        if dx >= dy {
            let (first, last) = match visible_major_steps(x0, x1, self.width) {
                Some(b) => b,
                None => {
                    proof {
                        assert forall|px: int, py: int| old_view.in_bounds(px, py) implies !region(
                            px,
                            py,
                        ) by {
                            if region(px, py) {
                                assert(visible_step(
                                    x0 as int,
                                    x1 as int,
                                    old_view.width as int,
                                    step_from(x0 as int, x1 as int, px),
                                ));
                            }
                        }
                        lemma_painted_identity(old_view, region, pixel);
                    }
                    return;
                },
            };
            let mut step = first;
            while step <= last
                invariant
                    0 <= first <= step <= last + 1,
                    last <= dx,
                    dx == abs_diff(x0 as int, x1 as int),
                    dy == abs_diff(y0 as int, y1 as int),
                    0 < dx <= 0x1_0000_0000,
                    dy <= dx,
                    i32::MIN <= x0 <= i32::MAX,
                    i32::MIN <= x1 <= i32::MAX,
                    i32::MIN <= y0 <= i32::MAX,
                    i32::MIN <= y1 <= i32::MAX,
                    forall|px: int, py: int| #[trigger] region(px, py) == on_line(px, py, x0 as int, y0 as int, x1 as int, y1 as int),
                    forall|s: int| visible_step(x0 as int, x1 as int, old_view.width as int, s) <==> first <= s <= last,
                    painted(
                        old_view,
                        self@,
                        |px: int, py: int|
                            region(px, py) && first <= step_from(x0 as int, x1 as int, px) < step,
                        pixel,
                    ),
                decreases last + 1 - step,
            {
                let offset = rounded_minor_step(dy, step, dx);
                let x = if x0 < x1 { x0 + step } else { x0 - step };
                let y = if y0 < y1 { y0 + offset } else { y0 - offset };
                let ghost before = self@;
                self.draw_i64(x, y, pixel);
                proof {
                    assert(fits_i32(x as int) && fits_i32(y as int));
                    assert forall|px: int, py: int| old_view.in_bounds(px, py) implies ((region(px, py)
                        && first <= step_from(x0 as int, x1 as int, px) < step + 1) == ((region(px, py)
                        && first <= step_from(x0 as int, x1 as int, px) < step) || (px == x && py == y
                        && fits_i32(x as int) && fits_i32(y as int)))) by {
                        assert(region(px, py) == on_line(px, py, x0 as int, y0 as int, x1 as int, y1 as int));
                        if px == x && py == y {
                            assert(step_from(x0 as int, x1 as int, px) == step);
                            assert(on_line(px, py, x0 as int, y0 as int, x1 as int, y1 as int));
                        }
                        if on_line(px, py, x0 as int, y0 as int, x1 as int, y1 as int)
                            && step_from(x0 as int, x1 as int, px) == step {
                            assert(px == x);
                            assert(py == y);
                        }
                    }
                    lemma_painted_union(
                        old_view,
                        before,
                        self@,
                        |px: int, py: int|
                            region(px, py) && first <= step_from(x0 as int, x1 as int, px) < step,
                        |px: int, py: int| px == x && py == y && fits_i32(x as int) && fits_i32(y as int),
                        |px: int, py: int|
                            region(px, py) && first <= step_from(x0 as int, x1 as int, px) < step + 1,
                        pixel,
                    );
                }
                step = step + 1;
            }
            proof {
                assert forall|px: int, py: int| old_view.in_bounds(px, py) implies (region(px, py) == (
                region(px, py) && first <= step_from(x0 as int, x1 as int, px) < step)) by {
                    if region(px, py) {
                        assert(visible_step(
                            x0 as int,
                            x1 as int,
                            old_view.width as int,
                            step_from(x0 as int, x1 as int, px),
                        ));
                    }
                }
                lemma_painted_same_region(
                    old_view,
                    self@,
                    |px: int, py: int|
                        region(px, py) && first <= step_from(x0 as int, x1 as int, px) < step,
                    region,
                    pixel,
                );
            }
        } else {
            let (first, last) = match visible_major_steps(y0, y1, self.height) {
                Some(b) => b,
                None => {
                    proof {
                        assert forall|px: int, py: int| old_view.in_bounds(px, py) implies !region(
                            px,
                            py,
                        ) by {
                            if region(px, py) {
                                assert(visible_step(
                                    y0 as int,
                                    y1 as int,
                                    old_view.height as int,
                                    step_from(y0 as int, y1 as int, py),
                                ));
                            }
                        }
                        lemma_painted_identity(old_view, region, pixel);
                    }
                    return;
                },
            };
            let mut step = first;
            while step <= last
                invariant
                    0 <= first <= step <= last + 1,
                    last <= dy,
                    dx == abs_diff(x0 as int, x1 as int),
                    dy == abs_diff(y0 as int, y1 as int),
                    0 < dy <= 0x1_0000_0000,
                    dx < dy,
                    i32::MIN <= x0 <= i32::MAX,
                    i32::MIN <= x1 <= i32::MAX,
                    i32::MIN <= y0 <= i32::MAX,
                    i32::MIN <= y1 <= i32::MAX,
                    forall|px: int, py: int| #[trigger] region(px, py) == on_line(px, py, x0 as int, y0 as int, x1 as int, y1 as int),
                    forall|s: int| visible_step(y0 as int, y1 as int, old_view.height as int, s) <==> first <= s <= last,
                    painted(
                        old_view,
                        self@,
                        |px: int, py: int|
                            region(px, py) && first <= step_from(y0 as int, y1 as int, py) < step,
                        pixel,
                    ),
                decreases last + 1 - step,
            {
                let offset = rounded_minor_step(dx, step, dy);
                let x = if x0 < x1 { x0 + offset } else { x0 - offset };
                let y = if y0 < y1 { y0 + step } else { y0 - step };
                let ghost before = self@;
                self.draw_i64(x, y, pixel);
                proof {
                    assert(fits_i32(x as int) && fits_i32(y as int));
                    assert forall|px: int, py: int| old_view.in_bounds(px, py) implies ((region(px, py)
                        && first <= step_from(y0 as int, y1 as int, py) < step + 1) == ((region(px, py)
                        && first <= step_from(y0 as int, y1 as int, py) < step) || (px == x && py == y
                        && fits_i32(x as int) && fits_i32(y as int)))) by {
                        assert(region(px, py) == on_line(px, py, x0 as int, y0 as int, x1 as int, y1 as int));
                        if px == x && py == y {
                            assert(step_from(y0 as int, y1 as int, py) == step);
                            assert(on_line(px, py, x0 as int, y0 as int, x1 as int, y1 as int));
                        }
                        if on_line(px, py, x0 as int, y0 as int, x1 as int, y1 as int)
                            && step_from(y0 as int, y1 as int, py) == step {
                            assert(px == x);
                            assert(py == y);
                        }
                    }
                    lemma_painted_union(
                        old_view,
                        before,
                        self@,
                        |px: int, py: int|
                            region(px, py) && first <= step_from(y0 as int, y1 as int, py) < step,
                        |px: int, py: int| px == x && py == y && fits_i32(x as int) && fits_i32(y as int),
                        |px: int, py: int|
                            region(px, py) && first <= step_from(y0 as int, y1 as int, py) < step + 1,
                        pixel,
                    );
                }
                step = step + 1;
            }
            proof {
                assert forall|px: int, py: int| old_view.in_bounds(px, py) implies (region(px, py) == (
                region(px, py) && first <= step_from(y0 as int, y1 as int, py) < step)) by {
                    if region(px, py) {
                        assert(visible_step(
                            y0 as int,
                            y1 as int,
                            old_view.height as int,
                            step_from(y0 as int, y1 as int, py),
                        ));
                    }
                }
                lemma_painted_same_region(
                    old_view,
                    self@,
                    |px: int, py: int|
                        region(px, py) && first <= step_from(y0 as int, y1 as int, py) < step,
                    region,
                    pixel,
                );
            }
        }
    }


    /// `draw_i64` that extends a painted region by the drawn point.
    fn draw_i64_onto(
        &mut self,
        x: i64,
        y: i64,
        pixel: Pixel,
        Ghost(base): Ghost<RasterView>,
        Ghost(region): Ghost<spec_fn(int, int) -> bool>,
    )
        requires
            painted(base, old(self)@, region, pixel),
        ensures
            painted(
                base,
                final(self)@,
                |px: int, py: int|
                    region(px, py) || (px == x && py == y && fits_i32(x as int) && fits_i32(y as int)),
                pixel,
            ),
    {
        let ghost before = self@;
        self.draw_i64(x, y, pixel);
        proof {
            lemma_painted_union(
                base,
                before,
                self@,
                region,
                |px: int, py: int| px == x && py == y && fits_i32(x as int) && fits_i32(y as int),
                |px: int, py: int|
                    region(px, py) || (px == x && py == y && fits_i32(x as int) && fits_i32(y as int)),
                pixel,
            );
        }
    }

    /// Paints the eight symmetric images of the first-octant point `(x, y)`.
    fn draw_circle_points(&mut self, center_x: i64, center_y: i64, x: i64, y: i64, pixel: Pixel)
        requires
            i32::MIN <= center_x <= i32::MAX,
            i32::MIN <= center_y <= i32::MAX,
            0 <= x <= 0x1_0000_0000,
            0 <= y <= 0x1_0000_0000,
        ensures
            painted(
                old(self)@,
                final(self)@,
                |px: int, py: int|
                    fits_i32(px) && fits_i32(py) && eight_way(
                        iabs(px - center_x),
                        iabs(py - center_y),
                        x as int,
                        y as int,
                    ),
                pixel,
            ),
    {
        let ghost base = self@;
        let ghost r0 = |px: int, py: int| false;
        proof {
            lemma_painted_identity(base, r0, pixel);
        }
        self.draw_i64_onto(center_x + x, center_y + y, pixel, Ghost(base), Ghost(r0));
        let ghost r1 = |px: int, py: int|
            r0(px, py) || (px == center_x + x && py == center_y + y && fits_i32(px) && fits_i32(py));
        self.draw_i64_onto(center_x + y, center_y + x, pixel, Ghost(base), Ghost(r1));
        let ghost r2 = |px: int, py: int|
            r1(px, py) || (px == center_x + y && py == center_y + x && fits_i32(px) && fits_i32(py));
        self.draw_i64_onto(center_x - y, center_y + x, pixel, Ghost(base), Ghost(r2));
        let ghost r3 = |px: int, py: int|
            r2(px, py) || (px == center_x - y && py == center_y + x && fits_i32(px) && fits_i32(py));
        self.draw_i64_onto(center_x - x, center_y + y, pixel, Ghost(base), Ghost(r3));
        let ghost r4 = |px: int, py: int|
            r3(px, py) || (px == center_x - x && py == center_y + y && fits_i32(px) && fits_i32(py));
        self.draw_i64_onto(center_x - x, center_y - y, pixel, Ghost(base), Ghost(r4));
        let ghost r5 = |px: int, py: int|
            r4(px, py) || (px == center_x - x && py == center_y - y && fits_i32(px) && fits_i32(py));
        self.draw_i64_onto(center_x - y, center_y - x, pixel, Ghost(base), Ghost(r5));
        let ghost r6 = |px: int, py: int|
            r5(px, py) || (px == center_x - y && py == center_y - x && fits_i32(px) && fits_i32(py));
        self.draw_i64_onto(center_x + y, center_y - x, pixel, Ghost(base), Ghost(r6));
        let ghost r7 = |px: int, py: int|
            r6(px, py) || (px == center_x + y && py == center_y - x && fits_i32(px) && fits_i32(py));
        self.draw_i64_onto(center_x + x, center_y - y, pixel, Ghost(base), Ghost(r7));
        let ghost r8 = |px: int, py: int|
            r7(px, py) || (px == center_x + x && py == center_y - y && fits_i32(px) && fits_i32(py));
        proof {
            lemma_painted_same_region(
                base,
                self@,
                r8,
                |px: int, py: int|
                    fits_i32(px) && fits_i32(py) && eight_way(
                        iabs(px - center_x),
                        iabs(py - center_y),
                        x as int,
                        y as int,
                    ),
                pixel,
            );
        }
    }


    fn circle_is_outside_framebuffer(&self, center_x: i32, center_y: i32, radius: u32) -> (outside: bool)
        ensures
            outside == rect_misses(
                self@,
                center_x - radius,
                center_y - radius,
                center_x + radius,
                center_y + radius,
            ),
            outside ==> forall|px: int, py: int|
                self@.in_bounds(px, py) ==> iabs(px - center_x) > radius || iabs(py - center_y) > radius,
    {
        if self.is_empty() {
            return true;
        }
        let cx = center_x as i64;
        let cy = center_y as i64;
        let r = radius as i64;
        !self.rect_intersects_framebuffer(cx - r, cy - r, cx + r, cy + r)
    }

    fn circle_outline_is_far_from_framebuffer(&self, center_x: i32, center_y: i32, radius: u32) -> (far:
        bool)
        requires
            radius >= 1,
        ensures
            far == (self@.is_empty() || 2 * farthest_edge_distance(self@, center_x as int, center_y as int)
                < radius),
            far ==> forall|px: int, py: int|
                self@.in_bounds(px, py) ==> !on_circle(px, py, center_x as int, center_y as int, radius as int),
    {
        if self.is_empty() {
            return true;
        }
        let cx = center_x as i64;
        let cy = center_y as i64;
        let max_x = self.width as i64 - 1;
        let max_y = self.height as i64 - 1;
        let left = if cx >= 0 { cx } else { -cx };
        let right = if max_x - cx >= 0 { max_x - cx } else { cx - max_x };
        let top = if cy >= 0 { cy } else { -cy };
        let bottom = if max_y - cy >= 0 { max_y - cy } else { cy - max_y };
        let horizontal = if left > right { left } else { right };
        let vertical = if top > bottom { top } else { bottom };
        let distance = if horizontal > vertical { horizontal } else { vertical };
        let far = distance * 2 < radius as i64;
        proof {
            if far {
                assert forall|px: int, py: int| self@.in_bounds(px, py) implies !on_circle(
                    px,
                    py,
                    center_x as int,
                    center_y as int,
                    radius as int,
                ) by {
                    let a = iabs(px - center_x);
                    let b = iabs(py - center_y);
                    assert(a <= distance && b <= distance);
                    if b <= midpoint_x(radius as int, b) && a == midpoint_x(radius as int, b) {
                        lemma_midpoint_octant_far(radius as int, b as nat);
                    }
                    if a <= midpoint_x(radius as int, a) && b == midpoint_x(radius as int, a) {
                        lemma_midpoint_octant_far(radius as int, a as nat);
                    }
                }
            }
        }
        far
    }

    /// Draws the midpoint-algorithm outline of a circle, clipped to the framebuffer.
    pub fn draw_circle(&mut self, center_x: i32, center_y: i32, radius: u32, pixel: Pixel)
        ensures
            painted(
                old(self)@,
                final(self)@,
                |px: int, py: int| on_circle(px, py, center_x as int, center_y as int, radius as int),
                pixel,
            ),
    {
        let ghost old_view = self@;
        let ghost region = |px: int, py: int|
            on_circle(px, py, center_x as int, center_y as int, radius as int);
        if radius == 0 {
            self.draw(center_x, center_y, pixel);
            proof {
                assert forall|px: int, py: int| old_view.in_bounds(px, py) implies (region(px, py) == (
                px == center_x && py == center_y)) by {
                    if region(px, py) {
                        lemma_outline_offset_within_radius(iabs(px - center_x), iabs(py - center_y), 0);
                    }
                }
                lemma_painted_same_region(
                    old_view,
                    self@,
                    |px: int, py: int| px == center_x && py == center_y,
                    region,
                    pixel,
                );
            }
            return;
        }
        if self.circle_is_outside_framebuffer(center_x, center_y, radius)
            || self.circle_outline_is_far_from_framebuffer(center_x, center_y, radius) {
            proof {
                assert forall|px: int, py: int| old_view.in_bounds(px, py) implies !region(px, py) by {
                    if region(px, py) {
                        lemma_outline_offset_within_radius(
                            iabs(px - center_x),
                            iabs(py - center_y),
                            radius as int,
                        );
                    }
                }
                lemma_painted_identity(old_view, region, pixel);
            }
            return;
        }
        let cx = center_x as i64;
        let cy = center_y as i64;
        let r = radius as i64;
        let mut x = r;
        let mut y: i64 = 0;
        let mut error: i64 = 1 - x;
        proof {
            lemma_painted_identity(
                old_view,
                |px: int, py: int|
                    fits_i32(px) && fits_i32(py) && outline_offset_upto(
                        iabs(px - cx),
                        iabs(py - cy),
                        r as int,
                        0,
                    ),
                pixel,
            );
        }
        while x >= y
            invariant
                0 <= y,
                1 <= r <= u32::MAX,
                cx == center_x,
                cy == center_y,
                (x as int, error as int) == midpoint_state(r as int, y as nat),
                x <= r,
                x >= r - y,
                x - y >= -2,
                x >= y ==> error <= 2 * y,
                error <= 2 * y + 5,
                error >= -2 * x,
                forall|px: int, py: int|
                    #[trigger] region(px, py) == on_circle(px, py, center_x as int, center_y as int, radius as int),
                painted(
                    old_view,
                    self@,
                    |px: int, py: int|
                        fits_i32(px) && fits_i32(py) && outline_offset_upto(
                            iabs(px - cx),
                            iabs(py - cy),
                            r as int,
                            y as int,
                        ),
                    pixel,
                ),
            decreases x - y + 2,
        {
            let ghost before = self@;
            self.draw_circle_points(cx, cy, x, y, pixel);
            proof {
                assert(midpoint_x(r as int, y as int) == x);
                assert forall|px: int, py: int| old_view.in_bounds(px, py) implies ((fits_i32(px)
                    && fits_i32(py) && outline_offset_upto(iabs(px - cx), iabs(py - cy), r as int, y + 1))
                    == ((fits_i32(px) && fits_i32(py) && outline_offset_upto(
                    iabs(px - cx),
                    iabs(py - cy),
                    r as int,
                    y as int,
                )) || (fits_i32(px) && fits_i32(py) && eight_way(
                    iabs(px - cx),
                    iabs(py - cy),
                    x as int,
                    y as int,
                )))) by {
                }
                lemma_painted_union(
                    old_view,
                    before,
                    self@,
                    |px: int, py: int|
                        fits_i32(px) && fits_i32(py) && outline_offset_upto(
                            iabs(px - cx),
                            iabs(py - cy),
                            r as int,
                            y as int,
                        ),
                    |px: int, py: int|
                        fits_i32(px) && fits_i32(py) && eight_way(
                            iabs(px - cx),
                            iabs(py - cy),
                            x as int,
                            y as int,
                        ),
                    |px: int, py: int|
                        fits_i32(px) && fits_i32(py) && outline_offset_upto(
                            iabs(px - cx),
                            iabs(py - cy),
                            r as int,
                            y + 1,
                        ),
                    pixel,
                );
            }
            y = y + 1;
            if error < 0 {
                error = error + 2 * y + 1;
            } else {
                x = x - 1;
                error = error + 2 * (y - x) + 1;
            }
        }
        proof {
            assert(midpoint_x(r as int, y as int) < y);
            assert forall|px: int, py: int| old_view.in_bounds(px, py) implies ((fits_i32(px)
                && fits_i32(py) && outline_offset_upto(iabs(px - cx), iabs(py - cy), r as int, y as int))
                == region(px, py)) by {
                let a = iabs(px - cx);
                let b = iabs(py - cy);
                if b >= y {
                    lemma_midpoint_leaves_octant(r as int, y as nat, b as nat);
                }
                if a >= y {
                    lemma_midpoint_leaves_octant(r as int, y as nat, a as nat);
                }
            }
            lemma_painted_same_region(
                old_view,
                self@,
                |px: int, py: int|
                    fits_i32(px) && fits_i32(py) && outline_offset_upto(
                        iabs(px - cx),
                        iabs(py - cy),
                        r as int,
                        y as int,
                    ),
                region,
                pixel,
            );
        }
    }


    fn draw_span_onto(
        &mut self,
        start_x: i64,
        end_x: i64,
        y: i64,
        pixel: Pixel,
        Ghost(base): Ghost<RasterView>,
        Ghost(region): Ghost<spec_fn(int, int) -> bool>,
    )
        requires
            painted(base, old(self)@, region, pixel),
        ensures
            painted(
                base,
                final(self)@,
                |px: int, py: int| region(px, py) || (py == y && start_x <= px <= end_x),
                pixel,
            ),
    {
        let ghost before = self@;
        self.draw_horizontal_span(start_x, end_x, y, pixel);
        proof {
            lemma_painted_union(
                base,
                before,
                self@,
                region,
                |px: int, py: int| py == y && start_x <= px <= end_x,
                |px: int, py: int| region(px, py) || (py == y && start_x <= px <= end_x),
                pixel,
            );
        }
    }

    /// Paints the four horizontal spans of the disk for the first-octant point `(x, y)`.
    fn draw_filled_circle_spans(&mut self, center_x: i64, center_y: i64, x: i64, y: i64, pixel: Pixel)
        requires
            i32::MIN <= center_x <= i32::MAX,
            i32::MIN <= center_y <= i32::MAX,
            0 <= x <= 0x1_0000_0000,
            0 <= y <= 0x1_0000_0000,
        ensures
            painted(
                old(self)@,
                final(self)@,
                |px: int, py: int| four_spans(iabs(px - center_x), iabs(py - center_y), x as int, y as int),
                pixel,
            ),
    {
        let ghost base = self@;
        let ghost r0 = |px: int, py: int| false;
        proof {
            lemma_painted_identity(base, r0, pixel);
        }
        self.draw_span_onto(center_x - x, center_x + x, center_y + y, pixel, Ghost(base), Ghost(r0));
        let ghost r1 = |px: int, py: int|
            r0(px, py) || (py == center_y + y && center_x - x <= px <= center_x + x);
        self.draw_span_onto(center_x - x, center_x + x, center_y - y, pixel, Ghost(base), Ghost(r1));
        let ghost r2 = |px: int, py: int|
            r1(px, py) || (py == center_y - y && center_x - x <= px <= center_x + x);
        self.draw_span_onto(center_x - y, center_x + y, center_y + x, pixel, Ghost(base), Ghost(r2));
        let ghost r3 = |px: int, py: int|
            r2(px, py) || (py == center_y + x && center_x - y <= px <= center_x + y);
        self.draw_span_onto(center_x - y, center_x + y, center_y - x, pixel, Ghost(base), Ghost(r3));
        let ghost r4 = |px: int, py: int|
            r3(px, py) || (py == center_y - x && center_x - y <= px <= center_x + y);
        proof {
            lemma_painted_same_region(
                base,
                self@,
                r4,
                |px: int, py: int| four_spans(iabs(px - center_x), iabs(py - center_y), x as int, y as int),
                pixel,
            );
        }
    }

    fn circle_covers_framebuffer(&self, center_x: i32, center_y: i32, radius: u32) -> (covers: bool)
        ensures
            covers == (!self@.is_empty() && corners_within(self@, center_x as int, center_y as int, radius as int)),
            covers ==> forall|px: int, py: int|
                self@.in_bounds(px, py) ==> (px - center_x) * (px - center_x) + (py - center_y) * (py
                    - center_y) <= radius * radius,
    {
        if self.is_empty() {
            return false;
        }
        let cx = center_x as i128;
        let cy = center_y as i128;
        let r = radius as i128;
        let left = 0 - cx;
        let right = (self.width - 1) as i128 - cx;
        let top = 0 - cy;
        let bottom = (self.height - 1) as i128 - cy;
        proof {
            lemma_square_bound(r as int);
            lemma_square_bound(left as int);
            lemma_square_bound(right as int);
            lemma_square_bound(top as int);
            lemma_square_bound(bottom as int);
        }
        let radius_squared = r * r;
        let covers = left * left + top * top <= radius_squared && right * right + top * top
            <= radius_squared && left * left + bottom * bottom <= radius_squared && right * right
            + bottom * bottom <= radius_squared;
        proof {
            if covers {
                assert forall|px: int, py: int| self@.in_bounds(px, py) implies (px - center_x) * (px
                    - center_x) + (py - center_y) * (py - center_y) <= radius * radius by {
                    lemma_square_between(left as int, px - center_x, right as int);
                    lemma_square_between(top as int, py - center_y, bottom as int);
                }
            }
            let c = center_x as int;
            let d = center_y as int;
            assert(left * left == c * c) by (nonlinear_arith)
                requires
                    left == 0 - c,
            ;
            assert(top * top == d * d) by (nonlinear_arith)
                requires
                    top == 0 - d,
            ;
            assert(right == self@.width - 1 - c);
            assert(bottom == self@.height - 1 - d);
        }
        covers
    }

    /// Fills the midpoint-algorithm disk of a circle, clipped to the framebuffer.
    pub fn fill_circle(&mut self, center_x: i32, center_y: i32, radius: u32, pixel: Pixel)
        ensures
            painted(
                old(self)@,
                final(self)@,
                |px: int, py: int| in_circle(px, py, center_x as int, center_y as int, radius as int),
                pixel,
            ),
    {
        let ghost old_view = self@;
        let ghost region = |px: int, py: int|
            in_circle(px, py, center_x as int, center_y as int, radius as int);
        if radius == 0 {
            self.draw(center_x, center_y, pixel);
            proof {
                assert forall|px: int, py: int| old_view.in_bounds(px, py) implies (region(px, py) == (
                px == center_x && py == center_y)) by {
                    let a = iabs(px - center_x);
                    let b = iabs(py - center_y);
                    lemma_midpoint_facts(0, a as nat);
                    lemma_midpoint_facts(0, b as nat);
                }
                lemma_painted_same_region(
                    old_view,
                    self@,
                    |px: int, py: int| px == center_x && py == center_y,
                    region,
                    pixel,
                );
            }
            return;
        }
        if self.circle_is_outside_framebuffer(center_x, center_y, radius) {
            proof {
                assert forall|px: int, py: int| old_view.in_bounds(px, py) implies !region(px, py) by {
                    let a = iabs(px - center_x);
                    let b = iabs(py - center_y);
                    lemma_midpoint_facts(radius as int, a as nat);
                    lemma_midpoint_facts(radius as int, b as nat);
                }
                lemma_painted_identity(old_view, region, pixel);
            }
            return;
        }
        if self.circle_covers_framebuffer(center_x, center_y, radius) {
            let width = self.width;
            let height = self.height;
            self.fill_rect(0, 0, width, height, pixel);
            proof {
                assert forall|px: int, py: int| old_view.in_bounds(px, py) implies region(px, py) by {
                    let a = iabs(px - center_x);
                    let b = iabs(py - center_y);
                    assert(a * a == (px - center_x) * (px - center_x)) by (nonlinear_arith)
                        requires
                            a == iabs(px - center_x),
                    ;
                    assert(b * b == (py - center_y) * (py - center_y)) by (nonlinear_arith)
                        requires
                            b == iabs(py - center_y),
                    ;
                    lemma_disk_contains_inner_points(a, b, radius as int);
                }
                lemma_painted_same_region(
                    old_view,
                    self@,
                    |px: int, py: int| in_rect(px, py, 0, 0, width as int, height as int),
                    region,
                    pixel,
                );
            }
            return;
        }
        let cx = center_x as i64;
        let cy = center_y as i64;
        let r = radius as i64;
        let mut x = r;
        let mut y: i64 = 0;
        let mut error: i64 = 1 - x;
        proof {
            lemma_painted_identity(
                old_view,
                |px: int, py: int| disk_offset_upto(iabs(px - cx), iabs(py - cy), r as int, 0),
                pixel,
            );
        }
        while x >= y
            invariant
                0 <= y,
                1 <= r <= u32::MAX,
                cx == center_x,
                cy == center_y,
                (x as int, error as int) == midpoint_state(r as int, y as nat),
                y >= 1 ==> midpoint_x(r as int, y - 1) >= y - 1,
                x <= r,
                x >= r - y,
                x - y >= -2,
                x >= y ==> error <= 2 * y,
                error <= 2 * y + 5,
                error >= -2 * x,
                forall|px: int, py: int|
                    #[trigger] region(px, py) == in_circle(px, py, center_x as int, center_y as int, radius as int),
                painted(
                    old_view,
                    self@,
                    |px: int, py: int| disk_offset_upto(iabs(px - cx), iabs(py - cy), r as int, y as int),
                    pixel,
                ),
            decreases x - y + 2,
        {
            let ghost before = self@;
            self.draw_filled_circle_spans(cx, cy, x, y, pixel);
            proof {
                let rr = r as int;
                let k = y as int;
                assert(midpoint_x(rr, k) == x);
                assert forall|px: int, py: int| old_view.in_bounds(px, py) implies (disk_offset_upto(
                    iabs(px - cx),
                    iabs(py - cy),
                    rr,
                    k + 1,
                ) == (disk_offset_upto(iabs(px - cx), iabs(py - cy), rr, k) || four_spans(
                    iabs(px - cx),
                    iabs(py - cy),
                    x as int,
                    k,
                ))) by {
                    let a = iabs(px - cx);
                    let b = iabs(py - cy);
                    if a <= k {
                        lemma_midpoint_monotone(rr, a as nat, k as nat);
                    }
                    if k >= 1 {
                        lemma_midpoint_monotone(rr, (k - 1) as nat, k as nat);
                    }
                }
                lemma_painted_union(
                    old_view,
                    before,
                    self@,
                    |px: int, py: int| disk_offset_upto(iabs(px - cx), iabs(py - cy), rr, k),
                    |px: int, py: int| four_spans(iabs(px - cx), iabs(py - cy), x as int, k),
                    |px: int, py: int| disk_offset_upto(iabs(px - cx), iabs(py - cy), rr, k + 1),
                    pixel,
                );
            }
            y = y + 1;
            if error < 0 {
                error = error + 2 * y + 1;
            } else {
                x = x - 1;
                error = error + 2 * (y - x) + 1;
            }
        }
        proof {
            let rr = r as int;
            let kk = y as int;
            assert(midpoint_x(rr, kk) < kk);
            assert forall|px: int, py: int| old_view.in_bounds(px, py) implies (disk_offset_upto(
                iabs(px - cx),
                iabs(py - cy),
                rr,
                kk,
            ) == region(px, py)) by {
                let a = iabs(px - cx);
                let b = iabs(py - cy);
                if b >= kk {
                    lemma_midpoint_leaves_octant(rr, kk as nat, b as nat);
                } else {
                    lemma_midpoint_monotone(rr, b as nat, (kk - 1) as nat);
                }
                if a >= kk {
                    lemma_midpoint_leaves_octant(rr, kk as nat, a as nat);
                } else {
                    lemma_midpoint_monotone(rr, a as nat, (kk - 1) as nat);
                }
                lemma_midpoint_monotone(rr, (kk - 1) as nat, kk as nat);
            }
            lemma_painted_same_region(
                old_view,
                self@,
                |px: int, py: int| disk_offset_upto(iabs(px - cx), iabs(py - cy), rr, kk),
                region,
                pixel,
            );
        }
    }

    /// Writes `pixel` into every pixel of the framebuffer.
    pub fn clear(&mut self, pixel: Pixel)
        ensures
            painted(old(self)@, final(self)@, |x: int, y: int| true, pixel),
    {
        proof {
            use_type_invariant(&*self);
            self.lemma_inv();
        }
        let ghost old_view = self@;
        let count = self.pixels.len() / 4;
        assert(count * 4 <= usize::MAX);
        let mut i: usize = 0;
        while i < count
            invariant
                self.width == old_view.width,
                self.height == old_view.height,
                self.pixels@.len() == old_view.bytes.len(),
                old_view.bytes.len() == self.width * self.height * 4,
                count * 4 == old_view.bytes.len(),
                count * 4 <= usize::MAX,
                i <= count,
                forall|k: int|
                    0 <= k < i ==> {
                        &&& #[trigger] self.pixels@[4 * k] == pixel.r
                        &&& self.pixels@[4 * k + 1] == pixel.g
                        &&& self.pixels@[4 * k + 2] == pixel.b
                        &&& self.pixels@[4 * k + 3] == pixel.a
                    },
            decreases count - i,
        {
            let base = i * 4;
            let ghost prev = self.pixels@;
            self.pixels[base] = pixel.r;
            self.pixels[base + 1] = pixel.g;
            self.pixels[base + 2] = pixel.b;
            self.pixels[base + 3] = pixel.a;
            proof {
                assert forall|k: int| 0 <= k < i + 1 implies {
                    &&& #[trigger] self.pixels@[4 * k] == pixel.r
                    &&& self.pixels@[4 * k + 1] == pixel.g
                    &&& self.pixels@[4 * k + 2] == pixel.b
                    &&& self.pixels@[4 * k + 3] == pixel.a
                } by {
                    if k < i {
                        assert(prev[4 * k] == pixel.r);
                    }
                }
            }
            i = i + 1;
        }
        proof {
            let new_view = self@;
            assert forall|x: int, y: int| old_view.in_bounds(x, y) implies #[trigger] new_view.pixel(x, y)
                == pixel by {
                lemma_pixel_index_bounds(old_view.width as int, old_view.height as int, x, y);
                let k = y * old_view.width + x;
                assert(self.pixels@[4 * k] == pixel.r);
                assert(new_view.byte_index(x, y) == 4 * k);
            }
        }
    }
}

} // verus!
