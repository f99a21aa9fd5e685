use vstd::prelude::*;

use crate::framebuffer::{lemma_pixel_index_bounds, mapped, painted, Framebuffer, RasterView};
use crate::image::{Image, ImageRegion};
use crate::pixel::{Pixel, Rect};

verus! {

/// Controls how a source image is fitted into a destination rectangle.
#[derive(Debug, Clone, Copy, PartialEq, Eq, Structural)]
pub enum ImageFit {
    /// Preserves aspect ratio as closely as integer raster dimensions allow and fits the
    /// complete source inside the destination. Unused destination pixels are left untouched.
    Contain,
    /// Preserves aspect ratio and fills the complete destination, cropping the source
    /// symmetrically around its center when the aspect ratios differ.
    Cover,
    /// Maps the complete source directly onto the destination without preserving aspect ratio.
    Stretch,
}

/// Controls how source texels are sampled while an image is scaled.
#[derive(Debug, Clone, Copy, PartialEq, Eq, Structural)]
pub enum ImageFilter {
    /// Selects the nearest source texel without blending neighboring texels.
    Nearest,
    /// Bilinearly interpolates the four neighboring texels with alpha-correct premultiplied
    /// color interpolation before framebuffer blending.
    Linear,
}

/// A destination rectangle in 64-bit signed coordinates.
#[derive(Debug, Clone, Copy, PartialEq, Eq, Structural)]
pub struct RasterRect {
    pub x: i64,
    pub y: i64,
    pub width: u32,
    pub height: u32,
}

/// Exact affine mapping from destination pixel centers to source texel-center coordinates:
/// `coordinate = (slope * (2 * destination_index + 1) + offset) / denominator`.
#[derive(Debug, Clone, Copy, PartialEq, Eq)]
pub struct AxisMap {
    slope: i128,
    offset: i128,
    denominator: i128,
}

/// The two texels that a linear sample blends and the weight of the higher one,
/// `weight_num / weight_den`.
#[derive(Debug, Clone, Copy, PartialEq, Eq, Structural)]
pub struct AxisSample {
    pub low: u32,
    pub high: u32,
    pub weight_num: u128,
    pub weight_den: u128,
}

/// Where a fitted image lands and how each destination axis maps back to the source.
#[derive(Debug, Clone, Copy, PartialEq, Eq)]
pub struct FitPlan {
    pub draw: RasterRect,
    pub x_map: AxisMap,
    pub y_map: AxisMap,
}

pub open spec fn clamp(v: int, lo: int, hi: int) -> int {
    if v < lo {
        lo
    } else if v > hi {
        hi
    } else {
        v
    }
}

pub open spec fn min_int(a: int, b: int) -> int {
    if a <= b {
        a
    } else {
        b
    }
}

pub open spec fn max_int(a: int, b: int) -> int {
    if a >= b {
        a
    } else {
        b
    }
}

/// The texel whose center is nearest to the source coordinate `n / d`, that is
/// `floor(n / d + 1/2)`, clamped to the `len` texels of the axis.
pub open spec fn nearest_texel(n: int, d: int, len: int) -> int {
    if len <= 1 {
        0
    } else {
        clamp((2 * n + d) / (2 * d), 0, len - 1)
    }
}

/// The two texels around the source coordinate `n / d` and its fractional part;
/// coordinates outside the axis clamp to its ends.
pub open spec fn linear_texels(n: int, d: int, len: int) -> AxisSample {
    if len <= 1 || n <= 0 {
        AxisSample { low: 0, high: 0, weight_num: 0, weight_den: 1 }
    } else if n >= (len - 1) * d {
        AxisSample { low: (len - 1) as u32, high: (len - 1) as u32, weight_num: 0, weight_den: 1 }
    } else {
        AxisSample { low: (n / d) as u32, high: (n / d + 1) as u32, weight_num: (n % d) as u128, weight_den: d as u128 }
    }
}

impl AxisMap {
    #[verifier::type_invariant]
    spec fn wf(self) -> bool {
        &&& 0 < self.slope <= u32::MAX
        &&& 0 < self.denominator <= 2 * (u32::MAX as int)
        &&& -0x1_0000_0000_0000_0000 <= self.offset <= 0x1_0000_0000_0000_0000
    }

    /// The numerator of the source coordinate of destination pixel `i`.
    pub closed spec fn numerator(self, i: int) -> int {
        self.slope * (2 * i + 1) + self.offset
    }

    /// The texel whose center is nearest to the source coordinate of destination pixel `i`,
    /// `floor(coordinate + 1/2)`, clamped to the `len` texels of the axis.
    pub closed spec fn nearest(self, i: int, len: int) -> int {
        nearest_texel(self.numerator(i), self.denominator as int, len)
    }

    /// The two texels around the source coordinate of destination pixel `i` and the
    /// fractional part of the coordinate; coordinates outside the axis clamp to its ends.
    pub closed spec fn linear(self, i: int, len: int) -> AxisSample {
        linear_texels(self.numerator(i), self.denominator as int, len)
    }

    /// Maps the whole source axis onto the whole destination axis.
    pub closed spec fn spec_full(source_len: int, destination_len: int) -> AxisMap {
        AxisMap {
            slope: source_len as i128,
            offset: (-destination_len) as i128,
            denominator: (2 * destination_len) as i128,
        }
    }

    /// Maps the destination axis onto a centered crop of the source axis, scaled by
    /// `scale_source_len / scale_destination_len`.
    pub closed spec fn spec_cover_crop(
        source_len: int,
        destination_len: int,
        scale_source_len: int,
        scale_destination_len: int,
    ) -> AxisMap {
        AxisMap {
            slope: scale_source_len as i128,
            offset: ((source_len - 1) * scale_destination_len - destination_len
                * scale_source_len) as i128,
            denominator: (2 * scale_destination_len) as i128,
        }
    }

    /// What the map of a whole axis gives destination pixel `i`: the source coordinate
    /// `(source_len * (2i + 1) - destination_len) / (2 * destination_len)`, in texels.
    pub proof fn lemma_full(source_len: int, destination_len: int, i: int, len: int)
        requires
            0 < source_len <= u32::MAX,
            0 < destination_len <= u32::MAX,
        ensures
            AxisMap::spec_full(source_len, destination_len).numerator(i) == source_len * (2 * i + 1)
                - destination_len,
            AxisMap::spec_full(source_len, destination_len).nearest(i, len) == nearest_texel(
                source_len * (2 * i + 1) - destination_len,
                2 * destination_len,
                len,
            ),
            AxisMap::spec_full(source_len, destination_len).linear(i, len) == linear_texels(
                source_len * (2 * i + 1) - destination_len,
                2 * destination_len,
                len,
            ),
    {
    }

    /// What the map of a centered crop gives destination pixel `i`: the source
    /// coordinate `(scale_source_len * (2i + 1) + (source_len - 1) * scale_destination_len
    /// - destination_len * scale_source_len) / (2 * scale_destination_len)`, in texels.
    pub proof fn lemma_cover_crop(
        source_len: int,
        destination_len: int,
        scale_source_len: int,
        scale_destination_len: int,
        i: int,
        len: int,
    )
        requires
            0 < source_len <= u32::MAX,
            0 < destination_len <= u32::MAX,
            0 < scale_source_len <= u32::MAX,
            0 < scale_destination_len <= u32::MAX,
        ensures
            ({
                let map = AxisMap::spec_cover_crop(source_len, destination_len, scale_source_len, scale_destination_len);
                let n = scale_source_len * (2 * i + 1) + (source_len - 1) * scale_destination_len - destination_len
                    * scale_source_len;
                &&& map.numerator(i) == n
                &&& map.nearest(i, len) == nearest_texel(n, 2 * scale_destination_len, len)
                &&& map.linear(i, len) == linear_texels(n, 2 * scale_destination_len, len)
            }),
    {
        assert(0 <= (source_len - 1) * scale_destination_len <= 0xffff_ffff * 0xffff_ffff) by (nonlinear_arith)
            requires
                1 <= source_len <= 0xffff_ffff,
                1 <= scale_destination_len <= 0xffff_ffff,
        ;
        assert(0 <= destination_len * scale_source_len <= 0xffff_ffff * 0xffff_ffff) by (nonlinear_arith)
            requires
                1 <= destination_len <= 0xffff_ffff,
                1 <= scale_source_len <= 0xffff_ffff,
        ;
    }

    fn full(source_len: u32, destination_len: u32) -> (map: AxisMap)
        requires
            source_len > 0,
            destination_len > 0,
        ensures
            map == AxisMap::spec_full(source_len as int, destination_len as int),
    {
        AxisMap {
            slope: source_len as i128,
            offset: -(destination_len as i128),
            denominator: destination_len as i128 * 2,
        }
    }

    fn cover_crop(
        source_len: u32,
        destination_len: u32,
        scale_source_len: u32,
        scale_destination_len: u32,
    ) -> (map: AxisMap)
        requires
            source_len > 0,
            destination_len > 0,
            scale_source_len > 0,
            scale_destination_len > 0,
        ensures
            map == AxisMap::spec_cover_crop(
                source_len as int,
                destination_len as int,
                scale_source_len as int,
                scale_destination_len as int,
            ),
    {
        let source_len = source_len as i128;
        let destination_len = destination_len as i128;
        let scale_source_len = scale_source_len as i128;
        let scale_destination_len = scale_destination_len as i128;
        assert(0 <= (source_len - 1) * scale_destination_len <= 0xffff_ffff * 0xffff_ffff)
            by (nonlinear_arith)
            requires
                1 <= source_len <= 0xffff_ffff,
                1 <= scale_destination_len <= 0xffff_ffff,
        ;
        assert(0 <= destination_len * scale_source_len <= 0xffff_ffff * 0xffff_ffff)
            by (nonlinear_arith)
            requires
                1 <= destination_len <= 0xffff_ffff,
                1 <= scale_source_len <= 0xffff_ffff,
        ;
        AxisMap {
            slope: scale_source_len,
            offset: (source_len - 1) * scale_destination_len - destination_len * scale_source_len,
            denominator: scale_destination_len * 2,
        }
    }

    fn coordinate_numerator(self, destination_index: u32) -> (n: i128)
        ensures
            n == self.numerator(destination_index as int),
            -0x1_0000_0000_0000_0000 <= n <= 0x4_0000_0000_0000_0000,
    {
        proof {
            use_type_invariant(&self);
        }
        let i = destination_index as i128;
        assert(0 < self.slope * (i * 2 + 1) <= 0xffff_ffff * (2 * 0xffff_ffff + 1)) by (nonlinear_arith)
            requires
                0 < self.slope <= 0xffff_ffff,
                0 <= i <= 0xffff_ffff,
        ;
        self.slope * (i * 2 + 1) + self.offset
    }

    /// The source texel nearest to the center of destination pixel `destination_index`
    /// on an axis of `source_len` texels.
    pub fn nearest_index(self, destination_index: u32, source_len: u32) -> (index: u32)
        ensures
            index == self.nearest(destination_index as int, source_len as int),
            source_len > 0 ==> index < source_len,
    {
        proof {
            use_type_invariant(&self);
        }
        if source_len <= 1 {
            return 0;
        }
        let edge_numerator = self.coordinate_numerator(destination_index) * 2 + self.denominator;
        if edge_numerator <= 0 {
            assert(edge_numerator as int / (2 * (self.denominator as int)) <= 0) by (nonlinear_arith)
                requires
                    edge_numerator <= 0,
                    self.denominator > 0,
            ;
            return 0;
        }
        let index = edge_numerator / (self.denominator * 2);
        assert(index >= 0) by (nonlinear_arith)
            requires
                edge_numerator > 0,
                self.denominator > 0,
                index == edge_numerator as int / (self.denominator as int * 2),
        ;
        let last = (source_len - 1) as i128;
        if index < last {
            index as u32
        } else {
            last as u32
        }
    }

    /// The texels around the center of destination pixel `destination_index` on an axis of
    /// `source_len` texels, with the interpolation weight of the higher one.
    pub fn linear_sample(self, destination_index: u32, source_len: u32) -> (sample: AxisSample)
        ensures
            sample == self.linear(destination_index as int, source_len as int),
            sample.low <= sample.high,
            source_len > 0 ==> sample.high < source_len,
            sample.high <= sample.low + 1,
            0 < sample.weight_den <= 2 * (u32::MAX as int),
            sample.weight_num < sample.weight_den,
    {
        proof {
            use_type_invariant(&self);
        }
        if source_len <= 1 {
            return AxisSample { low: 0, high: 0, weight_num: 0, weight_den: 1 };
        }
        let numerator = self.coordinate_numerator(destination_index);
        if numerator <= 0 {
            return AxisSample { low: 0, high: 0, weight_num: 0, weight_den: 1 };
        }
        let last = source_len - 1;
        assert(0 <= last as i128 * self.denominator <= 0xffff_ffff * (2 * 0xffff_ffff)) by (nonlinear_arith)
            requires
                0 <= last <= 0xffff_ffff,
                0 < self.denominator <= 2 * 0xffff_ffff,
        ;
        let last_numerator = last as i128 * self.denominator;
        if numerator >= last_numerator {
            return AxisSample { low: last, high: last, weight_num: 0, weight_den: 1 };
        }
        let quotient = numerator / self.denominator;
        let remainder = numerator % self.denominator;
        assert(0 <= quotient < last) by (nonlinear_arith)
            requires
                0 < numerator < last * self.denominator,
                self.denominator > 0,
                quotient == numerator as int / (self.denominator as int),
        ;
        assert(0 <= remainder < self.denominator) by (nonlinear_arith)
            requires
                self.denominator > 0,
                remainder == numerator as int % (self.denominator as int),
        ;
        let low = quotient as u32;
        AxisSample {
            low,
            high: low + 1,
            weight_num: remainder as u128,
            weight_den: self.denominator as u128,
        }
    }
}

/// Drawn extent `(width, height)` of a `sw` x `sh` source contained in a `dw` x `dh`
/// destination: the limiting axis is filled, the other rounds down and keeps at least one pixel.
pub open spec fn contain_extent(dw: int, dh: int, sw: int, sh: int) -> (int, int) {
    if dw * sh <= dh * sw {
        (dw, clamp(dw * sh / sw, 1, dh))
    } else {
        (clamp(dh * sw / sh, 1, dw), dh)
    }
}

/// Whether fitting has nothing to draw.
pub open spec fn fit_is_empty(region: ImageRegion, destination: Rect) -> bool {
    region.width == 0 || region.height == 0 || destination.width == 0 || destination.height == 0
}

/// Where a fitted region is drawn: `Contain` centers its extent inside the destination,
/// `Cover` and `Stretch` use the whole destination.
pub open spec fn fit_draw_rect(region: ImageRegion, destination: Rect, fit: ImageFit) -> RasterRect {
    match fit {
        ImageFit::Contain => {
            let extent = contain_extent(
                destination.width as int,
                destination.height as int,
                region.width as int,
                region.height as int,
            );
            RasterRect {
                x: (destination.x + (destination.width - extent.0) / 2) as i64,
                y: (destination.y + (destination.height - extent.1) / 2) as i64,
                width: extent.0 as u32,
                height: extent.1 as u32,
            }
        },
        _ => RasterRect {
            x: destination.x as i64,
            y: destination.y as i64,
            width: destination.width,
            height: destination.height,
        },
    }
}

/// The axis maps of a fit: the whole source onto the drawn extent, except that `Cover`
/// crops the axis whose source is relatively longer around its center.
pub open spec fn fit_maps(region: ImageRegion, destination: Rect, fit: ImageFit) -> (AxisMap, AxisMap) {
    let sw = region.width as int;
    let sh = region.height as int;
    let dw = destination.width as int;
    let dh = destination.height as int;
    match fit {
        ImageFit::Stretch => (AxisMap::spec_full(sw, dw), AxisMap::spec_full(sh, dh)),
        ImageFit::Contain => {
            let extent = contain_extent(dw, dh, sw, sh);
            (AxisMap::spec_full(sw, extent.0), AxisMap::spec_full(sh, extent.1))
        },
        ImageFit::Cover => if dw * sh >= dh * sw {
            (AxisMap::spec_full(sw, dw), AxisMap::spec_cover_crop(sh, dh, sw, dw))
        } else {
            (AxisMap::spec_cover_crop(sw, dw, sh, dh), AxisMap::spec_full(sh, dh))
        },
    }
}

/// Plans how `region` is fitted into `destination`; `None` when either is empty.
pub fn fit_plan(region: ImageRegion, destination: Rect, fit: ImageFit) -> (plan: Option<FitPlan>)
    ensures
        plan is None <==> fit_is_empty(region, destination),
        plan matches Some(p) ==> p.draw == fit_draw_rect(region, destination, fit) && (
        p.x_map,
        p.y_map,
        ) == fit_maps(region, destination, fit),
        plan matches Some(p) ==> {
            &&& destination.x <= p.draw.x
            &&& p.draw.x + p.draw.width <= destination.x + destination.width
            &&& destination.y <= p.draw.y
            &&& p.draw.y + p.draw.height <= destination.y + destination.height
            &&& p.draw.width >= 1
            &&& p.draw.height >= 1
        },
{
    if region.width == 0 || region.height == 0 || destination.width == 0 || destination.height == 0 {
        return None;
    }
    let source_width = region.width;
    let source_height = region.height;
    let destination_x = destination.x as i64;
    let destination_y = destination.y as i64;
    let dw = destination.width as u128;
    let dh = destination.height as u128;
    let sw = source_width as u128;
    let sh = source_height as u128;
    assert(dw * sh <= 0xffff_ffff * 0xffff_ffff) by (nonlinear_arith)
        requires
            dw <= 0xffff_ffff,
            sh <= 0xffff_ffff,
    ;
    assert(dh * sw <= 0xffff_ffff * 0xffff_ffff) by (nonlinear_arith)
        requires
            dh <= 0xffff_ffff,
            sw <= 0xffff_ffff,
    ;
    match fit {
        ImageFit::Stretch => Some(
            FitPlan {
                draw: RasterRect {
                    x: destination_x,
                    y: destination_y,
                    width: destination.width,
                    height: destination.height,
                },
                x_map: AxisMap::full(source_width, destination.width),
                y_map: AxisMap::full(source_height, destination.height),
            },
        ),
        ImageFit::Contain => {
            let width_limited = dw * sh <= dh * sw;
            let ghost extent = contain_extent(dw as int, dh as int, sw as int, sh as int);
            let (draw_width, draw_height) = if width_limited {
                let scaled = dw * sh / sw;
                assert(scaled <= dh) by (nonlinear_arith)
                    requires
                        dw * sh <= dh * sw,
                        sw > 0,
                        scaled == (dw * sh) / (sw as int),
                ;
                let height = scaled as u32;
                let height = if height < 1 { 1 } else { height };
                let height = if height > destination.height { destination.height } else { height };
                (destination.width, height)
            } else {
                let scaled = dh * sw / sh;
                assert(scaled <= dw) by (nonlinear_arith)
                    requires
                        dh * sw < dw * sh,
                        sh > 0,
                        scaled == (dh * sw) / (sh as int),
                ;
                let width = scaled as u32;
                let width = if width < 1 { 1 } else { width };
                let width = if width > destination.width { destination.width } else { width };
                (width, destination.height)
            };
            assert(draw_width == extent.0 && draw_height == extent.1);
            Some(
                FitPlan {
                    draw: RasterRect {
                        x: destination_x + ((destination.width - draw_width) / 2) as i64,
                        y: destination_y + ((destination.height - draw_height) / 2) as i64,
                        width: draw_width,
                        height: draw_height,
                    },
                    x_map: AxisMap::full(source_width, draw_width),
                    y_map: AxisMap::full(source_height, draw_height),
                },
            )
        },
        ImageFit::Cover => {
            let width_dominates = dw * sh >= dh * sw;
            let (x_map, y_map) = if width_dominates {
                (
                    AxisMap::full(source_width, destination.width),
                    AxisMap::cover_crop(
                        source_height,
                        destination.height,
                        source_width,
                        destination.width,
                    ),
                )
            } else {
                (
                    AxisMap::cover_crop(
                        source_width,
                        destination.width,
                        source_height,
                        destination.height,
                    ),
                    AxisMap::full(source_height, destination.height),
                )
            };
            Some(
                FitPlan {
                    draw: RasterRect {
                        x: destination_x,
                        y: destination_y,
                        width: destination.width,
                        height: destination.height,
                    },
                    x_map,
                    y_map,
                },
            )
        },
    }
}

/// `region` clipped to a `width` x `height` image; `None` when nothing of it remains.
pub open spec fn clipped_region(width: int, height: int, region: ImageRegion) -> Option<ImageRegion> {
    if width == 0 || height == 0 || region.width == 0 || region.height == 0 || region.x >= width
        || region.y >= height {
        None
    } else {
        Some(
            ImageRegion {
                x: region.x,
                y: region.y,
                width: (min_int(region.x + region.width, width) - region.x) as u32,
                height: (min_int(region.y + region.height, height) - region.y) as u32,
            },
        )
    }
}

fn clipped_source_region(image: &Image, region: ImageRegion) -> (clipped: Option<ImageRegion>)
    ensures
        clipped == clipped_region(image@.width as int, image@.height as int, region),
        clipped matches Some(c) ==> 0 < c.width && c.x + c.width <= image@.width && 0 < c.height
            && c.y + c.height <= image@.height,
        clipped matches Some(c) ==> c.x + c.width <= u32::MAX && c.y + c.height <= u32::MAX,
{
    if image.width() == 0 || image.height() == 0 || region.width == 0 || region.height == 0
        || region.x >= image.width() || region.y >= image.height() {
        return None;
    }
    let end_x = region.x.saturating_add(region.width);
    let max_x = if end_x < image.width() { end_x } else { image.width() };
    let end_y = region.y.saturating_add(region.height);
    let max_y = if end_y < image.height() { end_y } else { image.height() };
    if max_x <= region.x || max_y <= region.y {
        return None;
    }
    Some(ImageRegion::new(region.x, region.y, max_x - region.x, max_y - region.y))
}

/// The part `(left, top, right, bottom)` of `draw` inside a `width` x `height` framebuffer,
/// right and bottom exclusive; `None` when they do not overlap.
pub open spec fn visible_rect(width: int, height: int, draw: RasterRect) -> Option<(int, int, int, int)> {
    let left = max_int(draw.x as int, 0);
    let top = max_int(draw.y as int, 0);
    let right = min_int(draw.x + draw.width, width);
    let bottom = min_int(draw.y + draw.height, height);
    if width == 0 || height == 0 || draw.width == 0 || draw.height == 0 || left >= right || top
        >= bottom {
        None
    } else {
        Some((left, top, right, bottom))
    }
}

fn visible_destination(framebuffer: &Framebuffer, destination: RasterRect) -> (visible: Option<(u32, u32, u32, u32)>)
    requires
        -0x1_0000_0000 <= destination.x <= 0x1_0000_0000,
        -0x1_0000_0000 <= destination.y <= 0x1_0000_0000,
    ensures
        visible is None <==> visible_rect(
            framebuffer@.width as int,
            framebuffer@.height as int,
            destination,
        ) is None,
        visible matches Some(v) ==> visible_rect(
            framebuffer@.width as int,
            framebuffer@.height as int,
            destination,
        ) == Some((v.0 as int, v.1 as int, v.2 as int, v.3 as int)),
{
    if framebuffer.width() == 0 || framebuffer.height() == 0 || destination.width == 0
        || destination.height == 0 {
        return None;
    }
    let left = if destination.x > 0 { destination.x } else { 0 };
    let top = if destination.y > 0 { destination.y } else { 0 };
    let end_x = destination.x + destination.width as i64;
    let right = if end_x < framebuffer.width() as i64 { end_x } else { framebuffer.width() as i64 };
    let end_y = destination.y + destination.height as i64;
    let bottom = if end_y < framebuffer.height() as i64 { end_y } else { framebuffer.height() as i64 };
    if left >= right || top >= bottom {
        return None;
    }
    Some((left as u32, top as u32, right as u32, bottom as u32))
}

/// The four bytes of a color, in RGBA order.
pub open spec fn rgba_seq(p: Pixel) -> Seq<u8> {
    seq![p.r, p.g, p.b, p.a]
}

/// The texel at `(x, y)`, or transparent black outside the image.
pub open spec fn texel(image: RasterView, x: int, y: int) -> Pixel {
    if image.in_bounds(x, y) {
        image.pixel(x, y)
    } else {
        Pixel { r: 0, g: 0, b: 0, a: 0 }
    }
}

/// One premultiplied color channel of a bilinear sample: the alpha-weighted mean of the
/// four texel values, rounded to nearest and capped at 255.
pub open spec fn premultiplied_mean(
    c0: int,
    c1: int,
    c2: int,
    c3: int,
    a0: int,
    a1: int,
    a2: int,
    a3: int,
    w0: int,
    w1: int,
    w2: int,
    w3: int,
    alpha_weighted: int,
) -> int {
    min_int(
        (c0 * a0 * w0 + c1 * a1 * w1 + c2 * a2 * w2 + c3 * a3 * w3 + alpha_weighted / 2)
            / alpha_weighted,
        255,
    )
}

/// Bilinear interpolation of four texels with premultiplied alpha: alpha is the weighted
/// mean of the four alphas, each color channel the alpha-weighted mean of the four colors,
/// and a sample whose alpha rounds to zero is transparent black.
pub open spec fn bilinear_pixel(
    top_left: Pixel,
    top_right: Pixel,
    bottom_left: Pixel,
    bottom_right: Pixel,
    x: AxisSample,
    y: AxisSample,
) -> Pixel {
    let x_low = x.weight_den - x.weight_num;
    let y_low = y.weight_den - y.weight_num;
    let denominator = x.weight_den * y.weight_den;
    let w0 = x_low * y_low;
    let w1 = x.weight_num * y_low;
    let w2 = x_low * y.weight_num;
    let w3 = x.weight_num * y.weight_num;
    let alpha_weighted = top_left.a * w0 + top_right.a * w1 + bottom_left.a * w2 + bottom_right.a
        * w3;
    let alpha = min_int((alpha_weighted + denominator / 2) / denominator, 255);
    if alpha == 0 {
        Pixel { r: 0, g: 0, b: 0, a: 0 }
    } else {
        Pixel {
            r: premultiplied_mean(
                top_left.r as int,
                top_right.r as int,
                bottom_left.r as int,
                bottom_right.r as int,
                top_left.a as int,
                top_right.a as int,
                bottom_left.a as int,
                bottom_right.a as int,
                w0,
                w1,
                w2,
                w3,
                alpha_weighted,
            ) as u8,
            g: premultiplied_mean(
                top_left.g as int,
                top_right.g as int,
                bottom_left.g as int,
                bottom_right.g as int,
                top_left.a as int,
                top_right.a as int,
                bottom_left.a as int,
                bottom_right.a as int,
                w0,
                w1,
                w2,
                w3,
                alpha_weighted,
            ) as u8,
            b: premultiplied_mean(
                top_left.b as int,
                top_right.b as int,
                bottom_left.b as int,
                bottom_right.b as int,
                top_left.a as int,
                top_right.a as int,
                bottom_left.a as int,
                bottom_right.a as int,
                w0,
                w1,
                w2,
                w3,
                alpha_weighted,
            ) as u8,
            a: alpha as u8,
        }
    }
}

/// The source color that destination pixel `(dx, dy)` of the drawn rectangle samples from
/// `region` of `image`.
pub open spec fn sample_pixel(
    image: RasterView,
    region: ImageRegion,
    x_map: AxisMap,
    y_map: AxisMap,
    dx: int,
    dy: int,
    filter: ImageFilter,
) -> Pixel {
    match filter {
        ImageFilter::Nearest => texel(
            image,
            region.x + x_map.nearest(dx, region.width as int),
            region.y + y_map.nearest(dy, region.height as int),
        ),
        ImageFilter::Linear => {
            let xs = x_map.linear(dx, region.width as int);
            let ys = y_map.linear(dy, region.height as int);
            bilinear_pixel(
                texel(image, region.x + xs.low, region.y + ys.low),
                texel(image, region.x + xs.high, region.y + ys.low),
                texel(image, region.x + xs.low, region.y + ys.high),
                texel(image, region.x + xs.high, region.y + ys.high),
                xs,
                ys,
            )
        },
    }
}

/// Source-over blending of one 8-bit channel with rounding.
pub open spec fn blend_channel(source: int, destination: int, source_alpha: int) -> int {
    (source * source_alpha + destination * (255 - source_alpha) + 127) / 255
}

/// `source` composited over `destination`: transparent sources leave the destination,
/// opaque ones replace it, others blend each channel and accumulate alpha.
pub open spec fn blend_over(source: Pixel, destination: Pixel) -> Pixel {
    if source.a == 0 {
        destination
    } else if source.a == 255 {
        source
    } else {
        Pixel {
            r: blend_channel(source.r as int, destination.r as int, source.a as int) as u8,
            g: blend_channel(source.g as int, destination.g as int, source.a as int) as u8,
            b: blend_channel(source.b as int, destination.b as int, source.a as int) as u8,
            a: min_int(source.a + (destination.a * (255 - source.a) + 127) / 255, 255) as u8,
        }
    }
}

fn image_pixel_rgba(image: &Image, x: u32, y: u32) -> (rgba: [u8; 4])
    ensures
        rgba@ == rgba_seq(texel(image@, x as int, y as int)),
{
    let bytes = image.as_rgba8();
    if x >= image.width() || y >= image.height() {
        return [0, 0, 0, 0];
    }
    proof {
        lemma_pixel_index_bounds(image@.width as int, image@.height as int, x as int, y as int);
    }
    let index = (y as usize * image.width() as usize + x as usize) * 4;
    [bytes[index], bytes[index + 1], bytes[index + 2], bytes[index + 3]]
}

proof fn lemma_weighted_term(c: int, a: int, w: int)
    requires
        0 <= c <= 255,
        0 <= a <= 255,
        0 <= w,
    ensures
        0 <= a * w <= 255 * w,
        0 <= c * a <= 65025,
        0 <= c * a * w <= 65025 * w,
{
    assert(0 <= c * a <= 65025) by (nonlinear_arith)
        requires
            0 <= c <= 255,
            0 <= a <= 255,
    ;
    assert(0 <= a * w <= 255 * w) by (nonlinear_arith)
        requires
            0 <= a <= 255,
            0 <= w,
    ;
    assert(0 <= c * a * w <= 65025 * w) by (nonlinear_arith)
        requires
            0 <= c <= 255,
            0 <= a <= 255,
            0 <= w,
    ;
}

fn premultiplied_channel(
    c0: u8,
    c1: u8,
    c2: u8,
    c3: u8,
    a0: u8,
    a1: u8,
    a2: u8,
    a3: u8,
    w0: u128,
    w1: u128,
    w2: u128,
    w3: u128,
    alpha_weighted: u128,
) -> (channel: u8)
    requires
        w0 + w1 + w2 + w3 <= 0x4_0000_0000_0000_0000_0,
        alpha_weighted == a0 * w0 + a1 * w1 + a2 * w2 + a3 * w3,
        alpha_weighted > 0,
    ensures
        channel == premultiplied_mean(
            c0 as int,
            c1 as int,
            c2 as int,
            c3 as int,
            a0 as int,
            a1 as int,
            a2 as int,
            a3 as int,
            w0 as int,
            w1 as int,
            w2 as int,
            w3 as int,
            alpha_weighted as int,
        ),
{
    proof {
        lemma_weighted_term(c0 as int, a0 as int, w0 as int);
        lemma_weighted_term(c1 as int, a1 as int, w1 as int);
        lemma_weighted_term(c2 as int, a2 as int, w2 as int);
        lemma_weighted_term(c3 as int, a3 as int, w3 as int);
    }
    let weighted = c0 as u128 * a0 as u128 * w0 + c1 as u128 * a1 as u128 * w1 + c2 as u128
        * a2 as u128 * w2 + c3 as u128 * a3 as u128 * w3;
    let mean = (weighted + alpha_weighted / 2) / alpha_weighted;
    if mean > 255 {
        255
    } else {
        mean as u8
    }
}

fn bilinear_rgba(
    top_left: Pixel,
    top_right: Pixel,
    bottom_left: Pixel,
    bottom_right: Pixel,
    x: AxisSample,
    y: AxisSample,
) -> (rgba: [u8; 4])
    requires
        x.weight_num < x.weight_den <= 2 * (u32::MAX as int),
        y.weight_num < y.weight_den <= 2 * (u32::MAX as int),
    ensures
        rgba@ == rgba_seq(bilinear_pixel(top_left, top_right, bottom_left, bottom_right, x, y)),
{
    let x_low = x.weight_den - x.weight_num;
    let y_low = y.weight_den - y.weight_num;
    assert(x.weight_den * y.weight_den <= 0x2_0000_0000 * 0x2_0000_0000) by (nonlinear_arith)
        requires
            x.weight_den <= 0x2_0000_0000,
            y.weight_den <= 0x2_0000_0000,
    ;
    assert(x_low * y_low + x.weight_num * y_low + x_low * y.weight_num + x.weight_num * y.weight_num
        == x.weight_den * y.weight_den) by (nonlinear_arith)
        requires
            x_low == x.weight_den - x.weight_num,
            y_low == y.weight_den - y.weight_num,
    ;
    assert(0 <= x_low * y_low && 0 <= x.weight_num * y_low && 0 <= x_low * y.weight_num && 0
        <= x.weight_num * y.weight_num) by (nonlinear_arith)
        requires
            0 <= x_low,
            0 <= y_low,
            0 <= x.weight_num,
            0 <= y.weight_num,
    ;
    assert(x.weight_den * y.weight_den > 0) by (nonlinear_arith)
        requires
            x.weight_den > 0,
            y.weight_den > 0,
    ;
    assert(x.weight_den * y.weight_den > 0) by (nonlinear_arith)
        requires
            x.weight_den > 0,
            y.weight_den > 0,
    ;
    let denominator = x.weight_den * y.weight_den;
    let w0 = x_low * y_low;
    let w1 = x.weight_num * y_low;
    let w2 = x_low * y.weight_num;
    let w3 = x.weight_num * y.weight_num;
    proof {
        lemma_weighted_term(0, top_left.a as int, w0 as int);
        lemma_weighted_term(0, top_right.a as int, w1 as int);
        lemma_weighted_term(0, bottom_left.a as int, w2 as int);
        lemma_weighted_term(0, bottom_right.a as int, w3 as int);
    }
    let alpha_weighted = top_left.a as u128 * w0 + top_right.a as u128 * w1 + bottom_left.a as u128
        * w2 + bottom_right.a as u128 * w3;
    let rounded = (alpha_weighted + denominator / 2) / denominator;
    let alpha: u8 = if rounded > 255 {
        255
    } else {
        rounded as u8
    };
    if alpha == 0 {
        return [0, 0, 0, 0];
    }
    assert(alpha_weighted > 0) by {
        if alpha_weighted == 0 {
            assert((0 + denominator as int / 2) / (denominator as int) == 0) by (nonlinear_arith)
                requires
                    denominator > 0,
            ;
        }
    }
    let r = premultiplied_channel(
        top_left.r,
        top_right.r,
        bottom_left.r,
        bottom_right.r,
        top_left.a,
        top_right.a,
        bottom_left.a,
        bottom_right.a,
        w0,
        w1,
        w2,
        w3,
        alpha_weighted,
    );
    let g = premultiplied_channel(
        top_left.g,
        top_right.g,
        bottom_left.g,
        bottom_right.g,
        top_left.a,
        top_right.a,
        bottom_left.a,
        bottom_right.a,
        w0,
        w1,
        w2,
        w3,
        alpha_weighted,
    );
    let b = premultiplied_channel(
        top_left.b,
        top_right.b,
        bottom_left.b,
        bottom_right.b,
        top_left.a,
        top_right.a,
        bottom_left.a,
        bottom_right.a,
        w0,
        w1,
        w2,
        w3,
        alpha_weighted,
    );
    [r, g, b, alpha]
}

fn rgba_pixel(rgba: [u8; 4]) -> (pixel: Pixel)
    ensures
        rgba@ == rgba_seq(pixel),
{
    Pixel::rgba(rgba[0], rgba[1], rgba[2], rgba[3])
}

/// Samples `region` of `image` for pixel `(destination_x, destination_y)` of the drawn
/// rectangle with the given axis maps and filter.
pub fn sample_rgba(
    image: &Image,
    region: ImageRegion,
    x_map: AxisMap,
    y_map: AxisMap,
    destination_x: u32,
    destination_y: u32,
    filter: ImageFilter,
) -> (rgba: [u8; 4])
    requires
        region.x + region.width <= u32::MAX,
        region.y + region.height <= u32::MAX,
    ensures
        rgba@ == rgba_seq(
            sample_pixel(
                image@,
                region,
                x_map,
                y_map,
                destination_x as int,
                destination_y as int,
                filter,
            ),
        ),
{
    match filter {
        ImageFilter::Nearest => {
            let source_x = region.x + x_map.nearest_index(destination_x, region.width);
            let source_y = region.y + y_map.nearest_index(destination_y, region.height);
            image_pixel_rgba(image, source_x, source_y)
        },
        ImageFilter::Linear => {
            let x = x_map.linear_sample(destination_x, region.width);
            let y = y_map.linear_sample(destination_y, region.height);
            let top_left = rgba_pixel(image_pixel_rgba(image, region.x + x.low, region.y + y.low));
            let top_right = rgba_pixel(image_pixel_rgba(image, region.x + x.high, region.y + y.low));
            let bottom_left = rgba_pixel(
                image_pixel_rgba(image, region.x + x.low, region.y + y.high),
            );
            let bottom_right = rgba_pixel(
                image_pixel_rgba(image, region.x + x.high, region.y + y.high),
            );
            bilinear_rgba(top_left, top_right, bottom_left, bottom_right, x, y)
        },
    }
}

proof fn lemma_blend_channel_bounds(s: int, d: int, sa: int)
    requires
        0 <= s <= 255,
        0 <= d <= 255,
        0 <= sa <= 255,
    ensures
        0 <= s * sa <= 65025,
        0 <= d * (255 - sa) <= 65025,
        s * sa + d * (255 - sa) <= 65025,
        0 <= (s * sa + d * (255 - sa) + 127) / 255 <= 255,
{
    assert(0 <= s * sa <= 255 * sa) by (nonlinear_arith)
        requires
            0 <= s <= 255,
            0 <= sa,
    ;
    assert(0 <= d * (255 - sa) <= 255 * (255 - sa)) by (nonlinear_arith)
        requires
            0 <= d <= 255,
            0 <= 255 - sa,
    ;
}

fn blend_scaled_pixel(framebuffer: &mut Framebuffer, x: u32, y: u32, source: Pixel)
    ensures
        mapped(
            old(framebuffer)@,
            final(framebuffer)@,
            |px: int, py: int, p: Pixel|
                if px == x && py == y {
                    blend_over(source, p)
                } else {
                    p
                },
        ),
{
    let ghost old_view = framebuffer@;
    if x >= framebuffer.width() || y >= framebuffer.height() || source.a == 0 {
        return;
    }
    let blended = if source.a == 255 {
        Pixel::rgba(source.r, source.g, source.b, 255)
    } else {
        let destination = framebuffer.pixel_in_bounds(x, y);
        proof {
            lemma_blend_channel_bounds(source.r as int, destination.r as int, source.a as int);
            lemma_blend_channel_bounds(source.g as int, destination.g as int, source.a as int);
            lemma_blend_channel_bounds(source.b as int, destination.b as int, source.a as int);
            lemma_blend_channel_bounds(0, destination.a as int, source.a as int);
        }
        let source_alpha = source.a as u16;
        let inverse_alpha = 255 - source_alpha;
        let r = ((source.r as u16 * source_alpha + destination.r as u16 * inverse_alpha + 127) / 255) as u8;
        let g = ((source.g as u16 * source_alpha + destination.g as u16 * inverse_alpha + 127) / 255) as u8;
        let b = ((source.b as u16 * source_alpha + destination.b as u16 * inverse_alpha + 127) / 255) as u8;
        let output_alpha = source_alpha + ((destination.a as u16 * inverse_alpha + 127) / 255);
        let a: u8 = if output_alpha > 255 {
            255
        } else {
            output_alpha as u8
        };
        Pixel::rgba(r, g, b, a)
    };
    assert(blended == blend_over(source, old_view.pixel(x as int, y as int)));
    framebuffer.set_pixel_in_bounds(x, y, blended);
}

/// The color `plan` gives the framebuffer pixel `(px, py)` whose previous color is `p`.
pub open spec fn plan_color(
    image: RasterView,
    region: ImageRegion,
    plan: FitPlan,
    filter: ImageFilter,
    px: int,
    py: int,
    p: Pixel,
) -> Pixel {
    blend_over(
        sample_pixel(image, region, plan.x_map, plan.y_map, px - plan.draw.x, py - plan.draw.y, filter),
        p,
    )
}

/// The color that fitting `region` of `image` into `destination` leaves at pixel
/// `(px, py)` of a `width` x `height` framebuffer whose previous color there is `p`:
/// pixels of the drawn rectangle that lie inside the framebuffer get the sampled color
/// blended over them, all others keep their color.
pub open spec fn fitted_color(
    image: RasterView,
    region: ImageRegion,
    destination: Rect,
    fit: ImageFit,
    filter: ImageFilter,
    width: int,
    height: int,
    px: int,
    py: int,
    p: Pixel,
) -> Pixel {
    match clipped_region(image.width as int, image.height as int, region) {
        None => p,
        Some(r) => if fit_is_empty(r, destination) {
            p
        } else {
            let draw = fit_draw_rect(r, destination, fit);
            let maps = fit_maps(r, destination, fit);
            match visible_rect(width, height, draw) {
                None => p,
                Some(v) => if v.0 <= px < v.2 && v.1 <= py < v.3 {
                    plan_color(image, r, FitPlan { draw, x_map: maps.0, y_map: maps.1 }, filter, px, py, p)
                } else {
                    p
                },
            }
        },
    }
}

impl Framebuffer {
    /// Composites the RGBA color `rgba` over pixel `(x, y)`; coordinates outside the
    /// framebuffer change nothing.
    pub fn blend_rgba8(&mut self, x: u32, y: u32, rgba: &[u8; 4])
        ensures
            mapped(
                old(self)@,
                final(self)@,
                |px: int, py: int, p: Pixel|
                    if px == x && py == y {
                        blend_over(Pixel { r: rgba@[0], g: rgba@[1], b: rgba@[2], a: rgba@[3] }, p)
                    } else {
                        p
                    },
            ),
    {
        blend_scaled_pixel(self, x, y, Pixel::rgba(rgba[0], rgba[1], rgba[2], rgba[3]));
    }

    /// Draws a complete image into `destination` using the selected fitting and filtering modes.
    ///
    /// `Contain` preserves aspect ratio as closely as integer raster dimensions allow and leaves
    /// letterbox/pillarbox pixels untouched. `Cover` preserves aspect ratio and performs a
    /// centered crop. `Stretch` maps the complete source to the complete destination. Drawing is
    /// clipped to the framebuffer.
    pub fn draw_image_fit(&mut self, image: &Image, destination: Rect, fit: ImageFit, filter: ImageFilter)
        ensures
            mapped(
                old(self)@,
                final(self)@,
                |px: int, py: int, p: Pixel|
                    fitted_color(
                        image@,
                        ImageRegion { x: 0, y: 0, width: image@.width as u32, height: image@.height as u32 },
                        destination,
                        fit,
                        filter,
                        old(self)@.width as int,
                        old(self)@.height as int,
                        px,
                        py,
                        p,
                    ),
            ),
    {
        self.draw_image_region_fit(
            image,
            ImageRegion::new(0, 0, image.width(), image.height()),
            destination,
            fit,
            filter,
        );
    }

    /// Draws a source image region into `destination` using the selected fitting and filtering modes.
    ///
    /// The source region is clipped to the image before fitting. Empty source or destination
    /// rectangles draw nothing. Sampling uses pixel-center coordinates and never reads outside
    /// the clipped source region.
    pub fn draw_image_region_fit(
        &mut self,
        image: &Image,
        region: ImageRegion,
        destination: Rect,
        fit: ImageFit,
        filter: ImageFilter,
    )
        ensures
            mapped(
                old(self)@,
                final(self)@,
                |px: int, py: int, p: Pixel|
                    fitted_color(
                        image@,
                        region,
                        destination,
                        fit,
                        filter,
                        old(self)@.width as int,
                        old(self)@.height as int,
                        px,
                        py,
                        p,
                    ),
            ),
    {
        let ghost old_view = self@;
        let ghost image_view = image@;
        let clipped = match clipped_source_region(image, region) {
            Some(clipped) => clipped,
            None => {
                assert(mapped(old_view, self@, |px: int, py: int, p: Pixel| p));
                return ;
            },
        };
        let plan = match fit_plan(clipped, destination, fit) {
            Some(plan) => plan,
            None => {
                assert(mapped(old_view, self@, |px: int, py: int, p: Pixel| p));
                return ;
            },
        };
        let (left, top, right, bottom) = match visible_destination(self, plan.draw) {
            Some(bounds) => bounds,
            None => {
                assert(mapped(old_view, self@, |px: int, py: int, p: Pixel| p));
                return ;
            },
        };
        let mut destination_y = top;
        while destination_y < bottom
            invariant
                top <= destination_y <= bottom,
                left < right <= old_view.width,
                bottom <= old_view.height,
                plan.draw.x <= left,
                right <= plan.draw.x + plan.draw.width,
                plan.draw.y <= top,
                bottom <= plan.draw.y + plan.draw.height,
                clipped.x + clipped.width <= u32::MAX,
                clipped.y + clipped.height <= u32::MAX,
                image@ == image_view,
                self@.width == old_view.width,
                self@.height == old_view.height,
                self@.bytes.len() == old_view.bytes.len(),
                forall|px: int, py: int|
                    old_view.in_bounds(px, py) ==> #[trigger] self@.pixel(px, py) == if left <= px
                        < right && top <= py < destination_y {
                        plan_color(image_view, clipped, plan, filter, px, py, old_view.pixel(px, py))
                    } else {
                        old_view.pixel(px, py)
                    },
            decreases bottom - destination_y,
        {
            let local_y = (destination_y as i64 - plan.draw.y) as u32;
            let mut destination_x = left;
            while destination_x < right
                invariant
                    top <= destination_y < bottom,
                    left <= destination_x <= right,
                    right <= old_view.width,
                    bottom <= old_view.height,
                    plan.draw.x <= left,
                    right <= plan.draw.x + plan.draw.width,
                    local_y == destination_y - plan.draw.y,
                    clipped.x + clipped.width <= u32::MAX,
                    clipped.y + clipped.height <= u32::MAX,
                    image@ == image_view,
                    self@.width == old_view.width,
                    self@.height == old_view.height,
                    self@.bytes.len() == old_view.bytes.len(),
                    forall|px: int, py: int|
                        old_view.in_bounds(px, py) ==> #[trigger] self@.pixel(px, py) == if left
                            <= px < right && top <= py && (py < destination_y || (py
                            == destination_y && px < destination_x)) {
                            plan_color(image_view, clipped, plan, filter, px, py, old_view.pixel(px, py))
                        } else {
                            old_view.pixel(px, py)
                        },
                decreases right - destination_x,
            {
                let local_x = (destination_x as i64 - plan.draw.x) as u32;
                let source = sample_rgba(
                    image,
                    clipped,
                    plan.x_map,
                    plan.y_map,
                    local_x,
                    local_y,
                    filter,
                );
                let ghost before = self@;
                blend_scaled_pixel(self, destination_x, destination_y, rgba_pixel(source));
                proof {
                    assert(before.pixel(destination_x as int, destination_y as int) == old_view.pixel(
                        destination_x as int,
                        destination_y as int,
                    ));
                    assert forall|px: int, py: int| old_view.in_bounds(px, py) implies #[trigger] self@.pixel(
                        px,
                        py,
                    ) == if left <= px < right && top <= py && (py < destination_y || (py
                        == destination_y && px < destination_x + 1)) {
                        plan_color(image_view, clipped, plan, filter, px, py, old_view.pixel(px, py))
                    } else {
                        old_view.pixel(px, py)
                    } by {
                        assert(before.pixel(px, py) == if left <= px < right && top <= py && (py
                            < destination_y || (py == destination_y && px < destination_x)) {
                            plan_color(image_view, clipped, plan, filter, px, py, old_view.pixel(px, py))
                        } else {
                            old_view.pixel(px, py)
                        });
                    }
                }
                destination_x = destination_x + 1;
            }
            destination_y = destination_y + 1;
        }
        proof {
            let new_view = self@;
            assert forall|px: int, py: int| old_view.in_bounds(px, py) implies #[trigger] new_view.pixel(
                px,
                py,
            ) == fitted_color(
                image_view,
                region,
                destination,
                fit,
                filter,
                old_view.width as int,
                old_view.height as int,
                px,
                py,
                old_view.pixel(px, py),
            ) by {
            }
        }
    }
}

} // verus!
