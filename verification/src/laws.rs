//! Properties that relate several operations of the library.

use vstd::prelude::*;

use crate::audio::SoundBankView;
use crate::audio_wav::{pcm16_data, wav_header};
use crate::diagnostics::{incremented, SaturatingCounter};
use crate::framebuffer::{fits_i32, painted, rect_outline_drawn, RasterView};
use crate::image::ImageRegion;
use crate::image_fit::{
    bilinear_pixel, blend_over, clamp, clipped_region, contain_extent, fit_draw_rect, fit_is_empty, fit_maps,
    fitted_color, plan_color, sample_pixel, texel, visible_rect, AxisSample, FitPlan, ImageFilter, ImageFit,
};
use crate::bitmap_font::{bitmap_advance, bitmap_char_covers, bitmap_text_covers_upto, BitmapFont};
use crate::builtin_text::{builtin_advance, builtin_char_covers, builtin_text_covers, effective_scale, widen_rows};
use crate::diagnostics::{OpaqueText, OPAQUE_TEXT_CAPACITY};
use crate::font5x7::font_glyph;
use crate::framebuffer::{in_rect, mapped};
use crate::glyph::{glyph_cell, glyph_covers};
use crate::input::{
    key_slot, Key, after_press, ButtonState,
    gamepad_axis_slot, gamepad_button_slot, GamepadAxis, GamepadButton, GamepadCapabilitiesView, GamepadCapability,
    GAMEPAD_BUTTON_COUNT,
};
use crate::input_state::one_changed;
use crate::mirror_http::{ascii_lowercase, mirror_address_text, trimmed};
use crate::pixel::{Pixel, Rect};
use crate::storage::portable_key;
use crate::text::{text_covers_upto, text_char_covers, text_glyph_rows};
use crate::sprite::{saturating_sub_i32, sprite_color, SpriteView};
use crate::presentation::{mapped_point, PixelPresentation};
use crate::render_outcome::{acquisition_failure, acquisition_outcome, RenderOutcome, SurfaceAcquisition};
use crate::sfx_manifest::{key_position, lookup, put};

verus! {

/// After a pixel is painted, reading it back gives the painted color, and every other
/// pixel keeps its color.
pub proof fn law_paint_then_read(old: RasterView, new: RasterView, x: int, y: int, color: Pixel)
    requires
        painted(old, new, |px: int, py: int| px == x && py == y, color),
        old.in_bounds(x, y),
    ensures
        new.pixel(x, y) == color,
        forall|px: int, py: int|
            old.in_bounds(px, py) && (px != x || py != y) ==> #[trigger] new.pixel(px, py)
                == old.pixel(px, py),
{
    assert(new.pixel(x, y) == color);
}

/// Every pixel of a rectangle's outline lies inside the rectangle that `fill_rect` paints.
pub proof fn law_outline_within_filled_rect(px: int, py: int, x: int, y: int, width: int, height: int)
    requires
        rect_outline_drawn(px, py, x, y, width, height),
    ensures
        in_rect(px, py, x, y, width, height),
{
}

/// Fitting an image never changes a framebuffer pixel outside the destination rectangle.
pub proof fn law_fit_stays_inside_destination(
    image: RasterView,
    region: ImageRegion,
    destination: Rect,
    fit: ImageFit,
    filter: ImageFilter,
    width: int,
    height: int,
    px: int,
    py: int,
    p: Pixel,
)
    requires
        !in_rect(
            px,
            py,
            destination.x as int,
            destination.y as int,
            destination.width as int,
            destination.height as int,
        ),
    ensures
        fitted_color(image, region, destination, fit, filter, width, height, px, py, p) == p,
{
    match clipped_region(image.width as int, image.height as int, region) {
        None => {},
        Some(r) => {
            if !fit_is_empty(r, destination) {
                let draw = fit_draw_rect(r, destination, fit);
                let dw = destination.width as int;
                let dh = destination.height as int;
                let sw = r.width as int;
                let sh = r.height as int;
                if fit == ImageFit::Contain {
                    let extent = contain_extent(dw, dh, sw, sh);
                    if dw * sh <= dh * sw {
                        assert(1 <= clamp(dw * sh / sw, 1, dh) <= dh);
                    } else {
                        assert(1 <= clamp(dh * sw / sh, 1, dw) <= dw);
                    }
                    assert(1 <= extent.0 <= dw && 1 <= extent.1 <= dh);
                    assert(0 <= (dw - extent.0) / 2 <= dw - extent.0);
                    assert(0 <= (dh - extent.1) / 2 <= dh - extent.1);
                }
                assert(destination.x <= draw.x && draw.x + draw.width <= destination.x + dw);
                assert(destination.y <= draw.y && draw.y + draw.height <= destination.y + dh);
                match visible_rect(width, height, draw) {
                    None => {},
                    Some(v) => {
                        assert(!(v.0 <= px < v.2 && v.1 <= py < v.3));
                    },
                }
            }
        },
    }
}

/// Mapping a host point of the presented surface back gives the source pixel whose
/// block contains it.
pub proof fn law_map_point_finds_the_block(
    presentation: PixelPresentation,
    sx: int,
    sy: int,
    px: int,
    py: int,
)
    requires
        0 < presentation.scale <= i32::MAX,
        presentation.rect.width == presentation.source_size.width * presentation.scale,
        presentation.rect.height == presentation.source_size.height * presentation.scale,
        0 <= sx < presentation.source_size.width,
        0 <= sy < presentation.source_size.height,
        presentation.rect.x + sx * presentation.scale <= px < presentation.rect.x + sx
            * presentation.scale + presentation.scale,
        presentation.rect.y + sy * presentation.scale <= py < presentation.rect.y + sy
            * presentation.scale + presentation.scale,
        fits_i32(px - presentation.rect.x),
        fits_i32(py - presentation.rect.y),
    ensures
        mapped_point(presentation, px, py) == Some((sx, sy)),
{
    let s = presentation.scale as int;
    let lx = px - presentation.rect.x;
    let ly = py - presentation.rect.y;
    assert(0 <= sx * s) by (nonlinear_arith)
        requires
            0 <= sx,
            0 < s,
    ;
    assert(0 <= sy * s) by (nonlinear_arith)
        requires
            0 <= sy,
            0 < s,
    ;
    assert(lx < presentation.rect.width) by (nonlinear_arith)
        requires
            lx < sx * s + s,
            sx + 1 <= presentation.source_size.width,
            presentation.rect.width == presentation.source_size.width * s,
            0 < s,
    ;
    assert(ly < presentation.rect.height) by (nonlinear_arith)
        requires
            ly < sy * s + s,
            sy + 1 <= presentation.source_size.height,
            presentation.rect.height == presentation.source_size.height * s,
            0 < s,
    ;
    assert(lx / s == sx) by (nonlinear_arith)
        requires
            sx * s <= lx < sx * s + s,
            0 < s,
    ;
    assert(ly / s == sy) by (nonlinear_arith)
        requires
            sy * s <= ly < sy * s + s,
            0 < s,
    ;
}

/// A sound stored in a bank that did not hold its name is found again with its bytes.
pub proof fn law_stored_sound_is_found(
    old: SoundBankView,
    new: SoundBankView,
    id: Seq<char>,
    bytes: Seq<u8>,
)
    requires
        old.unique(),
        !old.contains(id),
        new.assets == old.assets.push((id, bytes)),
    ensures
        new.unique(),
        new.contains(id),
        new.bytes(id) == bytes,
        forall|other: Seq<char>| other != id ==> (#[trigger] new.contains(other) == old.contains(other)),
{
    let last = old.assets.len() as int;
    assert(new.assets[last].0 == id);
    assert forall|i: int, j: int| 0 <= i < j < new.assets.len() implies (#[trigger] new.assets[i]).0
        != (#[trigger] new.assets[j]).0 by {
        assert(new.assets[i] == old.assets[i]);
        if j < last {
            assert(new.assets[j] == old.assets[j]);
        }
    }
    let k = choose|k: int| 0 <= k < new.assets.len() && (#[trigger] new.assets[k]).0 == id;
    if k != last {
        assert(new.assets[k] == old.assets[k]);
    }
    assert forall|other: Seq<char>| other != id implies (#[trigger] new.contains(other)
        == old.contains(other)) by {
        if old.contains(other) {
            let i = choose|i: int| 0 <= i < old.assets.len() && (#[trigger] old.assets[i]).0 == other;
            assert(new.assets[i] == old.assets[i]);
        }
        if new.contains(other) {
            let i = choose|i: int| 0 <= i < new.assets.len() && (#[trigger] new.assets[i]).0 == other;
            assert(new.assets[i] == old.assets[i]);
        }
    }
}

/// A saturating counter never goes down, and only stays put once it is saturated at
/// `u64::MAX`.
pub proof fn law_counter_never_wraps(counter: SaturatingCounter)
    ensures
        incremented(counter).value >= counter.value,
        incremented(counter).value == counter.value ==> counter.value == u64::MAX && incremented(
            counter,
        ).saturated,
        counter.saturated ==> incremented(counter).saturated,
{
}

/// A mono 16-bit WAV file is its 44-byte header followed by two bytes per sample.
pub proof fn law_wav_length(sample_rate: int, samples: Seq<i16>)
    ensures
        (wav_header(sample_rate, (samples.len() * 2) as int) + pcm16_data(samples)).len() == 44 + 2
            * samples.len(),
{
}

/// Distinct storage keys are stored in distinct files.
pub proof fn law_storage_names_are_distinct(a: Seq<char>, b: Seq<char>)
    requires
        a + ".txt"@ == b + ".txt"@,
    ensures
        a == b,
{
    let suffix = ".txt"@;
    assert((a + suffix).len() == (b + suffix).len());
    assert(a.len() == b.len());
    assert forall|i: int| 0 <= i < a.len() implies a[i] == b[i] by {
        assert((a + suffix)[i] == (b + suffix)[i]);
    }
    assert(a =~= b);
}

proof fn lemma_key_position_found(entries: Seq<(Seq<char>, Seq<Seq<char>>)>, key: Seq<char>, start: int)
    requires
        0 <= start,
    ensures
        key_position(entries, key, start) < 0 ==> forall|i: int|
            start <= i < entries.len() ==> (#[trigger] entries[i]).0 != key,
        key_position(entries, key, start) >= 0 ==> start <= key_position(entries, key, start) < entries.len()
            && entries[key_position(entries, key, start)].0 == key
            && forall|i: int| start <= i < key_position(entries, key, start) ==> (#[trigger] entries[i]).0 != key,
    decreases entries.len() - start,
{
    if start < entries.len() && entries[start].0 != key {
        lemma_key_position_found(entries, key, start + 1);
    }
}

proof fn lemma_key_position_is_first(entries: Seq<(Seq<char>, Seq<Seq<char>>)>, key: Seq<char>, start: int, k: int)
    requires
        0 <= start <= k < entries.len(),
        entries[k].0 == key,
        forall|i: int| start <= i < k ==> (#[trigger] entries[i]).0 != key,
    ensures
        key_position(entries, key, start) == k,
    decreases k - start,
{
    if start < k {
        lemma_key_position_is_first(entries, key, start + 1, k);
    }
}

proof fn lemma_key_position_absent(entries: Seq<(Seq<char>, Seq<Seq<char>>)>, key: Seq<char>, start: int)
    requires
        0 <= start,
        forall|i: int| start <= i < entries.len() ==> (#[trigger] entries[i]).0 != key,
    ensures
        key_position(entries, key, start) < 0,
    decreases entries.len() - start,
{
    if start < entries.len() {
        lemma_key_position_absent(entries, key, start + 1);
    }
}

/// Reading a manifest entry back after storing paths under its name gives those
/// paths, and every other name keeps what it had.
pub proof fn law_manifest_put_then_lookup(
    entries: Seq<(Seq<char>, Seq<Seq<char>>)>,
    key: Seq<char>,
    paths: Seq<Seq<char>>,
    other: Seq<char>,
)
    requires
        other != key,
    ensures
        lookup(put(entries, key, paths), key) == Some(paths),
        lookup(put(entries, key, paths), other) == lookup(entries, other),
{
    let next = put(entries, key, paths);
    lemma_key_position_found(entries, key, 0);
    lemma_key_position_found(entries, other, 0);
    let position = key_position(entries, key, 0);
    if position < 0 {
        assert(next[entries.len() as int] == (key, paths));
        assert forall|i: int| 0 <= i < entries.len() implies (#[trigger] next[i]).0 != key by {
            assert(next[i] == entries[i]);
        }
        lemma_key_position_is_first(next, key, 0, entries.len() as int);
        let before = key_position(entries, other, 0);
        if before < 0 {
            assert forall|i: int| 0 <= i < next.len() implies (#[trigger] next[i]).0 != other by {
                if i < entries.len() {
                    assert(next[i] == entries[i]);
                }
            }
            lemma_key_position_absent(next, other, 0);
        } else {
            assert forall|i: int| 0 <= i < before implies (#[trigger] next[i]).0 != other by {
                assert(next[i] == entries[i]);
            }
            assert(next[before] == entries[before]);
            lemma_key_position_is_first(next, other, 0, before);
        }
    } else {
        assert forall|i: int| 0 <= i < position implies (#[trigger] next[i]).0 != key by {
            assert(next[i] == entries[i]);
        }
        lemma_key_position_is_first(next, key, 0, position);
        let before = key_position(entries, other, 0);
        if before < 0 {
            assert forall|i: int| 0 <= i < next.len() implies (#[trigger] next[i]).0 != other by {
                if i != position {
                    assert(next[i] == entries[i]);
                }
            }
            lemma_key_position_absent(next, other, 0);
        } else {
            assert(before != position);
            assert forall|i: int| 0 <= i < before implies (#[trigger] next[i]).0 != other by {
                if i != position {
                    assert(next[i] == entries[i]);
                }
            }
            assert(next[before] == entries[before]);
            lemma_key_position_is_first(next, other, 0, before);
        }
    }
}

/// A render records a surface failure exactly when it does not present the frame, and
/// the failures that call for reconfiguring the surface are the outdated and lost ones.
pub proof fn law_failed_acquisition_is_not_presented(acquisition: SurfaceAcquisition)
    ensures
        acquisition_failure(acquisition) is Some <==> acquisition_outcome(acquisition)
            != RenderOutcome::Presented,
        acquisition_outcome(acquisition) == RenderOutcome::SurfaceChanged <==> (acquisition_failure(
            acquisition,
        ) == Some(crate::diagnostics::SurfaceFailure::Outdated) || acquisition_failure(acquisition)
            == Some(crate::diagnostics::SurfaceFailure::Lost)),
{
}

/// Setting one button's capability changes that button alone: reading it back gives
/// the new capability, and every other button and every axis keep theirs.
pub proof fn law_capability_set_then_read(
    old: GamepadCapabilitiesView,
    new: GamepadCapabilitiesView,
    button: GamepadButton,
    capability: GamepadCapability,
)
    requires
        old.buttons.len() == GAMEPAD_BUTTON_COUNT,
        new.buttons == old.buttons.update(gamepad_button_slot(button), capability),
        new.axes == old.axes,
    ensures
        new.buttons[gamepad_button_slot(button)] == capability,
        forall|other: GamepadButton|
            other != button ==> new.buttons[#[trigger] gamepad_button_slot(other)] == old.buttons[gamepad_button_slot(
                other,
            )],
        forall|axis: GamepadAxis| new.axes[#[trigger] gamepad_axis_slot(axis)] == old.axes[gamepad_axis_slot(axis)],
{
    assert forall|other: GamepadButton| other != button implies new.buttons[#[trigger] gamepad_button_slot(other)]
        == old.buttons[gamepad_button_slot(other)] by {
        assert(gamepad_button_slot(other) != gamepad_button_slot(button));
    }
}

/// Drawing never changes a framebuffer's extent: after any sequence of operations that
/// each paint a region or map every pixel, width, height and byte length are those of
/// the start.
pub proof fn law_drawing_keeps_extent(
    views: Seq<RasterView>,
    regions: Seq<spec_fn(int, int) -> bool>,
    colors: Seq<Pixel>,
    maps: Seq<spec_fn(int, int, Pixel) -> Pixel>,
)
    requires
        views.len() >= 1,
        regions.len() == views.len() - 1,
        colors.len() == views.len() - 1,
        maps.len() == views.len() - 1,
        forall|i: int|
            1 <= i < views.len() ==> painted(views[i - 1], #[trigger] views[i], regions[i - 1], colors[i - 1])
                || mapped(views[i - 1], views[i], maps[i - 1]),
    ensures
        views.last().width == views[0].width,
        views.last().height == views[0].height,
        views.last().bytes.len() == views[0].bytes.len(),
    decreases views.len(),
{
    if views.len() > 1 {
        let n = views.len() - 1;
        let front = views.drop_last();
        assert forall|i: int| 1 <= i < front.len() implies painted(
            front[i - 1],
            #[trigger] front[i],
            regions.drop_last()[i - 1],
            colors.drop_last()[i - 1],
        ) || mapped(front[i - 1], front[i], maps.drop_last()[i - 1]) by {
            assert(front[i] == views[i]);
            assert(front[i - 1] == views[i - 1]);
        }
        law_drawing_keeps_extent(front, regions.drop_last(), colors.drop_last(), maps.drop_last());
        assert(front.last() == views[n - 1]);
        assert(painted(views[n - 1], views[n], regions[n - 1], colors[n - 1]) || mapped(
            views[n - 1],
            views[n],
            maps[n - 1],
        ));
    }
}

/// Every built-in glyph has seven rows.
proof fn lemma_font_glyph_rows(character: char)
    ensures
        font_glyph(character).len() == 7,
{
}

/// Built-in text stays in its box: every pixel it paints lies in
/// `[x, x + 6s * n - s) x [y, y + 7s)` for `n` characters at effective scale `s`; the
/// `k`-th character is placed `k` advances right of `x`, an advance being `6s` while
/// that fits in `u32`; and scale zero draws as scale one.
pub proof fn law_builtin_text_box(px: int, py: int, x: int, y: int, chars: Seq<char>, scale: int)
    requires
        0 <= scale <= u32::MAX,
    ensures
        builtin_text_covers(px, py, x, y, chars, scale) ==> {
            let s = effective_scale(scale);
            &&& x <= px < x + 6 * s * chars.len() - s
            &&& y <= py < y + 7 * s
        },
        6 * effective_scale(scale) <= u32::MAX ==> builtin_advance(scale) == 6 * effective_scale(scale),
        builtin_text_covers(px, py, x, y, chars, 0) == builtin_text_covers(px, py, x, y, chars, 1),
{
    let s = effective_scale(scale);
    let adv = builtin_advance(scale);
    assert(0 <= adv <= 6 * s);
    if builtin_text_covers(px, py, x, y, chars, scale) {
        let i = choose|i: int| 0 <= i < chars.len() && #[trigger] builtin_char_covers(px, py, x, y, chars, scale, i);
        let rows = widen_rows(font_glyph(chars[i]));
        lemma_font_glyph_rows(chars[i]);
        let (r, c) = choose|r: int, c: int| #[trigger] glyph_cell(px, py, x + i * adv, y, rows, 5, s, r, c);
        assert(0 <= r < 7 && 0 <= c < 5);
        assert(in_rect(px, py, x + i * adv + c * s, y + r * s, s, s));
        assert(0 <= i * adv <= (chars.len() - 1) * (6 * s)) by (nonlinear_arith)
            requires
                0 <= i <= chars.len() - 1,
                0 <= adv <= 6 * s,
        ;
        assert(0 <= c * s <= 4 * s && c * s + s <= 5 * s) by (nonlinear_arith)
            requires
                0 <= c < 5,
                s >= 1,
        ;
        assert(0 <= r * s && r * s + s <= 7 * s) by (nonlinear_arith)
            requires
                0 <= r < 7,
                s >= 1,
        ;
        assert((chars.len() - 1) * (6 * s) + 5 * s == 6 * s * chars.len() - s) by (nonlinear_arith);
    }
    assert(effective_scale(0) == effective_scale(1));
    assert(builtin_advance(0) == builtin_advance(1));
    if builtin_text_covers(px, py, x, y, chars, 0) {
        let i = choose|i: int| 0 <= i < chars.len() && #[trigger] builtin_char_covers(px, py, x, y, chars, 0, i);
        assert(builtin_char_covers(px, py, x, y, chars, 1, i));
    }
    if builtin_text_covers(px, py, x, y, chars, 1) {
        let i = choose|i: int| 0 <= i < chars.len() && #[trigger] builtin_char_covers(px, py, x, y, chars, 1, i);
        assert(builtin_char_covers(px, py, x, y, chars, 0, i));
    }
}

/// Drawing a sprite centered on a point draws the same pixels as drawing it with its
/// top-left corner moved up and left by half its extent, saturating at `i32`.
pub proof fn law_centered_sprite_is_shifted_draw(
    sprite: SpriteView,
    old: RasterView,
    centered: RasterView,
    shifted: RasterView,
    center_x: int,
    center_y: int,
)
    requires
        mapped(
            old,
            centered,
            |px: int, py: int, p: Pixel|
                sprite_color(
                    sprite,
                    saturating_sub_i32(center_x, sprite.width as int / 2),
                    saturating_sub_i32(center_y, sprite.height as int / 2),
                    px,
                    py,
                    p,
                ),
        ),
        mapped(
            old,
            shifted,
            |px: int, py: int, p: Pixel|
                sprite_color(
                    sprite,
                    saturating_sub_i32(center_x, sprite.width as int / 2),
                    saturating_sub_i32(center_y, sprite.height as int / 2),
                    px,
                    py,
                    p,
                ),
        ),
    ensures
        centered.width == shifted.width,
        centered.height == shifted.height,
        forall|px: int, py: int| old.in_bounds(px, py) ==> #[trigger] centered.pixel(px, py) == shifted.pixel(px, py),
{
}

/// A new bank holds nothing, and a bank never forgets a stored sound: a successful
/// insertion keeps every name it held and adds the new one, and registering a sound
/// leaves the assets as they were.
pub proof fn law_bank_keeps_what_it_holds(
    empty: SoundBankView,
    old: SoundBankView,
    inserted: SoundBankView,
    registered: SoundBankView,
    id: Seq<char>,
    bytes: Seq<u8>,
    other: Seq<char>,
)
    requires
        empty.assets.len() == 0,
        inserted.assets == old.assets.push((id, bytes)),
        registered.assets == old.assets,
    ensures
        !empty.contains(other),
        inserted.contains(id),
        old.contains(other) ==> inserted.contains(other),
        registered.contains(other) == old.contains(other),
{
    assert(inserted.assets[old.assets.len() as int].0 == id);
    if old.contains(other) {
        let i = choose|i: int| 0 <= i < old.assets.len() && (#[trigger] old.assets[i]).0 == other;
        assert(inserted.assets[i] == old.assets[i]);
    }
}

/// Among any four consecutive positions up to the end of valid UTF-8, one is a
/// character boundary: no character takes more than four bytes.
proof fn lemma_boundary_within_three(bytes: Seq<u8>, k: int) -> (j: int)
    requires
        vstd::utf8::valid_utf8(bytes),
        0 <= k <= bytes.len(),
    ensures
        k - 3 <= j <= k,
        0 <= j,
        vstd::utf8::is_char_boundary(bytes, j),
    decreases bytes.len(),
{
    if k <= 3 {
        0
    } else {
        let l = vstd::utf8::length_of_first_scalar(bytes);
        let rest = vstd::utf8::pop_first_scalar(bytes);
        assert(bytes.len() != 0);
        assert(1 <= l <= 4);
        assert(l <= bytes.len());
        assert(rest.len() == bytes.len() - l);
        let j2 = lemma_boundary_within_three(rest, k - l);
        let j = j2 + l;
        assert(vstd::utf8::is_char_boundary(bytes, j));
        j
    }
}

/// A truncated diagnostic text keeps at least `OPAQUE_TEXT_CAPACITY - 3` bytes, since
/// a character has at most four; text that fits is kept whole.
pub proof fn law_opaque_text_keeps_most(text: OpaqueText, bytes: Seq<u8>)
    requires
        vstd::utf8::valid_utf8(bytes),
        text.bounded_prefix_of(bytes),
    ensures
        text.is_truncated() ==> vstd::utf8::encode_utf8(text@).len() >= OPAQUE_TEXT_CAPACITY - 3,
        bytes.len() <= OPAQUE_TEXT_CAPACITY ==> !text.is_truncated() && vstd::utf8::encode_utf8(text@) == bytes,
{
    let kept = vstd::utf8::encode_utf8(text@).len() as int;
    let limit = if bytes.len() < OPAQUE_TEXT_CAPACITY { bytes.len() as int } else { OPAQUE_TEXT_CAPACITY as int };
    let j = lemma_boundary_within_three(bytes, limit);
    vstd::utf8::is_char_boundary_start_end_of_seq(bytes);
    if bytes.len() <= OPAQUE_TEXT_CAPACITY {
        if kept < bytes.len() {
            assert(!vstd::utf8::is_char_boundary(bytes, bytes.len() as int));
        }
        assert(bytes.take(bytes.len() as int) =~= bytes);
    }
    if text.is_truncated() && kept < OPAQUE_TEXT_CAPACITY - 3 {
        assert(kept < j);
        assert(!vstd::utf8::is_char_boundary(bytes, j));
    }
}

/// Text drawn with a bitmap font is the concatenation of its parts: drawing `t1 + t2`
/// paints what drawing `t1` and then `t2`, `t1`'s length in advances further right,
/// paints; characters without a glyph paint nothing but still take their advance.
pub proof fn law_bitmap_text_concatenates(
    font: BitmapFont,
    t1: Seq<char>,
    t2: Seq<char>,
    x: int,
    y: int,
    scale: int,
    color: Pixel,
    old: RasterView,
    first: RasterView,
    both: RasterView,
    whole: RasterView,
)
    requires
        painted(
            old,
            first,
            |px: int, py: int| bitmap_text_covers_upto(px, py, x, y, font, t1, scale, t1.len() as int),
            color,
        ),
        painted(
            first,
            both,
            |px: int, py: int|
                bitmap_text_covers_upto(
                    px,
                    py,
                    x + t1.len() * bitmap_advance(font, scale),
                    y,
                    font,
                    t2,
                    scale,
                    t2.len() as int,
                ),
            color,
        ),
        painted(
            old,
            whole,
            |px: int, py: int| bitmap_text_covers_upto(px, py, x, y, font, t1 + t2, scale, (t1 + t2).len() as int),
            color,
        ),
    ensures
        whole.width == both.width,
        whole.height == both.height,
        forall|px: int, py: int| old.in_bounds(px, py) ==> #[trigger] whole.pixel(px, py) == both.pixel(px, py),
{
    let n1 = t1.len() as int;
    let t = t1 + t2;
    let adv = bitmap_advance(font, scale);
    let shifted = x + n1 * adv;
    assert forall|px: int, py: int| old.in_bounds(px, py) implies #[trigger] whole.pixel(px, py) == both.pixel(
        px,
        py,
    ) by {
        assert(first.pixel(px, py) == (if bitmap_text_covers_upto(px, py, x, y, font, t1, scale, n1) {
            color
        } else {
            old.pixel(px, py)
        }));
        assert(first.in_bounds(px, py));
        let in_whole = bitmap_text_covers_upto(px, py, x, y, font, t, scale, t.len() as int);
        let in_first = bitmap_text_covers_upto(px, py, x, y, font, t1, scale, n1);
        let in_second = bitmap_text_covers_upto(px, py, shifted, y, font, t2, scale, t2.len() as int);
        if in_whole {
            let i = choose|i: int| 0 <= i < t.len() && #[trigger] bitmap_char_covers(px, py, x, y, font, t, scale, i);
            if i < n1 {
                assert(t[i] == t1[i]);
                assert(bitmap_char_covers(px, py, x, y, font, t1, scale, i));
            } else {
                let j = i - n1;
                assert(t[i] == t2[j]);
                assert(x + i * adv == shifted + j * adv) by (nonlinear_arith)
                    requires
                        shifted == x + n1 * adv,
                        j == i - n1,
                ;
                assert(bitmap_char_covers(px, py, shifted, y, font, t2, scale, j));
            }
        }
        if in_first {
            let i = choose|i: int| 0 <= i < n1 && #[trigger] bitmap_char_covers(px, py, x, y, font, t1, scale, i);
            assert(t[i] == t1[i]);
            assert(bitmap_char_covers(px, py, x, y, font, t, scale, i));
        }
        if in_second {
            let j = choose|j: int|
                0 <= j < t2.len() && #[trigger] bitmap_char_covers(px, py, shifted, y, font, t2, scale, j);
            let i = j + n1;
            assert(t[i] == t2[j]);
            assert(x + i * adv == shifted + j * adv) by (nonlinear_arith)
                requires
                    shifted == x + n1 * adv,
                    i == j + n1,
            ;
            assert(bitmap_char_covers(px, py, x, y, font, t, scale, i));
        }
        assert(in_whole == (in_first || in_second));
    }
}

/// Two colors look the same once composited: equal alpha, and equal color where the
/// alpha is not zero.
pub open spec fn visibly_equal(p: Pixel, q: Pixel) -> bool {
    p.a == q.a && (p.a != 0 ==> p == q)
}

/// Two images of the same extent whose texels look the same, whatever color hides
/// under a zero alpha.
pub open spec fn same_visible_texels(a: RasterView, b: RasterView) -> bool {
    &&& a.width == b.width
    &&& a.height == b.height
    &&& forall|x: int, y: int| a.in_bounds(x, y) ==> visibly_equal(#[trigger] a.pixel(x, y), b.pixel(x, y))
}

proof fn lemma_hidden_term(c: int, d: int, a: int, w: int)
    requires
        a == 0 || c == d,
    ensures
        c * a * w == d * a * w,
{
    if a == 0 {
        assert(c * a * w == 0) by (nonlinear_arith)
            requires
                a == 0,
        ;
        assert(d * a * w == 0) by (nonlinear_arith)
            requires
                a == 0,
        ;
    }
}

proof fn lemma_bilinear_hidden(
    p0: Pixel,
    p1: Pixel,
    p2: Pixel,
    p3: Pixel,
    q0: Pixel,
    q1: Pixel,
    q2: Pixel,
    q3: Pixel,
    xs: AxisSample,
    ys: AxisSample,
)
    requires
        visibly_equal(p0, q0),
        visibly_equal(p1, q1),
        visibly_equal(p2, q2),
        visibly_equal(p3, q3),
    ensures
        bilinear_pixel(p0, p1, p2, p3, xs, ys) == bilinear_pixel(q0, q1, q2, q3, xs, ys),
{
    let x_low = xs.weight_den - xs.weight_num;
    let y_low = ys.weight_den - ys.weight_num;
    let w0 = x_low * y_low;
    let w1 = xs.weight_num * y_low;
    let w2 = x_low * ys.weight_num;
    let w3 = xs.weight_num * ys.weight_num;
    lemma_hidden_term(p0.r as int, q0.r as int, p0.a as int, w0);
    lemma_hidden_term(p1.r as int, q1.r as int, p1.a as int, w1);
    lemma_hidden_term(p2.r as int, q2.r as int, p2.a as int, w2);
    lemma_hidden_term(p3.r as int, q3.r as int, p3.a as int, w3);
    lemma_hidden_term(p0.g as int, q0.g as int, p0.a as int, w0);
    lemma_hidden_term(p1.g as int, q1.g as int, p1.a as int, w1);
    lemma_hidden_term(p2.g as int, q2.g as int, p2.a as int, w2);
    lemma_hidden_term(p3.g as int, q3.g as int, p3.a as int, w3);
    lemma_hidden_term(p0.b as int, q0.b as int, p0.a as int, w0);
    lemma_hidden_term(p1.b as int, q1.b as int, p1.a as int, w1);
    lemma_hidden_term(p2.b as int, q2.b as int, p2.a as int, w2);
    lemma_hidden_term(p3.b as int, q3.b as int, p3.a as int, w3);
}

proof fn lemma_texel_hidden(a: RasterView, b: RasterView, x: int, y: int)
    requires
        same_visible_texels(a, b),
    ensures
        visibly_equal(texel(a, x, y), texel(b, x, y)),
{
    if a.in_bounds(x, y) {
        assert(visibly_equal(a.pixel(x, y), b.pixel(x, y)));
    }
}

/// Color hidden under a zero alpha never reaches the framebuffer: fitting two images
/// that differ only there gives every framebuffer pixel the same color, with either
/// filter and any fit.
pub proof fn law_hidden_colour_never_bleeds(
    a: RasterView,
    b: RasterView,
    region: ImageRegion,
    destination: Rect,
    fit: ImageFit,
    filter: ImageFilter,
    width: int,
    height: int,
    px: int,
    py: int,
    p: Pixel,
)
    requires
        same_visible_texels(a, b),
    ensures
        fitted_color(a, region, destination, fit, filter, width, height, px, py, p) == fitted_color(
            b,
            region,
            destination,
            fit,
            filter,
            width,
            height,
            px,
            py,
            p,
        ),
{
    match clipped_region(a.width as int, a.height as int, region) {
        None => {},
        Some(r) => {
            if !fit_is_empty(r, destination) {
                let draw = fit_draw_rect(r, destination, fit);
                let maps = fit_maps(r, destination, fit);
                let dx = px - draw.x;
                let dy = py - draw.y;
                let sa = sample_pixel(a, r, maps.0, maps.1, dx, dy, filter);
                let sb = sample_pixel(b, r, maps.0, maps.1, dx, dy, filter);
                match filter {
                    ImageFilter::Nearest => {
                        lemma_texel_hidden(
                            a,
                            b,
                            r.x + maps.0.nearest(dx, r.width as int),
                            r.y + maps.1.nearest(dy, r.height as int),
                        );
                    },
                    ImageFilter::Linear => {
                        let xs = maps.0.linear(dx, r.width as int);
                        let ys = maps.1.linear(dy, r.height as int);
                        lemma_texel_hidden(a, b, r.x + xs.low, r.y + ys.low);
                        lemma_texel_hidden(a, b, r.x + xs.high, r.y + ys.low);
                        lemma_texel_hidden(a, b, r.x + xs.low, r.y + ys.high);
                        lemma_texel_hidden(a, b, r.x + xs.high, r.y + ys.high);
                        lemma_bilinear_hidden(
                            texel(a, r.x + xs.low, r.y + ys.low),
                            texel(a, r.x + xs.high, r.y + ys.low),
                            texel(a, r.x + xs.low, r.y + ys.high),
                            texel(a, r.x + xs.high, r.y + ys.high),
                            texel(b, r.x + xs.low, r.y + ys.low),
                            texel(b, r.x + xs.high, r.y + ys.low),
                            texel(b, r.x + xs.low, r.y + ys.high),
                            texel(b, r.x + xs.high, r.y + ys.high),
                            xs,
                            ys,
                        );
                    },
                }
                assert(visibly_equal(sa, sb));
                assert(blend_over(sa, p) == blend_over(sb, p));
                let plan = FitPlan { draw, x_map: maps.0, y_map: maps.1 };
                assert(plan_color(a, r, plan, filter, px, py, p) == plan_color(b, r, plan, filter, px, py, p));
            }
        },
    }
}

/// Which keys a storage key may hold, by character code: ASCII letters of either
/// case, digits, `.`, `_` and `-`.
pub open spec fn file_name_safe(c: char) -> bool {
    let v = c as u32;
    ||| 0x41 <= v <= 0x5a
    ||| 0x61 <= v <= 0x7a
    ||| 0x30 <= v <= 0x39
    ||| v == 0x2e
    ||| v == 0x5f
    ||| v == 0x2d
}

/// A storage key is accepted exactly when it is non-empty, is neither `.` nor `..`, and
/// holds only ASCII letters of either case, digits, `.`, `_` and `-`; so changing the
/// case of its ASCII letters never changes whether it is accepted.
pub proof fn law_portable_storage_keys(key: Seq<char>)
    ensures
        portable_key(key) <==> (key.len() > 0 && key != seq!['.'] && key != seq!['.', '.'] && forall|i: int|
            0 <= i < key.len() ==> file_name_safe(#[trigger] key[i])),
        portable_key(key) <==> portable_key(ascii_lowercase(key)),
{
    let lower = ascii_lowercase(key);
    assert(lower.len() == key.len());
    assert forall|i: int| 0 <= i < key.len() implies (file_name_safe(#[trigger] lower[i]) == file_name_safe(key[i])) by {
        assert(lower[i] == crate::sfx_manifest::ascii_lower(key[i]));
    }
    if key == seq!['.'] {
        assert(lower[0] == '.');
        assert(lower =~= seq!['.']);
    }
    if key == seq!['.', '.'] {
        assert(lower[0] == '.' && lower[1] == '.');
        assert(lower =~= seq!['.', '.']);
    }
    if lower == seq!['.'] {
        assert(key[0] == '.') by {
            assert(lower[0] == crate::sfx_manifest::ascii_lower(key[0]));
        }
        assert(key =~= seq!['.']);
    }
    if lower == seq!['.', '.'] {
        assert(key[0] == '.' && key[1] == '.') by {
            assert(lower[0] == crate::sfx_manifest::ascii_lower(key[0]));
            assert(lower[1] == crate::sfx_manifest::ascii_lower(key[1]));
        }
        assert(key =~= seq!['.', '.']);
    }
    if portable_key(key) {
        assert forall|i: int| 0 <= i < lower.len() implies crate::storage::portable_key_char(#[trigger] lower[i]) by {
            assert(file_name_safe(key[i]));
        }
    }
    if portable_key(lower) {
        assert forall|i: int| 0 <= i < key.len() implies crate::storage::portable_key_char(#[trigger] key[i]) by {
            assert(file_name_safe(lower[i]));
        }
    }
}

/// Every positive word of the mirror switch (`1`, `true`, `on`, `yes`, in any ASCII
/// case and with surrounding white space) starts the mirror on the default address
/// `0.0.0.0:7878`, though `1` would also read as a port; every negative word
/// (`0`, `false`, `off`, `no`) and a blank setting leave it off.
pub proof fn law_mirror_switch_words(setting: Seq<char>)
    ensures
        ({
            let word = ascii_lowercase(trimmed(setting));
            word == seq!['1'] || word == seq!['t', 'r', 'u', 'e'] || word == seq!['o', 'n'] || word == seq![
                'y',
                'e',
                's',
            ]
        }) ==> mirror_address_text(setting) == Some(
            seq!['0', '.', '0', '.', '0', '.', '0', ':', '7', '8', '7', '8'],
        ),
        ({
            let word = ascii_lowercase(trimmed(setting));
            trimmed(setting).len() == 0 || word == seq!['0'] || word == seq!['f', 'a', 'l', 's', 'e'] || word
                == seq!['o', 'f', 'f'] || word == seq!['n', 'o']
        }) ==> mirror_address_text(setting) is None,
{
    reveal_strlit("0");
    reveal_strlit("false");
    reveal_strlit("off");
    reveal_strlit("no");
    reveal_strlit("1");
    reveal_strlit("true");
    reveal_strlit("on");
    reveal_strlit("yes");
    reveal_strlit("0.0.0.0:7878");
    let word = ascii_lowercase(trimmed(setting));
    assert(trimmed(setting).len() == word.len());
    assert(crate::capture_mirror::DEFAULT_BIND_ADDRESS@ == "0.0.0.0:7878"@);
    assert("0.0.0.0:7878"@ =~= seq!['0', '.', '0', '.', '0', '.', '0', ':', '7', '8', '7', '8']);
    if word == seq!['1'] {
        assert(word =~= "1"@);
        assert(word[0] != "0"@[0]);
    } else if word == seq!['t', 'r', 'u', 'e'] {
        assert(word =~= "true"@);
    } else if word == seq!['o', 'n'] {
        assert(word =~= "on"@);
        assert(word[0] != "no"@[0]);
    } else if word == seq!['y', 'e', 's'] {
        assert(word =~= "yes"@);
        assert(word[0] != "off"@[0]);
    }
    if word == seq!['0'] {
        assert(word =~= "0"@);
    } else if word == seq!['f', 'a', 'l', 's', 'e'] {
        assert(word =~= "false"@);
    } else if word == seq!['o', 'f', 'f'] {
        assert(word =~= "off"@);
    } else if word == seq!['n', 'o'] {
        assert(word =~= "no"@);
    }
}

/// Pressing a key changes the state of that key alone: distinct keys keep distinct
/// states, so every other key reads as before.
pub proof fn law_keys_have_their_own_state(keys: Seq<ButtonState>, pressed: Seq<ButtonState>, key: Key, other: Key)
    requires
        one_changed(keys, pressed, key_slot(key), |a: ButtonState, b: ButtonState| after_press(a, b)),
        0 <= key_slot(other) < keys.len(),
    ensures
        other != key ==> pressed[key_slot(other)] == keys[key_slot(other)],
        key != other ==> key_slot(key) != key_slot(other),
{
    lemma_key_of_slot(key);
    lemma_key_of_slot(other);
}

/// The key whose state sits in `slot`.
spec fn key_of_slot(slot: int) -> Option<Key> {
    if slot == 0 { Some(Key::Escape) }
    else if slot == 1 { Some(Key::Space) }
    else if slot == 2 { Some(Key::Up) }
    else if slot == 3 { Some(Key::Down) }
    else if slot == 4 { Some(Key::Left) }
    else if slot == 5 { Some(Key::Right) }
    else if slot == 6 { Some(Key::A) }
    else if slot == 7 { Some(Key::D) }
    else if slot == 8 { Some(Key::E) }
    else if slot == 9 { Some(Key::F) }
    else if slot == 10 { Some(Key::R) }
    else if slot == 11 { Some(Key::S) }
    else if slot == 12 { Some(Key::W) }
    else if slot == 13 { Some(Key::X) }
    else if slot == 14 { Some(Key::LeftShift) }
    else if slot == 15 { Some(Key::C) }
    else if slot == 16 { Some(Key::RightShift) }
    else if slot == 17 { Some(Key::LeftControl) }
    else if slot == 18 { Some(Key::RightControl) }
    else if slot == 19 { Some(Key::L) }
    else if slot == 20 { Some(Key::M) }
    else if slot == 21 { Some(Key::H) }
    else { None }
}

proof fn lemma_key_of_slot(key: Key)
    ensures
        key_of_slot(key_slot(key)) == Some(key),
        0 <= key_slot(key) < 22,
{
}

/// The base letter an accented Latin letter without a glyph of its own is read as.
pub open spec fn unaccented(c: char) -> Option<char> {
    match c {
        'á' | 'ä' | 'ã' | 'å' | 'Á' | 'Ä' | 'Ã' | 'Å' => Some('A'),
        'ë' | 'Ë' => Some('E'),
        'ì' | 'í' | 'î' | 'ï' | 'Ì' | 'Í' | 'Î' | 'Ï' => Some('I'),
        'ñ' | 'Ñ' => Some('N'),
        'ò' | 'ó' | 'ô' | 'ö' | 'õ' | 'Ò' | 'Ó' | 'Ô' | 'Ö' | 'Õ' => Some('O'),
        'ú' | 'Ú' => Some('U'),
        'ý' | 'ÿ' | 'Ý' | 'Ÿ' => Some('Y'),
        _ => None,
    }
}

/// An accented Latin letter without a glyph of its own is drawn exactly as its base
/// letter, wherever it stands in the text, and that is the letter's own glyph, not
/// the placeholder.
pub proof fn law_accents_fall_back_to_base_letters(
    chars: Seq<char>,
    k: int,
    px: int,
    py: int,
    x: int,
    y: int,
    scale: int,
)
    requires
        0 <= k < chars.len(),
        unaccented(chars[k]) is Some,
    ensures
        text_glyph_rows(chars[k]) == font_glyph(unaccented(chars[k])->0),
        text_glyph_rows(chars[k]) == text_glyph_rows(unaccented(chars[k])->0),
        text_glyph_rows(chars[k]) != font_glyph('?'),
        text_covers_upto(px, py, x, y, chars, scale, chars.len() as int) == text_covers_upto(
            px,
            py,
            x,
            y,
            chars.update(k, unaccented(chars[k])->0),
            scale,
            chars.len() as int,
        ),
{
    let base = unaccented(chars[k])->0;
    let other = chars.update(k, base);
    lemma_glyph_code(base);
    lemma_glyph_code('?');
    assert(text_glyph_rows(chars[k]) == text_glyph_rows(other[k]));
    assert forall|j: int| 0 <= j < chars.len() implies #[trigger] text_char_covers(px, py, x, y, chars, scale, j)
        == text_char_covers(px, py, x, y, other, scale, j) by {
        if j != k {
            assert(other[j] == chars[j]);
        }
    }
    if text_covers_upto(px, py, x, y, chars, scale, chars.len() as int) {
        let j = choose|j: int| 0 <= j < chars.len() && #[trigger] text_char_covers(px, py, x, y, chars, scale, j);
        assert(text_char_covers(px, py, x, y, other, scale, j));
    }
    if text_covers_upto(px, py, x, y, other, scale, chars.len() as int) {
        let j = choose|j: int| 0 <= j < chars.len() && #[trigger] text_char_covers(px, py, x, y, other, scale, j);
        assert(text_char_covers(px, py, x, y, chars, scale, j));
    }
}

/// Distinct characters of the built-in font have distinct glyphs, and none of them
/// looks like the placeholder that characters without a glyph get.
pub proof fn law_built_in_glyphs_are_distinct(c1: char, c2: char)
    requires
        built_in_character(c1),
        built_in_character(c2),
    ensures
        c1 != c2 ==> font_glyph(c1) != font_glyph(c2),
        font_glyph(c1) != font_glyph('?'),
{
    lemma_glyph_code(c1);
    lemma_glyph_code(c2);
    lemma_glyph_code('?');
}

/// The digits of the built-in font, row by row.
pub proof fn law_digit_glyphs()
    ensures
        font_glyph('0') == seq![0b01110u8, 0b10001u8, 0b10011u8, 0b10101u8, 0b11001u8, 0b10001u8, 0b01110u8],
        font_glyph('1') == seq![0b00100u8, 0b01100u8, 0b00100u8, 0b00100u8, 0b00100u8, 0b00100u8, 0b01110u8],
        font_glyph('2') == seq![0b01110u8, 0b10001u8, 0b00001u8, 0b00010u8, 0b00100u8, 0b01000u8, 0b11111u8],
        font_glyph('3') == seq![0b11110u8, 0b00001u8, 0b00001u8, 0b01110u8, 0b00001u8, 0b00001u8, 0b11110u8],
        font_glyph('4') == seq![0b00010u8, 0b00110u8, 0b01010u8, 0b10010u8, 0b11111u8, 0b00010u8, 0b00010u8],
        font_glyph('5') == seq![0b11111u8, 0b10000u8, 0b10000u8, 0b11110u8, 0b00001u8, 0b00001u8, 0b11110u8],
        font_glyph('6') == seq![0b01110u8, 0b10000u8, 0b10000u8, 0b11110u8, 0b10001u8, 0b10001u8, 0b01110u8],
        font_glyph('7') == seq![0b11111u8, 0b00001u8, 0b00010u8, 0b00100u8, 0b01000u8, 0b01000u8, 0b01000u8],
        font_glyph('8') == seq![0b01110u8, 0b10001u8, 0b10001u8, 0b01110u8, 0b10001u8, 0b10001u8, 0b01110u8],
        font_glyph('9') == seq![0b01110u8, 0b10001u8, 0b10001u8, 0b01111u8, 0b00001u8, 0b00001u8, 0b01110u8],
{
}

/// A built-in glyph read as one number, five bits per row, first row lowest.
spec fn glyph_code(rows: Seq<u8>) -> int {
    rows[0] + 32 * rows[1] + 1024 * rows[2] + 32768 * rows[3] + 1048576 * rows[4] + 33554432 * rows[5]
        + 1073741824 * rows[6]
}

/// The character whose built-in glyph has the given code, `'?'` standing for the
/// placeholder; `None` for a code no glyph has.
spec fn glyph_character(code: int) -> Option<char> {
    if code == 4299228735 {
        Some('?')
    } else if code == 18842895918 {
        Some('A')
    } else if code == 32801506878 {
        Some('B')
    } else if code == 16660316687 {
        Some('C')
    } else if code == 32801080894 {
        Some('D')
    } else if code == 33840644639 {
        Some('E')
    } else if code == 17734517279 {
        Some('F')
    } else if code == 16695149071 {
        Some('G')
    } else if code == 18842895921 {
        Some('H')
    } else if code == 33424543903 {
        Some('I')
    } else if code == 13507823687 {
        Some('J')
    } else if code == 18879369809 {
        Some('K')
    } else if code == 33840185872 {
        Some('L')
    } else if code == 18842572657 {
        Some('M')
    } else if code == 18842507057 {
        Some('N')
    } else if code == 15621211694 {
        Some('O')
    } else if code == 17734518334 {
        Some('P')
    } else if code == 14585218606 {
        Some('Q')
    } else if code == 18879563326 {
        Some('R')
    } else if code == 32247333391 {
        Some('S')
    } else if code == 4433514655 {
        Some('T')
    } else if code == 15621211697 {
        Some('U')
    } else if code == 4648912433 {
        Some('V')
    } else if code == 11464787505 {
        Some('W')
    } else if code == 18834663985 {
        Some('X')
    } else if code == 4433521201 {
        Some('Y')
    } else if code == 33831389247 {
        Some('Z')
    } else if code == 15629733422 {
        Some('0')
    } else if code == 15170933124 {
        Some('1')
    } else if code == 33558693422 {
        Some('2')
    } else if code == 32247317566 {
        Some('3')
    } else if code == 2247698626 {
        Some('4')
    } else if code == 32247857695 {
        Some('5')
    } else if code == 15621636622 {
        Some('6')
    } else if code == 8866891839 {
        Some('7')
    } else if code == 15621113390 {
        Some('8')
    } else if code == 15067498030 {
        Some('9')
    } else if code == 17452568848 {
        Some('>')
    } else if code == 17456826433 {
        Some('/')
    } else if code == 139432064 {
        Some('+')
    } else if code == 0 {
        Some(' ')
    } else {
        None
    }
}

/// The characters the built-in font has glyphs for.
pub open spec fn built_in_character(c: char) -> bool {
    ('A' <= c <= 'Z') || ('0' <= c <= '9') || c == '>' || c == '/' || c == '+' || c == ' '
}

proof fn lemma_glyph_code(c: char)
    requires
        built_in_character(c) || c == '?',
    ensures
        glyph_character(glyph_code(font_glyph(c))) == Some(c),
{
    if c == '?' {
    } else if c == 'A' {
    } else if c == 'B' {
    } else if c == 'C' {
    } else if c == 'D' {
    } else if c == 'E' {
    } else if c == 'F' {
    } else if c == 'G' {
    } else if c == 'H' {
    } else if c == 'I' {
    } else if c == 'J' {
    } else if c == 'K' {
    } else if c == 'L' {
    } else if c == 'M' {
    } else if c == 'N' {
    } else if c == 'O' {
    } else if c == 'P' {
    } else if c == 'Q' {
    } else if c == 'R' {
    } else if c == 'S' {
    } else if c == 'T' {
    } else if c == 'U' {
    } else if c == 'V' {
    } else if c == 'W' {
    } else if c == 'X' {
    } else if c == 'Y' {
    } else if c == 'Z' {
    } else if c == '0' {
    } else if c == '1' {
    } else if c == '2' {
    } else if c == '3' {
    } else if c == '4' {
    } else if c == '5' {
    } else if c == '6' {
    } else if c == '7' {
    } else if c == '8' {
    } else if c == '9' {
    } else if c == '>' {
    } else if c == '/' {
    } else if c == '+' {
    } else if c == ' ' {
    } else {
        assert(false);
    }
}

} // verus!
