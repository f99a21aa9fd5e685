use vstd::prelude::*;

use crate::decimal::{decimal, decimal_string};
use crate::framebuffer::{fits_i32, lemma_pixel_index_bounds, mapped, Framebuffer};
use crate::pixel::Pixel;

verus! {

/// Abstract contents of a sprite: its extent and its colors in row-major order.
pub struct SpriteView {
    pub width: nat,
    pub height: nat,
    pub pixels: Seq<Pixel>,
}

impl SpriteView {
    /// The color at column `x`, row `y`.
    pub open spec fn at(self, x: int, y: int) -> Pixel {
        self.pixels[y * self.width + x]
    }
}

/// A rectangular block of colors drawn with transparency as a color key.
#[derive(Debug, PartialEq, Eq)]
pub struct Sprite {
    width: u32,
    height: u32,
    pixels: Vec<Pixel>,
}

/// Why a sprite could not be built.
#[derive(Debug, Clone, Copy, PartialEq, Eq, Structural)]
pub enum SpriteError {
    PixelCountMismatch { expected: usize, actual: usize },
}

impl SpriteError {
    /// The human-readable description of the failure.
    pub fn message(&self) -> (message: String)
        ensures
            match *self {
                SpriteError::PixelCountMismatch { expected, actual } => message@
                    == "sprite pixel count mismatch: expected "@ + decimal(expected as nat)
                    + ", got "@ + decimal(actual as nat),
            },
    {
        match *self {
            SpriteError::PixelCountMismatch { expected, actual } => {
                let mut message = String::from_str("sprite pixel count mismatch: expected ");
                message.append(decimal_string(expected as u64).as_str());
                message.append(", got ");
                message.append(decimal_string(actual as u64).as_str());
                message
            },
        }
    }
}

/// The color a sprite drawn with its top-left corner at `(x, y)` leaves at framebuffer
/// pixel `(px, py)` whose previous color is `p`: the sprite's color where it covers the
/// pixel with a non-transparent color, the previous color elsewhere. Only offsets and
/// targets that fit in `i32` are drawn.
pub open spec fn sprite_color(sprite: SpriteView, x: int, y: int, px: int, py: int, p: Pixel) -> Pixel {
    let sx = px - x;
    let sy = py - y;
    if 0 <= sx < sprite.width && 0 <= sy < sprite.height && sx <= i32::MAX && sy <= i32::MAX
        && fits_i32(px) && fits_i32(py) && sprite.at(sx, sy).a != 0 {
        sprite.at(sx, sy)
    } else {
        p
    }
}

/// `value - amount`, saturating at the bounds of `i32`.
pub open spec fn saturating_sub_i32(value: int, amount: int) -> int {
    if value - amount < i32::MIN {
        i32::MIN as int
    } else if value - amount > i32::MAX {
        i32::MAX as int
    } else {
        value - amount
    }
}

fn saturating_sub(value: i32, amount: i32) -> (difference: i32)
    ensures
        difference == saturating_sub_i32(value as int, amount as int),
{
    let wide = value as i64 - amount as i64;
    if wide < i32::MIN as i64 {
        i32::MIN
    } else if wide > i32::MAX as i64 {
        i32::MAX
    } else {
        wide as i32
    }
}

impl Clone for Sprite {
    fn clone(&self) -> (copy: Self)
        ensures
            copy@ == self@,
    {
        proof {
            use_type_invariant(self);
        }
        let pixels = self.pixels.clone();
        assert(pixels@ == self.pixels@);
        Sprite { width: self.width, height: self.height, pixels }
    }
}

impl View for Sprite {
    type V = SpriteView;

    closed spec fn view(&self) -> SpriteView {
        SpriteView { width: self.width as nat, height: self.height as nat, pixels: self.pixels@ }
    }
}

impl Sprite {
    #[verifier::type_invariant]
    spec fn inv(self) -> bool {
        self.pixels@.len() == self.width * self.height
    }

    /// Builds a sprite from `width * height` colors in row-major order.
    pub fn new(width: u32, height: u32, pixels: Vec<Pixel>) -> (sprite: Result<Sprite, SpriteError>)
        requires
            width * height <= usize::MAX,
        ensures
            sprite is Ok <==> pixels@.len() == width * height,
            sprite matches Ok(s) ==> s@ == (SpriteView {
                width: width as nat,
                height: height as nat,
                pixels: pixels@,
            }),
            sprite matches Err(e) ==> e == (SpriteError::PixelCountMismatch {
                expected: (width * height) as usize,
                actual: pixels@.len() as usize,
            }),
    {
        let expected = width as usize * height as usize;
        if pixels.len() != expected {
            return Err(SpriteError::PixelCountMismatch { expected, actual: pixels.len() });
        }
        Ok(Sprite { width, height, pixels })
    }

    pub fn width(&self) -> (width: u32)
        ensures
            width == self@.width,
    {
        self.width
    }

    pub fn height(&self) -> (height: u32)
        ensures
            height == self@.height,
    {
        self.height
    }

    pub fn pixels(&self) -> (pixels: &[Pixel])
        ensures
            pixels@ == self@.pixels,
            pixels@.len() == self@.width * self@.height,
    {
        proof {
            use_type_invariant(self);
        }
        self.pixels.as_slice()
    }

    /// Draws the sprite with its top-left corner at `(x, y)`, skipping fully transparent
    /// colors and clipping to the framebuffer.
    pub fn draw(&self, framebuffer: &mut Framebuffer, x: i32, y: i32)
        ensures
            mapped(
                old(framebuffer)@,
                final(framebuffer)@,
                |px: int, py: int, p: Pixel| sprite_color(self@, x as int, y as int, px, py, p),
            ),
    {
        proof {
            use_type_invariant(self);
        }
        let ghost old_view = framebuffer@;
        let ghost sprite = self@;
        let total = self.pixels.len();
        let mut sprite_y: u32 = 0;
        while sprite_y < self.height
            invariant
                sprite == self@,
                self.pixels@.len() == self.width * self.height,
                total == self.pixels@.len(),
                sprite_y <= self.height,
                framebuffer@.width == old_view.width,
                framebuffer@.height == old_view.height,
                framebuffer@.bytes.len() == old_view.bytes.len(),
                forall|px: int, py: int|
                    old_view.in_bounds(px, py) ==> #[trigger] framebuffer@.pixel(px, py) == if py
                        - y < sprite_y {
                        sprite_color(sprite, x as int, y as int, px, py, old_view.pixel(px, py))
                    } else {
                        old_view.pixel(px, py)
                    },
            decreases self.height - sprite_y,
        {
            let mut sprite_x: u32 = 0;
            while sprite_x < self.width
                invariant
                    sprite == self@,
                    self.pixels@.len() == self.width * self.height,
                    total == self.pixels@.len(),
                    sprite_y < self.height,
                    sprite_x <= self.width,
                    framebuffer@.width == old_view.width,
                    framebuffer@.height == old_view.height,
                    framebuffer@.bytes.len() == old_view.bytes.len(),
                    forall|px: int, py: int|
                        old_view.in_bounds(px, py) ==> #[trigger] framebuffer@.pixel(px, py) == if py
                            - y < sprite_y || (py - y == sprite_y && px - x < sprite_x) {
                            sprite_color(sprite, x as int, y as int, px, py, old_view.pixel(px, py))
                        } else {
                            old_view.pixel(px, py)
                        },
                decreases self.width - sprite_x,
            {
                proof {
                    lemma_pixel_index_bounds(
                        self.width as int,
                        self.height as int,
                        sprite_x as int,
                        sprite_y as int,
                    );
                }
                let index = sprite_y as usize * self.width as usize + sprite_x as usize;
                let pixel = self.pixels[index];
                let ghost before = framebuffer@;
                if pixel.a != 0 && sprite_x <= i32::MAX as u32 && sprite_y <= i32::MAX as u32 {
                    let offset_x = sprite_x as i32;
                    let offset_y = sprite_y as i32;
                    match (x.checked_add(offset_x), y.checked_add(offset_y)) {
                        (Some(target_x), Some(target_y)) => {
                            framebuffer.draw(target_x, target_y, pixel);
                        },
                        _ => {},
                    }
                }
                proof {
                    assert forall|px: int, py: int| old_view.in_bounds(px, py) implies #[trigger] framebuffer@.pixel(
                        px,
                        py,
                    ) == if py - y < sprite_y || (py - y == sprite_y && px - x < sprite_x + 1) {
                        sprite_color(sprite, x as int, y as int, px, py, old_view.pixel(px, py))
                    } else {
                        old_view.pixel(px, py)
                    } by {
                        assert(before.pixel(px, py) == if py - y < sprite_y || (py - y == sprite_y
                            && px - x < sprite_x) {
                            sprite_color(sprite, x as int, y as int, px, py, old_view.pixel(px, py))
                        } else {
                            old_view.pixel(px, py)
                        });
                        if px - x == sprite_x && py - y == sprite_y {
                            assert(sprite.at(sprite_x as int, sprite_y as int) == pixel);
                        }
                    }
                }
                sprite_x = sprite_x + 1;
            }
            sprite_y = sprite_y + 1;
        }
    }

    /// Draws the sprite centered on `(center_x, center_y)`: its top-left corner is moved
    /// up and left by half its extent, rounded down, saturating at the bounds of `i32`.
    pub fn draw_centered(&self, framebuffer: &mut Framebuffer, center_x: i32, center_y: i32)
        ensures
            mapped(
                old(framebuffer)@,
                final(framebuffer)@,
                |px: int, py: int, p: Pixel|
                    sprite_color(
                        self@,
                        saturating_sub_i32(center_x as int, self@.width as int / 2),
                        saturating_sub_i32(center_y as int, self@.height as int / 2),
                        px,
                        py,
                        p,
                    ),
            ),
    {
        let half_width = (self.width / 2) as i32;
        let half_height = (self.height / 2) as i32;
        self.draw(
            framebuffer,
            saturating_sub(center_x, half_width),
            saturating_sub(center_y, half_height),
        );
    }
}

} // verus!
