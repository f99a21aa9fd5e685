# gotoo_pixel_engine

A pixel-first game engine core: a CPU RGBA8 framebuffer with drawing primitives,
bitmap and built-in text, sprites, image decoding and fitting, pixel-perfect
presentation, digital input state (keyboard, mouse, touch, gamepads), action
mapping, a sound bank and sound registry, WAV encoding and decoding, an SFX
manifest, local storage keys, a capture mirror's HTTP helpers, renderer
diagnostics records, and font faces.

## Layout

- `src/` — the library, written in Verus. Every public function carries a
  `requires`/`ensures` contract over mathematical models (`Seq`, `Map`, views of
  the library's types), and `src/laws.rs` states properties that relate several
  operations. Calls into `png`, `hound`, `serde_json` and `ab_glyph` stand behind small
  trusted wrappers whose contracts name what those crates compute.
- `tests/` — ordinary Rust tests run against the compiled library.
- `app/` — ordinary Rust around the library: file storage, the audio control
  plane with floating-point gains, the diagnostics store shared between threads,
  the capture mirror's TCP server, gamepad calibration profiles, and outline text
  layout and rasterization.

## Checking

Verify the library with Verus, then build and run the tests with the real
outside crates linked.
