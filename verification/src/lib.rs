mod audio;
mod audio_wav;
mod bitmap_font;
mod branding;
mod builtin_text;
mod capture_mirror;
mod circle;
mod control;
mod decimal;
mod diagnostics;
mod diagnostics_update;
mod font5x7;
mod font_face;
mod framebuffer;
mod gamepad;
mod glyph;
mod image;
mod image_fit;
mod input;
mod input_state;
pub mod laws;
mod line;
mod mirror_http;
mod pixel;
mod platform;
mod presentation;
mod render_outcome;
mod sfx_manifest;
mod sound_registry;
mod supersample;
mod sprite;
mod storage;
mod text;
mod text_eq;
mod wav_decode;

pub use audio::{sound_message, AudioBus, AudioError, PlaybackId, SoundBank, SoundBankView, SoundId};
pub use audio_wav::pcm16_mono_wav;
pub use branding::{
    area_painted, byte_column, byte_row, clipped_end, cyan, draw_glyph, glyph_cell_lit, glyph_covers, glyph_painted,
    gold, gpe_icon, gpe_icon_rgba, light, paint_rect, panel, pattern_bytes, rect_painted, transparent, violet,
    ICON_BYTES, ICON_SIZE,
};
pub use bitmap_font::{BitmapFont, BitmapGlyph, BitmapTextRenderer};
pub use font5x7::glyph_for;
pub use font_face::{
    first_supporting_font, font_face_error_text, font_slice_parses, font_vec_parses, FontFace, FontFaceError,
};
pub use framebuffer::{Framebuffer, RasterView, painted, mapped};
pub use gamepad::{
    availability, capabilities_from_mapping, capability_of, dpad_axis, mapped_axis_capability,
    mapped_button_capability, standard_browser_buttons, standard_browser_layout, DPadAxis,
};
pub use supersample::{
    block_alpha_sum, clamp_raster_scale, div_ceil_u32, downsampled_alpha, downsampled_alpha_of, row_alpha_sum,
    MAX_TEXT_RASTER_SCALE,
};
pub use render_outcome::{
    acquired_texture, acquisition_failure, acquisition_outcome, render_outcome, surface_failure_from_acquisition,
    RenderOutcome, SurfaceAcquisition,
};
pub use sfx_manifest::{
    ascii_lower, collect_entries, document_view, entries_valid, entry_message, entry_paths, first_missing,
    has_wav_extension, is_blank, is_white_space, json_manifest_document, key_position, list_paths, lookup,
    manifest_from_document, manifest_result_view, members_view, missing_entry_message, optional_text, path_error,
    paths_view, put, unsupported_format_message, validate_path, ManifestValue, ManifestValueView, SfxManifest,
};
pub use wav_decode::{
    decode_result_view, decode_wav, decoded_wav, pcm_sound_from_wav, wav_contents, wav_contents_view, PcmSound,
    PcmSoundView, WavContents, WavFormat,
};
pub use sound_registry::{
    different_sound_message, inactive_loop_message, loop_position, same_sound, sound_position, SoundRegistry,
    SoundRegistryView,
};
pub use diagnostics_update::{
    audio_error_event, audio_error_excerpt, device_lost_event, device_lost_message, disabled_observation,
    enabled_observation, fact_field, gpu_library_version, initial_record, initial_renderer_record, known_text,
    maybe_stale, observed_field, profile_field, record_adapter_facts, record_audio_error, record_audio_selected,
    record_device_lost, record_lifecycle, record_presented, record_runtime_transition, record_suboptimal,
    record_surface_configured, record_surface_failure, record_wgpu_error, stale_field, surface_failure_events,
};
pub use text::{
    latin_base, managed_glyph_rows, managed_key, text_advance, text_char_covers, text_covers_upto, text_cursor,
    text_glyph_rows, Font, TextRenderer,
};
pub use mirror_http::{
    all_digits, ascii_lowercase, digits_value, find_char, frame_len, mirror_address, mirror_address_text,
    mirror_route, parse_port, port_value, request_path, request_path_text, request_target, response_head,
    response_head_text, route_of, skip_white, skip_word, trimmed, trimmed_end, MirrorRoute,
};
pub use input_state::{
    all_advanced, all_idle, event_view, gamepad_position, idle_except, one_changed, GamepadConnectionEventView,
    InputState, InputView,
};
pub use image::{
    image_from_png_frame, normalize_png_frame_to_rgba8, Image, ImageError, ImageRegion, PngDecodeError,
    PngFrame,
};
pub use image_fit::{
    blend_over, fit_plan, fitted_color, linear_texels, nearest_texel, sample_rgba, AxisMap, AxisSample, FitPlan, ImageFilter, ImageFit,
    RasterRect,
};
pub use capture_mirror::{mirror_page, DEFAULT_BIND_ADDRESS};
pub use diagnostics::{
    incremented, AdapterBackend, AdapterDeviceType, AdapterFacts, AudioBackend, AudioBackendError,
    AudioErrorCategory, AudioInitializationOutcome, AudioSummary, Availability, BuildProfile,
    BuildProvenance, CollectionMode, DeviceLostObservation, DeviceLostReason, DiagnosticEvent,
    DiagnosticEventKind, DiagnosticField, DiagnosticObservation, DiagnosticProducer,
    DiagnosticReadKind, DiagnosticSection, EngineDiagnostics, EventHistory, EventRing,
    EventRingView, Freshness, ObservationStamp, OpaqueText, PanicStrategy, PresentObservation,
    RendererIncarnation, RendererLifecycle, RendererObservations, RendererRecord, RendererRole,
    RendererSource, RendererStore, RepresentationKind, RuntimeLifecycle, RuntimeOutcome,
    RuntimeState, SaturatingCounter, StaleReason, SurfaceAlphaMode, SurfaceConfiguration,
    SurfaceFailure, SurfaceFormat, SurfacePresentMode, TargetFamily, WgpuErrorCategory,
    EVENT_CAPACITY, OPAQUE_TEXT_CAPACITY, RENDERER_CAPACITY,
};
pub use control::{ActionId, ActionSlot, ControlBinding, ControlMap};
pub use decimal::{decimal, decimal_string};
pub use input::{
    after_frame, after_hold, after_press, after_release, basic_info, fallback_gamepad_name, idle,
    lemma_button_flags, optional_text_view, GamepadCapabilitiesView, GamepadDeviceInfoView, gamepad_axis_index, gamepad_button_index, key_index, mouse_button_index, ButtonState,
    GamepadAxis, GamepadButton, GamepadCapabilities, GamepadCapability, GamepadConnectionEvent,
    GamepadDeviceInfo, GamepadId, GamepadMappingSource, Key, MouseButton, Touch, TouchPhase,
    GAMEPAD_AXIS_COUNT, GAMEPAD_BUTTON_COUNT, KEY_COUNT, MOUSE_BUTTON_COUNT,
};
pub use pixel::{Pixel, Rect, Size};
pub use platform::{
    remember_non_zero_size, simulation_delta_time, MAX_FRAME_DELTA_NANOS, tool_mode_blocks_primary, tool_window_supported, tool_window_surface_matches, validate_config,
    validate_tool_window_config, EngineConfig, EngineError, GameResult, ToolWindowConfig,
    ToolWindowMode,
};
pub use presentation::{present_pixel_surface, PixelPresentation};
pub use storage::{
    portable_key, storage_file_name, validate_storage_key, LocalStorage, NoopStorage, StorageError,
};
pub use sprite::{sprite_color, Sprite, SpriteError, SpriteView};
