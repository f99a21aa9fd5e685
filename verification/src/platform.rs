use vstd::prelude::*;

use crate::pixel::Size;

verus! {

/// Window title and sizes of the primary game window.
#[derive(Debug, PartialEq, Eq)]
pub struct EngineConfig {
    pub title: String,
    pub framebuffer_width: u32,
    pub framebuffer_height: u32,
    pub window_width: u32,
    pub window_height: u32,
}

impl Clone for EngineConfig {
    fn clone(&self) -> (copy: Self)
        ensures
            copy.title@ == self.title@,
            copy.framebuffer_width == self.framebuffer_width,
            copy.framebuffer_height == self.framebuffer_height,
            copy.window_width == self.window_width,
            copy.window_height == self.window_height,
    {
        EngineConfig {
            title: self.title.clone(),
            framebuffer_width: self.framebuffer_width,
            framebuffer_height: self.framebuffer_height,
            window_width: self.window_width,
            window_height: self.window_height,
        }
    }
}

/// Scheduling policy for one native auxiliary tool window.
///
/// Focus controls keyboard ownership in all modes. The mode controls whether
/// the primary game simulation is allowed to advance while the tool is open.
#[derive(Debug, Clone, Copy, PartialEq, Eq, Structural)]
pub enum ToolWindowMode {
    /// The tool blocks primary `Game::update` calls until it closes.
    Modal,
    /// The primary game and tool keep advancing independently of window focus.
    Modeless,
    /// The primary game advances while the main window has focus and pauses
    /// while the tool window has focus, without closing either window.
    ModalWhenFocused,
}

/// Describes one optional native sidecar window for development tooling.
///
/// The primary game window remains the simulation owner. The tool window has
/// its own framebuffer and input state but calls back into the same `Game`
/// value, so edits made by tooling are immediately visible to the game.
#[derive(Debug, PartialEq, Eq)]
pub struct ToolWindowConfig {
    pub title: String,
    pub framebuffer_width: u32,
    pub framebuffer_height: u32,
    pub window_width: u32,
    pub window_height: u32,
    pub mode: ToolWindowMode,
}

impl Clone for ToolWindowConfig {
    fn clone(&self) -> (copy: Self)
        ensures
            copy.title@ == self.title@,
            copy.framebuffer_width == self.framebuffer_width,
            copy.framebuffer_height == self.framebuffer_height,
            copy.window_width == self.window_width,
            copy.window_height == self.window_height,
            copy.mode == self.mode,
    {
        ToolWindowConfig {
            title: self.title.clone(),
            framebuffer_width: self.framebuffer_width,
            framebuffer_height: self.framebuffer_height,
            window_width: self.window_width,
            window_height: self.window_height,
            mode: self.mode,
        }
    }
}

/// Whether the game keeps running after a frame.
#[derive(Debug, Clone, Copy, PartialEq, Eq, Structural)]
pub enum GameResult {
    Continue,
    Exit,
}

/// Why the engine could not start or keep running.
#[derive(Debug)]
pub struct EngineError {
    message: String,
}

impl View for EngineError {
    type V = Seq<char>;

    closed spec fn view(&self) -> Seq<char> {
        self.message@
    }
}

impl EngineError {
    /// An error about the engine's configuration.
    pub fn config(message: &str) -> (error: Self)
        ensures
            error@ == message@,
    {
        EngineError { message: String::from_str(message) }
    }

    /// An error with the given description.
    pub fn from_string(message: String) -> (error: Self)
        ensures
            error@ == message@,
    {
        EngineError { message }
    }

    /// The human-readable description of the failure.
    pub fn message(&self) -> (message: &str)
        ensures
            message@ == self@,
    {
        self.message.as_str()
    }
}

/// Whether this target supports the native auxiliary tool window; this library targets
/// native platforms, where it does.
pub fn tool_window_supported() -> (supported: bool)
    ensures
        supported,
{
    true
}

/// The error the engine reports for a configuration with the given sizes, if any: the
/// first size that is zero, in the order framebuffer width, framebuffer height, window
/// width, window height, each message starting with `prefix`.
pub open spec fn size_error(
    prefix: Seq<char>,
    framebuffer_width: int,
    framebuffer_height: int,
    window_width: int,
    window_height: int,
) -> Option<Seq<char>> {
    if framebuffer_width == 0 {
        Some(prefix + "framebuffer_width must be greater than 0"@)
    } else if framebuffer_height == 0 {
        Some(prefix + "framebuffer_height must be greater than 0"@)
    } else if window_width == 0 {
        Some(prefix + "window_width must be greater than 0"@)
    } else if window_height == 0 {
        Some(prefix + "window_height must be greater than 0"@)
    } else {
        None
    }
}

fn check_sizes(
    prefix: &str,
    framebuffer_width: u32,
    framebuffer_height: u32,
    window_width: u32,
    window_height: u32,
) -> (result: Result<(), EngineError>)
    ensures
        result is Ok <==> size_error(
            prefix@,
            framebuffer_width as int,
            framebuffer_height as int,
            window_width as int,
            window_height as int,
        ) is None,
        result matches Err(e) ==> size_error(
            prefix@,
            framebuffer_width as int,
            framebuffer_height as int,
            window_width as int,
            window_height as int,
        ) == Some(e@),
{
    let rest = if framebuffer_width == 0 {
        "framebuffer_width must be greater than 0"
    } else if framebuffer_height == 0 {
        "framebuffer_height must be greater than 0"
    } else if window_width == 0 {
        "window_width must be greater than 0"
    } else if window_height == 0 {
        "window_height must be greater than 0"
    } else {
        return Ok(());
    };
    let mut message = String::from_str(prefix);
    message.append(rest);
    Err(EngineError::from_string(message))
}

/// Refuses a primary window configuration with a zero size.
pub fn validate_config(config: &EngineConfig) -> (result: Result<(), EngineError>)
    ensures
        result is Ok <==> size_error(
            ""@,
            config.framebuffer_width as int,
            config.framebuffer_height as int,
            config.window_width as int,
            config.window_height as int,
        ) is None,
        result matches Err(e) ==> size_error(
            ""@,
            config.framebuffer_width as int,
            config.framebuffer_height as int,
            config.window_width as int,
            config.window_height as int,
        ) == Some(e@),
{
    check_sizes(
        "",
        config.framebuffer_width,
        config.framebuffer_height,
        config.window_width,
        config.window_height,
    )
}

/// Refuses a tool window configuration with a zero size.
pub fn validate_tool_window_config(config: &ToolWindowConfig) -> (result: Result<(), EngineError>)
    ensures
        result is Ok <==> size_error(
            "tool "@,
            config.framebuffer_width as int,
            config.framebuffer_height as int,
            config.window_width as int,
            config.window_height as int,
        ) is None,
        result matches Err(e) ==> size_error(
            "tool "@,
            config.framebuffer_width as int,
            config.framebuffer_height as int,
            config.window_width as int,
            config.window_height as int,
        ) == Some(e@),
{
    check_sizes(
        "tool ",
        config.framebuffer_width,
        config.framebuffer_height,
        config.window_width,
        config.window_height,
    )
}

/// Whether the tool window keeps the primary game from updating: always when modal,
/// never when modeless, and while it has focus when modal only then.
pub fn tool_mode_blocks_primary(mode: ToolWindowMode, tool_focused: bool) -> (blocks: bool)
    ensures
        blocks == match mode {
            ToolWindowMode::Modal => true,
            ToolWindowMode::Modeless => false,
            ToolWindowMode::ModalWhenFocused => tool_focused,
        },
{
    match mode {
        ToolWindowMode::Modal => true,
        ToolWindowMode::Modeless => false,
        ToolWindowMode::ModalWhenFocused => tool_focused,
    }
}

/// Whether two tool window configurations describe the same window surface: all fields
/// but the scheduling mode agree.
pub fn tool_window_surface_matches(a: &ToolWindowConfig, b: &ToolWindowConfig) -> (same: bool)
    ensures
        same == (a.title@ == b.title@ && a.framebuffer_width == b.framebuffer_width
            && a.framebuffer_height == b.framebuffer_height && a.window_width == b.window_width
            && a.window_height == b.window_height),
{
    a.title == b.title && a.framebuffer_width == b.framebuffer_width && a.framebuffer_height
        == b.framebuffer_height && a.window_width == b.window_width && a.window_height
        == b.window_height
}

/// Longest simulation step handed to a game, in nanoseconds (a tenth of a second).
pub const MAX_FRAME_DELTA_NANOS: u128 = 100_000_000;

/// The simulation step for a frame that took `elapsed_nanos`: the elapsed time, capped
/// so that a stall or a suspension does not turn into one huge step.
pub fn simulation_delta_time(elapsed_nanos: u128) -> (delta: u128)
    ensures
        delta == if elapsed_nanos <= MAX_FRAME_DELTA_NANOS {
            elapsed_nanos
        } else {
            MAX_FRAME_DELTA_NANOS
        },
        delta <= MAX_FRAME_DELTA_NANOS,
{
    if elapsed_nanos <= MAX_FRAME_DELTA_NANOS {
        elapsed_nanos
    } else {
        MAX_FRAME_DELTA_NANOS
    }
}

/// Remembers `size` as the last window size unless one of its dimensions is zero (as
/// while a window is minimized).
pub fn remember_non_zero_size(last_size: &mut Option<Size>, size: Size)
    ensures
        *final(last_size) == if size.width != 0 && size.height != 0 {
            Some(size)
        } else {
            *old(last_size)
        },
{
    if size.width != 0 && size.height != 0 {
        *last_size = Some(size);
    }
}

} // verus!
