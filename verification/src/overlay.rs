//! How a notification reaches the player: over the game's window, or as a
//! notification of the system.

use vstd::prelude::*;

verus! {

/// How a window is shown.
#[derive(Debug, Clone, Copy, PartialEq, Eq, Structural)]
pub enum WindowMode {
    Fullscreen,
    BorderlessWindowed,
    Windowed,
}

/// What was measured of a game's window and of the screen.
#[derive(Debug, Clone, Copy)]
pub struct WindowGeometry {
    /// Whether the window has the style of a window without frame.
    pub popup: bool,
    pub width: i32,
    pub height: i32,
    pub screen_width: i32,
    pub screen_height: i32,
}

/// The mode of a window: windowed where no window was found; full screen
/// where a frameless window covers the screen; borderless where a frameless
/// window does not; else windowed.
pub open spec fn mode_of(window: Option<WindowGeometry>) -> WindowMode {
    match window {
        Some(g) => if g.popup && g.width >= g.screen_width && g.height >= g.screen_height {
            WindowMode::Fullscreen
        } else if g.popup {
            WindowMode::BorderlessWindowed
        } else {
            WindowMode::Windowed
        },
        None => WindowMode::Windowed,
    }
}

/// Whether notifications go over a window of this mode: over any but a
/// full-screen window.
pub open spec fn overlay_fits(mode: WindowMode) -> bool {
    mode != WindowMode::Fullscreen
}

impl WindowMode {
    /// The mode of a window, from what was measured of it.
    pub fn from_geometry(window: Option<WindowGeometry>) -> (r: WindowMode)
        ensures
            r == mode_of(window),
    {
        match window {
            Some(g) => {
                if g.popup && g.width >= g.screen_width && g.height >= g.screen_height {
                    WindowMode::Fullscreen
                } else if g.popup {
                    WindowMode::BorderlessWindowed
                } else {
                    WindowMode::Windowed
                }
            },
            None => WindowMode::Windowed,
        }
    }

    /// Whether notifications go over a window of this mode.
    pub fn should_use_overlay(&self) -> (r: bool)
        ensures
            r == overlay_fits(*self),
    {
        match self {
            WindowMode::Fullscreen => false,
            WindowMode::BorderlessWindowed => true,
            WindowMode::Windowed => true,
        }
    }
}

} // verus!
