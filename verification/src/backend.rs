//! The choice of a backend.

use vstd::prelude::*;

use crate::strings::same_text;

verus! {

/// What the compositor shows itself on.
#[derive(Debug, Clone, Copy, PartialEq, Eq, Structural)]
pub enum Backend {
    /// A window of an X11 or Wayland session.
    Winit,
    /// The hardware itself.
    Udev,
    /// A window of an X11 session.
    X11,
}

/// What the program is told to do.
#[derive(Debug, Clone, Copy, PartialEq, Eq, Structural)]
pub enum Command {
    /// Say how the program is used.
    Usage,
    Run(Backend),
    /// Refuse a backend that does not exist.
    UnknownBackend,
}

/// The backend for an environment: without a display of any kind the hardware,
/// if there is access to it; else a window on the display there is, X11 before
/// Wayland.
pub open spec fn detected(wayland_display: bool, display: bool, dri: bool) -> Option<Backend> {
    if display {
        Some(Backend::X11)
    } else if wayland_display {
        Some(Backend::Winit)
    } else if dri {
        Some(Backend::Udev)
    } else {
        None
    }
}

/// Choose a backend by what the environment offers: whether `WAYLAND_DISPLAY` and
/// `DISPLAY` are set, and whether there are DRM devices.
pub fn detect_backend(wayland_display: bool, display: bool, dri: bool) -> (r: Option<Backend>)
    ensures
        r == detected(wayland_display, display, dri),
{
    // Check if we're on a TTY (no X11 or Wayland display)
    let is_tty = !wayland_display && !display;
    if is_tty && dri {
        return Some(Backend::Udev);
    }
    if display {
        return Some(Backend::X11);
    }
    // winit can run on both X11 and Wayland
    if wayland_display {
        return Some(Backend::Winit);
    }
    None
}

/// What the first argument tells the program to do. Without one the backend is
/// detected, and where none is found the program says how it is used.
pub open spec fn command_for(arg: Option<&str>, found: Option<Backend>) -> Command {
    match arg {
        Some(arg) => if arg@ == "--help"@ || arg@ == "-h"@ {
            Command::Usage
        } else if arg@ == "--winit"@ {
            Command::Run(Backend::Winit)
        } else if arg@ == "--tty-udev"@ {
            Command::Run(Backend::Udev)
        } else if arg@ == "--x11"@ {
            Command::Run(Backend::X11)
        } else {
            Command::UnknownBackend
        },
        None => match found {
            Some(backend) => Command::Run(backend),
            None => Command::Usage,
        },
    }
}

/// What the first argument tells the program to do, where `found` is the backend
/// that was detected.
pub fn command(arg: Option<&str>, found: Option<Backend>) -> (r: Command)
    ensures
        r == command_for(arg, found),
{
    match arg {
        Some(arg) => {
            if same_text(arg, "--help") || same_text(arg, "-h") {
                Command::Usage
            } else if same_text(arg, "--winit") {
                Command::Run(Backend::Winit)
            } else if same_text(arg, "--tty-udev") {
                Command::Run(Backend::Udev)
            } else if same_text(arg, "--x11") {
                Command::Run(Backend::X11)
            } else {
                Command::UnknownBackend
            }
        },
        None => match found {
            Some(backend) => Command::Run(backend),
            None => Command::Usage,
        },
    }
}

} // verus!
