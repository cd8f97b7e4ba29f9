use vstd::prelude::*;
use crate::window::{WindowId, WindowType};

verus! {

/// A request that the caller sends to the display server on the window
/// manager's behalf. Requests are carried out in the order in which they are
/// listed.
#[derive(Debug, Clone, Copy, PartialEq, Eq, Structural)]
pub enum Command {
    /// Move the window's top left corner to `(x, y)`.
    Move { window: WindowId, x: i32, y: i32 },
    /// Give the window the size `width` x `height`.
    Resize { window: WindowId, width: u32, height: u32 },
    /// Make the window visible.
    Show { window: WindowId },
    /// Make the window invisible.
    Hide { window: WindowId },
    /// Give the window the input focus.
    Focus { window: WindowId },
    /// Give the input focus back to the root window.
    FocusRoot,
    /// Raise the window above its siblings and make it visible.
    Raise { window: WindowId },
    /// Ask for pointer-enter and property-change notifications of the window.
    GrabEvents { window: WindowId },
    /// Publish `index` as the number of the active desktop.
    SetCurrentDesktop { index: usize },
    /// Launch the terminal program.
    SpawnTerminal,
}

impl Command {
    /// The window that the request is about, if it is about one.
    pub open spec fn target(self) -> Option<WindowId> {
        match self {
            Command::Move { window, .. } => Some(window),
            Command::Resize { window, .. } => Some(window),
            Command::Show { window } => Some(window),
            Command::Hide { window } => Some(window),
            Command::Focus { window } => Some(window),
            Command::Raise { window } => Some(window),
            Command::GrabEvents { window } => Some(window),
            Command::FocusRoot => None,
            Command::SetCurrentDesktop { .. } => None,
            Command::SpawnTerminal => None,
        }
    }
}

/// Something that the display server reports, reduced to what the window
/// manager reads of it.
#[derive(Debug, Clone, Copy, PartialEq, Eq, Structural)]
pub enum Event {
    /// A window was created; it is not shown yet.
    Created { window: WindowId },
    /// A window asks to be shown. `window_type` is the kind that the server
    /// reports for it.
    MapRequest { window: WindowId, window_type: WindowType },
    /// A window is gone.
    Destroyed { window: WindowId },
    /// A grabbed key was pressed.
    KeyPress { keycode: u32 },
    /// The pointer entered a window.
    Enter { window: WindowId },
    /// A property of a window changed. `window_type` is the kind that the
    /// server reports for it now.
    PropertyChanged { window: WindowId, window_type: WindowType },
    /// A window asks for a geometry of its own.
    ConfigureRequest { window: WindowId, x: i32, y: i32, width: u32, height: u32 },
    /// Any other event.
    Unknown,
}

/// The requests that put one window in place and then show it: it is moved,
/// then resized, then shown, so that it never shows with an old geometry.
pub open spec fn place(window: WindowId, x: int, y: int, width: int, height: int) -> Seq<Command> {
    seq![
        Command::Move { window, x: x as i32, y: y as i32 },
        Command::Resize { window, width: width as u32, height: height as u32 },
        Command::Show { window },
    ]
}

/// Appends to `out` the requests that put one window in place and show it.
pub fn push_place(out: &mut Vec<Command>, window: WindowId, x: i32, y: i32, width: u32, height: u32)
    ensures
        final(out)@ == old(out)@ + place(window, x as int, y as int, width as int, height as int),
{
    out.push(Command::Move { window, x, y });
    out.push(Command::Resize { window, width, height });
    out.push(Command::Show { window });
    assert(out@ =~= old(out)@ + place(window, x as int, y as int, width as int, height as int));
}

} // verus!
