use vstd::prelude::*;
use std::cmp::Ordering;
use vstd::std_specs::cmp::PartialEqSpecImpl;
use vstd::std_specs::cmp::PartialOrdSpecImpl;
use vstd::std_specs::convert::FromSpecImpl;

verus! {

/// Identifier that the display server assigns to a client window.
pub type WindowId = u64;

/// A point in root-window coordinates.
#[derive(Debug, Clone, Copy, PartialEq, Eq, Structural)]
pub struct Position {
    pub x: i32,
    pub y: i32,
}

/// Extent of a window: `x` is the width and `y` the height.
#[derive(Debug, Clone, Copy, PartialEq, Eq, Structural)]
pub struct Size {
    pub x: u32,
    pub y: u32,
}

/// How a window takes part in tiling.
#[derive(Debug, Clone, Copy, PartialEq, Eq, Structural)]
pub enum WindowType {
    /// Tiled by the active layout.
    Normal,
    /// Kept out of tiling, placed at its pinned geometry and kept on top.
    Dock,
}

/// What the window manager knows about one client window.
#[derive(Debug, Clone, Copy)]
pub struct Window {
    pub id: WindowId,
    /// Position the client asked for, if it ever asked.
    pub fixed_position: Option<Position>,
    /// Size the client asked for, if it ever asked.
    pub fixed_size: Option<Size>,
    pub window_type: WindowType,
}

impl WindowType {
    /// The kind that a window's type property stands for. `property` is the
    /// first value of the property, or `None` if the window has none that
    /// could be read; `dock` is the value that marks a dock. A window
    /// is a dock if its property says so, and is tiled otherwise.
    pub fn of_property(property: Option<u64>, dock: u64) -> (kind: WindowType)
        ensures
            kind == (if property == Some(dock) {
                WindowType::Dock
            } else {
                WindowType::Normal
            }),
    {
        match property {
            Some(value) => {
                if value == dock {
                    WindowType::Dock
                } else {
                    WindowType::Normal
                }
            },
            None => WindowType::Normal,
        }
    }
}

impl Window {
    /// The record of a window that was just mapped: tiled, with no pinned geometry.
    pub open spec fn fresh(id: WindowId) -> Window {
        Window { id, fixed_position: None, fixed_size: None, window_type: WindowType::Normal }
    }

    /// Whether the layouts tile this window.
    pub open spec fn is_normal(&self) -> bool {
        self.window_type == WindowType::Normal
    }

    /// Whether this window is a dock.
    pub open spec fn is_dock(&self) -> bool {
        self.window_type == WindowType::Dock
    }
}

impl From<u64> for Window {
    fn from(value: u64) -> (window: Window)
        ensures
            window == Window::fresh(value),
    {
        Window { id: value, fixed_position: None, fixed_size: None, window_type: WindowType::Normal }
    }
}

impl FromSpecImpl<u64> for Window {
    open spec fn obeys_from_spec() -> bool {
        true
    }

    open spec fn from_spec(value: u64) -> Window {
        Window::fresh(value)
    }
}

/// Two records are equal when they describe the same window: only the identifier counts.
impl PartialEq for Window {
    fn eq(&self, other: &Window) -> (same: bool) {
        self.id == other.id
    }
}

impl PartialEqSpecImpl for Window {
    open spec fn obeys_eq_spec() -> bool {
        true
    }

    open spec fn eq_spec(&self, other: &Window) -> bool {
        self.id == other.id
    }
}

impl Eq for Window {

}

/// Records are ordered as their identifiers are.
impl PartialOrd for Window {
    fn partial_cmp(&self, other: &Window) -> (order: Option<Ordering>) {
        self.id.partial_cmp(&other.id)
    }
}

impl PartialOrdSpecImpl for Window {
    open spec fn obeys_partial_cmp_spec() -> bool {
        true
    }

    open spec fn partial_cmp_spec(&self, other: &Window) -> Option<Ordering> {
        if self.id < other.id {
            Some(Ordering::Less)
        } else if self.id == other.id {
            Some(Ordering::Equal)
        } else {
            Some(Ordering::Greater)
        }
    }
}

} // verus!
