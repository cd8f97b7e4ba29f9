use vstd::prelude::*;
use crate::command::Command;
use crate::context::Context;
use crate::layouts::dwm::DWMLayout;
use crate::layouts::horizontal::HorizontalLayout;
use crate::layouts::vertical::VerticalLayout;
use crate::layouts::{tile_screens, Layout, Tiling};
use crate::screen::{Screen, ScreenView};
use crate::tdawm::TDAWmError;
use crate::window::{Window, WindowId};

verus! {

/// The strategy that is in use: one of the three that exist.
#[derive(Debug, Clone, Copy, PartialEq, Eq, Structural)]
pub enum LayoutKind {
    Horizontal(HorizontalLayout),
    Vertical(VerticalLayout),
    MasterStack(DWMLayout),
}

impl LayoutKind {
    /// The strategy that the layout key switches to: rows after columns, and
    /// columns after anything else.
    pub open spec fn toggled(self) -> LayoutKind {
        match self {
            LayoutKind::Horizontal(_) => LayoutKind::Vertical(VerticalLayout),
            _ => LayoutKind::Horizontal(HorizontalLayout),
        }
    }

    /// The strategy that the layout key switches to.
    pub fn toggle(&self) -> (next: LayoutKind)
        ensures
            next == self.toggled(),
    {
        match self {
            LayoutKind::Horizontal(_) => LayoutKind::Vertical(VerticalLayout::init()),
            _ => LayoutKind::Horizontal(HorizontalLayout::init()),
        }
    }
}

impl Tiling for LayoutKind {
    open spec fn arrange(&self, screen: ScreenView, windows: Seq<Window>) -> Seq<Command> {
        match self {
            LayoutKind::Horizontal(layout) => layout.arrange(screen, windows),
            LayoutKind::Vertical(layout) => layout.arrange(screen, windows),
            LayoutKind::MasterStack(layout) => layout.arrange(screen, windows),
        }
    }

    fn tile(&self, screen: &Screen, windows: &Vec<Window>) -> (requests: Vec<Command>) {
        match self {
            LayoutKind::Horizontal(layout) => layout.tile(screen, windows),
            LayoutKind::Vertical(layout) => layout.tile(screen, windows),
            LayoutKind::MasterStack(layout) => layout.tile(screen, windows),
        }
    }
}

impl Layout for LayoutKind {
    open spec fn name(&self) -> Seq<char> {
        match self {
            LayoutKind::Horizontal(layout) => layout.name(),
            LayoutKind::Vertical(layout) => layout.name(),
            LayoutKind::MasterStack(layout) => layout.name(),
        }
    }

    open spec fn with_master(&self, window: WindowId) -> LayoutKind {
        match self {
            LayoutKind::Horizontal(layout) => LayoutKind::Horizontal(layout.with_master(window)),
            LayoutKind::Vertical(layout) => LayoutKind::Vertical(layout.with_master(window)),
            LayoutKind::MasterStack(layout) => LayoutKind::MasterStack(layout.with_master(window)),
        }
    }

    fn id(&self) -> (name: String) {
        match self {
            LayoutKind::Horizontal(layout) => layout.id(),
            LayoutKind::Vertical(layout) => layout.id(),
            LayoutKind::MasterStack(layout) => layout.id(),
        }
    }

    fn layout(&self, ctx: &Context) -> (requests: Result<Vec<Command>, TDAWmError>) {
        tile_screens(self, ctx)
    }

    fn set_master(&mut self, window: WindowId) {
        match self {
            LayoutKind::Horizontal(layout) => layout.set_master(window),
            LayoutKind::Vertical(layout) => layout.set_master(window),
            LayoutKind::MasterStack(layout) => layout.set_master(window),
        }
    }
}

} // verus!
