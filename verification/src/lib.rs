//! State model, layout engine and event dispatch of a tiling window manager.
//!
//! The library holds no connection to a display server. It keeps the
//! window, workspace and screen state, and answers every event with the list
//! of requests that the caller has to send to the server.

pub mod command;
pub mod config;
pub mod context;
pub mod flat;
pub mod laws;
pub mod layouts;
pub mod order;
pub mod screen;
pub mod tdawm;
pub mod window;
pub mod workspace;

pub use command::{Command, Event};
pub use config::{Config, ConfigError};
pub use context::{Context, ContextView};
pub use layouts::{DWMLayout, HorizontalLayout, Layout, LayoutKind, Tiling, VerticalLayout};
pub use screen::{Screen, ScreenView};
pub use tdawm::{TDAWm, TDAWmError, TDAWmView};
pub use window::{Position, Size, Window, WindowId, WindowType};
pub use workspace::Workspace;
