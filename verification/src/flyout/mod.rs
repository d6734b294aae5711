//! The flyout: a panel of volume sliders, device lists and a footer strip, and a screen per device
//! to pick its icon from.
//!
//! What it shows is a plain [`model`]; where everything stands and what a pointer is over is
//! [`layout`]; what a gesture does is [`control`]; what is painted is [`render`].
use vstd::prelude::*;

pub mod canvas;
pub mod control;
pub mod layout;
pub mod model;
pub mod render;
pub mod theme;
pub mod window;

verus! {

/// Which gesture on the tray icon asks for the flyout.
#[derive(Debug, Clone, Copy, PartialEq, Eq, Structural)]
pub enum Trigger {
    LeftClick,
    RightClick,
}

/// What the caller must do once the flyout has closed.
#[derive(Debug, Clone, Copy, PartialEq, Eq, Structural)]
pub struct Outcome {
    pub quit: bool,
    pub config_changed: bool,
    /// The default output was switched while the flyout was open. The notifications of that were
    /// taken by the flyout's own message loop, so the caller has to refresh.
    pub output_changed: bool,
    /// Relaunch into the update that is staged on disk.
    pub restart: bool,
    /// Restart the shell, rebuilding the strip with it.
    pub restart_explorer: bool,
}

/// Where to open the flyout: centred on `cx`, its bottom edge just above `bottom`.
#[derive(Debug, Clone, Copy, PartialEq, Eq, Structural)]
pub struct Anchor {
    pub cx: i32,
    pub bottom: i32,
}

} // verus!
