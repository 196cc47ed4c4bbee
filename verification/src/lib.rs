//! The core of a dockable editor shell: a dock tree that divides a window
//! among tabbed panes, and the two-phase protocol by which a viewport pane
//! uploads its animation parameter and then draws into the shared pass.
//!
//! Lengths are whole pixels, split fractions are ratios of two integers and
//! the animation parameter is a count of microradians, so every result is
//! exact. The shell around this crate owns the window, the device and the
//! queue; it hands in plain values and carries out the commands it gets back.

pub mod animation;
pub mod error;
pub mod callback;
pub mod context;
pub mod dock;
pub mod engine;
pub mod geometry;
pub mod registry;
pub mod renderer;
pub mod tabs;
pub mod words;
