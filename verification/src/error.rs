//! The failures the core reports.

use vstd::prelude::*;

verus! {

/// A dock-tree request that is refused before it can touch the tree.
#[derive(Clone, Copy, Debug, PartialEq, Eq, Structural)]
pub enum ConfigError {
    /// The split fraction does not lie strictly between zero and one.
    FractionOutOfRange,
    /// A leaf must show at least one tab.
    EmptyTabs,
    /// No node of the tree has the given index.
    UnknownNode,
    /// The node has no divider to move: it is a leaf.
    NotASplit,
    /// The tab index is not one of the leaf's tabs, or the node is no leaf.
    UnknownTab,
    /// The split would push a node past the largest index.
    TooDeep,
}

/// The registry was asked for a renderer that was never installed.
#[derive(Clone, Copy, Debug, PartialEq, Eq, Structural)]
pub enum LookupError {
    NotInstalled,
}

/// Start-up cannot go on without a graphics device.
#[derive(Clone, Copy, Debug, PartialEq, Eq, Structural)]
pub enum InitializationError {
    /// The window was created without a GPU render state.
    MissingContext,
    /// No adapter is compatible with the surface.
    MissingAdapter,
    /// The adapter refused to open a device.
    MissingDevice,
}

} // verus!
