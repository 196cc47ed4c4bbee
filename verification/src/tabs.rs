//! Tabs, and the rule that picks the content shown inside one.

use vstd::prelude::*;
use vstd::string::StringExecFns;

verus! {

/// What a tab shows.
#[derive(Clone, Copy, Debug, PartialEq, Eq, Structural)]
pub enum ContentKind {
    /// The GPU-rendered viewport.
    Viewport,
    /// The scrollback of log records.
    Log,
    /// The profiler.
    Profiler,
    /// Nothing of its own: a line of text that echoes the tab's name.
    Placeholder,
}

/// A tab's model: its title as a sequence of characters, and its content.
pub struct TabView {
    pub name: Seq<char>,
    pub kind: ContentKind,
}

/// A tab of a leaf: the title on its handle and the content behind it.
#[derive(Debug, Clone, PartialEq, Eq)]
pub struct Tab {
    pub name: String,
    pub kind: ContentKind,
}

impl View for Tab {
    type V = TabView;

    open spec fn view(&self) -> TabView {
        TabView { name: self.name@, kind: self.kind }
    }
}

/// The content that a tab gets when only its name is known. Three names are
/// routed to a view of their own; every other name shows the placeholder.
pub open spec fn kind_of(name: Seq<char>) -> ContentKind {
    if name == "Viewer"@ {
        ContentKind::Viewport
    } else if name == "Editor Debug"@ {
        ContentKind::Profiler
    } else if name == "Log"@ {
        ContentKind::Log
    } else {
        ContentKind::Placeholder
    }
}

/// The text of the placeholder view of a tab with the given name.
pub open spec fn placeholder_text(name: Seq<char>) -> Seq<char> {
    "Content of "@ + name
}

/// The models of a leaf's tabs, in their order.
pub open spec fn tab_views(tabs: Seq<Tab>) -> Seq<TabView> {
    tabs.map_values(|t: Tab| t@)
}

pub fn classify(name: &str) -> (kind: ContentKind)
    ensures
        kind == kind_of(name@),
{
    let owned: String = name.to_owned();
    if owned == "Viewer".to_owned() {
        ContentKind::Viewport
    } else if owned == "Editor Debug".to_owned() {
        ContentKind::Profiler
    } else if owned == "Log".to_owned() {
        ContentKind::Log
    } else {
        ContentKind::Placeholder
    }
}

pub fn placeholder(name: &str) -> (text: String)
    ensures
        text@ == placeholder_text(name@),
{
    "Content of ".to_owned().concat(name)
}

impl Tab {
    /// A tab with the given title, showing what `kind_of` assigns to it.
    pub fn new(name: &str) -> (tab: Tab)
        ensures
            tab@ == (TabView { name: name@, kind: kind_of(name@) }),
    {
        Tab { name: name.to_owned(), kind: classify(name) }
    }

    /// A tab whose content does not follow from its title.
    pub fn with_kind(name: &str, kind: ContentKind) -> (tab: Tab)
        ensures
            tab@ == (TabView { name: name@, kind }),
    {
        Tab { name: name.to_owned(), kind }
    }

    pub fn duplicate(&self) -> (tab: Tab)
        ensures
            tab@ == self@,
    {
        Tab { name: self.name.clone(), kind: self.kind }
    }
}

} // verus!
