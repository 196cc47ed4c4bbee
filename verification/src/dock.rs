//! The dock tree: a binary tree whose leaves are tabbed panes and whose inner
//! nodes divide their rectangle between two children.

use vstd::prelude::*;
use crate::error::ConfigError;
use crate::geometry::{Fraction, Orientation, Rect, lemma_split_partitions};
use crate::tabs::{Tab, TabView, tab_views};

verus! {

/// A node's place in the tree. The root is 0; the children of node `i` are
/// `2 * i + 1`, the left or upper one, and `2 * i + 2`.
#[derive(Clone, Copy, Debug, PartialEq, Eq, Structural)]
pub struct NodeIndex(pub u64);

/// The way from the root to the node with the given index: one step for each
/// level, `false` into the first child and `true` into the second.
pub open spec fn path_of(index: nat) -> Seq<bool>
    decreases index,
{
    if index == 0 {
        Seq::empty()
    } else {
        path_of(((index - 1) / 2) as nat).push(index % 2 == 0)
    }
}

/// The index of the child that one step leads to.
pub open spec fn child_of(index: nat, second: bool) -> nat {
    if second {
        2 * index + 2
    } else {
        2 * index + 1
    }
}

/// The index reached from `index` by walking `path` downwards.
pub open spec fn descend(index: nat, path: Seq<bool>) -> nat
    decreases path.len(),
{
    if path.len() == 0 {
        index
    } else {
        descend(child_of(index, path[0]), path.drop_first())
    }
}

/// The side of an existing node on which a split puts the new leaf.
#[derive(Clone, Copy, Debug, PartialEq, Eq, Structural)]
pub enum Side {
    Left,
    Right,
    Above,
    Below,
}

impl Side {
    pub open spec fn orientation(self) -> Orientation {
        match self {
            Side::Left | Side::Right => Orientation::Horizontal,
            Side::Above | Side::Below => Orientation::Vertical,
        }
    }

    /// The new leaf becomes the first child, the left or upper one.
    pub open spec fn new_first(self) -> bool {
        self == Side::Left || self == Side::Above
    }
}

/// The model of a node and all below it.
pub enum NodeView {
    Leaf { tabs: Seq<TabView>, active: nat },
    Split { orientation: Orientation, fraction: Fraction, first: Box<NodeView>, second: Box<NodeView> },
}

/// One pane of a resolved layout, as a model.
pub struct PlacementView {
    pub node: nat,
    pub rect: Rect,
    pub tab: TabView,
}

impl NodeView {
    /// Every leaf shows at least one tab and has one of them selected, and
    /// every divider lies strictly inside its rectangle.
    pub open spec fn wf(self) -> bool
        decreases self,
    {
        match self {
            NodeView::Leaf { tabs, active } => active < tabs.len(),
            NodeView::Split { fraction, first, second, .. } => fraction.valid() && first.wf()
                && second.wf(),
        }
    }

    /// Standing at `index`, no node of this subtree has an index beyond `u64`.
    pub open spec fn fits(self, index: nat) -> bool
        decreases self,
    {
        match self {
            NodeView::Leaf { .. } => index <= u64::MAX,
            NodeView::Split { first, second, .. } => 2 * index + 2 <= u64::MAX && first.fits(
                2 * index + 1,
            ) && second.fits(2 * index + 2),
        }
    }

    pub open spec fn leaf_count(self) -> nat
        decreases self,
    {
        match self {
            NodeView::Leaf { .. } => 1,
            NodeView::Split { first, second, .. } => first.leaf_count() + second.leaf_count(),
        }
    }

    /// The node that `path` leads to from here, if the tree reaches that far.
    pub open spec fn subtree(self, path: Seq<bool>) -> Option<NodeView>
        decreases path.len(),
    {
        if path.len() == 0 {
            Some(self)
        } else {
            match self {
                NodeView::Leaf { .. } => None,
                NodeView::Split { first, second, .. } => if path[0] {
                    second.subtree(path.drop_first())
                } else {
                    first.subtree(path.drop_first())
                },
            }
        }
    }

    /// This tree with the node at the end of `path` exchanged for `sub`.
    /// Where the path leaves the tree, nothing changes.
    pub open spec fn replace(self, path: Seq<bool>, sub: NodeView) -> NodeView
        decreases path.len(),
    {
        if path.len() == 0 {
            sub
        } else {
            match self {
                NodeView::Leaf { .. } => self,
                NodeView::Split { orientation, fraction, first, second } => if path[0] {
                    NodeView::Split {
                        orientation,
                        fraction,
                        first,
                        second: Box::new(second.replace(path.drop_first(), sub)),
                    }
                } else {
                    NodeView::Split {
                        orientation,
                        fraction,
                        first: Box::new(first.replace(path.drop_first(), sub)),
                        second,
                    }
                },
            }
        }
    }

    /// This node made one side of a new split, with a new leaf of `tabs`
    /// on the other side.
    pub open spec fn wrapped(self, side: Side, fraction: Fraction, tabs: Seq<TabView>) -> NodeView {
        let fresh = NodeView::Leaf { tabs, active: 0 };
        if side.new_first() {
            NodeView::Split {
                orientation: side.orientation(),
                fraction,
                first: Box::new(fresh),
                second: Box::new(self),
            }
        } else {
            NodeView::Split {
                orientation: side.orientation(),
                fraction,
                first: Box::new(self),
                second: Box::new(fresh),
            }
        }
    }

    /// The panes of this subtree when it stands at `index` and is given
    /// `rect`: a leaf takes the rectangle whole, a split cuts it by its
    /// fraction and hands the parts to its children, first child first.
    pub open spec fn layout(self, index: nat, rect: Rect) -> Seq<PlacementView>
        decreases self,
    {
        match self {
            NodeView::Leaf { tabs, active } => seq![
                PlacementView { node: index, rect, tab: tabs[active as int] },
            ],
            NodeView::Split { orientation, fraction, first, second } => {
                let parts = rect.split_spec(orientation, fraction);
                first.layout(2 * index + 1, parts.0) + second.layout(2 * index + 2, parts.1)
            },
        }
    }
}

/// How many of the panes hold the pixel at `(x, y)`.
pub open spec fn cover_count(panes: Seq<PlacementView>, x: int, y: int) -> nat
    decreases panes.len(),
{
    if panes.len() == 0 {
        0
    } else {
        cover_count(panes.drop_last(), x, y) + (if panes.last().rect.contains(x, y) {
            1nat
        } else {
            0nat
        })
    }
}

/// The pixels of all the panes, counted pane by pane.
pub open spec fn total_area(panes: Seq<PlacementView>) -> int
    decreases panes.len(),
{
    if panes.len() == 0 {
        0
    } else {
        total_area(panes.drop_last()) + panes.last().rect.area()
    }
}

proof fn lemma_cover_count_concat(a: Seq<PlacementView>, b: Seq<PlacementView>, x: int, y: int)
    ensures
        cover_count(a + b, x, y) == cover_count(a, x, y) + cover_count(b, x, y),
    decreases b.len(),
{
    if b.len() == 0 {
        assert(a + b =~= a);
    } else {
        assert((a + b).drop_last() =~= a + b.drop_last());
        lemma_cover_count_concat(a, b.drop_last(), x, y);
    }
}

proof fn lemma_total_area_concat(a: Seq<PlacementView>, b: Seq<PlacementView>)
    ensures
        total_area(a + b) == total_area(a) + total_area(b),
    decreases b.len(),
{
    if b.len() == 0 {
        assert(a + b =~= a);
    } else {
        assert((a + b).drop_last() =~= a + b.drop_last());
        lemma_total_area_concat(a, b.drop_last());
    }
}

proof fn lemma_layout_at(t: NodeView, index: nat, r: Rect, x: int, y: int)
    requires
        t.wf(),
        r.valid(),
    ensures
        cover_count(t.layout(index, r), x, y) == (if r.contains(x, y) {
            1nat
        } else {
            0nat
        }),
    decreases t,
{
    match t {
        NodeView::Leaf { tabs, active } => {
            let panes = t.layout(index, r);
            assert(panes.drop_last().len() == 0);
            assert(cover_count(panes.drop_last(), x, y) == 0);
        },
        NodeView::Split { orientation, fraction, first, second } => {
            let parts = r.split_spec(orientation, fraction);
            lemma_split_partitions(r, orientation, fraction);
            lemma_layout_at(*first, 2 * index + 1, parts.0, x, y);
            lemma_layout_at(*second, 2 * index + 2, parts.1, x, y);
            lemma_cover_count_concat(
                first.layout(2 * index + 1, parts.0),
                second.layout(2 * index + 2, parts.1),
                x,
                y,
            );
        },
    }
}

/// A resolved layout tiles its rectangle: it has one pane for each leaf,
/// every pixel of the rectangle lies in exactly one pane, no pane reaches
/// outside it, and the panes' areas add up to the rectangle's.
pub proof fn lemma_layout_tiles(t: NodeView, index: nat, r: Rect)
    requires
        t.wf(),
        r.valid(),
    ensures
        t.layout(index, r).len() == t.leaf_count(),
        forall|x: int, y: int| #[trigger]
            cover_count(t.layout(index, r), x, y) == (if r.contains(x, y) {
                1nat
            } else {
                0nat
            }),
        total_area(t.layout(index, r)) == r.area(),
    decreases t,
{
    assert forall|x: int, y: int| #[trigger]
        cover_count(t.layout(index, r), x, y) == (if r.contains(x, y) {
            1nat
        } else {
            0nat
        }) by {
        lemma_layout_at(t, index, r, x, y);
    }
    match t {
        NodeView::Leaf { tabs, active } => {
            let panes = t.layout(index, r);
            assert(panes.drop_last().len() == 0);
            assert(total_area(panes.drop_last()) == 0);
        },
        NodeView::Split { orientation, fraction, first, second } => {
            let parts = r.split_spec(orientation, fraction);
            lemma_split_partitions(r, orientation, fraction);
            lemma_layout_tiles(*first, 2 * index + 1, parts.0);
            lemma_layout_tiles(*second, 2 * index + 2, parts.1);
            lemma_total_area_concat(
                first.layout(2 * index + 1, parts.0),
                second.layout(2 * index + 2, parts.1),
            );
        },
    }
}


/// A node of the dock tree, with everything below it.
#[derive(Debug, PartialEq, Eq)]
pub enum DockNode {
    /// A pane: its tabs in order, and the position of the selected one.
    Leaf { tabs: Vec<Tab>, active: usize },
    /// A divider: `fraction` of the rectangle goes to `first`, the left or
    /// upper child, and the rest to `second`.
    Split { orientation: Orientation, fraction: Fraction, first: Box<DockNode>, second: Box<DockNode> },
}

pub open spec fn node_view(node: DockNode) -> NodeView
    decreases node,
{
    match node {
        DockNode::Leaf { tabs, active } => NodeView::Leaf {
            tabs: tab_views(tabs@),
            active: active as nat,
        },
        DockNode::Split { orientation, fraction, first, second } => NodeView::Split {
            orientation,
            fraction,
            first: Box::new(node_view(*first)),
            second: Box::new(node_view(*second)),
        },
    }
}

impl View for DockNode {
    type V = NodeView;

    open spec fn view(&self) -> NodeView {
        node_view(*self)
    }
}

/// One pane of a resolved layout: the leaf, the rectangle it was given and
/// the tab it has selected.
#[derive(Debug, Clone, PartialEq, Eq)]
pub struct Placement {
    pub node: NodeIndex,
    pub rect: Rect,
    pub tab: Tab,
}

impl View for Placement {
    type V = PlacementView;

    open spec fn view(&self) -> PlacementView {
        PlacementView { node: self.node.0 as nat, rect: self.rect, tab: self.tab@ }
    }
}

pub open spec fn placement_views(panes: Seq<Placement>) -> Seq<PlacementView> {
    panes.map_values(|p: Placement| p@)
}

impl NodeIndex {
    pub fn root() -> (res: NodeIndex)
        ensures
            res.0 == 0,
    {
        NodeIndex(0)
    }

    /// The index of the first child, the left or upper one.
    pub fn left(self) -> (res: NodeIndex)
        requires
            2 * self.0 + 1 <= u64::MAX,
        ensures
            res.0 == 2 * self.0 + 1,
    {
        NodeIndex(2 * self.0 + 1)
    }

    /// The index of the second child, the right or lower one.
    pub fn right(self) -> (res: NodeIndex)
        requires
            2 * self.0 + 2 <= u64::MAX,
        ensures
            res.0 == 2 * self.0 + 2,
    {
        NodeIndex(2 * self.0 + 2)
    }

    /// The steps from the root down to this node.
    pub fn path(self) -> (res: Vec<bool>)
        ensures
            res@ == path_of(self.0 as nat),
    {
        let mut steps: Vec<bool> = Vec::new();
        push_path(self.0, &mut steps);
        assert(steps@ =~= path_of(self.0 as nat));
        steps
    }
}

fn push_path(index: u64, steps: &mut Vec<bool>)
    ensures
        final(steps)@ == old(steps)@ + path_of(index as nat),
    decreases index,
{
    if index > 0 {
        push_path((index - 1) / 2, steps);
        steps.push(index % 2 == 0);
        assert(steps@ =~= old(steps)@ + path_of(index as nat));
    } else {
        assert(steps@ =~= old(steps)@ + path_of(index as nat));
    }
}

impl Side {
    pub fn is_new_first(self) -> (res: bool)
        ensures
            res == self.new_first(),
    {
        match self {
            Side::Left | Side::Above => true,
            Side::Right | Side::Below => false,
        }
    }

    pub fn axis(self) -> (res: Orientation)
        ensures
            res == self.orientation(),
    {
        match self {
            Side::Left | Side::Right => Orientation::Horizontal,
            Side::Above | Side::Below => Orientation::Vertical,
        }
    }
}

fn layout_into(node: &DockNode, index: u64, rect: Rect, panes: &mut Vec<Placement>)
    requires
        node@.wf(),
        node@.fits(index as nat),
    ensures
        placement_views(final(panes)@) == placement_views(old(panes)@) + node@.layout(
            index as nat,
            rect,
        ),
    decreases node,
{
    match node {
        DockNode::Leaf { tabs, active } => {
            let tab: Tab = tabs[*active].duplicate();
            panes.push(Placement { node: NodeIndex(index), rect, tab });
            assert(placement_views(panes@) =~= placement_views(old(panes)@) + node@.layout(
                index as nat,
                rect,
            ));
        },
        DockNode::Split { orientation, fraction, first, second } => {
            let parts: (Rect, Rect) = rect.split_valid(*orientation, *fraction);
            layout_into(first, 2 * index + 1, parts.0, panes);
            layout_into(second, 2 * index + 2, parts.1, panes);
            assert(placement_views(panes@) =~= placement_views(old(panes)@) + node@.layout(
                index as nat,
                rect,
            ));
        },
    }
}

fn node_wf(node: &DockNode) -> (res: bool)
    ensures
        res == node@.wf(),
    decreases node,
{
    match node {
        DockNode::Leaf { tabs, active } => {
            assert(tab_views(tabs@).len() == tabs@.len());
            *active < tabs.len()
        },
        DockNode::Split { fraction, first, second, .. } => {
            fraction.is_valid() && node_wf(first) && node_wf(second)
        },
    }
}

fn node_fits(node: &DockNode, index: u64) -> (res: bool)
    ensures
        res == node@.fits(index as nat),
    decreases node,
{
    match node {
        DockNode::Leaf { .. } => true,
        DockNode::Split { first, second, .. } => {
            if index > (u64::MAX - 2) / 2 {
                false
            } else {
                node_fits(first, 2 * index + 1) && node_fits(second, 2 * index + 2)
            }
        },
    }
}

fn subtree_ref<'a>(node: &'a DockNode, path: &Vec<bool>, depth: usize) -> (res: Option<&'a DockNode>)
    requires
        depth <= path.len(),
    ensures
        match res {
            Some(sub) => node@.subtree(path@.skip(depth as int)) == Some(sub@),
            None => node@.subtree(path@.skip(depth as int)) is None,
        },
    decreases path.len() - depth,
{
    if depth == path.len() {
        Some(node)
    } else {
        assert(path@.skip(depth as int).drop_first() =~= path@.skip(depth + 1));
        match node {
            DockNode::Leaf { .. } => None,
            DockNode::Split { first, second, .. } => {
                if path[depth] {
                    subtree_ref(second, path, depth + 1)
                } else {
                    subtree_ref(first, path, depth + 1)
                }
            },
        }
    }
}


proof fn lemma_descend_push(index: nat, path: Seq<bool>, step: bool)
    ensures
        descend(index, path.push(step)) == child_of(descend(index, path), step),
    decreases path.len(),
{
    let longer = path.push(step);
    if path.len() == 0 {
        assert(longer.drop_first() =~= Seq::<bool>::empty());
        assert(descend(child_of(index, step), longer.drop_first()) == child_of(index, step));
    } else {
        assert(longer.drop_first() =~= path.drop_first().push(step));
        lemma_descend_push(child_of(index, path[0]), path.drop_first(), step);
    }
}

/// Walking a node's path down from the root ends at that node's index.
pub proof fn lemma_descend_path_of(index: nat)
    ensures
        descend(0, path_of(index)) == index,
    decreases index,
{
    if index > 0 {
        let parent = ((index - 1) / 2) as nat;
        lemma_descend_path_of(parent);
        lemma_descend_push(0, path_of(parent), index % 2 == 0);
    }
}

proof fn lemma_subtree_sound(t: NodeView, index: nat, path: Seq<bool>)
    requires
        t.wf(),
        t.fits(index),
        t.subtree(path) is Some,
    ensures
        t.subtree(path).unwrap().wf(),
        t.subtree(path).unwrap().fits(descend(index, path)),
    decreases path.len(),
{
    if path.len() > 0 {
        match t {
            NodeView::Leaf { .. } => {},
            NodeView::Split { first, second, .. } => {
                if path[0] {
                    lemma_subtree_sound(*second, 2 * index + 2, path.drop_first());
                } else {
                    lemma_subtree_sound(*first, 2 * index + 1, path.drop_first());
                }
            },
        }
    }
}

proof fn lemma_replace_sound(t: NodeView, index: nat, path: Seq<bool>, sub: NodeView)
    requires
        t.wf(),
        t.fits(index),
        t.subtree(path) is Some,
        sub.wf(),
        sub.fits(descend(index, path)),
    ensures
        t.replace(path, sub).wf(),
        t.replace(path, sub).fits(index),
        t.replace(path, sub).subtree(path) == Some(sub),
    decreases path.len(),
{
    if path.len() > 0 {
        match t {
            NodeView::Leaf { .. } => {},
            NodeView::Split { first, second, .. } => {
                if path[0] {
                    lemma_replace_sound(*second, 2 * index + 2, path.drop_first(), sub);
                } else {
                    lemma_replace_sound(*first, 2 * index + 1, path.drop_first(), sub);
                }
            },
        }
    }
}

impl NodeView {
    /// This tree after the node `node` was wrapped into a new split.
    pub open spec fn with_split(
        self,
        node: nat,
        side: Side,
        fraction: Fraction,
        tabs: Seq<TabView>,
    ) -> NodeView {
        self.replace(
            path_of(node),
            self.subtree(path_of(node)).unwrap().wrapped(side, fraction, tabs),
        )
    }

    /// Why a split of `node` is refused, if it is. The reasons are tried in
    /// this order: the fraction, the tabs, the node, the room for indices.
    pub open spec fn split_refusal(
        self,
        node: nat,
        side: Side,
        fraction: Fraction,
        tabs: Seq<TabView>,
    ) -> Option<ConfigError> {
        if !fraction.valid() {
            Some(ConfigError::FractionOutOfRange)
        } else if tabs.len() == 0 {
            Some(ConfigError::EmptyTabs)
        } else {
            match self.subtree(path_of(node)) {
                None => Some(ConfigError::UnknownNode),
                Some(sub) => if sub.wrapped(side, fraction, tabs).fits(node) {
                    None
                } else {
                    Some(ConfigError::TooDeep)
                },
            }
        }
    }

    /// This node with its divider moved; a leaf has none and stays as it is.
    pub open spec fn with_fraction(self, fraction: Fraction) -> NodeView {
        match self {
            NodeView::Leaf { .. } => self,
            NodeView::Split { orientation, first, second, .. } => NodeView::Split {
                orientation,
                fraction,
                first,
                second,
            },
        }
    }

    pub open spec fn resize_refusal(self, node: nat, fraction: Fraction) -> Option<ConfigError> {
        if !fraction.valid() {
            Some(ConfigError::FractionOutOfRange)
        } else {
            match self.subtree(path_of(node)) {
                None => Some(ConfigError::UnknownNode),
                Some(NodeView::Leaf { .. }) => Some(ConfigError::NotASplit),
                Some(NodeView::Split { .. }) => None,
            }
        }
    }

    /// This leaf with another tab selected; a split stays as it is.
    pub open spec fn with_active(self, tab: nat) -> NodeView {
        match self {
            NodeView::Leaf { tabs, .. } => NodeView::Leaf { tabs, active: tab },
            NodeView::Split { .. } => self,
        }
    }

    /// This leaf with a new title on the tab at position `tab`, which keeps
    /// its content; a split stays as it is.
    pub open spec fn with_title(self, tab: nat, name: Seq<char>) -> NodeView {
        match self {
            NodeView::Leaf { tabs, active } => NodeView::Leaf {
                tabs: tabs.update(tab as int, TabView { name, kind: tabs[tab as int].kind }),
                active,
            },
            NodeView::Split { .. } => self,
        }
    }

    /// Why a tab of `node` cannot be selected or renamed, if it cannot.
    pub open spec fn select_refusal(self, node: nat, tab: nat) -> Option<ConfigError> {
        match self.subtree(path_of(node)) {
            None => Some(ConfigError::UnknownNode),
            Some(NodeView::Leaf { tabs, .. }) => if tab < tabs.len() {
                None
            } else {
                Some(ConfigError::UnknownTab)
            },
            Some(NodeView::Split { .. }) => Some(ConfigError::UnknownTab),
        }
    }
}

fn split_in(
    node: &mut DockNode,
    path: &Vec<bool>,
    depth: usize,
    side: Side,
    fraction: Fraction,
    tabs: Vec<Tab>,
)
    requires
        depth <= path.len(),
        old(node)@.subtree(path@.skip(depth as int)) is Some,
    ensures
        final(node)@ == old(node)@.replace(
            path@.skip(depth as int),
            old(node)@.subtree(path@.skip(depth as int)).unwrap().wrapped(
                side,
                fraction,
                tab_views(tabs@),
            ),
        ),
    decreases path.len() - depth,
{
    if depth == path.len() {
        let mut taken = DockNode::Leaf { tabs: Vec::new(), active: 0 };
        core::mem::swap(node, &mut taken);
        let fresh = DockNode::Leaf { tabs, active: 0 };
        let orientation: Orientation = side.axis();
        assert(taken@ == old(node)@);
        assert(fresh@ == (NodeView::Leaf { tabs: tab_views(tabs@), active: 0 }));
        assert(path@.skip(depth as int).len() == 0);
        if side.is_new_first() {
            *node = DockNode::Split {
                orientation,
                fraction,
                first: Box::new(fresh),
                second: Box::new(taken),
            };
        } else {
            *node = DockNode::Split {
                orientation,
                fraction,
                first: Box::new(taken),
                second: Box::new(fresh),
            };
        }
    } else {
        proof {
            assert(path@.skip(depth as int).drop_first() =~= path@.skip(depth + 1));
        }
        match node {
            DockNode::Leaf { .. } => {},
            DockNode::Split { first, second, .. } => {
                if path[depth] {
                    split_in(second, path, depth + 1, side, fraction, tabs);
                } else {
                    split_in(first, path, depth + 1, side, fraction, tabs);
                }
            },
        }
    }
}

/// The dock tree of one window.
#[derive(Debug, PartialEq, Eq)]
pub struct DockTree {
    root: DockNode,
}

impl View for DockTree {
    type V = NodeView;

    closed spec fn view(&self) -> NodeView {
        self.root@
    }
}

impl DockTree {
    /// The tree is well formed and all its indices fit.
    pub open spec fn wf(self) -> bool {
        self@.wf() && self@.fits(0)
    }

    /// A tree of one leaf that shows `tabs`, the first of them selected.
    /// A leaf without tabs is refused.
    pub fn new(tabs: Vec<Tab>) -> (res: Result<DockTree, ConfigError>)
        ensures
            match res {
                Ok(tree) => tabs@.len() > 0 && tree.wf() && tree@ == (NodeView::Leaf {
                    tabs: tab_views(tabs@),
                    active: 0,
                }),
                Err(e) => tabs@.len() == 0 && e == ConfigError::EmptyTabs,
            },
    {
        if tabs.len() == 0 {
            return Err(ConfigError::EmptyTabs);
        }
        Ok(DockTree { root: DockNode::Leaf { tabs, active: 0 } })
    }

    /// Tests whether the tree is well formed.
    pub fn is_well_formed(&self) -> (res: bool)
        ensures
            res == self.wf(),
    {
        node_wf(&self.root) && node_fits(&self.root, 0)
    }

    pub fn root(&self) -> (res: &DockNode)
        ensures
            res@ == self@,
    {
        &self.root
    }

    /// The node with the given index, if the tree has one.
    pub fn get(&self, node: NodeIndex) -> (res: Option<&DockNode>)
        ensures
            match res {
                Some(sub) => self@.subtree(path_of(node.0 as nat)) == Some(sub@),
                None => self@.subtree(path_of(node.0 as nat)) is None,
            },
    {
        let path: Vec<bool> = node.path();
        assert(path@.skip(0) =~= path@);
        subtree_ref(&self.root, &path, 0)
    }

    /// Resolves the layout: the rectangle of every leaf when the root is
    /// given `rect`, in order from the first child to the second.
    pub fn layout(&self, rect: Rect) -> (panes: Vec<Placement>)
        requires
            self.wf(),
        ensures
            placement_views(panes@) == self@.layout(0, rect),
    {
        let mut panes: Vec<Placement> = Vec::new();
        layout_into(&self.root, 0, rect, &mut panes);
        assert(placement_views(panes@) =~= self@.layout(0, rect));
        panes
    }

    /// Puts a split in the place of `node`. The node moves to one side of
    /// it and a new leaf of `tabs` takes the side named by `side`; `fraction`
    /// of the rectangle goes to the left or upper one of the two. Returns
    /// the indices of the left or upper child and of the other one.
    pub fn split(
        &mut self,
        node: NodeIndex,
        side: Side,
        fraction: Fraction,
        tabs: Vec<Tab>,
    ) -> (res: Result<(NodeIndex, NodeIndex), ConfigError>)
        requires
            old(self).wf(),
        ensures
            final(self).wf(),
            match res {
                Ok(ids) => {
                    &&& old(self)@.split_refusal(node.0 as nat, side, fraction, tab_views(tabs@))
                        is None
                    &&& ids.0.0 == 2 * node.0 + 1
                    &&& ids.1.0 == 2 * node.0 + 2
                    &&& final(self)@ == old(self)@.with_split(
                        node.0 as nat,
                        side,
                        fraction,
                        tab_views(tabs@),
                    )
                },
                Err(e) => {
                    &&& old(self)@.split_refusal(node.0 as nat, side, fraction, tab_views(tabs@))
                        == Some(e)
                    &&& final(self)@ == old(self)@
                },
            },
    {
        if !fraction.is_valid() {
            return Err(ConfigError::FractionOutOfRange);
        }
        if tabs.len() == 0 {
            return Err(ConfigError::EmptyTabs);
        }
        let path: Vec<bool> = node.path();
        assert(path@.skip(0) =~= path@);
        assert(tab_views(tabs@).len() == tabs@.len());
        let room: bool = match subtree_ref(&self.root, &path, 0) {
            None => {
                return Err(ConfigError::UnknownNode);
            },
            Some(sub) => {
                if node.0 > (u64::MAX - 2) / 2 {
                    false
                } else if side.is_new_first() {
                    node_fits(sub, 2 * node.0 + 2)
                } else {
                    node_fits(sub, 2 * node.0 + 1)
                }
            },
        };
        if !room {
            return Err(ConfigError::TooDeep);
        }
        proof {
            let sub = self@.subtree(path@).unwrap();
            let fresh = NodeView::Leaf { tabs: tab_views(tabs@), active: 0 };
            lemma_descend_path_of(node.0 as nat);
            lemma_subtree_sound(self@, 0, path@);
            assert(fresh.wf());
            assert(fresh.fits((2 * node.0 + 1) as nat) && fresh.fits((2 * node.0 + 2) as nat));
            assert(sub.wrapped(side, fraction, tab_views(tabs@)).wf());
            assert(sub.wrapped(side, fraction, tab_views(tabs@)).fits(node.0 as nat));
            lemma_replace_sound(
                self@,
                0,
                path@,
                sub.wrapped(side, fraction, tab_views(tabs@)),
            );
        }
        split_in(&mut self.root, &path, 0, side, fraction, tabs);
        Ok((NodeIndex(2 * node.0 + 1), NodeIndex(2 * node.0 + 2)))
    }

    /// Splits `parent` and puts the new leaf on its left, where it takes
    /// `fraction` of the width. Returns the indices of the old node and of
    /// the new leaf, in that order.
    pub fn split_left(&mut self, parent: NodeIndex, fraction: Fraction, tabs: Vec<Tab>) -> (res:
        Result<[NodeIndex; 2], ConfigError>)
        requires
            old(self).wf(),
        ensures
            final(self).wf(),
            match res {
                Ok(ids) => {
                    &&& old(self)@.split_refusal(
                        parent.0 as nat,
                        Side::Left,
                        fraction,
                        tab_views(tabs@),
                    ) is None
                    &&& ids[0].0 == 2 * parent.0 + 2
                    &&& ids[1].0 == 2 * parent.0 + 1
                    &&& final(self)@ == old(self)@.with_split(
                        parent.0 as nat,
                        Side::Left,
                        fraction,
                        tab_views(tabs@),
                    )
                },
                Err(e) => {
                    &&& old(self)@.split_refusal(
                        parent.0 as nat,
                        Side::Left,
                        fraction,
                        tab_views(tabs@),
                    ) == Some(e)
                    &&& final(self)@ == old(self)@
                },
            },
    {
        match self.split(parent, Side::Left, fraction, tabs) {
            Ok(ids) => Ok([ids.1, ids.0]),
            Err(e) => Err(e),
        }
    }

    /// Splits `parent` and puts the new leaf below it; the old node keeps
    /// `fraction` of the height. Returns the indices of the old node and of
    /// the new leaf, in that order.
    pub fn split_below(&mut self, parent: NodeIndex, fraction: Fraction, tabs: Vec<Tab>) -> (res:
        Result<[NodeIndex; 2], ConfigError>)
        requires
            old(self).wf(),
        ensures
            final(self).wf(),
            match res {
                Ok(ids) => {
                    &&& old(self)@.split_refusal(
                        parent.0 as nat,
                        Side::Below,
                        fraction,
                        tab_views(tabs@),
                    ) is None
                    &&& ids[0].0 == 2 * parent.0 + 1
                    &&& ids[1].0 == 2 * parent.0 + 2
                    &&& final(self)@ == old(self)@.with_split(
                        parent.0 as nat,
                        Side::Below,
                        fraction,
                        tab_views(tabs@),
                    )
                },
                Err(e) => {
                    &&& old(self)@.split_refusal(
                        parent.0 as nat,
                        Side::Below,
                        fraction,
                        tab_views(tabs@),
                    ) == Some(e)
                    &&& final(self)@ == old(self)@
                },
            },
    {
        match self.split(parent, Side::Below, fraction, tabs) {
            Ok(ids) => Ok([ids.0, ids.1]),
            Err(e) => Err(e),
        }
    }
}


fn resize_in(node: &mut DockNode, path: &Vec<bool>, depth: usize, fraction: Fraction)
    requires
        depth <= path.len(),
        old(node)@.subtree(path@.skip(depth as int)) is Some,
    ensures
        final(node)@ == old(node)@.replace(
            path@.skip(depth as int),
            old(node)@.subtree(path@.skip(depth as int)).unwrap().with_fraction(fraction),
        ),
    decreases path.len() - depth,
{
    if depth == path.len() {
        assert(path@.skip(depth as int).len() == 0);
        match node {
            DockNode::Leaf { .. } => {},
            DockNode::Split { fraction: divider, .. } => {
                *divider = fraction;
            },
        }
    } else {
        proof {
            assert(path@.skip(depth as int).drop_first() =~= path@.skip(depth + 1));
        }
        match node {
            DockNode::Leaf { .. } => {},
            DockNode::Split { first, second, .. } => {
                if path[depth] {
                    resize_in(second, path, depth + 1, fraction);
                } else {
                    resize_in(first, path, depth + 1, fraction);
                }
            },
        }
    }
}

fn select_in(node: &mut DockNode, path: &Vec<bool>, depth: usize, tab: usize)
    requires
        depth <= path.len(),
        old(node)@.subtree(path@.skip(depth as int)) is Some,
    ensures
        final(node)@ == old(node)@.replace(
            path@.skip(depth as int),
            old(node)@.subtree(path@.skip(depth as int)).unwrap().with_active(tab as nat),
        ),
    decreases path.len() - depth,
{
    if depth == path.len() {
        assert(path@.skip(depth as int).len() == 0);
        match node {
            DockNode::Leaf { active, .. } => {
                *active = tab;
            },
            DockNode::Split { .. } => {},
        }
    } else {
        proof {
            assert(path@.skip(depth as int).drop_first() =~= path@.skip(depth + 1));
        }
        match node {
            DockNode::Leaf { .. } => {},
            DockNode::Split { first, second, .. } => {
                if path[depth] {
                    select_in(second, path, depth + 1, tab);
                } else {
                    select_in(first, path, depth + 1, tab);
                }
            },
        }
    }
}

fn retitle_in(node: &mut DockNode, path: &Vec<bool>, depth: usize, tab: usize, name: &str)
    requires
        depth <= path.len(),
        old(node)@.subtree(path@.skip(depth as int)) is Some,
        old(node)@.subtree(path@.skip(depth as int)).unwrap() matches NodeView::Leaf { tabs, .. }
            && tab < tabs.len(),
    ensures
        final(node)@ == old(node)@.replace(
            path@.skip(depth as int),
            old(node)@.subtree(path@.skip(depth as int)).unwrap().with_title(tab as nat, name@),
        ),
    decreases path.len() - depth,
{
    if depth == path.len() {
        assert(path@.skip(depth as int).len() == 0);
        match node {
            DockNode::Leaf { tabs, .. } => {
                let ghost before = tabs@;
                assert(tab_views(before).len() == before.len());
                let renamed = Tab::with_kind(name, tabs[tab].kind);
                tabs.set(tab, renamed);
                assert(tab_views(tabs@) =~= tab_views(before).update(
                    tab as int,
                    TabView { name: name@, kind: tab_views(before)[tab as int].kind },
                ));
            },
            DockNode::Split { .. } => {},
        }
    } else {
        proof {
            assert(path@.skip(depth as int).drop_first() =~= path@.skip(depth + 1));
        }
        match node {
            DockNode::Leaf { .. } => {},
            DockNode::Split { first, second, .. } => {
                if path[depth] {
                    retitle_in(second, path, depth + 1, tab, name);
                } else {
                    retitle_in(first, path, depth + 1, tab, name);
                }
            },
        }
    }
}

impl DockTree {
    /// Gives the tab at position `tab` of the leaf `node` a new title. What
    /// the tab shows stays the same.
    pub fn retitle(&mut self, node: NodeIndex, tab: usize, name: &str) -> (res: Result<
        (),
        ConfigError,
    >)
        requires
            old(self).wf(),
        ensures
            final(self).wf(),
            match res {
                Ok(_) => {
                    &&& old(self)@.select_refusal(node.0 as nat, tab as nat) is None
                    &&& final(self)@ == old(self)@.replace(
                        path_of(node.0 as nat),
                        old(self)@.subtree(path_of(node.0 as nat)).unwrap().with_title(
                            tab as nat,
                            name@,
                        ),
                    )
                },
                Err(e) => {
                    &&& old(self)@.select_refusal(node.0 as nat, tab as nat) == Some(e)
                    &&& final(self)@ == old(self)@
                },
            },
    {
        let path: Vec<bool> = node.path();
        assert(path@.skip(0) =~= path@);
        match subtree_ref(&self.root, &path, 0) {
            None => {
                return Err(ConfigError::UnknownNode);
            },
            Some(DockNode::Split { .. }) => {
                return Err(ConfigError::UnknownTab);
            },
            Some(DockNode::Leaf { tabs, .. }) => {
                assert(tab_views(tabs@).len() == tabs@.len());
                if tab >= tabs.len() {
                    return Err(ConfigError::UnknownTab);
                }
            },
        }
        proof {
            let sub = self@.subtree(path@).unwrap();
            lemma_subtree_sound(self@, 0, path@);
            assert(sub.with_title(tab as nat, name@).wf());
            assert(sub.with_title(tab as nat, name@).fits(descend(0, path@)));
            lemma_replace_sound(self@, 0, path@, sub.with_title(tab as nat, name@));
        }
        retitle_in(&mut self.root, &path, 0, tab, name);
        Ok(())
    }

    /// Moves the divider of the split `node` to `fraction`.
    pub fn resize(&mut self, node: NodeIndex, fraction: Fraction) -> (res: Result<(), ConfigError>)
        requires
            old(self).wf(),
        ensures
            final(self).wf(),
            match res {
                Ok(_) => {
                    &&& old(self)@.resize_refusal(node.0 as nat, fraction) is None
                    &&& final(self)@ == old(self)@.replace(
                        path_of(node.0 as nat),
                        old(self)@.subtree(path_of(node.0 as nat)).unwrap().with_fraction(fraction),
                    )
                },
                Err(e) => {
                    &&& old(self)@.resize_refusal(node.0 as nat, fraction) == Some(e)
                    &&& final(self)@ == old(self)@
                },
            },
    {
        if !fraction.is_valid() {
            return Err(ConfigError::FractionOutOfRange);
        }
        let path: Vec<bool> = node.path();
        assert(path@.skip(0) =~= path@);
        match subtree_ref(&self.root, &path, 0) {
            None => {
                return Err(ConfigError::UnknownNode);
            },
            Some(DockNode::Leaf { .. }) => {
                return Err(ConfigError::NotASplit);
            },
            Some(DockNode::Split { .. }) => {},
        }
        proof {
            let sub = self@.subtree(path@).unwrap();
            lemma_subtree_sound(self@, 0, path@);
            assert(sub.with_fraction(fraction).wf());
            assert(sub.with_fraction(fraction).fits(descend(0, path@)));
            lemma_replace_sound(self@, 0, path@, sub.with_fraction(fraction));
        }
        resize_in(&mut self.root, &path, 0, fraction);
        Ok(())
    }

    /// Selects the tab at position `tab` of the leaf `node`.
    pub fn select(&mut self, node: NodeIndex, tab: usize) -> (res: Result<(), ConfigError>)
        requires
            old(self).wf(),
        ensures
            final(self).wf(),
            match res {
                Ok(_) => {
                    &&& old(self)@.select_refusal(node.0 as nat, tab as nat) is None
                    &&& final(self)@ == old(self)@.replace(
                        path_of(node.0 as nat),
                        old(self)@.subtree(path_of(node.0 as nat)).unwrap().with_active(tab as nat),
                    )
                },
                Err(e) => {
                    &&& old(self)@.select_refusal(node.0 as nat, tab as nat) == Some(e)
                    &&& final(self)@ == old(self)@
                },
            },
    {
        let path: Vec<bool> = node.path();
        assert(path@.skip(0) =~= path@);
        match subtree_ref(&self.root, &path, 0) {
            None => {
                return Err(ConfigError::UnknownNode);
            },
            Some(DockNode::Split { .. }) => {
                return Err(ConfigError::UnknownTab);
            },
            Some(DockNode::Leaf { tabs, .. }) => {
                assert(tab_views(tabs@).len() == tabs@.len());
                if tab >= tabs.len() {
                    return Err(ConfigError::UnknownTab);
                }
            },
        }
        proof {
            let sub = self@.subtree(path@).unwrap();
            lemma_subtree_sound(self@, 0, path@);
            assert(sub.with_active(tab as nat).wf());
            assert(sub.with_active(tab as nat).fits(descend(0, path@)));
            lemma_replace_sound(self@, 0, path@, sub.with_active(tab as nat));
        }
        select_in(&mut self.root, &path, 0, tab);
        Ok(())
    }
}

/// A leaf that is split and then laid out yields two panes, the children
/// of the split in order, and their rectangles are the two parts into which
/// the fraction cuts the whole: they do not overlap, together they cover
/// exactly the whole, and the first holds the fraction's share of the area,
/// short of it by less than one line of pixels along the cut.
pub proof fn lemma_split_leaf_layout(
    tabs: Seq<TabView>,
    active: nat,
    side: Side,
    f: Fraction,
    fresh: Seq<TabView>,
    r: Rect,
)
    requires
        active < tabs.len(),
        fresh.len() > 0,
        f.valid(),
        r.valid(),
    ensures
        ({
            let leaf = NodeView::Leaf { tabs, active };
            let panes = leaf.with_split(0, side, f, fresh).layout(0, r);
            let (a, b) = r.split_spec(side.orientation(), f);
            &&& leaf.split_refusal(0, side, f, fresh) is None
            &&& panes.len() == 2
            &&& panes[0].node == 1 && panes[0].rect == a
            &&& panes[1].node == 2 && panes[1].rect == b
            &&& a.valid() && b.valid()
            &&& forall|x: int, y: int| r.contains(x, y) <==> (a.contains(x, y) || b.contains(x, y))
            &&& forall|x: int, y: int| !(a.contains(x, y) && b.contains(x, y))
            &&& a.area() + b.area() == r.area()
            &&& a.area() * f.denom <= r.area() * f.numer
            &&& r.area() * f.numer - a.area() * f.denom <= r.cross(side.orientation()) * (f.denom
                - 1)
        }),
{
    let leaf = NodeView::Leaf { tabs, active };
    let new_leaf = NodeView::Leaf { tabs: fresh, active: 0 };
    let tree = leaf.with_split(0, side, f, fresh);
    let (a, b) = r.split_spec(side.orientation(), f);
    lemma_split_partitions(r, side.orientation(), f);
    assert(path_of(0).len() == 0);
    assert(leaf.subtree(path_of(0)) == Some(leaf));
    assert(tree == leaf.wrapped(side, f, fresh));
    assert(leaf.fits(1) && leaf.fits(2) && new_leaf.fits(1) && new_leaf.fits(2));
    assert(tree.fits(0));
    assert(leaf.layout(1, a).len() == 1 && leaf.layout(2, b).len() == 1);
    assert(new_leaf.layout(1, a).len() == 1 && new_leaf.layout(2, b).len() == 1);
    assert(leaf.layout(1, a)[0].node == 1 && leaf.layout(1, a)[0].rect == a);
    assert(leaf.layout(2, b)[0].node == 2 && leaf.layout(2, b)[0].rect == b);
    assert(new_leaf.layout(1, a)[0].node == 1 && new_leaf.layout(1, a)[0].rect == a);
    assert(new_leaf.layout(2, b)[0].node == 2 && new_leaf.layout(2, b)[0].rect == b);
}


/// A node's path is the only way to its index: the path of the index that
/// a walk ends at is the walk itself.
pub proof fn lemma_path_of_descend(path: Seq<bool>)
    ensures
        path_of(descend(0, path)) == path,
    decreases path.len(),
{
    if path.len() == 0 {
        assert(path_of(0) =~= path);
    } else {
        let front = path.drop_last();
        let parent = descend(0, front);
        let child = child_of(parent, path.last());
        lemma_path_of_descend(front);
        lemma_descend_push(0, front, path.last());
        assert(front.push(path.last()) =~= path);
        assert(((child - 1) / 2) as nat == parent);
        assert((child % 2 == 0) == path.last());
    }
}

proof fn lemma_subtree_push(t: NodeView, path: Seq<bool>, step: bool)
    ensures
        t.subtree(path.push(step)) == (match t.subtree(path) {
            Some(NodeView::Split { first, second, .. }) => Some(
                if step {
                    *second
                } else {
                    *first
                },
            ),
            _ => None,
        }),
    decreases path.len(),
{
    let longer = path.push(step);
    if path.len() == 0 {
        assert(longer.drop_first().len() == 0);
        match t {
            NodeView::Leaf { .. } => {},
            NodeView::Split { first, second, .. } => {
                assert(first.subtree(longer.drop_first()) == Some(*first));
                assert(second.subtree(longer.drop_first()) == Some(*second));
            },
        }
    } else {
        assert(longer.drop_first() =~= path.drop_first().push(step));
        match t {
            NodeView::Leaf { .. } => {},
            NodeView::Split { first, second, .. } => {
                if path[0] {
                    lemma_subtree_push(*second, path.drop_first(), step);
                } else {
                    lemma_subtree_push(*first, path.drop_first(), step);
                }
            },
        }
    }
}

/// The pane `pane` shows the selected tab of the leaf that its index names
/// in the tree `root`.
pub open spec fn shows_leaf_of(pane: PlacementView, root: NodeView) -> bool {
    match root.subtree(path_of(pane.node)) {
        Some(NodeView::Leaf { tabs, active }) => active < tabs.len() && tabs[active as int]
            == pane.tab,
        _ => false,
    }
}

proof fn lemma_layout_addresses(root: NodeView, path: Seq<bool>, rect: Rect)
    requires
        root.subtree(path) is Some,
        root.subtree(path).unwrap().wf(),
    ensures
        forall|k: int|
            0 <= k < root.subtree(path).unwrap().layout(descend(0, path), rect).len()
                ==> shows_leaf_of(
                #[trigger] root.subtree(path).unwrap().layout(descend(0, path), rect)[k],
                root,
            ),
    decreases root.subtree(path).unwrap(),
{
    let sub = root.subtree(path).unwrap();
    let index = descend(0, path);
    let panes = sub.layout(index, rect);
    lemma_path_of_descend(path);
    match sub {
        NodeView::Leaf { tabs, active } => {
            assert(panes[0].node == index);
        },
        NodeView::Split { orientation, fraction, first, second } => {
            let parts = rect.split_spec(orientation, fraction);
            let upper = first.layout(2 * index + 1, parts.0);
            let lower = second.layout(2 * index + 2, parts.1);
            lemma_subtree_push(root, path, false);
            lemma_subtree_push(root, path, true);
            lemma_descend_push(0, path, false);
            lemma_descend_push(0, path, true);
            lemma_layout_addresses(root, path.push(false), parts.0);
            lemma_layout_addresses(root, path.push(true), parts.1);
            assert forall|k: int| 0 <= k < panes.len() implies shows_leaf_of(
                #[trigger] panes[k],
                root,
            ) by {
                if k < upper.len() {
                    assert(panes[k] == upper[k]);
                } else {
                    assert(panes[k] == lower[k - upper.len()]);
                }
            }
        },
    }
}

/// Every pane of a resolved layout carries the index of a leaf of the tree
/// and shows the tab which that leaf has selected.
pub proof fn lemma_panes_are_leaves(t: NodeView, rect: Rect)
    requires
        t.wf(),
    ensures
        forall|k: int|
            0 <= k < t.layout(0, rect).len() ==> shows_leaf_of(#[trigger] t.layout(0, rect)[k], t),
{
    let here = Seq::<bool>::empty();
    assert(t.subtree(here) == Some(t));
    assert(descend(0, here) == 0);
    lemma_layout_addresses(t, here, rect);
    let panes = t.subtree(here).unwrap().layout(descend(0, here), rect);
    assert(panes == t.layout(0, rect));
    assert forall|k: int| 0 <= k < t.layout(0, rect).len() implies shows_leaf_of(
        #[trigger] t.layout(0, rect)[k],
        t,
    ) by {
        assert(shows_leaf_of(panes[k], t));
    }
}

} // verus!
