//! The frame driver: the editor's state, and the one entry point that turns
//! a window rectangle and the frame's input into panes and GPU work.

use vstd::prelude::*;
use crate::animation::{Angle, DragDelta};
use crate::callback::{
    all_in_phase,
    angles_of,
    event_views,
    frame_log,
    run_frame,
    uploaded,
    CallbackPhase,
    EditorTabCallback,
    FrameEvent,
};
use crate::dock::{
    path_of,
    placement_views,
    DockTree,
    NodeIndex,
    NodeView,
    Placement,
    PlacementView,
    Side,
};
use crate::error::{InitializationError, LookupError};
use crate::geometry::{Fraction, Orientation, Rect};
use crate::registry::{installed, Registry};
use crate::renderer::{triangle_words, CloudyRenderer, RENDERER_ID};
use crate::tabs::{kind_of, placeholder, placeholder_text, tab_views, ContentKind, Tab, TabView};
use crate::words::le_words;

verus! {

/// What the menu bar asked for in this frame.
#[derive(Clone, Copy, Debug, PartialEq, Eq, Structural)]
pub enum MenuAction {
    Quit,
    Settings,
    ResetLayout,
    About,
}

/// A drag in progress: where the pointer is and how far it moved.
#[derive(Clone, Copy, Debug, PartialEq, Eq, Structural)]
pub struct Drag {
    pub x: i32,
    pub y: i32,
    pub delta: DragDelta,
}

/// The input of one frame.
#[derive(Clone, Copy, Debug, PartialEq, Eq, Structural)]
pub struct InputState {
    pub action: Option<MenuAction>,
    pub drag: Option<Drag>,
}

/// What a pane shows in this frame.
#[derive(Debug, PartialEq, Eq)]
pub enum PaneContent {
    /// The viewport, with the paint callback installed for it.
    Viewport { callback: EditorTabCallback },
    Log,
    Profiler,
    /// A line of text in place of a view.
    Placeholder { text: String },
}

/// The model of a `PaneContent`.
pub enum PaneContentView {
    Viewport { callback: EditorTabCallback },
    Log,
    Profiler,
    Placeholder { text: Seq<char> },
}

impl View for PaneContent {
    type V = PaneContentView;

    open spec fn view(&self) -> PaneContentView {
        match self {
            PaneContent::Viewport { callback } => PaneContentView::Viewport { callback: *callback },
            PaneContent::Log => PaneContentView::Log,
            PaneContent::Profiler => PaneContentView::Profiler,
            PaneContent::Placeholder { text } => PaneContentView::Placeholder { text: text@ },
        }
    }
}

/// A pane of the frame: a leaf, its rectangle, the title of its selected
/// tab and what is shown inside.
#[derive(Debug, PartialEq, Eq)]
pub struct Pane {
    pub node: NodeIndex,
    pub rect: Rect,
    pub title: String,
    pub content: PaneContent,
}

/// The model of a `Pane`.
pub struct PaneView {
    pub node: nat,
    pub rect: Rect,
    pub title: Seq<char>,
    pub content: PaneContentView,
}

impl View for Pane {
    type V = PaneView;

    open spec fn view(&self) -> PaneView {
        PaneView {
            node: self.node.0 as nat,
            rect: self.rect,
            title: self.title@,
            content: self.content@,
        }
    }
}

pub open spec fn pane_views(panes: Seq<Pane>) -> Seq<PaneView> {
    panes.map_values(|p: Pane| p@)
}

/// What one frame produced.
#[derive(Debug, PartialEq, Eq)]
pub struct Frame {
    /// The window is to close.
    pub close: bool,
    /// The about box is to open.
    pub about: bool,
    /// The panes, in the order of the layout.
    pub panes: Vec<Pane>,
    /// The GPU work of the panes' callbacks: all uploads, then all draws.
    pub events: Vec<FrameEvent>,
}

/// The angle of the viewport at the start of a session: one radian.
pub open spec fn initial_angle() -> Angle {
    Angle { microradians: 1_000_000 }
}

/// The angle after a viewport with the rectangle `rect` saw the frame's
/// drag: it turns if the pointer is inside the rectangle.
pub open spec fn turned(angle: Angle, rect: Rect, drag: Option<Drag>) -> Angle {
    match drag {
        Some(d) => if rect.contains(d.x as int, d.y as int) {
            angle.after_drag(d.delta)
        } else {
            angle
        },
        None => angle,
    }
}

/// The content that the dispatcher gives a tab: a pure choice by the
/// tab's kind. A viewport captures the angle as its drag leaves it.
pub open spec fn content_of(tab: TabView, angle: Angle, rect: Rect, drag: Option<Drag>) -> PaneContentView {
    match tab.kind {
        ContentKind::Viewport => PaneContentView::Viewport {
            callback: EditorTabCallback {
                angle: turned(angle, rect, drag),
                phase: CallbackPhase::Created,
            },
        },
        ContentKind::Log => PaneContentView::Log,
        ContentKind::Profiler => PaneContentView::Profiler,
        ContentKind::Placeholder => PaneContentView::Placeholder { text: placeholder_text(tab.name) },
    }
}

/// The angle after the dispatcher served a tab: only a viewport moves it.
pub open spec fn angle_past(tab: TabView, angle: Angle, rect: Rect, drag: Option<Drag>) -> Angle {
    if tab.kind == ContentKind::Viewport {
        turned(angle, rect, drag)
    } else {
        angle
    }
}

/// The angle after all panes of a layout were served in order.
pub open spec fn angle_after(layout: Seq<PlacementView>, angle: Angle, drag: Option<Drag>) -> Angle
    decreases layout.len(),
{
    if layout.len() == 0 {
        angle
    } else {
        angle_past(
            layout.last().tab,
            angle_after(layout.drop_last(), angle, drag),
            layout.last().rect,
            drag,
        )
    }
}

/// The panes that a layout yields, each served with the angle that the
/// panes before it left.
pub open spec fn panes_of(layout: Seq<PlacementView>, angle: Angle, drag: Option<Drag>) -> Seq<
    PaneView,
>
    decreases layout.len(),
{
    if layout.len() == 0 {
        Seq::empty()
    } else {
        let last = layout.last();
        panes_of(layout.drop_last(), angle, drag).push(
            PaneView {
                node: last.node,
                rect: last.rect,
                title: last.tab.name,
                content: content_of(
                    last.tab,
                    angle_after(layout.drop_last(), angle, drag),
                    last.rect,
                    drag,
                ),
            },
        )
    }
}

/// The angles that the viewports of a layout capture, in order.
pub open spec fn captured(layout: Seq<PlacementView>, angle: Angle, drag: Option<Drag>) -> Seq<Angle>
    decreases layout.len(),
{
    if layout.len() == 0 {
        Seq::empty()
    } else {
        let rest = captured(layout.drop_last(), angle, drag);
        if layout.last().tab.kind == ContentKind::Viewport {
            rest.push(angle_after(layout, angle, drag))
        } else {
            rest
        }
    }
}

/// The state that the tabs share: the animation parameter of the viewport.
#[derive(Clone, Copy, Debug, PartialEq, Eq, Structural)]
pub struct TabViewer {
    pub angle: Angle,
}

impl TabViewer {
    /// Lets the frame's drag turn the viewport and installs the callback
    /// that draws it with the angle so reached.
    pub fn custom_painting(&mut self, rect: Rect, drag: Option<Drag>) -> (callback: EditorTabCallback)
        ensures
            final(self).angle == turned(old(self).angle, rect, drag),
            callback == (EditorTabCallback {
                angle: final(self).angle,
                phase: CallbackPhase::Created,
            }),
    {
        match drag {
            Some(d) => {
                if rect.min_x <= d.x && d.x < rect.max_x && rect.min_y <= d.y && d.y < rect.max_y {
                    self.angle = self.angle.dragged(d.delta);
                }
            },
            None => {},
        }
        EditorTabCallback::new(self.angle)
    }

    /// The viewport tab: its canvas fills the pane.
    pub fn viewer_tab(&mut self, rect: Rect, drag: Option<Drag>) -> (content: PaneContent)
        ensures
            final(self).angle == turned(old(self).angle, rect, drag),
            content@ == (PaneContentView::Viewport {
                callback: EditorTabCallback {
                    angle: final(self).angle,
                    phase: CallbackPhase::Created,
                },
            }),
    {
        let callback: EditorTabCallback = self.custom_painting(rect, drag);
        PaneContent::Viewport { callback }
    }

    /// The dispatcher: picks the content of a tab by its kind. A kind
    /// without a view of its own gets the placeholder.
    pub fn ui(&mut self, tab: &Tab, rect: Rect, drag: Option<Drag>) -> (content: PaneContent)
        ensures
            final(self).angle == angle_past(tab@, old(self).angle, rect, drag),
            content@ == content_of(tab@, old(self).angle, rect, drag),
    {
        match tab.kind {
            ContentKind::Viewport => self.viewer_tab(rect, drag),
            ContentKind::Profiler => PaneContent::Profiler,
            ContentKind::Log => PaneContent::Log,
            ContentKind::Placeholder => PaneContent::Placeholder {
                text: placeholder(tab.name.as_str()),
            },
        }
    }
}

/// The tab that carries `name` and shows what the name stands for.
pub open spec fn named(name: Seq<char>) -> TabView {
    TabView { name, kind: kind_of(name) }
}

/// The layout of a fresh session: a narrow column on the left with the
/// hierarchy above the log, and on the right the viewer above the content
/// browser.
pub open spec fn default_tree() -> NodeView {
    NodeView::Split {
        orientation: Orientation::Horizontal,
        fraction: Fraction { numer: 1, denom: 5 },
        first: Box::new(
            NodeView::Split {
                orientation: Orientation::Vertical,
                fraction: Fraction { numer: 13, denom: 20 },
                first: Box::new(NodeView::Leaf { tabs: seq![named("Hirachy"@)], active: 0 }),
                second: Box::new(NodeView::Leaf { tabs: seq![named("Log"@)], active: 0 }),
            },
        ),
        second: Box::new(
            NodeView::Split {
                orientation: Orientation::Vertical,
                fraction: Fraction { numer: 7, denom: 10 },
                first: Box::new(
                    NodeView::Leaf { tabs: seq![named("Viewer"@), named("tab2"@)], active: 0 },
                ),
                second: Box::new(
                    NodeView::Leaf {
                        tabs: seq![named("Content browser"@), named("Editor Debug"@)],
                        active: 0,
                    },
                ),
            },
        ),
    }
}

/// The editor: its dock tree and the state its tabs share.
#[derive(Debug, PartialEq, Eq)]
pub struct RainEngine {
    pub tree: DockTree,
    pub context: TabViewer,
}

/// What the window brings along for custom rendering: the registry that
/// lives as long as the render pass.
pub struct RenderState {
    pub callback_resources: Registry<CloudyRenderer>,
}

impl RenderState {
    /// Installs the triangle renderer's bundle, once: a bundle that is
    /// already there stays, and the new one is dropped.
    pub fn install_renderer(&mut self, bundle: CloudyRenderer) -> (stored: bool)
        ensures
            stored == !old(self).callback_resources@.contains_key(RENDERER_ID),
            final(self).callback_resources@ == installed(
                old(self).callback_resources@,
                RENDERER_ID,
                bundle,
            ),
    {
        self.callback_resources.install(RENDERER_ID, bundle)
    }
}

/// What is known when the window is created.
pub struct CreationContext {
    /// The render state, if the window renders on the GPU.
    pub wgpu_render_state: Option<RenderState>,
}


/// The tree with which a frame works: the default one if the menu asked
/// for a reset, else the one it found.
pub open spec fn tree_for(tree: NodeView, action: Option<MenuAction>) -> NodeView {
    if action == Some(MenuAction::ResetLayout) {
        default_tree()
    } else {
        tree
    }
}

/// The angle with which a frame starts: a reset puts it back to its
/// initial value.
pub open spec fn angle_for(angle: Angle, action: Option<MenuAction>) -> Angle {
    if action == Some(MenuAction::ResetLayout) {
        initial_angle()
    } else {
        angle
    }
}

fn tab_list_one(name: &str) -> (tabs: Vec<Tab>)
    ensures
        tabs@.len() == 1,
        tab_views(tabs@) == seq![named(name@)],
{
    let mut tabs: Vec<Tab> = Vec::new();
    tabs.push(Tab::new(name));
    assert(tab_views(tabs@) =~= seq![named(name@)]);
    tabs
}

fn tab_list_two(first: &str, second: &str) -> (tabs: Vec<Tab>)
    ensures
        tabs@.len() == 2,
        tab_views(tabs@) == seq![named(first@), named(second@)],
{
    let mut tabs: Vec<Tab> = Vec::new();
    tabs.push(Tab::new(first));
    tabs.push(Tab::new(second));
    assert(tab_views(tabs@) =~= seq![named(first@), named(second@)]);
    tabs
}

impl Default for RainEngine {
    /// The editor of a fresh session: the default layout, the viewport
    /// turned by one radian.
    fn default() -> (res: RainEngine)
        ensures
            res.tree.wf(),
            res.tree@ == default_tree(),
            res.context.angle == initial_angle(),
    {
        let context = TabViewer { angle: Angle::new(1_000_000) };
        let viewer: Vec<Tab> = tab_list_two("Viewer", "tab2");
        let hierarchy: Vec<Tab> = tab_list_one("Hirachy");
        let browser: Vec<Tab> = tab_list_two("Content browser", "Editor Debug");
        let log: Vec<Tab> = tab_list_one("Log");
        let ghost t0 = NodeView::Leaf { tabs: seq![named("Viewer"@), named("tab2"@)], active: 0 };
        let ghost left = NodeView::Leaf { tabs: seq![named("Hirachy"@)], active: 0 };
        let ghost lower = NodeView::Leaf {
            tabs: seq![named("Content browser"@), named("Editor Debug"@)],
            active: 0,
        };
        let ghost t1 = t0.wrapped(Side::Left, Fraction { numer: 1, denom: 5 }, left->tabs);
        let ghost right = t0.wrapped(
            Side::Below,
            Fraction { numer: 7, denom: 10 },
            lower->tabs,
        );
        let ghost t2 = NodeView::Split {
            orientation: Orientation::Horizontal,
            fraction: Fraction { numer: 1, denom: 5 },
            first: Box::new(left),
            second: Box::new(right),
        };
        proof {
            reveal_with_fuel(path_of, 3);
            reveal_with_fuel(NodeView::fits, 4);
            reveal_with_fuel(NodeView::subtree, 3);
            reveal_with_fuel(NodeView::replace, 3);
            assert(path_of(0) =~= Seq::<bool>::empty());
            assert(path_of(1) =~= seq![false]);
            assert(path_of(2) =~= seq![true]);
            assert(seq![false].drop_first() =~= Seq::<bool>::empty());
            assert(seq![true].drop_first() =~= Seq::<bool>::empty());
        }
        let mut tree: DockTree = DockTree::new(viewer).unwrap();
        assert(tree@ == t0);
        let ids: [NodeIndex; 2] = tree.split_left(
            NodeIndex::root(),
            Fraction { numer: 1, denom: 5 },
            hierarchy,
        ).unwrap();
        assert(tree@ == t1);
        let a: NodeIndex = ids[0];
        let b: NodeIndex = ids[1];
        assert(t1.subtree(path_of(2)) == Some(t0));
        let _ = tree.split_below(a, Fraction { numer: 7, denom: 10 }, browser).unwrap();
        assert(tree@ == t2);
        assert(t2.subtree(path_of(1)) == Some(left));
        let _ = tree.split_below(b, Fraction { numer: 13, denom: 20 }, log).unwrap();
        assert(tree@ == default_tree());
        RainEngine { tree, context }
    }
}

impl RainEngine {
    /// The tree is well formed.
    pub open spec fn wf(self) -> bool {
        self.tree.wf()
    }

    /// Sets the editor up when its window is created: builds the
    /// renderer's bundle and installs it in the registry of the render
    /// state, where an earlier bundle keeps its place. A window without a
    /// GPU render state cannot host the editor.
    pub fn new(cc: &mut CreationContext) -> (res: Result<RainEngine, InitializationError>)
        ensures
            match res {
                Ok(engine) => {
                    &&& old(cc).wgpu_render_state is Some
                    &&& final(cc).wgpu_render_state is Some
                    &&& exists|bundle: CloudyRenderer|
                        bundle@ == le_words(triangle_words())
                            && final(cc).wgpu_render_state->0.callback_resources@
                            == #[trigger] installed(
                            old(cc).wgpu_render_state->0.callback_resources@,
                            RENDERER_ID,
                            bundle,
                        )
                    &&& engine.wf()
                    &&& engine.tree@ == default_tree()
                    &&& engine.context.angle == initial_angle()
                },
                Err(e) => {
                    &&& old(cc).wgpu_render_state is None
                    &&& final(cc).wgpu_render_state is None
                    &&& e == InitializationError::MissingContext
                },
            },
    {
        match &mut cc.wgpu_render_state {
            None => Err(InitializationError::MissingContext),
            Some(state) => {
                let bundle: CloudyRenderer = CloudyRenderer::new();
                let ghost made = bundle;
                state.install_renderer(bundle);
                assert(state.callback_resources@ == installed(
                    old(cc).wgpu_render_state->0.callback_resources@,
                    RENDERER_ID,
                    made,
                ));
                Ok(RainEngine::default())
            },
        }
    }

    /// One frame. The menu's action is served first: a reset puts the
    /// default layout and the initial angle back. Then the tree is laid
    /// out in `window_rect`, the dispatcher serves the selected tab of
    /// every leaf in the order of the layout, and the callbacks that the
    /// viewports installed are run, all uploads before all draws. A frame
    /// with a viewport fails if the renderer was never installed; the
    /// editor's own state is by then what the frame made of it.
    pub fn update(
        &mut self,
        resources: &mut Registry<CloudyRenderer>,
        window_rect: Rect,
        input: InputState,
    ) -> (res: Result<Frame, LookupError>)
        requires
            old(self).wf(),
        ensures
            final(self).wf(),
            final(self).tree@ == tree_for(old(self).tree@, input.action),
            final(self).context.angle == angle_after(
                final(self).tree@.layout(0, window_rect),
                angle_for(old(self).context.angle, input.action),
                input.drag,
            ),
            match res {
                Ok(frame) => {
                    let layout = final(self).tree@.layout(0, window_rect);
                    let start = angle_for(old(self).context.angle, input.action);
                    let angles = captured(layout, start, input.drag);
                    &&& frame.close == (input.action == Some(MenuAction::Quit))
                    &&& frame.about == (input.action == Some(MenuAction::About))
                    &&& pane_views(frame.panes@) == panes_of(layout, start, input.drag)
                    &&& event_views(frame.events@) == frame_log(angles)
                    &&& if angles.len() == 0 {
                        final(resources)@ == old(resources)@
                    } else {
                        &&& old(resources)@.contains_key(RENDERER_ID)
                        &&& uploaded(old(resources)@, final(resources)@, angles.last())
                    }
                },
                Err(e) => {
                    let layout = final(self).tree@.layout(0, window_rect);
                    let start = angle_for(old(self).context.angle, input.action);
                    &&& e == LookupError::NotInstalled
                    &&& captured(layout, start, input.drag).len() > 0
                    &&& !old(resources)@.contains_key(RENDERER_ID)
                    &&& final(resources)@ == old(resources)@
                },
            },
    {
        let mut close: bool = false;
        let mut about: bool = false;
        match input.action {
            Some(MenuAction::Quit) => {
                close = true;
            },
            Some(MenuAction::ResetLayout) => {
                *self = RainEngine::default();
            },
            Some(MenuAction::About) => {
                about = true;
            },
            Some(MenuAction::Settings) => {},
            None => {},
        }
        let ghost start = self.context.angle;
        let placements: Vec<Placement> = self.tree.layout(window_rect);
        let ghost layout = placement_views(placements@);
        let mut panes: Vec<Pane> = Vec::new();
        let mut callbacks: Vec<EditorTabCallback> = Vec::new();
        let mut i: usize = 0;
        while i < placements.len()
            invariant
                i <= placements@.len(),
                layout == placement_views(placements@),
                self.tree == old(self).tree || self.tree@ == default_tree(),
                self.tree@ == tree_for(old(self).tree@, input.action),
                self.wf(),
                self.context.angle == angle_after(layout.take(i as int), start, input.drag),
                pane_views(panes@) == panes_of(layout.take(i as int), start, input.drag),
                angles_of(callbacks@) == captured(layout.take(i as int), start, input.drag),
                all_in_phase(callbacks@, CallbackPhase::Created),
            decreases placements@.len() - i,
        {
            let placed: &Placement = &placements[i];
            let ghost seen_panes = panes@;
            let ghost seen_callbacks = callbacks@;
            proof {
                assert(layout.take(i + 1).drop_last() =~= layout.take(i as int));
                assert(layout.take(i + 1).last() == placed@);
            }
            let content: PaneContent = self.context.ui(&placed.tab, placed.rect, input.drag);
            match &content {
                PaneContent::Viewport { callback } => {
                    callbacks.push(*callback);
                    assert(angles_of(callbacks@) =~= angles_of(seen_callbacks).push(callback.angle));
                },
                _ => {},
            }
            panes.push(
                Pane { node: placed.node, rect: placed.rect, title: placed.tab.name.clone(), content },
            );
            proof {
                assert(pane_views(panes@) =~= pane_views(seen_panes).push(panes@.last()@));
            }
            i += 1;
        }
        proof {
            assert(layout.take(i as int) =~= layout);
        }
        match run_frame(&mut callbacks, resources) {
            Ok(events) => Ok(Frame { close, about, panes, events }),
            Err(e) => Err(e),
        }
    }
}

} // verus!
