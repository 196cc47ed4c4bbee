//! The paint callback of a viewport pane and the two phases in which a frame
//! runs its callbacks: every upload first, then every draw.

use vstd::prelude::*;
use crate::animation::Angle;
use crate::error::LookupError;
use crate::registry::Registry;
use crate::renderer::{BufferWrite, CloudyRenderer, DrawCommand, RENDERER_ID, triangle_draw};
use crate::words::{le_bytes, with_word};

verus! {

/// How far a callback has come in its frame.
#[derive(Clone, Copy, Debug, PartialEq, Eq, Structural)]
pub enum CallbackPhase {
    /// It holds its snapshot of the animation parameter and has done nothing.
    Created,
    /// Its upload is queued.
    Prepared,
    /// Its draw commands are issued.
    Painted,
}

/// The callback that a viewport pane installs for one frame. It captures
/// the animation parameter as it stood when the pane was laid out.
#[derive(Clone, Copy, Debug, PartialEq, Eq, Structural)]
pub struct EditorTabCallback {
    pub angle: Angle,
    pub phase: CallbackPhase,
}

/// What one phase of one callback left in the frame's record.
#[derive(Debug, PartialEq, Eq)]
pub enum FrameEvent {
    /// The callback number `callback` of the frame queued `write`.
    Prepare { callback: usize, write: BufferWrite },
    /// The callback number `callback` of the frame issued `commands`.
    Paint { callback: usize, commands: Vec<DrawCommand> },
}

/// The model of a `FrameEvent`.
pub enum FrameEventView {
    Prepare { callback: nat, offset: u64, data: Seq<u8> },
    Paint { callback: nat, commands: Seq<DrawCommand> },
}

impl View for FrameEvent {
    type V = FrameEventView;

    open spec fn view(&self) -> FrameEventView {
        match self {
            FrameEvent::Prepare { callback, write } => FrameEventView::Prepare {
                callback: *callback as nat,
                offset: write.offset,
                data: write.data@,
            },
            FrameEvent::Paint { callback, commands } => FrameEventView::Paint {
                callback: *callback as nat,
                commands: commands@,
            },
        }
    }
}

pub open spec fn event_views(events: Seq<FrameEvent>) -> Seq<FrameEventView> {
    events.map_values(|e: FrameEvent| e@)
}

/// The registry after the renderer's bundle took `angle` into its buffer:
/// the same slots, all bundles but that one untouched, and in that one only
/// the four bytes of the parameter changed.
pub open spec fn uploaded(
    before: Map<u64, CloudyRenderer>,
    after: Map<u64, CloudyRenderer>,
    angle: Angle,
) -> bool {
    &&& after.dom() == before.dom()
    &&& forall|id: u64| id != RENDERER_ID && before.contains_key(id) ==> after[id] == before[id]
    &&& after[RENDERER_ID]@ == with_word(before[RENDERER_ID]@, 0, angle.word())
    &&& after[RENDERER_ID].parameter() == angle
}

/// The record of a frame whose panes captured `angles`, pane by pane: one
/// upload for each pane in their order, then one draw for each pane in
/// their order.
pub open spec fn frame_log(angles: Seq<Angle>) -> Seq<FrameEventView> {
    Seq::new(
        2 * angles.len(),
        |i: int|
            if i < angles.len() {
                FrameEventView::Prepare { callback: i as nat, offset: 0, data: le_bytes(angles[i].word()) }
            } else {
                FrameEventView::Paint { callback: (i - angles.len()) as nat, commands: triangle_draw() }
            },
    )
}

/// The parameters that a run of callbacks captured.
pub open spec fn angles_of(callbacks: Seq<EditorTabCallback>) -> Seq<Angle> {
    callbacks.map_values(|c: EditorTabCallback| c.angle)
}

/// In the record of a frame every pane has one upload and one draw, and
/// every upload stands before every draw.
pub proof fn lemma_prepares_precede_paints(angles: Seq<Angle>)
    ensures
        frame_log(angles).len() == 2 * angles.len(),
        forall|p: int|
            0 <= p < angles.len() ==> #[trigger] frame_log(angles)[p] is Prepare && frame_log(
                angles,
            )[p]->Prepare_callback == p,
        forall|p: int|
            0 <= p < angles.len() ==> #[trigger] frame_log(angles)[angles.len() + p] is Paint
                && frame_log(angles)[angles.len() + p]->Paint_callback == p,
        forall|i: int, j: int|
            0 <= i < frame_log(angles).len() && 0 <= j < frame_log(angles).len() && frame_log(
                angles,
            )[i] is Prepare && frame_log(angles)[j] is Paint ==> i < j,
{
}

impl EditorTabCallback {
    /// A callback that captures `angle`.
    pub fn new(angle: Angle) -> (res: EditorTabCallback)
        ensures
            res == (EditorTabCallback { angle, phase: CallbackPhase::Created }),
    {
        EditorTabCallback { angle, phase: CallbackPhase::Created }
    }

    /// The update phase: looks the renderer's bundle up and has it take the
    /// captured parameter. Without an installed bundle the lookup fails and
    /// nothing changes.
    pub fn prepare(&mut self, resources: &mut Registry<CloudyRenderer>) -> (res: Result<
        BufferWrite,
        LookupError,
    >)
        requires
            old(self).phase == CallbackPhase::Created,
        ensures
            final(self).angle == old(self).angle,
            match res {
                Ok(write) => {
                    &&& old(resources)@.contains_key(RENDERER_ID)
                    &&& final(self).phase == CallbackPhase::Prepared
                    &&& write.offset == 0
                    &&& write.data@ == le_bytes(old(self).angle.word())
                    &&& uploaded(old(resources)@, final(resources)@, old(self).angle)
                },
                Err(e) => {
                    &&& !old(resources)@.contains_key(RENDERER_ID)
                    &&& e == LookupError::NotInstalled
                    &&& final(self).phase == CallbackPhase::Created
                    &&& final(resources)@ == old(resources)@
                },
            },
    {
        match resources.take(RENDERER_ID) {
            Err(e) => Err(e),
            Ok(bundle) => {
                let mut bundle = bundle;
                let write: BufferWrite = bundle.prepare(self.angle);
                resources.install(RENDERER_ID, bundle);
                self.phase = CallbackPhase::Prepared;
                assert(final(resources)@.dom() =~= old(resources)@.dom());
                Ok(write)
            },
        }
    }

    /// The draw phase: looks the renderer's bundle up and has it issue its
    /// commands. It comes after the update phase of the same frame.
    pub fn paint(&mut self, resources: &Registry<CloudyRenderer>) -> (res: Result<
        Vec<DrawCommand>,
        LookupError,
    >)
        requires
            old(self).phase == CallbackPhase::Prepared,
        ensures
            final(self).angle == old(self).angle,
            match res {
                Ok(commands) => {
                    &&& resources@.contains_key(RENDERER_ID)
                    &&& final(self).phase == CallbackPhase::Painted
                    &&& commands@ == triangle_draw()
                },
                Err(e) => {
                    &&& !resources@.contains_key(RENDERER_ID)
                    &&& e == LookupError::NotInstalled
                    &&& final(self).phase == CallbackPhase::Prepared
                },
            },
    {
        match resources.get(RENDERER_ID) {
            Err(e) => Err(e),
            Ok(bundle) => {
                let commands: Vec<DrawCommand> = bundle.paint();
                self.phase = CallbackPhase::Painted;
                Ok(commands)
            },
        }
    }
}

/// All callbacks of the run are in the given phase.
pub open spec fn all_in_phase(callbacks: Seq<EditorTabCallback>, phase: CallbackPhase) -> bool {
    forall|i: int| 0 <= i < callbacks.len() ==> #[trigger] callbacks[i].phase == phase
}

/// Runs the callbacks that the panes of one frame installed: first the
/// update phase of each, in the order of the panes, then the draw phase of
/// each. All of them write the one bundle, so the last pane's parameter is
/// the one the buffer keeps. A frame without callbacks touches nothing;
/// one with callbacks fails, before any of them ran, if the renderer was
/// never installed.
pub fn run_frame(callbacks: &mut Vec<EditorTabCallback>, resources: &mut Registry<CloudyRenderer>) -> (res:
    Result<Vec<FrameEvent>, LookupError>)
    requires
        all_in_phase(old(callbacks)@, CallbackPhase::Created),
    ensures
        angles_of(final(callbacks)@) == angles_of(old(callbacks)@),
        match res {
            Ok(log) => {
                &&& old(callbacks)@.len() == 0 || old(resources)@.contains_key(RENDERER_ID)
                &&& event_views(log@) == frame_log(angles_of(old(callbacks)@))
                &&& all_in_phase(final(callbacks)@, CallbackPhase::Painted)
                &&& if old(callbacks)@.len() == 0 {
                    final(resources)@ == old(resources)@
                } else {
                    uploaded(old(resources)@, final(resources)@, old(callbacks)@.last().angle)
                }
            },
            Err(e) => {
                &&& old(callbacks)@.len() > 0
                &&& !old(resources)@.contains_key(RENDERER_ID)
                &&& e == LookupError::NotInstalled
                &&& final(callbacks)@ == old(callbacks)@
                &&& final(resources)@ == old(resources)@
            },
        },
{
    let count: usize = callbacks.len();
    let ghost angles = angles_of(callbacks@);
    let mut log: Vec<FrameEvent> = Vec::new();
    if count == 0 {
        assert(event_views(log@) =~= frame_log(angles));
        return Ok(log);
    }
    if resources.get(RENDERER_ID).is_err() {
        return Err(LookupError::NotInstalled);
    }
    let mut i: usize = 0;
    while i < count
        invariant
            i <= count,
            count == callbacks@.len(),
            count > 0,
            angles == angles_of(old(callbacks)@),
            angles_of(callbacks@) == angles,
            old(resources)@.contains_key(RENDERER_ID),
            resources@.contains_key(RENDERER_ID),
            forall|k: int| 0 <= k < i ==> #[trigger] callbacks@[k].phase == CallbackPhase::Prepared,
            forall|k: int| i <= k < count ==> #[trigger] callbacks@[k].phase == CallbackPhase::Created,
            log@.len() == i,
            forall|k: int| 0 <= k < i ==> #[trigger] event_views(log@)[k] == frame_log(angles)[k],
            if i == 0 {
                resources@ == old(resources)@
            } else {
                uploaded(old(resources)@, resources@, angles[i - 1])
            },
        decreases count - i,
    {
        let mut callback: EditorTabCallback = callbacks[i];
        let ghost before = resources@;
        let ghost recorded = log@;
        assert(callback.angle == angles[i as int]);
        match callback.prepare(resources) {
            Ok(write) => {
                callbacks.set(i, callback);
                log.push(FrameEvent::Prepare { callback: i, write });
                proof {
                    assert(angles_of(callbacks@) =~= angles);
                    assert(event_views(log@) =~= event_views(recorded).push(
                        frame_log(angles)[i as int],
                    ));
                    lemma_upload_again(old(resources)@, before, resources@, angles, i as int);
                }
            },
            Err(_) => {
                assert(false);
            },
        }
        i += 1;
    }
    let mut j: usize = 0;
    while j < count
        invariant
            j <= count,
            count == callbacks@.len(),
            count > 0,
            angles == angles_of(old(callbacks)@),
            angles_of(callbacks@) == angles,
            resources@.contains_key(RENDERER_ID),
            forall|k: int| 0 <= k < j ==> #[trigger] callbacks@[k].phase == CallbackPhase::Painted,
            forall|k: int| j <= k < count ==> #[trigger] callbacks@[k].phase == CallbackPhase::Prepared,
            log@.len() == count + j,
            forall|k: int|
                0 <= k < count + j ==> #[trigger] event_views(log@)[k] == frame_log(angles)[k],
            uploaded(old(resources)@, resources@, angles[count - 1]),
        decreases count - j,
    {
        let mut callback: EditorTabCallback = callbacks[j];
        let ghost recorded = log@;
        match callback.paint(resources) {
            Ok(commands) => {
                callbacks.set(j, callback);
                log.push(FrameEvent::Paint { callback: j, commands });
                proof {
                    assert(angles_of(callbacks@) =~= angles);
                    assert(event_views(log@) =~= event_views(recorded).push(
                        frame_log(angles)[count + j],
                    ));
                }
            },
            Err(_) => {
                assert(false);
            },
        }
        j += 1;
    }
    proof {
        assert(event_views(log@) =~= frame_log(angles));
        assert(angles.last() == old(callbacks)@.last().angle);
    }
    Ok(log)
}

proof fn lemma_upload_again(
    start: Map<u64, CloudyRenderer>,
    before: Map<u64, CloudyRenderer>,
    after: Map<u64, CloudyRenderer>,
    angles: Seq<Angle>,
    i: int,
)
    requires
        0 <= i < angles.len(),
        start.contains_key(RENDERER_ID),
        if i == 0 {
            before == start
        } else {
            uploaded(start, before, angles[i - 1])
        },
        uploaded(before, after, angles[i]),
    ensures
        uploaded(start, after, angles[i]),
{
    if i > 0 {
        assert(with_word(with_word(start[RENDERER_ID]@, 0, angles[i - 1].word()), 0, angles[i].word())
            =~= with_word(start[RENDERER_ID]@, 0, angles[i].word()));
    }
}

} // verus!
