//! Playback: play, stop, step and jump on the timeline of a clip.

use vstd::prelude::*;
use crate::movie_clip::changes::{lemma_local_change, timeline_becomes, timeline_of};
use crate::number::Number;
use crate::stage::{Stage, Value};
use crate::timeline::{
    frame_of_number,
    spec_frame_of_number,
    spec_label_frame,
    spec_landing,
    spec_offset_frame,
    Timeline,
};
use crate::tree::NodeId;

verus! {

/// Starts playback of a clip.
pub fn play(stage: &mut Stage, clip: NodeId) -> (result: Value)
    requires
        old(stage).wf(),
        old(stage).is_clip(clip),
    ensures
        final(stage).wf(),
        result is Undefined,
        timeline_becomes(
            old(stage),
            final(stage),
            clip,
            Timeline { playing: true, ..timeline_of(old(stage), clip) },
        ),
{
    stage.tree.nodes[clip].timeline.play();
    proof {
        lemma_local_change(old(stage), stage, clip);
    }
    Value::Undefined
}

/// Stops playback of a clip.
pub fn stop(stage: &mut Stage, clip: NodeId) -> (result: Value)
    requires
        old(stage).wf(),
        old(stage).is_clip(clip),
    ensures
        final(stage).wf(),
        result is Undefined,
        timeline_becomes(
            old(stage),
            final(stage),
            clip,
            Timeline { playing: false, ..timeline_of(old(stage), clip) },
        ),
{
    stage.tree.nodes[clip].timeline.stop();
    proof {
        lemma_local_change(old(stage), stage, clip);
    }
    Value::Undefined
}

/// Lets a node run one frame: a playing timeline moves on by one frame, and
/// from the last of several frames back to the first. This is what follows
/// the start-up hook of a new clip.
pub fn run_frame(stage: &mut Stage, node: NodeId) -> (result: Value)
    requires
        old(stage).wf(),
        node < old(stage).tree.nodes@.len(),
    ensures
        final(stage).wf(),
        result is Undefined,
        timeline_becomes(
            old(stage),
            final(stage),
            node,
            Timeline {
                current_frame: timeline_of(old(stage), node).spec_ticked(),
                ..timeline_of(old(stage), node)
            },
        ),
{
    stage.tree.nodes[node].timeline.tick();
    proof {
        lemma_local_change(old(stage), stage, node);
    }
    Value::Undefined
}

/// Steps a clip one frame forward and stops it.
pub fn next_frame(stage: &mut Stage, clip: NodeId) -> (result: Value)
    requires
        old(stage).wf(),
        old(stage).is_clip(clip),
    ensures
        final(stage).wf(),
        result is Undefined,
        timeline_becomes(
            old(stage),
            final(stage),
            clip,
            Timeline {
                current_frame: timeline_of(old(stage), clip).spec_next(),
                playing: false,
                ..timeline_of(old(stage), clip)
            },
        ),
{
    stage.tree.nodes[clip].timeline.next_frame();
    proof {
        lemma_local_change(old(stage), stage, clip);
    }
    Value::Undefined
}

/// Steps a clip one frame back and stops it.
pub fn prev_frame(stage: &mut Stage, clip: NodeId) -> (result: Value)
    requires
        old(stage).wf(),
        old(stage).is_clip(clip),
    ensures
        final(stage).wf(),
        result is Undefined,
        timeline_becomes(
            old(stage),
            final(stage),
            clip,
            Timeline {
                current_frame: timeline_of(old(stage), clip).spec_prev(),
                playing: false,
                ..timeline_of(old(stage), clip)
            },
        ),
{
    stage.tree.nodes[clip].timeline.prev_frame();
    proof {
        lemma_local_change(old(stage), stage, clip);
    }
    Value::Undefined
}

/// What a script names as the target of a jump.
#[derive(Debug)]
pub enum FrameTarget {
    /// A number: the frame, counted from one.
    Number(Number),
    /// Anything else, as text: the label of a frame.
    Label(String),
}

/// The frame that a jump goes to, if it goes anywhere. A number names a
/// frame only if it has no fractional part; a label names the frame it is
/// given to, moved by the scene offset.
pub open spec fn spec_goto_target(timeline: Timeline, target: &FrameTarget, scene_offset: u16)
    -> Option<u16> {
    match *target {
        FrameTarget::Number(n) => if n.spec_is_integral() {
            spec_frame_of_number(n, scene_offset)
        } else {
            None
        },
        FrameTarget::Label(l) => match spec_label_frame(timeline.labels@, l@) {
            Some(f) => Some(spec_offset_frame(f, scene_offset)),
            None => None,
        },
    }
}

/// Jumps to a frame of a clip, and stops or plays there. A number with a
/// fractional part, a number that names no frame, and a label that the clip
/// does not have leave the clip as it is.
pub fn goto_frame(
    stage: &mut Stage,
    clip: NodeId,
    target: &FrameTarget,
    stop: bool,
    scene_offset: u16,
) -> (result: Value)
    requires
        old(stage).wf(),
        old(stage).is_clip(clip),
    ensures
        final(stage).wf(),
        result is Undefined,
        match spec_goto_target(timeline_of(old(stage), clip), target, scene_offset) {
            Some(frame) => timeline_becomes(
                old(stage),
                final(stage),
                clip,
                Timeline {
                    current_frame: spec_landing(frame, timeline_of(old(stage), clip).total_frames),
                    playing: !stop,
                    ..timeline_of(old(stage), clip)
                },
            ),
            None => *final(stage) == *old(stage),
        },
{
    let frame: Option<u16> = match target {
        FrameTarget::Number(n) => {
            if n.is_integral() {
                frame_of_number(*n, scene_offset)
            } else {
                None
            }
        },
        FrameTarget::Label(l) => {
            match stage.tree.nodes[clip].timeline.frame_label_to_number(l) {
                Some(f) => Some(f.wrapping_add(scene_offset)),
                None => None,
            }
        },
    };
    match frame {
        Some(f) => {
            stage.tree.nodes[clip].timeline.goto_frame(f, stop);
            proof {
                lemma_local_change(old(stage), stage, clip);
            }
        },
        None => {},
    }
    Value::Undefined
}

/// Jumps to a frame and plays.
pub fn goto_and_play(stage: &mut Stage, clip: NodeId, target: &FrameTarget) -> (result: Value)
    requires
        old(stage).wf(),
        old(stage).is_clip(clip),
    ensures
        final(stage).wf(),
        result is Undefined,
        match spec_goto_target(timeline_of(old(stage), clip), target, 0) {
            Some(frame) => timeline_becomes(
                old(stage),
                final(stage),
                clip,
                Timeline {
                    current_frame: spec_landing(frame, timeline_of(old(stage), clip).total_frames),
                    playing: true,
                    ..timeline_of(old(stage), clip)
                },
            ),
            None => *final(stage) == *old(stage),
        },
{
    goto_frame(stage, clip, target, false, 0)
}

/// Jumps to a frame and stops.
pub fn goto_and_stop(stage: &mut Stage, clip: NodeId, target: &FrameTarget) -> (result: Value)
    requires
        old(stage).wf(),
        old(stage).is_clip(clip),
    ensures
        final(stage).wf(),
        result is Undefined,
        match spec_goto_target(timeline_of(old(stage), clip), target, 0) {
            Some(frame) => timeline_becomes(
                old(stage),
                final(stage),
                clip,
                Timeline {
                    current_frame: spec_landing(frame, timeline_of(old(stage), clip).total_frames),
                    playing: false,
                    ..timeline_of(old(stage), clip)
                },
            ),
            None => *final(stage) == *old(stage),
        },
{
    goto_frame(stage, clip, target, true, 0)
}

} // verus!
