//! The drag session: one node at most follows the pointer.

use vstd::prelude::*;
use crate::geometry::Rectangle;
use crate::stage::{DragSession, Stage, Value};
use crate::tree::NodeId;

verus! {

/// Starts a drag session for a clip. A session that was active is replaced.
pub fn start_drag(
    stage: &mut Stage,
    clip: NodeId,
    lock_center: bool,
    constraint: Option<Rectangle>,
) -> (result: Value)
    requires
        old(stage).wf(),
        old(stage).is_clip(clip),
    ensures
        final(stage).wf(),
        result is Undefined,
        *final(stage) == (Stage {
            drag: Some(DragSession { node: clip, lock_center, constraint }),
            ..*old(stage)
        }),
{
    stage.drag = Some(DragSession { node: clip, lock_center, constraint });
    Value::Undefined
}

/// Ends the drag session, whichever clip it belongs to.
pub fn stop_drag(stage: &mut Stage, clip: NodeId) -> (result: Value)
    requires
        old(stage).wf(),
    ensures
        final(stage).wf(),
        result is Undefined,
        *final(stage) == (Stage { drag: None, ..*old(stage) }),
{
    stage.drag = None;
    Value::Undefined
}

} // verus!
