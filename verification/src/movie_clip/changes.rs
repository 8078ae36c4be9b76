//! What an operation changes: predicates over the stage before and after.

use vstd::prelude::*;
use crate::stage::{Action, Stage};
use crate::style::PathView;
use crate::timeline::Timeline;
use crate::tree::{Node, NodeId};

verus! {

/// Whether `after` is `before` but for its tree.
pub open spec fn only_tree_changed(before: &Stage, after: &Stage) -> bool {
    *after == (Stage { tree: after.tree, ..*before })
}

/// Whether `after` is `before` but for the drawing state of `clip`, which
/// holds `drawing`.
pub open spec fn drawing_becomes(before: &Stage, after: &Stage, clip: NodeId, drawing: PathView)
    -> bool {
    &&& only_tree_changed(before, after)
    &&& after.tree.only_changed(&before.tree, clip as int)
    &&& after.tree.nodes@[clip as int] == (Node {
        drawing: after.tree.nodes@[clip as int].drawing,
        ..before.tree.nodes@[clip as int]
    })
    &&& after.tree.nodes@[clip as int].drawing@ == drawing
}

/// Whether `after` is `before` but for the timeline of `clip`, which is `timeline`.
pub open spec fn timeline_becomes(before: &Stage, after: &Stage, clip: NodeId, timeline: Timeline)
    -> bool {
    &&& only_tree_changed(before, after)
    &&& after.tree.only_changed(&before.tree, clip as int)
    &&& after.tree.nodes@[clip as int] == (Node { timeline, ..before.tree.nodes@[clip as int] })
}

/// The drawing state of a clip.
pub open spec fn drawing_of(stage: &Stage, clip: NodeId) -> PathView {
    stage.tree.nodes@[clip as int].drawing@
}

/// The timeline of a clip.
pub open spec fn timeline_of(stage: &Stage, clip: NodeId) -> Timeline {
    stage.tree.nodes@[clip as int].timeline
}

/// A stage stays well formed while one of its nodes changes in nothing but
/// what it holds.
pub proof fn lemma_local_change(before: &Stage, after: &Stage, clip: NodeId)
    requires
        before.wf(),
        clip < before.tree.nodes@.len(),
        after.tree.only_changed(&before.tree, clip as int),
        after.tree.nodes@[clip as int].parent == before.tree.nodes@[clip as int].parent,
        after.tree.nodes@[clip as int].depth == before.tree.nodes@[clip as int].depth,
        after.tree.nodes@[clip as int].children@ == before.tree.nodes@[clip as int].children@,
    ensures
        after.wf(),
        after.tree.links() == before.tree.links(),
{
    after.tree.lemma_node_changed(&before.tree, clip as int);
}

/// Whether `after` is `before` with one more action, `action`, behind the others.
pub open spec fn action_added(before: &Stage, after: &Stage, action: Action) -> bool {
    &&& *after == (Stage { actions: after.actions, ..*before })
    &&& after.actions@ == before.actions@.push(action)
}

} // verus!
