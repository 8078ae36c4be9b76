//! Loading and unloading the content of a clip.

use vstd::prelude::*;
use crate::movie_clip::changes::action_added;
use crate::number::Number;
use crate::stage::{spec_method, Action, NavigationMethod, Stage, Value};
use crate::timeline::Timeline;
use crate::tree::{links_orphaned, same_content, Node, NodeId};

verus! {

/// Asks for `url` to be fetched and loaded into a clip. Exactly one action is
/// handed out; the operation does not wait for it.
pub fn load_movie(stage: &mut Stage, clip: NodeId, url: String, method: &String) -> (result: Value)
    requires
        old(stage).wf(),
        old(stage).is_clip(clip),
    ensures
        final(stage).wf(),
        result is Undefined,
        action_added(
            old(stage),
            final(stage),
            Action::LoadMovie { target: clip, url, method: spec_method(method@) },
        ),
{
    let method = NavigationMethod::from_method_str(method);
    stage.actions.push(Action::LoadMovie { target: clip, url, method });
    Value::Undefined
}

/// Asks for `url` to be fetched and its variables to be set on the object of
/// a clip. Exactly one action is handed out; the operation does not wait for it.
pub fn load_variables(stage: &mut Stage, clip: NodeId, url: String, method: &String) -> (result:
    Value)
    requires
        old(stage).wf(),
        old(stage).is_clip(clip),
    ensures
        final(stage).wf(),
        result is Undefined,
        action_added(
            old(stage),
            final(stage),
            Action::LoadVariables { target: clip, url, method: spec_method(method@) },
        ),
{
    let method = NavigationMethod::from_method_str(method);
    stage.actions.push(Action::LoadVariables { target: clip, url, method });
    Value::Undefined
}

/// The number of bytes of a clip that are loaded: always one.
pub fn get_bytes_loaded(stage: &Stage, clip: NodeId) -> (result: Value)
    ensures
        result matches Value::Number(n) && n.spec_is_integral() && n.integer_part() == 1
            && !n.negative(),
{
    Value::Number(Number::from_i32(1))
}

/// The number of bytes of a clip: always one.
pub fn get_bytes_total(stage: &Stage, clip: NodeId) -> (result: Value)
    ensures
        result matches Value::Number(n) && n.spec_is_integral() && n.integer_part() == 1
            && !n.negative(),
{
    Value::Number(Number::from_i32(1))
}

/// The node that a clip is after it has dropped its content: it has no
/// content and a fresh timeline of one frame; its name, its transforms, its
/// bounds and its drawing stay.
pub open spec fn spec_unloaded(before: Node, after: Node) -> bool {
    &&& after == (Node {
        parent: after.parent,
        depth: after.depth,
        children: after.children,
        content: None,
        timeline: after.timeline,
        ..before
    })
    &&& after.timeline.current_frame == 0
    &&& after.timeline.total_frames == 1
    &&& after.timeline.playing
    &&& after.timeline.labels@.len() == 0
}

/// Drops the content of a clip: its children leave the tree, it forgets the
/// definition it was made from, and its timeline starts anew. One action is
/// handed out.
pub fn unload_movie(stage: &mut Stage, clip: NodeId) -> (result: Value)
    requires
        old(stage).wf(),
        old(stage).is_clip(clip),
    ensures
        final(stage).wf(),
        result is Undefined,
        final(stage).library == old(stage).library,
        final(stage).drag == old(stage).drag,
        final(stage).version == old(stage).version,
        final(stage).actions@ == old(stage).actions@.push(Action::Unloaded { node: clip }),
        final(stage).tree.nodes@.len() == old(stage).tree.nodes@.len(),
        final(stage).tree.links() == links_orphaned(old(stage).tree.links(), clip),
        forall|i: int|
            0 <= i < old(stage).tree.nodes@.len() && i != clip ==> same_content(
                #[trigger] old(stage).tree.nodes@[i],
                final(stage).tree.nodes@[i],
            ),
        spec_unloaded(old(stage).tree.nodes@[clip as int], final(stage).tree.nodes@[clip as int]),
{
    stage.tree.detach_children(clip);
    let ghost mid = stage.tree;
    stage.tree.nodes[clip].content = None;
    stage.tree.nodes[clip].timeline = Timeline::new(1, Vec::new());
    proof {
        stage.tree.lemma_node_changed(&mid, clip as int);
        assert forall|i: int|
            0 <= i < old(stage).tree.nodes@.len() && i != clip implies same_content(
            #[trigger] old(stage).tree.nodes@[i],
            stage.tree.nodes@[i],
        ) by {
            assert(same_content(old(stage).tree.nodes@[i], mid.nodes@[i]));
        }
        assert(same_content(old(stage).tree.nodes@[clip as int], mid.nodes@[clip as int]));
    }
    stage.actions.push(Action::Unloaded { node: clip });
    Value::Undefined
}

} // verus!
