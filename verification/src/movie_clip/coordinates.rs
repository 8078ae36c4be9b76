//! Coordinates: points and bounds between the spaces of nodes.

use vstd::prelude::*;
use crate::geometry::{Point, Rectangle};
use crate::number::Pixels;
use crate::stage::{Stage, Value};
use crate::tree::{spec_root, NodeId};

verus! {

/// The bounds of a node in the space of its root.
pub open spec fn spec_world_bounds(stage: &Stage, node: NodeId) -> Rectangle {
    stage.tree.nodes@[node as int].bounds.spec_transform(
        stage.tree.spec_local_to_global_matrix(node),
    )
}

/// Computes the bounds of a node in the space of its root.
fn world_bounds(stage: &Stage, node: NodeId) -> (bounds: Rectangle)
    requires
        stage.wf(),
        node < stage.tree.nodes@.len(),
    ensures
        bounds == spec_world_bounds(stage, node),
{
    let m = stage.tree.local_to_global_matrix(node);
    stage.tree.nodes[node].bounds.transform(&m)
}

/// What a script tests a clip against.
#[derive(Clone, Copy, Debug)]
pub enum HitTarget {
    /// Two or more arguments: a point in the space of the root.
    Point { x: Pixels, y: Pixels },
    /// One argument: the node that it was resolved to, if any.
    Object(Option<NodeId>),
    /// No argument.
    Nothing,
}

/// Whether a clip is hit. A point hits the clip if both coordinates are
/// finite and the point, taken from the space of the root of the clip, lies
/// in the bounds of the clip. A node hits the clip if the bounds of the two
/// have a point in common. Only bounds are tested, never shapes.
pub open spec fn spec_hit_test(stage: &Stage, clip: NodeId, target: HitTarget) -> bool {
    match target {
        HitTarget::Point { x, y } => x.value.spec_is_finite() && y.value.spec_is_finite()
            && spec_world_bounds(stage, clip).spec_contains(
            stage.tree.spec_local_to_global_matrix(spec_root(stage.tree.links(), clip)).spec_apply(
                Point { x: x.twips, y: y.twips },
            ),
        ),
        HitTarget::Object(Some(other)) => other < stage.tree.nodes@.len() && spec_world_bounds(
            stage,
            other,
        ).spec_intersects(spec_world_bounds(stage, clip)),
        _ => false,
    }
}

/// Tests a clip against a point or against another node.
pub fn hit_test(stage: &Stage, clip: NodeId, target: HitTarget) -> (result: Value)
    requires
        stage.wf(),
        stage.is_clip(clip),
    ensures
        result == Value::Bool(spec_hit_test(stage, clip, target)),
{
    match target {
        HitTarget::Point { x, y } => {
            if x.value.is_finite() && y.value.is_finite() {
                let root = stage.tree.root(clip);
                let to_world = stage.tree.local_to_global_matrix(root);
                let point = to_world.apply(Point { x: x.twips, y: y.twips });
                Value::Bool(world_bounds(stage, clip).contains(point))
            } else {
                Value::Bool(false)
            }
        },
        HitTarget::Object(Some(other)) => {
            if other < stage.tree.len() {
                let theirs = world_bounds(stage, other);
                let ours = world_bounds(stage, clip);
                Value::Bool(theirs.intersects(&ours))
            } else {
                Value::Bool(false)
            }
        },
        _ => Value::Bool(false),
    }
}

/// The point in twips that two script numbers name.
pub open spec fn spec_point(x: Pixels, y: Pixels) -> Point {
    Point { x: x.twips, y: y.twips }
}

/// Takes a point from the space of a clip to the space of its root. Without
/// a point there is nothing to take.
pub fn local_to_global(stage: &Stage, clip: NodeId, point: Option<(Pixels, Pixels)>) -> (image:
    Option<Point>)
    requires
        stage.wf(),
        stage.is_clip(clip),
    ensures
        image == match point {
            Some((x, y)) => Some(
                stage.tree.spec_local_to_global_matrix(clip).spec_apply(spec_point(x, y)),
            ),
            None => None,
        },
{
    match point {
        Some((x, y)) => {
            let m = stage.tree.local_to_global_matrix(clip);
            Some(m.apply(Point { x: x.twips, y: y.twips }))
        },
        None => None,
    }
}

/// Takes a point from the space of the root of a clip to the space of the
/// clip. Without a point there is nothing to take.
pub fn global_to_local(stage: &Stage, clip: NodeId, point: Option<(Pixels, Pixels)>) -> (image:
    Option<Point>)
    requires
        stage.wf(),
        stage.is_clip(clip),
    ensures
        image == match point {
            Some((x, y)) => Some(
                stage.tree.spec_local_to_global_matrix(clip).spec_invert().spec_apply(
                    spec_point(x, y),
                ),
            ),
            None => None,
        },
{
    match point {
        Some((x, y)) => {
            let m = stage.tree.local_to_global_matrix(clip).invert();
            Some(m.apply(Point { x: x.twips, y: y.twips }))
        },
        None => None,
    }
}

/// The box `aabb` of the space of `source`, in the space of `target`: the
/// box of the four corners of `aabb`, taken to the space of the root and
/// from there to the space of `target`. This is not the tight box of the
/// transformed content.
pub open spec fn spec_transform_bounds(
    stage: &Stage,
    source: NodeId,
    target: NodeId,
    aabb: Rectangle,
) -> Rectangle {
    aabb.spec_transform(
        stage.tree.spec_local_to_global_matrix(target).spec_invert().spec_compose(
            stage.tree.spec_local_to_global_matrix(source),
        ),
    )
}

/// Takes a box from the space of one node to the space of another.
pub fn transform_bounds(stage: &Stage, source: NodeId, target: NodeId, aabb: &Rectangle) -> (image:
    Rectangle)
    requires
        stage.wf(),
        source < stage.tree.nodes@.len(),
        target < stage.tree.nodes@.len(),
    ensures
        image == spec_transform_bounds(stage, source, target, *aabb),
{
    let to_global = stage.tree.local_to_global_matrix(source);
    let to_target = stage.tree.local_to_global_matrix(target).invert();
    let m = to_target.compose(&to_global);
    aabb.transform(&m)
}

/// The bounds of a clip in the space of a target node: the clip's own bounds
/// where the target is the clip, and otherwise the box of the corners of the
/// bounds, taken to the space of the root and from there to the space of the
/// target. Nothing where there is no target.
pub open spec fn spec_bounds_in(stage: &Stage, clip: NodeId, target: Option<NodeId>) -> Option<
    Rectangle,
> {
    match target {
        Some(t) => if t >= stage.tree.nodes@.len() {
            None
        } else if t == clip {
            Some(stage.tree.nodes@[clip as int].bounds)
        } else {
            Some(spec_transform_bounds(stage, clip, t, stage.tree.nodes@[clip as int].bounds))
        },
        None => None,
    }
}

/// The bounds of a clip in the space of a target node.
pub fn get_bounds(stage: &Stage, clip: NodeId, target: Option<NodeId>) -> (result: Value)
    requires
        stage.wf(),
        stage.is_clip(clip),
    ensures
        result == match spec_bounds_in(stage, clip, target) {
            Some(b) => Value::Bounds(b),
            None => Value::Undefined,
        },
{
    match target {
        Some(t) => {
            if t >= stage.tree.len() {
                Value::Undefined
            } else if t == clip {
                Value::Bounds(stage.tree.nodes[clip].bounds)
            } else {
                Value::Bounds(transform_bounds(stage, clip, t, &stage.tree.nodes[clip].bounds))
            }
        },
        None => Value::Undefined,
    }
}

/// The bounds of a clip in the space of a target node, as [`get_bounds`] gives them.
pub fn get_rect(stage: &Stage, clip: NodeId, target: Option<NodeId>) -> (result: Value)
    requires
        stage.wf(),
        stage.is_clip(clip),
    ensures
        result == match spec_bounds_in(stage, clip, target) {
            Some(b) => Value::Bounds(b),
            None => Value::Undefined,
        },
{
    get_bounds(stage, clip, target)
}

} // verus!
