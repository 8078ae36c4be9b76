//! Changing the tree: attaching, creating, duplicating, removing and
//! swapping the children of a clip.

use vstd::prelude::*;
use crate::depth::{
    biased,
    is_dynamic,
    is_removable,
    is_script_depth,
    next_highest,
    spec_biased,
    spec_is_dynamic,
    spec_is_removable,
    spec_is_script_depth,
    spec_next_highest,
    to_internal,
    DEPTH_BIAS,
    MAX_DEPTH,
    MAX_DEPTH_BIASED,
};
use crate::geometry::{ColorTransform, Matrix, Rectangle};
use crate::movie_clip::changes::only_tree_changed;
use crate::number::Number;
use crate::stage::{
    copy_labels,
    spec_by_export_name,
    spec_by_id,
    Action,
    Character,
    ObjectId,
    Stage,
    Value,
};
use crate::style::PathState;
use crate::timeline::{FrameLabel, Timeline};
use crate::tree::{
    links_detached,
    links_placed,
    links_swapped,
    same_content,
    spec_highest_depth,
    Link,
    Node,
    NodeId,
    NodeKind,
};

verus! {

/// Whether `node` is a node as it is right after it was made: of the kind,
/// name, content and bounds given, without children and without drawing,
/// playing, and before its first frame.
pub open spec fn made_from(
    node: Node,
    kind: NodeKind,
    name: Seq<char>,
    content: Option<u16>,
    bounds: Rectangle,
    total_frames: u16,
    labels: Seq<FrameLabel>,
) -> bool {
    &&& node.kind == kind
    &&& node.name@ == name
    &&& node.content == content
    &&& node.bounds == bounds
    &&& node.children@.len() == 0
    &&& node.drawing@ == PathState::spec_blank()
    &&& node.timeline.total_frames == total_frames
    &&& node.timeline.labels@ == labels
    &&& node.timeline.playing
    &&& node.timeline.current_frame == 0
}

/// Whether `node` was made from the definition `character` under the name `name`.
pub open spec fn made_from_character(node: Node, character: Character, name: Seq<char>) -> bool {
    made_from(
        node,
        character.kind,
        name,
        Some(character.id),
        character.bounds,
        character.total_frames,
        character.labels@,
    )
}

/// Whether `node` is an empty clip of one frame under the name `name`.
pub open spec fn made_empty(node: Node, name: Seq<char>) -> bool {
    made_from(node, NodeKind::Clip, name, None, Rectangle::spec_empty(), 1, Seq::empty())
}

/// Whether `node` is a text field with the bounds given under the name `name`.
pub open spec fn made_text(node: Node, name: Seq<char>, bounds: Rectangle) -> bool {
    made_from(node, NodeKind::Text, name, None, bounds, 0, Seq::empty())
}

/// Whether `after` is `before` with one new node under `parent` at the
/// internal depth `depth`: the new node is the youngest, a child that
/// `parent` had at that depth has left the tree, every other node hangs
/// where it hung and holds what it held, and the start-up of the new node
/// has been handed out: its hook with `init_object`, and behind the hook
/// its first frame, if `run_frame` says so.
pub open spec fn child_added(
    before: &Stage,
    after: &Stage,
    parent: NodeId,
    depth: i32,
    init_object: Option<ObjectId>,
    run_frame: bool,
) -> bool {
    let id = before.tree.nodes@.len();
    &&& after.library == before.library
    &&& after.drag == before.drag
    &&& after.version == before.version
    &&& after.actions@ == before.actions@.push(
        Action::Instantiated { node: id as usize, init_object, run_frame },
    )
    &&& after.tree.nodes@.len() == id + 1
    &&& after.tree.links() == links_placed(
        before.tree.links().push(Link { parent: None, depth: 0 }),
        parent,
        id as int,
        depth,
    )
    &&& forall|i: int|
        0 <= i < id ==> same_content(#[trigger] before.tree.nodes@[i], after.tree.nodes@[i])
}

/// Makes a node, puts it under `parent` at the internal depth `depth`, gives
/// it the transform and colour transform given, and hands its start-up out.
/// The node stands before its first frame: the hook runs first.
fn add_child(
    stage: &mut Stage,
    parent: NodeId,
    kind: NodeKind,
    name: String,
    content: Option<u16>,
    bounds: Rectangle,
    total_frames: u16,
    labels: Vec<FrameLabel>,
    depth: i32,
    matrix: Matrix,
    color_transform: ColorTransform,
    init_object: Option<ObjectId>,
    run_frame: bool,
) -> (id: NodeId)
    requires
        old(stage).wf(),
        parent < old(stage).tree.nodes@.len(),
    ensures
        final(stage).wf(),
        id == old(stage).tree.nodes@.len(),
        child_added(old(stage), final(stage), parent, depth, init_object, run_frame),
        made_from(
            final(stage).tree.nodes@[id as int],
            kind,
            name@,
            content,
            bounds,
            total_frames,
            labels@,
        ),
        final(stage).tree.nodes@[id as int].matrix == matrix,
        final(stage).tree.nodes@[id as int].color_transform == color_transform,
{
    let ghost t0 = old(stage).tree;
    let id = stage.tree.add_node(kind, name, content, bounds, Timeline::new(total_frames, labels));
    let ghost t1 = stage.tree;
    stage.tree.nodes[id].matrix = matrix;
    stage.tree.nodes[id].color_transform = color_transform;
    let ghost t2 = stage.tree;
    proof {
        t2.lemma_node_changed(&t1, id as int);
        assert(t2.links() =~= t0.links().push(Link { parent: None, depth: 0 }));
    }
    stage.tree.place(parent, id, depth);
    stage.actions.push(Action::Instantiated { node: id, init_object, run_frame });
    proof {
        assert forall|i: int| 0 <= i < id implies same_content(
            #[trigger] t0.nodes@[i],
            stage.tree.nodes@[i],
        ) by {
            assert(t2.nodes@[i] == t0.nodes@[i]);
            assert(same_content(t2.nodes@[i], stage.tree.nodes@[i]));
        }
        assert(same_content(t2.nodes@[id as int], stage.tree.nodes@[id as int]));
        if stage.tree.kids(id as int).len() > 0 {
            assert(stage.tree.entry_ok(id as int, 0));
            assert(stage.tree.listed(stage.tree.kids(id as int)[0].node as int));
        }
    }
    id
}

/// The arguments of a call to attach.
#[derive(Debug)]
pub struct AttachArgs {
    pub export_name: String,
    pub new_name: String,
    pub depth: i32,
    pub init_object: Option<ObjectId>,
}

/// The arguments of a call to create an empty clip.
#[derive(Debug)]
pub struct CreateArgs {
    pub new_name: String,
    pub depth: i32,
}

/// The arguments of a call to duplicate a clip.
#[derive(Debug)]
pub struct DuplicateArgs {
    pub new_name: String,
    pub depth: i32,
    pub init_object: Option<ObjectId>,
}

/// Whether `after` is `before` and `result` is `Undefined`.
pub open spec fn nothing_done(before: &Stage, after: &Stage, result: Value) -> bool {
    result is Undefined && *after == *before
}

/// What a call to attach does to the stage and hands back. Where the
/// script gave its arguments, something is exported under the name, and the
/// script depth lies between zero and the largest script depth, a node made
/// from the first such definition is put under the clip, at the script depth
/// moved up by the bias, and handed back. Otherwise nothing changes and
/// `Undefined` is handed back.
pub open spec fn attached(
    before: &Stage,
    after: &Stage,
    clip: NodeId,
    args: Option<AttachArgs>,
    result: Value,
) -> bool {
    let id = before.tree.nodes@.len();
    match args {
        Some(a) => match spec_by_export_name(before.library.characters@, a.export_name@) {
            Some(i) if spec_is_script_depth(a.depth as int) => {
                &&& result == Value::Object(id as usize)
                &&& child_added(
                    before,
                    after,
                    clip,
                    (a.depth + DEPTH_BIAS) as i32,
                    a.init_object,
                    true,
                )
                &&& made_from_character(
                    after.tree.nodes@[id as int],
                    before.library.characters@[i as int],
                    a.new_name@,
                )
                &&& after.tree.nodes@[id as int].matrix == Matrix::spec_identity()
                &&& after.tree.nodes@[id as int].color_transform
                    == ColorTransform::spec_identity()
            },
            _ => nothing_done(before, after, result),
        },
        None => nothing_done(before, after, result),
    }
}

/// Attaching at a negative script depth, or above the largest script depth,
/// changes nothing and hands back `Undefined`.
pub proof fn lemma_attach_out_of_range(
    before: &Stage,
    after: &Stage,
    clip: NodeId,
    args: AttachArgs,
    result: Value,
)
    requires
        args.depth < 0 || args.depth > MAX_DEPTH,
        attached(before, after, clip, Some(args), result),
    ensures
        result is Undefined,
        *after == *before,
{
}

/// A node that a script attaches or creates hangs in the dynamic range, at
/// the bias or above.
pub proof fn lemma_attached_in_dynamic_range(
    before: &Stage,
    after: &Stage,
    clip: NodeId,
    args: AttachArgs,
    result: Value,
)
    requires
        attached(before, after, clip, Some(args), result),
        result !is Undefined,
    ensures
        after.tree.nodes@.len() == before.tree.nodes@.len() + 1,
        DEPTH_BIAS <= after.tree.nodes@[before.tree.nodes@.len() as int].depth <= MAX_DEPTH_BIASED,
        after.tree.nodes@[before.tree.nodes@.len() as int].parent == Some(clip),
{
    let id = before.tree.nodes@.len() as int;
    assert(after.tree.links()[id].depth == args.depth + DEPTH_BIAS);
}

/// Attaches a new instance of the definition exported under a name to a
/// clip, at a script depth and under a new name. Missing arguments, a script
/// depth that is negative or above the largest script depth, and a name
/// under which nothing is exported leave the stage as it is.
pub fn attach_movie(stage: &mut Stage, clip: NodeId, args: Option<AttachArgs>) -> (result: Value)
    requires
        old(stage).wf(),
        old(stage).is_clip(clip),
    ensures
        final(stage).wf(),
        attached(old(stage), final(stage), clip, args, result),
{
    let AttachArgs { export_name, new_name, depth, init_object } = match args {
        Some(a) => a,
        None => {
            return Value::Undefined;
        },
    };
    if !is_script_depth(depth) {
        return Value::Undefined;
    }
    let internal = depth + DEPTH_BIAS;
    match stage.library.find_by_export_name(&export_name) {
        Some(i) => {
            let character = &stage.library.characters[i];
            let kind = character.kind;
            let content = Some(character.id);
            let bounds = character.bounds;
            let total_frames = character.total_frames;
            let labels = copy_labels(&character.labels);
            let id = add_child(
                stage,
                clip,
                kind,
                new_name,
                content,
                bounds,
                total_frames,
                labels,
                internal,
                Matrix::identity(),
                ColorTransform::identity(),
                init_object,
                true,
            );
            Value::Object(id)
        },
        None => Value::Undefined,
    }
}

/// What a call to create an empty clip does to the stage and hands back.
/// Where the script gave its arguments and the script depth lies between
/// zero and the largest script depth, an empty clip is put under the clip, at
/// the script depth moved up by the bias, and handed back. Otherwise nothing
/// changes and `Undefined` is handed back.
pub open spec fn created_empty(
    before: &Stage,
    after: &Stage,
    clip: NodeId,
    args: Option<CreateArgs>,
    result: Value,
) -> bool {
    let id = before.tree.nodes@.len();
    match args {
        Some(a) => if spec_is_script_depth(a.depth as int) {
            &&& result == Value::Object(id as usize)
            &&& child_added(before, after, clip, (a.depth + DEPTH_BIAS) as i32, None, true)
            &&& made_empty(after.tree.nodes@[id as int], a.new_name@)
            &&& after.tree.nodes@[id as int].matrix == Matrix::spec_identity()
            &&& after.tree.nodes@[id as int].color_transform == ColorTransform::spec_identity()
        } else {
            nothing_done(before, after, result)
        },
        None => nothing_done(before, after, result),
    }
}

/// Creates an empty clip under a clip, at a script depth and under a new
/// name. Missing arguments and a script depth that is negative or above the
/// largest script depth leave the stage as it is.
pub fn create_empty_movie_clip(stage: &mut Stage, clip: NodeId, args: Option<CreateArgs>) -> (result:
    Value)
    requires
        old(stage).wf(),
        old(stage).is_clip(clip),
    ensures
        final(stage).wf(),
        created_empty(old(stage), final(stage), clip, args, result),
{
    let CreateArgs { new_name, depth } = match args {
        Some(a) => a,
        None => {
            return Value::Undefined;
        },
    };
    if !is_script_depth(depth) {
        return Value::Undefined;
    }
    let id = add_child(
        stage,
        clip,
        NodeKind::Clip,
        new_name,
        None,
        Rectangle::empty(),
        1,
        Vec::new(),
        depth + DEPTH_BIAS,
        Matrix::identity(),
        ColorTransform::identity(),
        None,
        true,
    );
    Value::Object(id)
}

/// Creates a text field with the bounds given under a clip, at the depth
/// that the whole part of `depth` names and under the name `new_name`. The
/// field is handed back to content of version 8 and later only. A text
/// field has no frames to run.
pub fn create_text_field(
    stage: &mut Stage,
    clip: NodeId,
    new_name: String,
    depth: Number,
    bounds: Rectangle,
) -> (result: Value)
    requires
        old(stage).wf(),
        old(stage).is_clip(clip),
    ensures
        final(stage).wf(),
        child_added(
            old(stage),
            final(stage),
            clip,
            spec_biased(depth.spec_saturating_i32(), DEPTH_BIAS as int) as i32,
            None,
            false,
        ),
        made_text(
            final(stage).tree.nodes@[old(stage).tree.nodes@.len() as int],
            new_name@,
            bounds,
        ),
        final(stage).tree.nodes@[old(stage).tree.nodes@.len() as int].matrix
            == Matrix::spec_identity(),
        final(stage).tree.nodes@[old(stage).tree.nodes@.len() as int].color_transform
            == ColorTransform::spec_identity(),
        result == if old(stage).version >= 8 {
            Value::Object(old(stage).tree.nodes@.len() as usize)
        } else {
            Value::Undefined
        },
{
    let internal = to_internal(depth.to_saturating_i32());
    let id = add_child(
        stage,
        clip,
        NodeKind::Text,
        new_name,
        None,
        bounds,
        0,
        Vec::new(),
        internal,
        Matrix::identity(),
        ColorTransform::identity(),
        None,
        false,
    );
    if stage.version >= 8 {
        Value::Object(id)
    } else {
        Value::Undefined
    }
}

/// The parent of a clip, where it is a clip itself.
pub open spec fn clip_parent(stage: &Stage, clip: NodeId) -> Option<NodeId> {
    match stage.tree.nodes@[clip as int].parent {
        Some(p) => if stage.is_clip(p) {
            Some(p)
        } else {
            None
        },
        None => None,
    }
}

/// Finds the parent of a clip, where it is a clip itself.
pub fn parent_clip(stage: &Stage, clip: NodeId) -> (parent: Option<NodeId>)
    requires
        stage.wf(),
        clip < stage.tree.nodes@.len(),
    ensures
        parent == clip_parent(stage, clip),
        parent matches Some(p) ==> p < clip,
{
    match stage.tree.parent(clip) {
        Some(p) => if stage.names_clip(p) {
            Some(p)
        } else {
            None
        },
        None => None,
    }
}

/// Whether a call to duplicate `clip` at the script depth `depth` under the
/// bias `depth_bias` makes a node: the clip has a clip as its parent, the
/// biased depth is in the dynamic range, and the library holds the
/// definition that the clip was made from. Gives that definition.
pub open spec fn spec_duplicable(stage: &Stage, clip: NodeId, depth: i32, depth_bias: i32)
    -> Option<usize> {
    if clip_parent(stage, clip) is Some && spec_is_dynamic(
        spec_biased(depth as int, depth_bias as int),
    ) {
        spec_by_id(stage.library.characters@, stage.tree.nodes@[clip as int].content)
    } else {
        None
    }
}

/// What a call to duplicate `clip` under the bias `depth_bias` does to the
/// stage and hands back. Where the script gave its arguments and the clip
/// can be duplicated, a node made from the definition of the clip is put
/// under the parent of the clip, at the script depth moved by the bias, and
/// handed back; it has the transform and the colour transform of the clip,
/// and nothing else of it. Otherwise nothing changes and `Undefined` is
/// handed back.
pub open spec fn duplicated(
    before: &Stage,
    after: &Stage,
    clip: NodeId,
    args: Option<DuplicateArgs>,
    depth_bias: i32,
    result: Value,
) -> bool {
    let id = before.tree.nodes@.len();
    match args {
        Some(a) => match spec_duplicable(before, clip, a.depth, depth_bias) {
            Some(i) => {
                &&& result == Value::Object(id as usize)
                &&& child_added(
                    before,
                    after,
                    clip_parent(before, clip)->0,
                    spec_biased(a.depth as int, depth_bias as int) as i32,
                    a.init_object,
                    true,
                )
                &&& made_from_character(
                    after.tree.nodes@[id as int],
                    before.library.characters@[i as int],
                    a.new_name@,
                )
                &&& after.tree.nodes@[id as int].matrix == before.tree.nodes@[clip as int].matrix
                &&& after.tree.nodes@[id as int].color_transform
                    == before.tree.nodes@[clip as int].color_transform
            },
            None => nothing_done(before, after, result),
        },
        None => nothing_done(before, after, result),
    }
}

/// Duplicates a clip: a new instance of the definition that the clip was
/// made from is put under the clip's parent, at a script depth moved by
/// `depth_bias`, under a new name. The new node takes the transform and the
/// colour transform of the clip and nothing else from it. Missing
/// arguments, a clip without a parent, a depth out of the dynamic range, and
/// a clip whose definition the library does not hold leave the stage as it
/// is.
pub fn duplicate_movie_clip_with_bias(
    stage: &mut Stage,
    clip: NodeId,
    args: Option<DuplicateArgs>,
    depth_bias: i32,
) -> (result: Value)
    requires
        old(stage).wf(),
        old(stage).is_clip(clip),
    ensures
        final(stage).wf(),
        duplicated(old(stage), final(stage), clip, args, depth_bias, result),
{
    let DuplicateArgs { new_name, depth, init_object } = match args {
        Some(a) => a,
        None => {
            return Value::Undefined;
        },
    };
    let internal = biased(depth, depth_bias);
    let parent = match parent_clip(stage, clip) {
        Some(p) => p,
        None => {
            return Value::Undefined;
        },
    };
    if !is_dynamic(internal) {
        return Value::Undefined;
    }
    let source = stage.tree.nodes[clip].content;
    match stage.library.find_by_id(source) {
        Some(i) => {
            let character = &stage.library.characters[i];
            let kind = character.kind;
            let content = Some(character.id);
            let bounds = character.bounds;
            let total_frames = character.total_frames;
            let labels = copy_labels(&character.labels);
            let matrix = stage.tree.nodes[clip].matrix;
            let color_transform = stage.tree.nodes[clip].color_transform;
            let id = add_child(
                stage,
                parent,
                kind,
                new_name,
                content,
                bounds,
                total_frames,
                labels,
                internal,
                matrix,
                color_transform,
                init_object,
                true,
            );
            Value::Object(id)
        },
        None => Value::Undefined,
    }
}

/// Duplicates a clip at the call of a script: as
/// [`duplicate_movie_clip_with_bias`] does under the standard bias.
pub fn duplicate_movie_clip(stage: &mut Stage, clip: NodeId, args: Option<DuplicateArgs>) -> (result:
    Value)
    requires
        old(stage).wf(),
        old(stage).is_clip(clip),
    ensures
        final(stage).wf(),
        duplicated(old(stage), final(stage), clip, args, DEPTH_BIAS, result),
{
    duplicate_movie_clip_with_bias(stage, clip, args, DEPTH_BIAS)
}

/// Whether a call to remove `clip` under the bias `depth_bias` removes it:
/// its depth moved by the bias is in the removable range, and its parent is
/// a clip.
pub open spec fn spec_removable(stage: &Stage, clip: NodeId, depth_bias: i32) -> bool {
    spec_is_removable(
        spec_biased(stage.tree.nodes@[clip as int].depth as int, depth_bias as int),
    ) && clip_parent(stage, clip) is Some
}

/// What a call to remove `clip` under the bias `depth_bias` does to the
/// stage: a clip that can be removed is taken from its parent and nothing
/// else changes; otherwise nothing changes at all.
pub open spec fn removed(before: &Stage, after: &Stage, clip: NodeId, depth_bias: i32) -> bool {
    if spec_removable(before, clip, depth_bias) {
        &&& only_tree_changed(before, after)
        &&& after.tree.keeps_content_of(&before.tree)
        &&& after.tree.links() == links_detached(before.tree.links(), clip as int)
    } else {
        *after == *before
    }
}

/// Removes a clip from its parent, if its depth moved by `depth_bias` lies
/// in the removable range and it has a clip as its parent.
pub fn remove_movie_clip_with_bias(stage: &mut Stage, clip: NodeId, depth_bias: i32) -> (result:
    Value)
    requires
        old(stage).wf(),
        old(stage).is_clip(clip),
    ensures
        final(stage).wf(),
        result is Undefined,
        removed(old(stage), final(stage), clip, depth_bias),
{
    let depth = biased(stage.tree.depth(clip), depth_bias);
    if is_removable(depth) {
        match parent_clip(stage, clip) {
            Some(_) => {
                stage.tree.detach(clip);
            },
            None => {},
        }
    }
    Value::Undefined
}

/// Whether a call of a script to remove `clip` removes it: the clip hangs
/// in the dynamic range, at the bias or above, its depth moved by the bias is
/// in the removable range, and its parent is a clip. A child that hangs below
/// the bias was placed by the author of the content and stays.
pub open spec fn spec_script_removable(stage: &Stage, clip: NodeId) -> bool {
    stage.tree.nodes@[clip as int].depth >= DEPTH_BIAS && spec_removable(stage, clip, DEPTH_BIAS)
}

/// What a call of a script to remove `clip` does to the stage: a clip that
/// the script can remove is taken from its parent and nothing else changes;
/// otherwise nothing changes at all.
pub open spec fn script_removed(before: &Stage, after: &Stage, clip: NodeId) -> bool {
    if spec_script_removable(before, clip) {
        &&& only_tree_changed(before, after)
        &&& after.tree.keeps_content_of(&before.tree)
        &&& after.tree.links() == links_detached(before.tree.links(), clip as int)
    } else {
        *after == *before
    }
}

/// Removes a clip at the call of a script. Only a clip that hangs in the
/// dynamic range is removed: a child below the bias, which the author of the
/// content placed, stays where it is.
pub fn remove_movie_clip(stage: &mut Stage, clip: NodeId) -> (result: Value)
    requires
        old(stage).wf(),
        old(stage).is_clip(clip),
    ensures
        final(stage).wf(),
        result is Undefined,
        script_removed(old(stage), final(stage), clip),
{
    if stage.tree.depth(clip) >= DEPTH_BIAS {
        remove_movie_clip_with_bias(stage, clip, DEPTH_BIAS)
    } else {
        Value::Undefined
    }
}

/// A script cannot remove a child that hangs below the bias.
pub proof fn lemma_author_placed_stays(before: &Stage, after: &Stage, clip: NodeId)
    requires
        before.tree.nodes@[clip as int].depth < DEPTH_BIAS,
        script_removed(before, after, clip),
    ensures
        *after == *before,
{
}

/// Removing a clip twice at the call of a script is removing it once.
pub proof fn lemma_script_remove_twice(first: &Stage, second: &Stage, third: &Stage, clip: NodeId)
    requires
        clip < first.tree.nodes@.len(),
        script_removed(first, second, clip),
        script_removed(second, third, clip),
    ensures
        *third == *second,
{
    if spec_script_removable(first, clip) {
        assert(second.tree.links()[clip as int].parent is None);
        assert(second.tree.nodes@[clip as int].parent is None);
    }
}

/// Removing a clip twice is removing it once: after the first call the clip
/// hangs nowhere, so the second call changes nothing.
pub proof fn lemma_remove_twice(
    first: &Stage,
    second: &Stage,
    third: &Stage,
    clip: NodeId,
    depth_bias: i32,
)
    requires
        clip < first.tree.nodes@.len(),
        removed(first, second, clip, depth_bias),
        removed(second, third, clip, depth_bias),
    ensures
        *third == *second,
{
    if spec_removable(first, clip, depth_bias) {
        assert(second.tree.links()[clip as int].parent is None);
        assert(second.tree.nodes@[clip as int].parent is None);
    }
}

/// What a script names as the place to swap a clip to.
#[derive(Clone, Copy, Debug)]
pub enum SwapTarget {
    /// A number: the script depth.
    Depth(Number),
    /// Anything else: the node that the value was resolved to, if any.
    Node(Option<NodeId>),
}

/// The internal depth that a swap target names for `clip`: a number names
/// its whole part as a script depth; a node names its own depth if it hangs
/// under the same parent as the clip.
pub open spec fn spec_swap_depth(stage: &Stage, clip: NodeId, target: SwapTarget) -> Option<i32> {
    match target {
        SwapTarget::Depth(n) => Some(
            spec_biased(n.spec_wrapping_i32(), DEPTH_BIAS as int) as i32,
        ),
        SwapTarget::Node(Some(t)) => if t < stage.tree.nodes@.len() && stage.tree.nodes@[t as int].parent
            == stage.tree.nodes@[clip as int].parent {
            Some(stage.tree.nodes@[t as int].depth)
        } else {
            None
        },
        SwapTarget::Node(None) => None,
    }
}

/// The internal depth that a call to swap `clip` moves it to, if it moves
/// it: the clip has a clip as its parent, the target names a depth other
/// than the clip's own, and both depths lie in the dynamic range.
pub open spec fn spec_swap_to(stage: &Stage, clip: NodeId, target: SwapTarget) -> Option<i32> {
    match spec_swap_depth(stage, clip, target) {
        Some(d) => if clip_parent(stage, clip) is Some && spec_is_dynamic(d as int)
            && spec_is_dynamic(stage.tree.nodes@[clip as int].depth as int) && d
            != stage.tree.nodes@[clip as int].depth {
            Some(d)
        } else {
            None
        },
        None => None,
    }
}

/// What a call to swap `clip` does to the stage: where the call moves the
/// clip, the clip takes the new depth, a sibling that was there takes the
/// depth of the clip, and nothing else changes; otherwise nothing changes at
/// all.
pub open spec fn swapped(before: &Stage, after: &Stage, clip: NodeId, target: SwapTarget) -> bool {
    match spec_swap_to(before, clip, target) {
        Some(d) => {
            &&& only_tree_changed(before, after)
            &&& after.tree.keeps_content_of(&before.tree)
            &&& after.tree.links() == links_swapped(before.tree.links(), clip as int, d)
        },
        None => *after == *before,
    }
}

/// Swaps a clip to another depth under its parent, or with the sibling that
/// the target names.
pub fn swap_depths(stage: &mut Stage, clip: NodeId, target: SwapTarget) -> (result: Value)
    requires
        old(stage).wf(),
        old(stage).is_clip(clip),
    ensures
        final(stage).wf(),
        result is Undefined,
        swapped(old(stage), final(stage), clip, target),
{
    let parent = match parent_clip(stage, clip) {
        Some(p) => p,
        None => {
            return Value::Undefined;
        },
    };
    let depth: Option<i32> = match target {
        SwapTarget::Depth(n) => Some(to_internal(n.to_wrapping_i32())),
        SwapTarget::Node(Some(t)) => {
            if t < stage.tree.len() {
                match stage.tree.nodes[t].parent {
                    Some(tp) => if tp == parent {
                        Some(stage.tree.depth(t))
                    } else {
                        None
                    },
                    None => None,
                }
            } else {
                None
            }
        },
        SwapTarget::Node(None) => None,
    };
    match depth {
        Some(d) => {
            let own = stage.tree.depth(clip);
            if is_dynamic(d) && is_dynamic(own) && d != own {
                stage.tree.swap_child_to_depth(clip, d);
            }
        },
        None => {},
    }
    Value::Undefined
}

/// Swapping a clip with a sibling exchanges the depths of the two and
/// leaves every other node where it hangs, provided the two depths differ
/// and lie in the dynamic range.
pub proof fn lemma_swap_exchanges(before: &Stage, after: &Stage, clip: NodeId, sibling: NodeId)
    requires
        before.wf(),
        before.is_clip(clip),
        sibling < before.tree.nodes@.len(),
        clip_parent(before, clip) is Some,
        before.tree.nodes@[sibling as int].parent == before.tree.nodes@[clip as int].parent,
        before.tree.nodes@[sibling as int].depth != before.tree.nodes@[clip as int].depth,
        spec_is_dynamic(before.tree.nodes@[sibling as int].depth as int),
        spec_is_dynamic(before.tree.nodes@[clip as int].depth as int),
        swapped(before, after, clip, SwapTarget::Node(Some(sibling))),
    ensures
        after.tree.nodes@[clip as int].depth == before.tree.nodes@[sibling as int].depth,
        after.tree.nodes@[sibling as int].depth == before.tree.nodes@[clip as int].depth,
        after.tree.nodes@[clip as int].parent == before.tree.nodes@[clip as int].parent,
        after.tree.nodes@[sibling as int].parent == before.tree.nodes@[sibling as int].parent,
        forall|i: int|
            0 <= i < before.tree.nodes@.len() && i != clip && i != sibling
                ==> after.tree.links()[i] == before.tree.links()[i],
{
    let d = before.tree.nodes@[sibling as int].depth;
    assert(spec_swap_to(before, clip, SwapTarget::Node(Some(sibling))) == Some(d));
    let links = after.tree.links();
    assert(links[clip as int].depth == d);
    assert(links[sibling as int].depth == before.tree.nodes@[clip as int].depth);
    assert forall|i: int|
        0 <= i < before.tree.nodes@.len() && i != clip && i != sibling implies links[i]
            == before.tree.links()[i] by {
        if before.tree.nodes@[i].parent == before.tree.nodes@[clip as int].parent
            && before.tree.nodes@[i].depth == d {
            before.tree.lemma_depth_unique(i, sibling as int);
        }
    }
}

/// Swapping a clip with a node that hangs under another parent, or nowhere,
/// changes nothing.
pub proof fn lemma_swap_non_sibling(before: &Stage, after: &Stage, clip: NodeId, other: NodeId)
    requires
        other < before.tree.nodes@.len(),
        before.tree.nodes@[other as int].parent != before.tree.nodes@[clip as int].parent,
        swapped(before, after, clip, SwapTarget::Node(Some(other))),
    ensures
        *after == *before,
{
}

/// The next free script depth above the children of a clip, for content of
/// version 7 and later.
pub fn get_next_highest_depth(stage: &Stage, clip: NodeId) -> (result: Value)
    requires
        stage.wf(),
        stage.is_clip(clip),
    ensures
        stage.version < 7 ==> result is Undefined,
        stage.version >= 7 ==> {
            &&& result matches Value::Number(n)
            &&& n.spec_is_integral()
            &&& !n.negative()
            &&& exists|highest: Option<i32>|
                spec_highest_depth(stage.tree.links(), clip, highest) && n.integer_part()
                    == spec_next_highest(highest)
        },
{
    if stage.version >= 7 {
        let highest = stage.tree.highest_depth(clip);
        let next = next_highest(highest);
        Value::Number(Number::from_i32(next))
    } else {
        Value::Undefined
    }
}

} // verus!
