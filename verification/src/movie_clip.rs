//! The operations that scripts perform on a clip.
//!
//! Every operation takes the stage, the clip it is called on, and its
//! arguments as plain values: an argument that the script left out is `None`.
//! It changes the stage and hands a [`Value`](crate::stage::Value) back. An
//! operation that finds its arguments out of range, its target missing or
//! its style unknown does nothing, or no more than its contract says, and
//! hands back `Undefined`.

pub mod changes;
pub mod coordinates;
pub mod drag;
pub mod drawing;
pub mod loading;
pub mod mutator;
pub mod playback;
pub mod prototype;

pub use self::changes::{
    action_added,
    drawing_becomes,
    drawing_of,
    lemma_local_change,
    only_tree_changed,
    timeline_becomes,
    timeline_of,
};
pub use self::coordinates::{
    get_bounds,
    get_rect,
    global_to_local,
    hit_test,
    local_to_global,
    spec_bounds_in,
    spec_hit_test,
    spec_point,
    spec_transform_bounds,
    spec_world_bounds,
    transform_bounds,
    HitTarget,
};
pub use self::drag::{start_drag, stop_drag};
pub use self::drawing::{
    begin_fill,
    begin_gradient_fill,
    is_fill_type,
    lists_agree,
    takes_focal_point,
    takes_miter_limit,
    clear,
    curve_to,
    end_fill,
    lemma_unequal_lists_give_no_fill,
    line_style,
    line_to,
    move_to,
    spec_alpha_or_opaque,
    spec_appended,
    spec_curve,
    spec_gradient,
    spec_gradient_fill,
    spec_gradient_fill_of,
    spec_limit,
    spec_line,
    spec_line_style,
    spec_move,
    spec_solid_fill,
    GradientArgs,
};
pub use self::loading::{
    get_bytes_loaded,
    get_bytes_total,
    load_movie,
    load_variables,
    spec_unloaded,
    unload_movie,
};
pub use self::mutator::{
    attach_movie,
    attached,
    created_empty,
    duplicated,
    lemma_attached_in_dynamic_range,
    nothing_done,
    parent_clip,
    AttachArgs,
    CreateArgs,
    DuplicateArgs,
    child_added,
    clip_parent,
    create_empty_movie_clip,
    create_text_field,
    duplicate_movie_clip,
    duplicate_movie_clip_with_bias,
    get_next_highest_depth,
    lemma_attach_out_of_range,
    lemma_author_placed_stays,
    lemma_script_remove_twice,
    lemma_remove_twice,
    lemma_swap_exchanges,
    lemma_swap_non_sibling,
    made_empty,
    made_from,
    made_from_character,
    made_text,
    remove_movie_clip,
    remove_movie_clip_with_bias,
    removed,
    script_removed,
    spec_script_removable,
    spec_duplicable,
    spec_removable,
    spec_swap_depth,
    spec_swap_to,
    swap_depths,
    swapped,
    SwapTarget,
};
pub use self::playback::{
    goto_and_play,
    goto_and_stop,
    goto_frame,
    next_frame,
    play,
    prev_frame,
    run_frame,
    spec_goto_target,
    stop,
    FrameTarget,
};
pub use self::prototype::{
    constructor,
    create_proto,
    defines,
    has_required_arguments,
    spec_required_arguments,
    method_by_name,
    receiver,
    spec_method_name,
    spec_methods,
    to_string,
    Method,
    ProtoEntry,
};
