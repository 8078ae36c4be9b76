use movie_clip::depth::DEPTH_BIAS;
use movie_clip::error::{halts, ContentError, Error};
use movie_clip::geometry::{Matrix, Point, Rectangle, FIXED_ONE};
use movie_clip::movie_clip::{
    constructor, create_empty_movie_clip, create_proto, get_bounds, get_bytes_loaded,
    has_required_arguments,
    get_bytes_total, get_rect, global_to_local, hit_test, load_movie, load_variables,
    local_to_global, method_by_name, receiver, start_drag, stop_drag, to_string, transform_bounds,
    CreateArgs, HitTarget, Method,
};
use movie_clip::number::{Number, Pixels};
use movie_clip::stage::{Action, DragSession, Library, NavigationMethod, Stage, Value};
use movie_clip::text::{decimal, is_word, names_word};
use movie_clip::timeline::Timeline;
use movie_clip::tree::NodeKind;

fn num(x: f64) -> Number {
    Number::from_bits(x.to_bits())
}

fn px(x: f64) -> Pixels {
    Pixels { value: num(x), twips: swf::Twips::from_pixels(x).get() }
}

fn rect(x_min: i32, x_max: i32, y_min: i32, y_max: i32) -> Rectangle {
    Rectangle { x_min, x_max, y_min, y_max, valid: true }
}

fn stage_with_root() -> (Stage, usize) {
    let mut stage = Stage::new(Library::new(), 8);
    let root = stage.tree.add_node(
        NodeKind::Clip,
        "root".to_string(),
        None,
        rect(0, 1000, 0, 1000),
        Timeline::new(1, vec![]),
    );
    (stage, root)
}

fn child(stage: &mut Stage, parent: usize, name: &str, depth: i32) -> usize {
    let args = CreateArgs { new_name: name.to_string(), depth };
    match create_empty_movie_clip(stage, parent, Some(args)) {
        Value::Object(id) => id,
        other => panic!("no object: {:?}", other),
    }
}

fn shift(tx: i32, ty: i32) -> Matrix {
    Matrix { a: FIXED_ONE, b: 0, c: 0, d: FIXED_ONE, tx, ty }
}

#[test]
fn the_constructor_does_nothing() {
    let (stage, root) = stage_with_root();
    assert_eq!(constructor(&stage, Some(root)), Value::Undefined);
    assert_eq!(constructor(&stage, None), Value::Undefined);
    assert_eq!(constructor(&stage, Some(404)), Value::Undefined);
}

#[test]
fn starting_a_drag_replaces_the_session() {
    let (mut stage, root) = stage_with_root();
    let a = child(&mut stage, root, "a", 1);
    let b = child(&mut stage, root, "b", 2);
    assert_eq!(stage.drag, None);
    assert_eq!(start_drag(&mut stage, a, true, None), Value::Undefined);
    assert_eq!(stage.drag, Some(DragSession { node: a, lock_center: true, constraint: None }));
    let limits = rect(0, 10, 0, 20);
    start_drag(&mut stage, b, false, Some(limits));
    assert_eq!(
        stage.drag,
        Some(DragSession { node: b, lock_center: false, constraint: Some(limits) })
    );
}

#[test]
fn stopping_a_drag_clears_it_whoever_asks() {
    let (mut stage, root) = stage_with_root();
    let a = child(&mut stage, root, "a", 1);
    let b = child(&mut stage, root, "b", 2);
    start_drag(&mut stage, a, true, None);
    assert_eq!(stop_drag(&mut stage, b), Value::Undefined);
    assert_eq!(stage.drag, None);
    stop_drag(&mut stage, a);
    assert_eq!(stage.drag, None);
    start_drag(&mut stage, a, true, None);
    stop_drag(&mut stage, 12345);
    assert_eq!(stage.drag, None);
}

#[test]
fn load_movie_hands_out_exactly_one_action() {
    let (mut stage, root) = stage_with_root();
    let result = load_movie(&mut stage, root, "http://x".to_string(), &"GET".to_string());
    assert_eq!(result, Value::Undefined);
    assert_eq!(
        stage.actions,
        vec![Action::LoadMovie {
            target: root,
            url: "http://x".to_string(),
            method: Some(NavigationMethod::Get),
        }]
    );
    assert_eq!(stage.tree.len(), 1);
}

#[test]
fn load_variables_hands_out_exactly_one_action() {
    let (mut stage, root) = stage_with_root();
    load_variables(&mut stage, root, "vars.txt".to_string(), &"POST".to_string());
    load_variables(&mut stage, root, "more.txt".to_string(), &"undefined".to_string());
    assert_eq!(
        stage.take_actions(),
        vec![
            Action::LoadVariables {
                target: root,
                url: "vars.txt".to_string(),
                method: Some(NavigationMethod::Post),
            },
            Action::LoadVariables { target: root, url: "more.txt".to_string(), method: None },
        ]
    );
    assert!(stage.actions.is_empty());
}

#[test]
fn methods_are_named_in_upper_case() {
    assert_eq!(NavigationMethod::from_method_str(&"GET".to_string()), Some(NavigationMethod::Get));
    assert_eq!(NavigationMethod::from_method_str(&"POST".to_string()), Some(NavigationMethod::Post));
    assert_eq!(NavigationMethod::from_method_str(&"get".to_string()), None);
    assert_eq!(NavigationMethod::from_method_str(&"".to_string()), None);
}

#[test]
fn bytes_loaded_and_total_are_one() {
    let (stage, root) = stage_with_root();
    assert_eq!(get_bytes_loaded(&stage, root), Value::Number(num(1.0)));
    assert_eq!(get_bytes_total(&stage, root), Value::Number(num(1.0)));
}

#[test]
fn the_path_of_a_clip() {
    let (mut stage, root) = stage_with_root();
    let a = child(&mut stage, root, "a", 1);
    let b = child(&mut stage, a, "b", 1);
    assert_eq!(to_string(&stage, root), Value::String("_level0".to_string()));
    assert_eq!(to_string(&stage, a), Value::String("_level0.a".to_string()));
    assert_eq!(to_string(&stage, b), Value::String("_level0.a.b".to_string()));
    stage.tree.nodes[root].depth = 12;
    assert_eq!(to_string(&stage, b), Value::String("_level12.a.b".to_string()));
    stage.tree.detach(a);
    assert_eq!(to_string(&stage, b), Value::String(format!("_level{}.b", DEPTH_BIAS + 1)));
}

#[test]
fn whole_numbers_in_decimal() {
    for n in [0, 1, 9, 10, 11, 99, 100, 16384, -1, -10, -16385, i32::MAX, i32::MIN, 1_000_000] {
        assert_eq!(decimal(n), format!("{}", n));
    }
}

#[test]
fn words_are_compared_exactly() {
    assert!(is_word(&"linear".to_string(), "linear"));
    assert!(!is_word(&"linear".to_string(), "Linear"));
    assert!(!is_word(&"linea".to_string(), "linear"));
    assert!(is_word(&"".to_string(), ""));
    assert!(names_word(&Some("a".to_string()), "a"));
    assert!(!names_word(&Some("a".to_string()), "b"));
    assert!(!names_word(&None, ""));
}

#[test]
fn the_prototype_defines_every_method_once() {
    let table = create_proto();
    assert_eq!(table.len(), 34);
    let names: Vec<&str> = table.iter().map(|e| e.name.as_str()).collect();
    assert_eq!(
        names,
        vec![
            "attachMovie", "createEmptyMovieClip", "createTextField", "duplicateMovieClip",
            "getBounds", "getBytesLoaded", "getBytesTotal", "getNextHighestDepth", "getRect",
            "globalToLocal", "gotoAndPlay", "gotoAndStop", "hitTest", "loadMovie",
            "loadVariables", "localToGlobal", "nextFrame", "play", "prevFrame",
            "removeMovieClip", "startDrag", "stop", "stopDrag", "swapDepths", "toString",
            "unloadMovie", "beginFill", "beginGradientFill", "moveTo", "lineTo", "curveTo",
            "endFill", "lineStyle", "clear",
        ]
    );
    for (i, entry) in table.iter().enumerate() {
        assert!(entry.dont_delete && entry.read_only && entry.dont_enum);
        assert_eq!(entry.name, entry.method.name());
        for other in &table[i + 1..] {
            assert_ne!(entry.name, other.name);
            assert_ne!(entry.method, other.method);
        }
    }
    assert_eq!(table[0].method, Method::AttachMovie);
    assert_eq!(table[33].method, Method::Clear);
}

#[test]
fn methods_are_found_by_name() {
    assert_eq!(method_by_name(&"attachMovie".to_string()), Some(Method::AttachMovie));
    assert_eq!(method_by_name(&"hitTest".to_string()), Some(Method::HitTest));
    assert_eq!(method_by_name(&"clear".to_string()), Some(Method::Clear));
    assert_eq!(method_by_name(&"toString".to_string()), Some(Method::ToString));
    assert_eq!(method_by_name(&"attachmovie".to_string()), None);
    assert_eq!(method_by_name(&"".to_string()), None);
    assert_eq!(method_by_name(&"getDepth".to_string()), None);
}

#[test]
fn a_method_runs_on_clips_only() {
    let (mut stage, root) = stage_with_root();
    let text = stage.tree.add_node(
        NodeKind::Text,
        "t".to_string(),
        None,
        Rectangle::empty(),
        Timeline::new(0, vec![]),
    );
    assert_eq!(receiver(&stage, Some(root)), Some(root));
    assert_eq!(receiver(&stage, Some(text)), None);
    assert_eq!(receiver(&stage, Some(99)), None);
    assert_eq!(receiver(&stage, None), None);
}

#[test]
fn failures_that_halt() {
    assert!(Error::PrototypeRecursionLimit.is_halting());
    assert!(Error::InvalidSwf(ContentError { message: "bad tag".to_string() }).is_halting());
    assert!(!Error::ThrownValue(Value::Undefined).is_halting());
    assert!(!Error::ThrownValue(Value::String("oops".to_string())).is_halting());
}

#[test]
fn failures_describe_themselves() {
    assert_eq!(
        Error::PrototypeRecursionLimit.message(),
        "Prototype recursion limit has been exceeded"
    );
    assert_eq!(Error::ThrownValue(Value::Bool(true)).message(), "A script has thrown a custom error.");
    assert_eq!(
        Error::InvalidSwf(ContentError { message: "bad tag".to_string() }).message(),
        "Couldn't parse SWF."
    );
}

#[test]
fn outcomes_that_halt() {
    assert!(!halts(&Ok(Value::Undefined)));
    assert!(halts(&Err(Error::PrototypeRecursionLimit)));
    assert!(!halts(&Err(Error::ThrownValue(Value::Undefined))));
    let from: Error = ContentError { message: "x".to_string() }.into();
    assert!(halts(&Err(from)));
}

#[test]
fn points_go_through_the_chain_of_ancestors() {
    let (mut stage, root) = stage_with_root();
    let a = child(&mut stage, root, "a", 1);
    let b = child(&mut stage, a, "b", 1);
    stage.tree.nodes[root].matrix = shift(1000, 0);
    stage.tree.nodes[a].matrix = Matrix { a: 2 * FIXED_ONE, b: 0, c: 0, d: 2 * FIXED_ONE, tx: 0, ty: 100 };
    stage.tree.nodes[b].matrix = shift(20, 40);
    // b: (1, 2) px -> (20, 40) twips -> +(20, 40) -> *2 +(0, 100) -> +(1000, 0)
    assert_eq!(
        local_to_global(&stage, b, Some((px(1.0), px(2.0)))),
        Some(Point { x: 1080, y: 260 })
    );
    assert_eq!(local_to_global(&stage, root, Some((px(1.0), px(2.0)))), Some(Point { x: 1020, y: 40 }));
    assert_eq!(
        global_to_local(&stage, b, Some((px(54.0), px(13.0)))),
        Some(Point { x: 20, y: 40 })
    );
    assert_eq!(local_to_global(&stage, b, None), None);
    assert_eq!(global_to_local(&stage, b, None), None);
    assert_eq!(
        stage.tree.local_to_global_matrix(b),
        Matrix { a: 2 * FIXED_ONE, b: 0, c: 0, d: 2 * FIXED_ONE, tx: 1040, ty: 180 }
    );
}

#[test]
fn bounds_in_the_own_space_and_in_another() {
    let (mut stage, root) = stage_with_root();
    let a = child(&mut stage, root, "a", 1);
    let b = child(&mut stage, root, "b", 2);
    stage.tree.nodes[a].bounds = rect(0, 100, 0, 50);
    stage.tree.nodes[a].matrix = shift(200, 300);
    stage.tree.nodes[b].matrix = Matrix { a: 2 * FIXED_ONE, b: 0, c: 0, d: 2 * FIXED_ONE, tx: 0, ty: 0 };
    assert_eq!(get_bounds(&stage, a, Some(a)), Value::Bounds(rect(0, 100, 0, 50)));
    assert_eq!(get_bounds(&stage, a, Some(root)), Value::Bounds(rect(200, 300, 300, 350)));
    assert_eq!(get_bounds(&stage, a, Some(b)), Value::Bounds(rect(100, 150, 150, 175)));
    assert_eq!(get_rect(&stage, a, Some(b)), Value::Bounds(rect(100, 150, 150, 175)));
    assert_eq!(get_bounds(&stage, a, None), Value::Undefined);
    assert_eq!(get_bounds(&stage, a, Some(77)), Value::Undefined);
    assert_eq!(get_bounds(&stage, b, Some(a)), Value::Bounds(Rectangle::empty()));
}

#[test]
fn hit_test_against_a_point() {
    let (mut stage, root) = stage_with_root();
    let a = child(&mut stage, root, "a", 1);
    stage.tree.nodes[a].bounds = rect(0, 100, 0, 50);
    stage.tree.nodes[a].matrix = shift(200, 300);
    let hit = |stage: &Stage, x: f64, y: f64| hit_test(stage, a, HitTarget::Point { x: px(x), y: px(y) });
    assert_eq!(hit(&stage, 10.0, 15.0), Value::Bool(true));
    assert_eq!(hit(&stage, 15.0, 17.5), Value::Bool(true));
    assert_eq!(hit(&stage, 15.05, 17.5), Value::Bool(false));
    assert_eq!(hit(&stage, 9.95, 15.0), Value::Bool(false));
    assert_eq!(hit(&stage, f64::NAN, 15.0), Value::Bool(false));
    assert_eq!(hit(&stage, 10.0, f64::INFINITY), Value::Bool(false));
    // the point is given in the space of the root, which may be moved itself
    stage.tree.nodes[root].matrix = shift(-40, 0);
    assert_eq!(hit(&stage, 10.0, 15.0), Value::Bool(true));
    assert_eq!(hit(&stage, 15.05, 17.5), Value::Bool(false));
}

#[test]
fn hit_test_against_another_node() {
    let (mut stage, root) = stage_with_root();
    let a = child(&mut stage, root, "a", 1);
    let b = child(&mut stage, root, "b", 2);
    stage.tree.nodes[a].bounds = rect(0, 100, 0, 50);
    stage.tree.nodes[b].bounds = rect(0, 100, 0, 50);
    stage.tree.nodes[b].matrix = shift(100, 50);
    assert_eq!(hit_test(&stage, a, HitTarget::Object(Some(b))), Value::Bool(true));
    stage.tree.nodes[b].matrix = shift(101, 50);
    assert_eq!(hit_test(&stage, a, HitTarget::Object(Some(b))), Value::Bool(false));
    assert_eq!(hit_test(&stage, a, HitTarget::Object(Some(a))), Value::Bool(true));
    assert_eq!(hit_test(&stage, a, HitTarget::Object(None)), Value::Bool(false));
    assert_eq!(hit_test(&stage, a, HitTarget::Object(Some(50))), Value::Bool(false));
    assert_eq!(hit_test(&stage, a, HitTarget::Nothing), Value::Bool(false));
}

#[test]
fn a_box_goes_from_one_space_to_another() {
    let (mut stage, root) = stage_with_root();
    let a = child(&mut stage, root, "a", 1);
    let b = child(&mut stage, a, "b", 1);
    stage.tree.nodes[a].matrix = shift(100, 0);
    stage.tree.nodes[b].matrix = Matrix { a: 2 * FIXED_ONE, b: 0, c: 0, d: 2 * FIXED_ONE, tx: 0, ty: 20 };
    let aabb = rect(0, 10, 0, 10);
    assert_eq!(transform_bounds(&stage, b, root, &aabb), rect(100, 120, 20, 40));
    assert_eq!(transform_bounds(&stage, b, a, &aabb), rect(0, 20, 20, 40));
    assert_eq!(transform_bounds(&stage, root, b, &aabb), rect(-50, -45, -10, -5));
    assert_eq!(transform_bounds(&stage, b, b, &aabb), aabb);
    assert_eq!(transform_bounds(&stage, b, root, &Rectangle::empty()), Rectangle::empty());
}

#[test]
fn calls_need_their_arguments() {
    assert!(has_required_arguments(Method::AttachMovie, 3));
    assert!(has_required_arguments(Method::AttachMovie, 4));
    assert!(!has_required_arguments(Method::AttachMovie, 2));
    assert!(has_required_arguments(Method::CreateEmptyMovieClip, 2));
    assert!(!has_required_arguments(Method::CreateEmptyMovieClip, 1));
    assert!(has_required_arguments(Method::DuplicateMovieClip, 2));
    assert!(!has_required_arguments(Method::DuplicateMovieClip, 0));
    assert!(has_required_arguments(Method::BeginGradientFill, 5));
    assert!(!has_required_arguments(Method::BeginGradientFill, 4));
    assert!(has_required_arguments(Method::CurveTo, 4));
    assert!(!has_required_arguments(Method::CurveTo, 3));
    assert!(!has_required_arguments(Method::MoveTo, 1));
    assert!(!has_required_arguments(Method::LineTo, 1));
    assert!(has_required_arguments(Method::Play, 0));
    assert!(has_required_arguments(Method::HitTest, 0));
}
