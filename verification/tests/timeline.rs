use movie_clip::geometry::Rectangle;
use movie_clip::movie_clip::{
    goto_and_play, goto_and_stop, goto_frame, next_frame, play, prev_frame, stop, FrameTarget,
};
use movie_clip::number::Number;
use movie_clip::stage::{Library, Stage, Value};
use movie_clip::timeline::{frame_of_number, FrameLabel, Timeline};
use movie_clip::tree::NodeKind;

fn num(x: f64) -> Number {
    Number::from_bits(x.to_bits())
}

fn labels() -> Vec<FrameLabel> {
    vec![
        FrameLabel { name: "intro".to_string(), frame: 2 },
        FrameLabel { name: "loop".to_string(), frame: 4 },
        FrameLabel { name: "intro".to_string(), frame: 9 },
        FrameLabel { name: "2.5".to_string(), frame: 7 },
    ]
}

fn stage_with_clip(total_frames: u16) -> (Stage, usize) {
    let mut stage = Stage::new(Library::new(), 8);
    let clip = stage.tree.add_node(
        NodeKind::Clip,
        "clip".to_string(),
        None,
        Rectangle::empty(),
        Timeline::new(total_frames, labels()),
    );
    (stage, clip)
}

fn cursor(stage: &Stage, clip: usize) -> (u16, bool) {
    let t = &stage.tree.nodes[clip].timeline;
    (t.current_frame, t.playing)
}

fn number(x: f64) -> FrameTarget {
    FrameTarget::Number(num(x))
}

fn label(s: &str) -> FrameTarget {
    FrameTarget::Label(s.to_string())
}

#[test]
fn play_and_stop_keep_the_cursor() {
    let (mut stage, clip) = stage_with_clip(10);
    goto_and_stop(&mut stage, clip, &number(3.0));
    assert_eq!(play(&mut stage, clip), Value::Undefined);
    assert_eq!(cursor(&stage, clip), (3, true));
    assert_eq!(stop(&mut stage, clip), Value::Undefined);
    assert_eq!(cursor(&stage, clip), (3, false));
}

#[test]
fn next_and_prev_move_by_one_and_stop() {
    let (mut stage, clip) = stage_with_clip(3);
    goto_and_play(&mut stage, clip, &number(1.0));
    assert_eq!(next_frame(&mut stage, clip), Value::Undefined);
    assert_eq!(cursor(&stage, clip), (2, false));
    play(&mut stage, clip);
    next_frame(&mut stage, clip);
    assert_eq!(cursor(&stage, clip), (3, false));
    play(&mut stage, clip);
    next_frame(&mut stage, clip);
    assert_eq!(cursor(&stage, clip), (3, false));
    assert_eq!(prev_frame(&mut stage, clip), Value::Undefined);
    assert_eq!(cursor(&stage, clip), (2, false));
    prev_frame(&mut stage, clip);
    play(&mut stage, clip);
    prev_frame(&mut stage, clip);
    assert_eq!(cursor(&stage, clip), (1, false));
}

#[test]
fn goto_a_frame_number() {
    let (mut stage, clip) = stage_with_clip(10);
    assert_eq!(goto_and_stop(&mut stage, clip, &number(5.0)), Value::Undefined);
    assert_eq!(cursor(&stage, clip), (5, false));
    goto_and_play(&mut stage, clip, &number(2.0));
    assert_eq!(cursor(&stage, clip), (2, true));
    goto_frame(&mut stage, clip, &number(1.0), true, 0);
    assert_eq!(cursor(&stage, clip), (1, false));
}

#[test]
fn goto_a_fractional_frame_is_a_no_op() {
    let (mut stage, clip) = stage_with_clip(10);
    goto_and_play(&mut stage, clip, &number(4.0));
    assert_eq!(goto_frame(&mut stage, clip, &number(2.5), true, 0), Value::Undefined);
    assert_eq!(cursor(&stage, clip), (4, true));
    goto_and_stop(&mut stage, clip, &number(f64::NAN));
    goto_and_stop(&mut stage, clip, &number(f64::INFINITY));
    goto_and_stop(&mut stage, clip, &number(3.0000001));
    assert_eq!(cursor(&stage, clip), (4, true));
}

#[test]
fn goto_frame_zero_or_less_is_a_no_op() {
    let (mut stage, clip) = stage_with_clip(10);
    goto_and_play(&mut stage, clip, &number(4.0));
    goto_and_stop(&mut stage, clip, &number(0.0));
    goto_and_stop(&mut stage, clip, &number(-1.0));
    goto_and_stop(&mut stage, clip, &number(-2147483647.0));
    assert_eq!(cursor(&stage, clip), (4, true));
    // one further down the number wraps round to the last frame
    goto_and_stop(&mut stage, clip, &number(-2147483648.0));
    assert_eq!(cursor(&stage, clip), (10, false));
}

#[test]
fn goto_beyond_the_last_frame_lands_on_the_last() {
    let (mut stage, clip) = stage_with_clip(10);
    goto_and_stop(&mut stage, clip, &number(11.0));
    assert_eq!(cursor(&stage, clip), (10, false));
    goto_and_stop(&mut stage, clip, &number(1.0));
    goto_and_stop(&mut stage, clip, &number(65535.0));
    assert_eq!(cursor(&stage, clip), (10, false));
}

#[test]
fn goto_an_undefined_label_is_a_no_op() {
    let (mut stage, clip) = stage_with_clip(10);
    goto_and_play(&mut stage, clip, &number(4.0));
    assert_eq!(goto_and_stop(&mut stage, clip, &label("nowhere")), Value::Undefined);
    goto_and_stop(&mut stage, clip, &label("Intro"));
    goto_and_stop(&mut stage, clip, &label(""));
    goto_and_stop(&mut stage, clip, &label("undefined"));
    assert_eq!(cursor(&stage, clip), (4, true));
}

#[test]
fn goto_a_label_takes_its_first_frame() {
    let (mut stage, clip) = stage_with_clip(10);
    goto_and_stop(&mut stage, clip, &label("loop"));
    assert_eq!(cursor(&stage, clip), (4, false));
    goto_and_play(&mut stage, clip, &label("intro"));
    assert_eq!(cursor(&stage, clip), (2, true));
    goto_and_stop(&mut stage, clip, &label("2.5"));
    assert_eq!(cursor(&stage, clip), (7, false));
}

#[test]
fn scene_offset_moves_numbers_and_labels() {
    let (mut stage, clip) = stage_with_clip(100);
    goto_frame(&mut stage, clip, &number(3.0), true, 10);
    assert_eq!(cursor(&stage, clip), (13, false));
    goto_frame(&mut stage, clip, &label("loop"), false, 10);
    assert_eq!(cursor(&stage, clip), (14, true));
    goto_frame(&mut stage, clip, &number(0.0), true, 10);
    assert_eq!(cursor(&stage, clip), (10, false));
    goto_frame(&mut stage, clip, &number(-20.0), true, 10);
    assert_eq!(cursor(&stage, clip), (10, false));
    goto_frame(&mut stage, clip, &label("loop"), true, 65535);
    assert_eq!(cursor(&stage, clip), (3, false));
}

#[test]
fn frame_numbers_wrap() {
    assert_eq!(frame_of_number(num(1.0), 0), Some(1));
    assert_eq!(frame_of_number(num(0.0), 0), None);
    assert_eq!(frame_of_number(num(0.0), 1), Some(1));
    assert_eq!(frame_of_number(num(65536.0), 0), Some(0));
    assert_eq!(frame_of_number(num(65537.0), 0), Some(1));
    assert_eq!(frame_of_number(num(4294967297.0), 0), Some(1));
    assert_eq!(frame_of_number(num(2147483647.0), 0), Some(65535));
    assert_eq!(frame_of_number(num(2147483647.0), 1), Some(65535));
    assert_eq!(frame_of_number(num(2147483647.0), 2), None);
    assert_eq!(frame_of_number(num(2147483648.0), 0), Some(65535));
    assert_eq!(frame_of_number(num(-2147483648.0), 0), Some(65535));
    assert_eq!(frame_of_number(num(-5.0), 0), None);
}

#[test]
fn timeline_ticks_while_it_plays() {
    let mut t = Timeline::new(3, vec![]);
    assert_eq!((t.current_frame, t.playing), (0, true));
    t.tick();
    assert_eq!(t.current_frame, 1);
    t.tick();
    t.tick();
    assert_eq!(t.current_frame, 3);
    t.tick();
    assert_eq!(t.current_frame, 1);
    t.stop();
    t.tick();
    assert_eq!(t.current_frame, 1);
    let mut single = Timeline::new(1, vec![]);
    single.tick();
    single.tick();
    assert_eq!(single.current_frame, 1);
    let mut none = Timeline::new(0, vec![]);
    none.tick();
    assert_eq!(none.current_frame, 0);
}

#[test]
fn labels_are_found_by_exact_name() {
    let t = Timeline::new(10, labels());
    assert_eq!(t.frame_label_to_number(&"intro".to_string()), Some(2));
    assert_eq!(t.frame_label_to_number(&"loop".to_string()), Some(4));
    assert_eq!(t.frame_label_to_number(&"loo".to_string()), None);
    assert_eq!(t.frame_label_to_number(&"loop ".to_string()), None);
    assert_eq!(Timeline::new(1, vec![]).frame_label_to_number(&"intro".to_string()), None);
}

#[test]
fn goto_on_one_clip_leaves_the_other_alone() {
    let (mut stage, clip) = stage_with_clip(10);
    let other = stage.tree.add_node(
        NodeKind::Clip,
        "other".to_string(),
        None,
        Rectangle::empty(),
        Timeline::new(10, labels()),
    );
    goto_and_stop(&mut stage, clip, &number(5.0));
    assert_eq!(cursor(&stage, other), (0, true));
}
