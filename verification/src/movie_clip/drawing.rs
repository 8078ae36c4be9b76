//! Drawing: line style, fill style and path commands of a clip.

use vstd::prelude::*;
use crate::geometry::Matrix;
use crate::movie_clip::changes::{drawing_becomes, drawing_of, lemma_local_change};
use crate::number::{Fraction, Number, Percent, Pixels};
use crate::stage::{Stage, Value};
use crate::style::{
    cap_style,
    chars_of,
    fill_view,
    gradient_records,
    interpolation,
    join_style,
    scale_mode,
    spec_cap_style,
    spec_color,
    spec_interpolation,
    spec_join_style,
    spec_records,
    spec_scale_mode,
    spec_spread,
    spread,
    Color,
    DrawCommand,
    FillStyle,
    FillView,
    Gradient,
    GradientView,
    LineStyle,
    PathState,
    PathView,
};
use crate::text::{is_word, names_word};
use crate::tree::NodeId;

verus! {

/// The opacity byte of an optional percentage: fully opaque where none is given.
pub open spec fn spec_alpha_or_opaque(alpha: Option<Percent>) -> u8 {
    match alpha {
        Some(a) => a.spec_alpha(),
        None => 255,
    }
}

/// The miter limit of an optional number.
pub open spec fn spec_limit(limit: Option<Fraction>) -> Option<i16> {
    match limit {
        Some(l) => Some(l.spec_miter_limit()),
        None => None,
    }
}

/// The line style that a script asks for. Without a width there is no line.
/// Without a colour the line is opaque black; without an opacity the colour
/// is opaque. Pixel hinting is off unless asked for.
pub open spec fn spec_line_style(
    width: Option<Pixels>,
    rgb: Option<u32>,
    alpha: Option<Percent>,
    pixel_hinting: Option<bool>,
    scale: Option<Seq<char>>,
    caps: Option<Seq<char>>,
    joints: Option<Seq<char>>,
    miter_limit: Option<Fraction>,
) -> Option<LineStyle> {
    match width {
        Some(w) => Some(
            LineStyle {
                width: w.spec_line_width() as i32,
                color: match rgb {
                    Some(c) => spec_color(c, spec_alpha_or_opaque(alpha)),
                    None => spec_color(0, 255),
                },
                start_cap: spec_cap_style(caps),
                end_cap: spec_cap_style(caps),
                join_style: spec_join_style(joints, spec_limit(miter_limit)),
                allow_scale_x: spec_scale_mode(scale).0,
                allow_scale_y: spec_scale_mode(scale).1,
                is_pixel_hinted: match pixel_hinting {
                    Some(h) => h,
                    None => false,
                },
                allow_close: false,
            },
        ),
        None => None,
    }
}

/// The arguments of a gradient fill.
#[derive(Debug)]
pub struct GradientArgs {
    pub fill_type: String,
    pub colors: Vec<u32>,
    pub alphas: Vec<Percent>,
    pub ratios: Vec<Number>,
    pub matrix: Matrix,
    pub spread: Option<String>,
    pub interpolation: Option<String>,
    pub focal_point: Option<Fraction>,
}

/// The gradient that the arguments describe, for lists of equal length.
pub open spec fn spec_gradient(args: &GradientArgs) -> GradientView {
    GradientView {
        matrix: args.matrix,
        spread: spec_spread(chars_of(args.spread)),
        interpolation: spec_interpolation(chars_of(args.interpolation)),
        records: spec_records(args.colors@, args.alphas@, args.ratios@),
    }
}

/// The fill style that a script asks for with a gradient. Lists of unequal
/// length and a fill type that is neither `linear` nor `radial` give no fill.
/// A radial gradient with a focal point is a focal gradient.
pub open spec fn spec_gradient_fill(args: &GradientArgs) -> Option<FillView> {
    if args.colors@.len() != args.alphas@.len() || args.colors@.len() != args.ratios@.len() {
        None
    } else if args.fill_type@ == "linear"@ {
        Some(FillView::LinearGradient(spec_gradient(args)))
    } else if args.fill_type@ == "radial"@ {
        match args.focal_point {
            Some(f) => Some(
                FillView::FocalGradient { gradient: spec_gradient(args), focal_point: f.fixed },
            ),
            None => Some(FillView::RadialGradient(spec_gradient(args))),
        }
    } else {
        None
    }
}

/// Tells whether a line with these joints has a miter limit: only a miter
/// join has one.
pub fn takes_miter_limit(joints: &Option<String>) -> (takes: bool)
    ensures
        takes == match *joints {
            Some(j) => j@ == "miter"@,
            None => false,
        },
{
    names_word(joints, "miter")
}

/// Tells whether a gradient of this fill type has a focal point: only a
/// radial gradient has one.
pub fn takes_focal_point(fill_type: &String) -> (takes: bool)
    ensures
        takes == (fill_type@ == "radial"@),
{
    is_word(fill_type, "radial")
}

/// Tells whether a fill type is known: `linear` and `radial` are.
pub fn is_fill_type(fill_type: &String) -> (known: bool)
    ensures
        known == (fill_type@ == "linear"@ || fill_type@ == "radial"@),
{
    is_word(fill_type, "linear") || is_word(fill_type, "radial")
}

/// Tells whether lists of these lengths make a gradient: they do if they
/// are equally long.
pub fn lists_agree(colors: usize, alphas: usize, ratios: usize) -> (agree: bool)
    ensures
        agree == (colors == alphas && colors == ratios),
{
    colors == alphas && colors == ratios
}

/// Lists of colours, opacities and ratios that differ in length give no
/// fill, whatever the other arguments are.
pub proof fn lemma_unequal_lists_give_no_fill(args: &GradientArgs)
    requires
        args.colors@.len() != args.alphas@.len() || args.colors@.len() != args.ratios@.len(),
    ensures
        spec_gradient_fill(args) is None,
        spec_gradient_fill_of(Some(*args)) is None,
{
}

/// Sets the line style of a clip.
fn set_line(stage: &mut Stage, clip: NodeId, line: Option<LineStyle>)
    requires
        old(stage).wf(),
        clip < old(stage).tree.nodes@.len(),
    ensures
        final(stage).wf(),
        drawing_becomes(
            old(stage),
            final(stage),
            clip,
            PathView { line, ..drawing_of(old(stage), clip) },
        ),
{
    stage.tree.nodes[clip].drawing.set_line_style(line);
    proof {
        lemma_local_change(old(stage), stage, clip);
    }
}

/// Sets the fill style of a clip.
fn set_fill(stage: &mut Stage, clip: NodeId, fill: Option<FillStyle>)
    requires
        old(stage).wf(),
        clip < old(stage).tree.nodes@.len(),
    ensures
        final(stage).wf(),
        drawing_becomes(
            old(stage),
            final(stage),
            clip,
            PathView { fill: fill_view(fill), ..drawing_of(old(stage), clip) },
        ),
{
    stage.tree.nodes[clip].drawing.set_fill_style(fill);
    proof {
        lemma_local_change(old(stage), stage, clip);
    }
}

/// Appends a path command to the drawing of a clip.
fn push_command(stage: &mut Stage, clip: NodeId, command: DrawCommand)
    requires
        old(stage).wf(),
        clip < old(stage).tree.nodes@.len(),
    ensures
        final(stage).wf(),
        drawing_becomes(
            old(stage),
            final(stage),
            clip,
            PathView {
                commands: drawing_of(old(stage), clip).commands.push(command),
                ..drawing_of(old(stage), clip)
            },
        ),
{
    stage.tree.nodes[clip].drawing.draw_command(command);
    proof {
        lemma_local_change(old(stage), stage, clip);
    }
}

/// Sets the line style of a clip from the arguments of the script, or clears
/// it where no width is given.
pub fn line_style(
    stage: &mut Stage,
    clip: NodeId,
    width: Option<Pixels>,
    rgb: Option<u32>,
    alpha: Option<Percent>,
    pixel_hinting: Option<bool>,
    scale: &Option<String>,
    caps: &Option<String>,
    joints: &Option<String>,
    miter_limit: Option<Fraction>,
) -> (result: Value)
    requires
        old(stage).wf(),
        old(stage).is_clip(clip),
    ensures
        final(stage).wf(),
        result is Undefined,
        drawing_becomes(
            old(stage),
            final(stage),
            clip,
            PathView {
                line: spec_line_style(
                    width,
                    rgb,
                    alpha,
                    pixel_hinting,
                    chars_of(*scale),
                    chars_of(*caps),
                    chars_of(*joints),
                    miter_limit,
                ),
                ..drawing_of(old(stage), clip)
            },
        ),
{
    let line = match width {
        Some(w) => {
            let twips = w.line_width();
            let color = match rgb {
                Some(c) => {
                    let a: u8 = match alpha {
                        Some(a) => a.alpha(),
                        None => 255,
                    };
                    Color::from_rgb(c, a)
                },
                None => Color::from_rgb(0, 255),
            };
            let is_pixel_hinted = match pixel_hinting {
                Some(h) => h,
                None => false,
            };
            let axes = scale_mode(scale);
            let cap = cap_style(caps);
            let limit: Option<i16> = match miter_limit {
                Some(l) => Some(l.miter_limit()),
                None => None,
            };
            let join = join_style(joints, limit);
            Some(
                LineStyle {
                    width: twips,
                    color,
                    start_cap: cap,
                    end_cap: cap,
                    join_style: join,
                    allow_scale_x: axes.0,
                    allow_scale_y: axes.1,
                    is_pixel_hinted,
                    allow_close: false,
                },
            )
        },
        None => None,
    };
    set_line(stage, clip, line);
    Value::Undefined
}

/// The fill style of a solid colour; none where no colour is given.
pub open spec fn spec_solid_fill(rgb: Option<u32>, alpha: Option<Percent>) -> Option<FillView> {
    match rgb {
        Some(c) => Some(FillView::Color(spec_color(c, spec_alpha_or_opaque(alpha)))),
        None => None,
    }
}

/// Starts filling with a solid colour, or clears the fill style where no
/// colour is given.
pub fn begin_fill(stage: &mut Stage, clip: NodeId, rgb: Option<u32>, alpha: Option<Percent>) -> (result:
    Value)
    requires
        old(stage).wf(),
        old(stage).is_clip(clip),
    ensures
        final(stage).wf(),
        result is Undefined,
        drawing_becomes(
            old(stage),
            final(stage),
            clip,
            PathView { fill: spec_solid_fill(rgb, alpha), ..drawing_of(old(stage), clip) },
        ),
{
    let fill = match rgb {
        Some(c) => {
            let a: u8 = match alpha {
                Some(a) => a.alpha(),
                None => 255,
            };
            Some(FillStyle::Color(Color::from_rgb(c, a)))
        },
        None => None,
    };
    set_fill(stage, clip, fill);
    Value::Undefined
}

/// The fill style after a gradient fill was asked for: that of the
/// arguments, and none where the script gave too few of them.
pub open spec fn spec_gradient_fill_of(args: Option<GradientArgs>) -> Option<FillView> {
    match args {
        Some(a) => spec_gradient_fill(&a),
        None => None,
    }
}

/// Starts filling with a gradient. Where the script gave too few arguments,
/// where the lists of colours, opacities and ratios differ in length, and
/// where the fill type is not known, the fill style is cleared and nothing
/// else changes.
pub fn begin_gradient_fill(stage: &mut Stage, clip: NodeId, args: Option<GradientArgs>) -> (result:
    Value)
    requires
        old(stage).wf(),
        old(stage).is_clip(clip),
    ensures
        final(stage).wf(),
        result is Undefined,
        drawing_becomes(
            old(stage),
            final(stage),
            clip,
            PathView { fill: spec_gradient_fill_of(args), ..drawing_of(old(stage), clip) },
        ),
{
    let fill = match args {
        Some(a) => {
            let ghost view = spec_gradient(&a);
            match gradient_records(&a.colors, &a.alphas, &a.ratios) {
                Some(records) => {
                    let linear = is_word(&a.fill_type, "linear");
                    let radial = is_word(&a.fill_type, "radial");
                    let gradient = Gradient {
                        matrix: a.matrix,
                        spread: spread(&a.spread),
                        interpolation: interpolation(&a.interpolation),
                        records,
                    };
                    assert(gradient@ == view);
                    if linear {
                        Some(FillStyle::LinearGradient(gradient))
                    } else if radial {
                        match a.focal_point {
                            Some(f) => Some(
                                FillStyle::FocalGradient { gradient, focal_point: f.fixed },
                            ),
                            None => Some(FillStyle::RadialGradient(gradient)),
                        }
                    } else {
                        None
                    }
                },
                None => None,
            }
        },
        None => None,
    };
    set_fill(stage, clip, fill);
    Value::Undefined
}

/// The commands of a drawing after a command with optional coordinates was
/// asked for: the command is appended where every coordinate is given.
pub open spec fn spec_appended(commands: Seq<DrawCommand>, command: Option<DrawCommand>) -> Seq<
    DrawCommand,
> {
    match command {
        Some(c) => commands.push(c),
        None => commands,
    }
}

/// The move command to a point, where both coordinates are given.
pub open spec fn spec_move(x: Option<Pixels>, y: Option<Pixels>) -> Option<DrawCommand> {
    match (x, y) {
        (Some(x), Some(y)) => Some(DrawCommand::MoveTo { x: x.twips, y: y.twips }),
        _ => None,
    }
}

/// The line command to a point, where both coordinates are given.
pub open spec fn spec_line(x: Option<Pixels>, y: Option<Pixels>) -> Option<DrawCommand> {
    match (x, y) {
        (Some(x), Some(y)) => Some(DrawCommand::LineTo { x: x.twips, y: y.twips }),
        _ => None,
    }
}

/// The curve command by a control point to an anchor point, where all four
/// coordinates are given.
pub open spec fn spec_curve(
    x1: Option<Pixels>,
    y1: Option<Pixels>,
    x2: Option<Pixels>,
    y2: Option<Pixels>,
) -> Option<DrawCommand> {
    match (x1, y1, x2, y2) {
        (Some(x1), Some(y1), Some(x2), Some(y2)) => Some(
            DrawCommand::CurveTo { x1: x1.twips, y1: y1.twips, x2: x2.twips, y2: y2.twips },
        ),
        _ => None,
    }
}

/// Appends an optional command to the drawing of a clip.
fn push_optional(stage: &mut Stage, clip: NodeId, command: Option<DrawCommand>)
    requires
        old(stage).wf(),
        clip < old(stage).tree.nodes@.len(),
    ensures
        final(stage).wf(),
        command is None ==> *final(stage) == *old(stage),
        command is Some ==> drawing_becomes(
            old(stage),
            final(stage),
            clip,
            PathView {
                commands: spec_appended(drawing_of(old(stage), clip).commands, command),
                ..drawing_of(old(stage), clip)
            },
        ),
{
    match command {
        Some(c) => {
            push_command(stage, clip, c);
        },
        None => {},
    }
}

/// Moves the pen to a point. With fewer than two coordinates nothing happens.
pub fn move_to(stage: &mut Stage, clip: NodeId, x: Option<Pixels>, y: Option<Pixels>) -> (result:
    Value)
    requires
        old(stage).wf(),
        old(stage).is_clip(clip),
    ensures
        final(stage).wf(),
        result is Undefined,
        spec_move(x, y) is None ==> *final(stage) == *old(stage),
        spec_move(x, y) is Some ==> drawing_becomes(
            old(stage),
            final(stage),
            clip,
            PathView {
                commands: spec_appended(drawing_of(old(stage), clip).commands, spec_move(x, y)),
                ..drawing_of(old(stage), clip)
            },
        ),
{
    let command = match (x, y) {
        (Some(x), Some(y)) => Some(DrawCommand::MoveTo { x: x.twips, y: y.twips }),
        _ => None,
    };
    push_optional(stage, clip, command);
    Value::Undefined
}

/// Draws a line to a point. With fewer than two coordinates nothing happens.
pub fn line_to(stage: &mut Stage, clip: NodeId, x: Option<Pixels>, y: Option<Pixels>) -> (result:
    Value)
    requires
        old(stage).wf(),
        old(stage).is_clip(clip),
    ensures
        final(stage).wf(),
        result is Undefined,
        spec_line(x, y) is None ==> *final(stage) == *old(stage),
        spec_line(x, y) is Some ==> drawing_becomes(
            old(stage),
            final(stage),
            clip,
            PathView {
                commands: spec_appended(drawing_of(old(stage), clip).commands, spec_line(x, y)),
                ..drawing_of(old(stage), clip)
            },
        ),
{
    let command = match (x, y) {
        (Some(x), Some(y)) => Some(DrawCommand::LineTo { x: x.twips, y: y.twips }),
        _ => None,
    };
    push_optional(stage, clip, command);
    Value::Undefined
}

/// Draws a curve by a control point to an anchor point. With fewer than four
/// coordinates nothing happens.
pub fn curve_to(
    stage: &mut Stage,
    clip: NodeId,
    x1: Option<Pixels>,
    y1: Option<Pixels>,
    x2: Option<Pixels>,
    y2: Option<Pixels>,
) -> (result: Value)
    requires
        old(stage).wf(),
        old(stage).is_clip(clip),
    ensures
        final(stage).wf(),
        result is Undefined,
        spec_curve(x1, y1, x2, y2) is None ==> *final(stage) == *old(stage),
        spec_curve(x1, y1, x2, y2) is Some ==> drawing_becomes(
            old(stage),
            final(stage),
            clip,
            PathView {
                commands: spec_appended(
                    drawing_of(old(stage), clip).commands,
                    spec_curve(x1, y1, x2, y2),
                ),
                ..drawing_of(old(stage), clip)
            },
        ),
{
    let command = match (x1, y1, x2, y2) {
        (Some(x1), Some(y1), Some(x2), Some(y2)) => Some(
            DrawCommand::CurveTo { x1: x1.twips, y1: y1.twips, x2: x2.twips, y2: y2.twips },
        ),
        _ => None,
    };
    push_optional(stage, clip, command);
    Value::Undefined
}

/// Ends the fill: the fill style is cleared, line style and commands stay.
pub fn end_fill(stage: &mut Stage, clip: NodeId) -> (result: Value)
    requires
        old(stage).wf(),
        old(stage).is_clip(clip),
    ensures
        final(stage).wf(),
        result is Undefined,
        drawing_becomes(
            old(stage),
            final(stage),
            clip,
            PathView { fill: None, ..drawing_of(old(stage), clip) },
        ),
{
    set_fill(stage, clip, None);
    Value::Undefined
}

/// Clears the drawing: fill style, line style and commands go together.
pub fn clear(stage: &mut Stage, clip: NodeId) -> (result: Value)
    requires
        old(stage).wf(),
        old(stage).is_clip(clip),
    ensures
        final(stage).wf(),
        result is Undefined,
        drawing_becomes(old(stage), final(stage), clip, PathState::spec_blank()),
{
    stage.tree.nodes[clip].drawing.clear();
    proof {
        lemma_local_change(old(stage), stage, clip);
    }
    Value::Undefined
}

} // verus!
