//! Drawing state of a clip: line style, fill style and path commands.
//!
//! The style names that scripts pass are matched exactly; a name that is not
//! known, or not given, selects the default of its kind.

use vstd::prelude::*;
use crate::geometry::Matrix;
use crate::number::{Number, Percent};
use crate::text::names_word;

verus! {

/// Miter limit used where a miter join is asked for without a limit: three,
/// in 8.8 fixed point.
pub const DEFAULT_MITER_LIMIT: i16 = 0x300;

/// A colour with opacity, one byte per channel.
#[derive(Clone, Copy, Debug, PartialEq, Eq)]
pub struct Color {
    pub r: u8,
    pub g: u8,
    pub b: u8,
    pub a: u8,
}

/// How the ends of a line are drawn.
#[derive(Clone, Copy, Debug, PartialEq, Eq)]
pub enum LineCapStyle {
    Round,
    Square,
    NoCap,
}

/// How two segments of a line are joined; a miter join carries its limit in
/// 8.8 fixed point.
#[derive(Clone, Copy, Debug, PartialEq, Eq)]
pub enum LineJoinStyle {
    Round,
    Bevel,
    Miter(i16),
}

/// The style of the lines that following path commands draw.
#[derive(Clone, Copy, Debug, PartialEq, Eq)]
pub struct LineStyle {
    pub width: i32,
    pub color: Color,
    pub start_cap: LineCapStyle,
    pub end_cap: LineCapStyle,
    pub join_style: LineJoinStyle,
    pub allow_scale_x: bool,
    pub allow_scale_y: bool,
    pub is_pixel_hinted: bool,
    pub allow_close: bool,
}

/// How a gradient continues outside its range.
#[derive(Clone, Copy, Debug, PartialEq, Eq)]
pub enum GradientSpread {
    Pad,
    Reflect,
    Repeat,
}

/// The colour space in which a gradient is interpolated.
#[derive(Clone, Copy, Debug, PartialEq, Eq)]
pub enum GradientInterpolation {
    Rgb,
    LinearRgb,
}

/// One stop of a gradient.
#[derive(Clone, Copy, Debug, PartialEq, Eq)]
pub struct GradientRecord {
    pub ratio: u8,
    pub color: Color,
}

/// A gradient: its stops, in the order given, and how they are laid out.
#[derive(Clone, Debug, PartialEq, Eq)]
pub struct Gradient {
    pub matrix: Matrix,
    pub spread: GradientSpread,
    pub interpolation: GradientInterpolation,
    pub records: Vec<GradientRecord>,
}

/// What a [`Gradient`] holds.
pub struct GradientView {
    pub matrix: Matrix,
    pub spread: GradientSpread,
    pub interpolation: GradientInterpolation,
    pub records: Seq<GradientRecord>,
}

impl View for Gradient {
    type V = GradientView;

    open spec fn view(&self) -> GradientView {
        GradientView {
            matrix: self.matrix,
            spread: self.spread,
            interpolation: self.interpolation,
            records: self.records@,
        }
    }
}

/// The style with which following closed paths are filled.
#[derive(Clone, Debug, PartialEq, Eq)]
pub enum FillStyle {
    Color(Color),
    LinearGradient(Gradient),
    RadialGradient(Gradient),
    FocalGradient { gradient: Gradient, focal_point: i16 },
}

/// What a [`FillStyle`] holds.
pub enum FillView {
    Color(Color),
    LinearGradient(GradientView),
    RadialGradient(GradientView),
    FocalGradient { gradient: GradientView, focal_point: i16 },
}

impl View for FillStyle {
    type V = FillView;

    open spec fn view(&self) -> FillView {
        match *self {
            FillStyle::Color(c) => FillView::Color(c),
            FillStyle::LinearGradient(g) => FillView::LinearGradient(g@),
            FillStyle::RadialGradient(g) => FillView::RadialGradient(g@),
            FillStyle::FocalGradient { gradient, focal_point } => FillView::FocalGradient {
                gradient: gradient@,
                focal_point,
            },
        }
    }
}

/// The view of an optional fill style.
pub open spec fn fill_view(fill: Option<FillStyle>) -> Option<FillView> {
    match fill {
        Some(f) => Some(f@),
        None => None,
    }
}

/// One step of a path, with its coordinates in twips.
#[derive(Clone, Copy, Debug, PartialEq, Eq)]
pub enum DrawCommand {
    MoveTo { x: i32, y: i32 },
    LineTo { x: i32, y: i32 },
    CurveTo { x1: i32, y1: i32, x2: i32, y2: i32 },
}

/// The drawing state of a clip: the current styles and every path command
/// since the drawing was last cleared, oldest first.
#[derive(Debug)]
pub struct PathState {
    pub fill: Option<FillStyle>,
    pub line: Option<LineStyle>,
    pub commands: Vec<DrawCommand>,
}

/// What a [`PathState`] holds.
pub struct PathView {
    pub fill: Option<FillView>,
    pub line: Option<LineStyle>,
    pub commands: Seq<DrawCommand>,
}

impl View for PathState {
    type V = PathView;

    open spec fn view(&self) -> PathView {
        PathView { fill: fill_view(self.fill), line: self.line, commands: self.commands@ }
    }
}

/// The colour whose channels are the three low bytes of `rgb`, red highest,
/// with opacity `alpha`.
pub open spec fn spec_color(rgb: u32, alpha: u8) -> Color {
    Color {
        r: ((rgb as int / 0x1_0000) % 0x100) as u8,
        g: ((rgb as int / 0x100) % 0x100) as u8,
        b: (rgb as int % 0x100) as u8,
        a: alpha,
    }
}

/// Calls `swf::Color::from_rgb` and copies the four channels of its result.
/// Trusted: the red, green and blue channels are the third, second and
/// lowest byte of `rgb`, its highest byte is ignored, and the opacity is
/// `alpha`.
#[verifier::external_body]
fn color_from_rgb(rgb: u32, alpha: u8) -> (c: Color)
    ensures
        c == spec_color(rgb, alpha),
{
    let c = swf::Color::from_rgb(rgb, alpha);
    Color { r: c.r, g: c.g, b: c.b, a: c.a }
}

impl Color {
    /// Makes a colour from a packed red-green-blue value and an opacity.
    pub fn from_rgb(rgb: u32, alpha: u8) -> (c: Color)
        ensures
            c == spec_color(rgb, alpha),
    {
        color_from_rgb(rgb, alpha)
    }
}

/// Along which axes a line keeps its width in proportion when the clip is
/// scaled, by the name of the scale mode: `(x, y)`.
pub open spec fn spec_scale_mode(name: Option<Seq<char>>) -> (bool, bool) {
    match name {
        Some(s) => if s == "normal"@ {
            (true, true)
        } else if s == "vertical"@ {
            (true, false)
        } else if s == "horizontal"@ {
            (false, true)
        } else {
            (false, false)
        },
        None => (false, false),
    }
}

/// The cap style of a name.
pub open spec fn spec_cap_style(name: Option<Seq<char>>) -> LineCapStyle {
    match name {
        Some(s) => if s == "square"@ {
            LineCapStyle::Square
        } else if s == "none"@ {
            LineCapStyle::NoCap
        } else {
            LineCapStyle::Round
        },
        None => LineCapStyle::Round,
    }
}

/// The join style of a name; `limit` is the miter limit that was given with it.
pub open spec fn spec_join_style(name: Option<Seq<char>>, limit: Option<i16>) -> LineJoinStyle {
    match name {
        Some(s) => if s == "miter"@ {
            match limit {
                Some(l) => LineJoinStyle::Miter(l),
                None => LineJoinStyle::Miter(DEFAULT_MITER_LIMIT),
            }
        } else if s == "bevel"@ {
            LineJoinStyle::Bevel
        } else {
            LineJoinStyle::Round
        },
        None => LineJoinStyle::Round,
    }
}

/// The spread mode of a name.
pub open spec fn spec_spread(name: Option<Seq<char>>) -> GradientSpread {
    match name {
        Some(s) => if s == "reflect"@ {
            GradientSpread::Reflect
        } else if s == "repeat"@ {
            GradientSpread::Repeat
        } else {
            GradientSpread::Pad
        },
        None => GradientSpread::Pad,
    }
}

/// The interpolation mode of a name.
pub open spec fn spec_interpolation(name: Option<Seq<char>>) -> GradientInterpolation {
    match name {
        Some(s) => if s == "linearRGB"@ {
            GradientInterpolation::LinearRgb
        } else {
            GradientInterpolation::Rgb
        },
        None => GradientInterpolation::Rgb,
    }
}

/// The characters of an optional string.
pub open spec fn chars_of(text: Option<String>) -> Option<Seq<char>> {
    match text {
        Some(s) => Some(s@),
        None => None,
    }
}

/// Reads a scale mode.
pub fn scale_mode(name: &Option<String>) -> (axes: (bool, bool))
    ensures
        axes == spec_scale_mode(chars_of(*name)),
{
    if names_word(name, "normal") {
        (true, true)
    } else if names_word(name, "vertical") {
        (true, false)
    } else if names_word(name, "horizontal") {
        (false, true)
    } else {
        (false, false)
    }
}

/// Reads a cap style.
pub fn cap_style(name: &Option<String>) -> (cap: LineCapStyle)
    ensures
        cap == spec_cap_style(chars_of(*name)),
{
    if names_word(name, "square") {
        LineCapStyle::Square
    } else if names_word(name, "none") {
        LineCapStyle::NoCap
    } else {
        LineCapStyle::Round
    }
}

/// Reads a join style.
pub fn join_style(name: &Option<String>, limit: Option<i16>) -> (join: LineJoinStyle)
    ensures
        join == spec_join_style(chars_of(*name), limit),
{
    if names_word(name, "miter") {
        match limit {
            Some(l) => LineJoinStyle::Miter(l),
            None => LineJoinStyle::Miter(DEFAULT_MITER_LIMIT),
        }
    } else if names_word(name, "bevel") {
        LineJoinStyle::Bevel
    } else {
        LineJoinStyle::Round
    }
}

/// Reads a spread mode.
pub fn spread(name: &Option<String>) -> (mode: GradientSpread)
    ensures
        mode == spec_spread(chars_of(*name)),
{
    if names_word(name, "reflect") {
        GradientSpread::Reflect
    } else if names_word(name, "repeat") {
        GradientSpread::Repeat
    } else {
        GradientSpread::Pad
    }
}

/// Reads an interpolation mode.
pub fn interpolation(name: &Option<String>) -> (mode: GradientInterpolation)
    ensures
        mode == spec_interpolation(chars_of(*name)),
{
    if names_word(name, "linearRGB") {
        GradientInterpolation::LinearRgb
    } else {
        GradientInterpolation::Rgb
    }
}

/// The gradient stop made of the `i`-th colour, opacity and ratio.
pub open spec fn spec_record(colors: Seq<u32>, alphas: Seq<Percent>, ratios: Seq<Number>, i: int)
    -> GradientRecord {
    GradientRecord {
        ratio: ratios[i].spec_clamped_byte() as u8,
        color: spec_color(colors[i], alphas[i].spec_alpha()),
    }
}

/// The gradient stops made of three lists of equal length, taken pointwise.
pub open spec fn spec_records(colors: Seq<u32>, alphas: Seq<Percent>, ratios: Seq<Number>) -> Seq<
    GradientRecord,
> {
    Seq::new(colors.len(), |i: int| spec_record(colors, alphas, ratios, i))
}

/// Builds the stops of a gradient from its colours, opacities and ratios.
/// Lists of unequal length make no gradient.
pub fn gradient_records(colors: &Vec<u32>, alphas: &Vec<Percent>, ratios: &Vec<Number>) -> (records:
    Option<Vec<GradientRecord>>)
    ensures
        records is Some <==> colors@.len() == alphas@.len() && colors@.len() == ratios@.len(),
        records matches Some(r) ==> r@ == spec_records(colors@, alphas@, ratios@),
{
    if colors.len() != alphas.len() || colors.len() != ratios.len() {
        return None;
    }
    let mut records: Vec<GradientRecord> = Vec::new();
    let mut i: usize = 0;
    while i < colors.len()
        invariant
            i <= colors@.len(),
            colors@.len() == alphas@.len(),
            colors@.len() == ratios@.len(),
            records@.len() == i,
            forall|j: int| 0 <= j < i ==> records@[j] == spec_record(colors@, alphas@, ratios@, j),
        decreases colors@.len() - i,
    {
        let ratio = ratios[i].clamped_byte();
        let alpha = alphas[i].alpha();
        records.push(GradientRecord { ratio, color: Color::from_rgb(colors[i], alpha) });
        i = i + 1;
    }
    assert(records@ =~= spec_records(colors@, alphas@, ratios@));
    Some(records)
}

impl PathState {
    /// The state of a clip on which nothing was drawn.
    pub open spec fn spec_blank() -> PathView {
        PathView { fill: None, line: None, commands: Seq::empty() }
    }

    /// Whether every line and curve of a path follows a move: a path is
    /// anchored if it is empty or starts with a move.
    pub open spec fn spec_anchored(commands: Seq<DrawCommand>) -> bool {
        commands.len() == 0 || commands[0] is MoveTo
    }

    /// Tells whether every line and curve of the path follows a move. A line
    /// or curve that follows none starts at the origin.
    pub fn is_anchored(&self) -> (anchored: bool)
        ensures
            anchored == PathState::spec_anchored(self.commands@),
    {
        if self.commands.len() == 0 {
            true
        } else {
            match self.commands[0] {
                DrawCommand::MoveTo { .. } => true,
                _ => false,
            }
        }
    }

    /// A drawing state without styles and without commands.
    pub fn new() -> (state: PathState)
        ensures
            state@ == PathState::spec_blank(),
    {
        PathState { fill: None, line: None, commands: Vec::new() }
    }

    /// Sets or clears the line style; fill and commands stay.
    pub fn set_line_style(&mut self, line: Option<LineStyle>)
        ensures
            final(self)@ == (PathView { line, ..old(self)@ }),
    {
        self.line = line;
    }

    /// Sets or clears the fill style; line and commands stay.
    pub fn set_fill_style(&mut self, fill: Option<FillStyle>)
        ensures
            final(self)@ == (PathView { fill: fill_view(fill), ..old(self)@ }),
    {
        self.fill = fill;
    }

    /// Appends a path command; the styles stay.
    pub fn draw_command(&mut self, command: DrawCommand)
        ensures
            final(self)@ == (PathView {
                commands: old(self)@.commands.push(command),
                ..old(self)@
            }),
    {
        self.commands.push(command);
    }

    /// Drops fill, line and every command together.
    pub fn clear(&mut self)
        ensures
            final(self)@ == PathState::spec_blank(),
    {
        self.fill = None;
        self.line = None;
        self.commands.clear();
    }
}

} // verus!
