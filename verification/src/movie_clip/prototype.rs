//! The prototype of clips: its methods by name, and the clip a call is made on.

use vstd::prelude::*;
use crate::stage::{Stage, Value};
use crate::tree::NodeId;

verus! {

/// The constructor of clips: it does nothing, whatever it is called on.
pub fn constructor(stage: &Stage, this: Option<NodeId>) -> (result: Value)
    ensures
        result is Undefined,
{
    Value::Undefined
}

/// The path of a clip, as text.
pub fn to_string(stage: &Stage, clip: NodeId) -> (result: Value)
    requires
        stage.wf(),
        stage.is_clip(clip),
    ensures
        result matches Value::String(text) && text@ == stage.tree.spec_path(clip),
{
    Value::String(stage.tree.path(clip))
}

/// The clip that a method is called on, if it is called on one: a method
/// called on anything else does nothing and hands back `Undefined`.
pub fn receiver(stage: &Stage, this: Option<NodeId>) -> (clip: Option<NodeId>)
    ensures
        clip == match this {
            Some(id) => if stage.is_clip(id) {
                Some(id)
            } else {
                None
            },
            None => None,
        },
{
    match this {
        Some(id) => if stage.names_clip(id) {
            Some(id)
        } else {
            None
        },
        None => None,
    }
}

/// The methods of a clip.
#[derive(Clone, Copy, Debug, PartialEq, Eq)]
pub enum Method {
    AttachMovie,
    CreateEmptyMovieClip,
    CreateTextField,
    DuplicateMovieClip,
    GetBounds,
    GetBytesLoaded,
    GetBytesTotal,
    GetNextHighestDepth,
    GetRect,
    GlobalToLocal,
    GotoAndPlay,
    GotoAndStop,
    HitTest,
    LoadMovie,
    LoadVariables,
    LocalToGlobal,
    NextFrame,
    Play,
    PrevFrame,
    RemoveMovieClip,
    StartDrag,
    Stop,
    StopDrag,
    SwapDepths,
    ToString,
    UnloadMovie,
    BeginFill,
    BeginGradientFill,
    MoveTo,
    LineTo,
    CurveTo,
    EndFill,
    LineStyle,
    Clear,
}

/// One method of the prototype of clips: the name that scripts call it by,
/// and what may be done to the property that holds it.
#[derive(Debug, PartialEq, Eq)]
pub struct ProtoEntry {
    pub name: String,
    pub method: Method,
    pub dont_delete: bool,
    pub read_only: bool,
    pub dont_enum: bool,
}

/// The methods of the prototype of clips, in the order in which they are defined.
pub open spec fn spec_methods() -> Seq<Method> {
    seq![
        Method::AttachMovie,
        Method::CreateEmptyMovieClip,
        Method::CreateTextField,
        Method::DuplicateMovieClip,
        Method::GetBounds,
        Method::GetBytesLoaded,
        Method::GetBytesTotal,
        Method::GetNextHighestDepth,
        Method::GetRect,
        Method::GlobalToLocal,
        Method::GotoAndPlay,
        Method::GotoAndStop,
        Method::HitTest,
        Method::LoadMovie,
        Method::LoadVariables,
        Method::LocalToGlobal,
        Method::NextFrame,
        Method::Play,
        Method::PrevFrame,
        Method::RemoveMovieClip,
        Method::StartDrag,
        Method::Stop,
        Method::StopDrag,
        Method::SwapDepths,
        Method::ToString,
        Method::UnloadMovie,
        Method::BeginFill,
        Method::BeginGradientFill,
        Method::MoveTo,
        Method::LineTo,
        Method::CurveTo,
        Method::EndFill,
        Method::LineStyle,
        Method::Clear,
    ]
}

/// The name that scripts call a method by.
pub open spec fn spec_method_name(method: Method) -> Seq<char> {
    match method {
        Method::AttachMovie => "attachMovie"@,
        Method::CreateEmptyMovieClip => "createEmptyMovieClip"@,
        Method::CreateTextField => "createTextField"@,
        Method::DuplicateMovieClip => "duplicateMovieClip"@,
        Method::GetBounds => "getBounds"@,
        Method::GetBytesLoaded => "getBytesLoaded"@,
        Method::GetBytesTotal => "getBytesTotal"@,
        Method::GetNextHighestDepth => "getNextHighestDepth"@,
        Method::GetRect => "getRect"@,
        Method::GlobalToLocal => "globalToLocal"@,
        Method::GotoAndPlay => "gotoAndPlay"@,
        Method::GotoAndStop => "gotoAndStop"@,
        Method::HitTest => "hitTest"@,
        Method::LoadMovie => "loadMovie"@,
        Method::LoadVariables => "loadVariables"@,
        Method::LocalToGlobal => "localToGlobal"@,
        Method::NextFrame => "nextFrame"@,
        Method::Play => "play"@,
        Method::PrevFrame => "prevFrame"@,
        Method::RemoveMovieClip => "removeMovieClip"@,
        Method::StartDrag => "startDrag"@,
        Method::Stop => "stop"@,
        Method::StopDrag => "stopDrag"@,
        Method::SwapDepths => "swapDepths"@,
        Method::ToString => "toString"@,
        Method::UnloadMovie => "unloadMovie"@,
        Method::BeginFill => "beginFill"@,
        Method::BeginGradientFill => "beginGradientFill"@,
        Method::MoveTo => "moveTo"@,
        Method::LineTo => "lineTo"@,
        Method::CurveTo => "curveTo"@,
        Method::EndFill => "endFill"@,
        Method::LineStyle => "lineStyle"@,
        Method::Clear => "clear"@,
    }
}

impl Method {
    /// The name that scripts call the method by.
    pub fn name(self) -> (name: &'static str)
        ensures
            name@ == spec_method_name(self),
    {
        match self {
            Method::AttachMovie => "attachMovie",
            Method::CreateEmptyMovieClip => "createEmptyMovieClip",
            Method::CreateTextField => "createTextField",
            Method::DuplicateMovieClip => "duplicateMovieClip",
            Method::GetBounds => "getBounds",
            Method::GetBytesLoaded => "getBytesLoaded",
            Method::GetBytesTotal => "getBytesTotal",
            Method::GetNextHighestDepth => "getNextHighestDepth",
            Method::GetRect => "getRect",
            Method::GlobalToLocal => "globalToLocal",
            Method::GotoAndPlay => "gotoAndPlay",
            Method::GotoAndStop => "gotoAndStop",
            Method::HitTest => "hitTest",
            Method::LoadMovie => "loadMovie",
            Method::LoadVariables => "loadVariables",
            Method::LocalToGlobal => "localToGlobal",
            Method::NextFrame => "nextFrame",
            Method::Play => "play",
            Method::PrevFrame => "prevFrame",
            Method::RemoveMovieClip => "removeMovieClip",
            Method::StartDrag => "startDrag",
            Method::Stop => "stop",
            Method::StopDrag => "stopDrag",
            Method::SwapDepths => "swapDepths",
            Method::ToString => "toString",
            Method::UnloadMovie => "unloadMovie",
            Method::BeginFill => "beginFill",
            Method::BeginGradientFill => "beginGradientFill",
            Method::MoveTo => "moveTo",
            Method::LineTo => "lineTo",
            Method::CurveTo => "curveTo",
            Method::EndFill => "endFill",
            Method::LineStyle => "lineStyle",
            Method::Clear => "clear",
        }
    }
}

/// How many arguments a call of a method needs to do anything: a call with
/// fewer changes nothing, or clears what the call was to set.
pub open spec fn spec_required_arguments(method: Method) -> nat {
    match method {
        Method::AttachMovie => 3,
        Method::CreateEmptyMovieClip => 2,
        Method::DuplicateMovieClip => 2,
        Method::BeginGradientFill => 5,
        Method::MoveTo => 2,
        Method::LineTo => 2,
        Method::CurveTo => 4,
        _ => 0,
    }
}

/// Tells whether a call of a method with `given` arguments has the
/// arguments it needs.
pub fn has_required_arguments(method: Method, given: usize) -> (enough: bool)
    ensures
        enough == (given >= spec_required_arguments(method)),
{
    let needed: usize = match method {
        Method::AttachMovie => 3,
        Method::CreateEmptyMovieClip => 2,
        Method::DuplicateMovieClip => 2,
        Method::BeginGradientFill => 5,
        Method::MoveTo => 2,
        Method::LineTo => 2,
        Method::CurveTo => 4,
        _ => 0,
    };
    given >= needed
}

/// Whether `entry` defines `method` under its name as a property that
/// cannot be deleted, written or enumerated.
pub open spec fn defines(entry: ProtoEntry, method: Method) -> bool {
    &&& entry.method == method
    &&& entry.name@ == spec_method_name(method)
    &&& entry.dont_delete
    &&& entry.read_only
    &&& entry.dont_enum
}

/// Appends the definition of one method to a table.
fn define(table: &mut Vec<ProtoEntry>, method: Method)
    ensures
        final(table)@.len() == old(table)@.len() + 1,
        forall|i: int| 0 <= i < old(table)@.len() ==> final(table)@[i] == old(table)@[i],
        defines(final(table)@[old(table)@.len() as int], method),
{
    let name = String::from_str(method.name());
    table.push(ProtoEntry { name, method, dont_delete: true, read_only: true, dont_enum: true });
}

/// The prototype of clips: every method, in the order of definition, each
/// under its name, as a property that cannot be deleted, written or
/// enumerated.
pub fn create_proto() -> (table: Vec<ProtoEntry>)
    ensures
        table@.len() == spec_methods().len(),
        forall|i: int| 0 <= i < table@.len() ==> defines(#[trigger] table@[i], spec_methods()[i]),
{
    let mut table: Vec<ProtoEntry> = Vec::new();
    define(&mut table, Method::AttachMovie);
    define(&mut table, Method::CreateEmptyMovieClip);
    define(&mut table, Method::CreateTextField);
    define(&mut table, Method::DuplicateMovieClip);
    define(&mut table, Method::GetBounds);
    define(&mut table, Method::GetBytesLoaded);
    define(&mut table, Method::GetBytesTotal);
    define(&mut table, Method::GetNextHighestDepth);
    define(&mut table, Method::GetRect);
    define(&mut table, Method::GlobalToLocal);
    define(&mut table, Method::GotoAndPlay);
    define(&mut table, Method::GotoAndStop);
    define(&mut table, Method::HitTest);
    define(&mut table, Method::LoadMovie);
    define(&mut table, Method::LoadVariables);
    define(&mut table, Method::LocalToGlobal);
    define(&mut table, Method::NextFrame);
    define(&mut table, Method::Play);
    define(&mut table, Method::PrevFrame);
    define(&mut table, Method::RemoveMovieClip);
    define(&mut table, Method::StartDrag);
    define(&mut table, Method::Stop);
    define(&mut table, Method::StopDrag);
    define(&mut table, Method::SwapDepths);
    define(&mut table, Method::ToString);
    define(&mut table, Method::UnloadMovie);
    define(&mut table, Method::BeginFill);
    define(&mut table, Method::BeginGradientFill);
    define(&mut table, Method::MoveTo);
    define(&mut table, Method::LineTo);
    define(&mut table, Method::CurveTo);
    define(&mut table, Method::EndFill);
    define(&mut table, Method::LineStyle);
    define(&mut table, Method::Clear);
    table
}

/// Finds the method that scripts call by `name`.
pub fn method_by_name(name: &String) -> (method: Option<Method>)
    ensures
        method matches Some(m) ==> spec_method_name(m) == name@,
        method is None ==> forall|i: int|
            0 <= i < spec_methods().len() ==> spec_method_name(#[trigger] spec_methods()[i])
                != name@,
{
    let table = create_proto();
    let mut i: usize = 0;
    while i < table.len()
        invariant
            i <= table@.len(),
            table@.len() == spec_methods().len(),
            forall|j: int|
                0 <= j < table@.len() ==> defines(#[trigger] table@[j], spec_methods()[j]),
            forall|j: int| 0 <= j < i ==> spec_method_name(#[trigger] spec_methods()[j]) != name@,
        decreases table@.len() - i,
    {
        if table[i].name == *name {
            return Some(table[i].method);
        }
        i = i + 1;
    }
    None
}

} // verus!
