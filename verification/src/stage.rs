//! The state that the operations on clips work on: the display tree, the
//! library of content, the drag session, and the work that is handed out.
//!
//! Loading and the hooks that run when a node has been created are done
//! outside. An operation that asks for one appends an [`Action`]; whoever owns
//! the stage takes the actions and performs them.

use vstd::prelude::*;
use crate::geometry::Rectangle;
use crate::number::Number;
use crate::text::is_word;
use crate::timeline::FrameLabel;
use crate::tree::{DisplayTree, NodeId, NodeKind};

verus! {

/// The name of a script object that is not a node of the display tree.
pub type ObjectId = u64;

/// What an operation hands back to the script.
#[derive(Debug, PartialEq, Eq)]
pub enum Value {
    Undefined,
    Bool(bool),
    Number(Number),
    String(String),
    Object(NodeId),
    Bounds(Rectangle),
}

/// The record of the node that follows the pointer.
#[derive(Clone, Copy, Debug, PartialEq, Eq)]
pub struct DragSession {
    pub node: NodeId,
    pub lock_center: bool,
    pub constraint: Option<Rectangle>,
}

/// How a request is sent.
#[derive(Clone, Copy, Debug, PartialEq, Eq)]
pub enum NavigationMethod {
    Get,
    Post,
}

/// Work that an operation hands out.
#[derive(Debug, PartialEq, Eq)]
pub enum Action {
    /// A node was created and stands before its first frame: run its
    /// start-up hook with the properties given and then, if `run_frame` says
    /// so, let the node run one frame.
    Instantiated { node: NodeId, init_object: Option<ObjectId>, run_frame: bool },
    /// Fetch `url` and put what comes into the node `target`.
    LoadMovie { target: NodeId, url: String, method: Option<NavigationMethod> },
    /// Fetch `url` and put the variables that come onto the object of `target`.
    LoadVariables { target: NodeId, url: String, method: Option<NavigationMethod> },
    /// The content of `node` was dropped.
    Unloaded { node: NodeId },
}

/// A definition from which nodes are made.
#[derive(Debug)]
pub struct Character {
    pub id: u16,
    pub export_name: Option<String>,
    pub kind: NodeKind,
    pub total_frames: u16,
    pub labels: Vec<FrameLabel>,
    pub bounds: Rectangle,
}

/// The definitions that nodes can be made from.
#[derive(Debug)]
pub struct Library {
    pub characters: Vec<Character>,
}

/// Everything the operations on clips work on.
#[derive(Debug)]
pub struct Stage {
    pub tree: DisplayTree,
    pub library: Library,
    pub drag: Option<DragSession>,
    pub actions: Vec<Action>,
    pub version: u8,
}

/// Whether the `i`-th definition is exported under `name`.
pub open spec fn exported_as(characters: Seq<Character>, name: Seq<char>, i: int) -> bool {
    &&& 0 <= i < characters.len()
    &&& characters[i].export_name matches Some(n)
    &&& n@ == name
}

/// Whether the `i`-th definition is the first that is exported under `name`.
pub open spec fn first_exported_as(characters: Seq<Character>, name: Seq<char>, i: int) -> bool {
    exported_as(characters, name, i) && forall|j: int|
        0 <= j < i ==> !exported_as(characters, name, j)
}

/// Whether the `i`-th definition is the first with the id `id`.
pub open spec fn first_with_id(characters: Seq<Character>, id: u16, i: int) -> bool {
    &&& 0 <= i < characters.len()
    &&& characters[i].id == id
    &&& forall|j: int| 0 <= j < i ==> characters[j].id != id
}

/// The first definition exported under `name`, if there is one.
pub open spec fn spec_by_export_name(characters: Seq<Character>, name: Seq<char>) -> Option<
    usize,
> {
    if exists|i: int| first_exported_as(characters, name, i) {
        Some((choose|i: int| first_exported_as(characters, name, i)) as usize)
    } else {
        None
    }
}

/// The first definition with the id `id`, if there is one.
pub open spec fn spec_by_id(characters: Seq<Character>, id: Option<u16>) -> Option<usize> {
    match id {
        Some(id) => if exists|i: int| first_with_id(characters, id, i) {
            Some((choose|i: int| first_with_id(characters, id, i)) as usize)
        } else {
            None
        },
        None => None,
    }
}

/// The method that a word names: `GET` or `POST`, and nothing else.
pub open spec fn spec_method(word: Seq<char>) -> Option<NavigationMethod> {
    if word == "GET"@ {
        Some(NavigationMethod::Get)
    } else if word == "POST"@ {
        Some(NavigationMethod::Post)
    } else {
        None
    }
}

impl NavigationMethod {
    /// Reads the method that a word names.
    pub fn from_method_str(word: &String) -> (method: Option<NavigationMethod>)
        ensures
            method == spec_method(word@),
    {
        if is_word(word, "GET") {
            Some(NavigationMethod::Get)
        } else if is_word(word, "POST") {
            Some(NavigationMethod::Post)
        } else {
            None
        }
    }
}

impl Library {
    /// A library without definitions.
    pub fn new() -> (library: Library)
        ensures
            library.characters@.len() == 0,
    {
        Library { characters: Vec::new() }
    }

    /// Adds a definition behind those that are there.
    pub fn register(&mut self, character: Character)
        ensures
            final(self).characters@ == old(self).characters@.push(character),
    {
        self.characters.push(character);
    }

    /// Finds the first definition that is exported under `name`.
    pub fn find_by_export_name(&self, name: &String) -> (found: Option<usize>)
        ensures
            found == spec_by_export_name(self.characters@, name@),
            found matches Some(i) ==> first_exported_as(self.characters@, name@, i as int),
    {
        let mut i: usize = 0;
        while i < self.characters.len()
            invariant
                i <= self.characters@.len(),
                forall|j: int| 0 <= j < i ==> !exported_as(self.characters@, name@, j),
            decreases self.characters@.len() - i,
        {
            let hit = match &self.characters[i].export_name {
                Some(n) => *n == *name,
                None => false,
            };
            if hit {
                proof {
                    let cs = self.characters@;
                    assert(first_exported_as(cs, name@, i as int));
                    let k = choose|k: int| first_exported_as(cs, name@, k);
                    if k < i {
                        assert(!exported_as(cs, name@, k));
                    }
                    if k > i {
                        assert(!exported_as(cs, name@, i as int));
                    }
                }
                return Some(i);
            }
            i = i + 1;
        }
        proof {
            let cs = self.characters@;
            assert forall|k: int| !first_exported_as(cs, name@, k) by {
                if 0 <= k < cs.len() {
                    assert(!exported_as(cs, name@, k));
                }
            }
        }
        None
    }

    /// Finds the first definition with the id `id`.
    pub fn find_by_id(&self, id: Option<u16>) -> (found: Option<usize>)
        ensures
            found == spec_by_id(self.characters@, id),
            found matches Some(i) ==> id is Some && first_with_id(
                self.characters@,
                id->0,
                i as int,
            ),
    {
        let wanted = match id {
            Some(wanted) => wanted,
            None => {
                return None;
            },
        };
        let mut i: usize = 0;
        while i < self.characters.len()
            invariant
                i <= self.characters@.len(),
                id == Some(wanted),
                forall|j: int| 0 <= j < i ==> self.characters@[j].id != wanted,
            decreases self.characters@.len() - i,
        {
            if self.characters[i].id == wanted {
                proof {
                    let cs = self.characters@;
                    assert(first_with_id(cs, wanted, i as int));
                    let k = choose|k: int| first_with_id(cs, wanted, k);
                    assert(first_with_id(cs, wanted, k));
                    assert(k == i);
                }
                return Some(i);
            }
            i = i + 1;
        }
        proof {
            let cs = self.characters@;
            assert forall|k: int| !first_with_id(cs, wanted, k) by {}
        }
        None
    }
}

/// Copies a list of frame labels.
pub fn copy_labels(labels: &Vec<FrameLabel>) -> (copy: Vec<FrameLabel>)
    ensures
        copy@ == labels@,
{
    let mut copy: Vec<FrameLabel> = Vec::new();
    let mut i: usize = 0;
    while i < labels.len()
        invariant
            i <= labels@.len(),
            copy@.len() == i,
            forall|j: int| 0 <= j < i ==> copy@[j] == labels@[j],
        decreases labels@.len() - i,
    {
        let name = labels[i].name.clone();
        copy.push(FrameLabel { name, frame: labels[i].frame });
        i = i + 1;
    }
    assert(copy@ =~= labels@);
    copy
}

impl Stage {
    /// The invariant of the stage: that of its tree.
    pub open spec fn wf(&self) -> bool {
        self.tree.wf()
    }

    /// Whether `id` names a clip of the tree.
    pub open spec fn is_clip(&self, id: NodeId) -> bool {
        id < self.tree.nodes@.len() && self.tree.nodes@[id as int].kind == NodeKind::Clip
    }

    /// A stage with an empty tree, for content of the given version.
    pub fn new(library: Library, version: u8) -> (stage: Stage)
        ensures
            stage.wf(),
            stage.tree.nodes@.len() == 0,
            stage.library == library,
            stage.drag is None,
            stage.actions@.len() == 0,
            stage.version == version,
    {
        Stage { tree: DisplayTree::new(), library, drag: None, actions: Vec::new(), version }
    }

    /// Tells whether the stage is well formed.
    pub fn is_well_formed(&self) -> (ok: bool)
        ensures
            ok == self.wf(),
    {
        self.tree.is_well_formed()
    }

    /// Tells whether `id` names a clip of the tree.
    pub fn names_clip(&self, id: NodeId) -> (r: bool)
        ensures
            r == self.is_clip(id),
    {
        id < self.tree.nodes.len() && match self.tree.nodes[id].kind {
            NodeKind::Clip => true,
            NodeKind::Text => false,
        }
    }

    /// Takes the actions that were handed out, oldest first, and leaves none.
    pub fn take_actions(&mut self) -> (actions: Vec<Action>)
        ensures
            actions@ == old(self).actions@,
            final(self).actions@.len() == 0,
            *final(self) == (Stage { actions: final(self).actions, ..*old(self) }),
    {
        let mut taken: Vec<Action> = Vec::new();
        core::mem::swap(&mut self.actions, &mut taken);
        taken
    }
}

} // verus!
