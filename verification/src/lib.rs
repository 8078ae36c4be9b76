//! The scripted control surface of a display tree.
//!
//! Scripts create, duplicate, remove and re-stack the nodes of a tree of
//! clips, drive the timeline of a clip, draw into it, take points and boxes
//! from one clip's space to another's, drag a clip, and ask for content to be
//! loaded. This library holds the tree and the rules of those operations, and
//! states of each operation what it changes and what it leaves alone.
//!
//! - [`depth`]: script depths and the biased depths that children are stored under.
//! - [`number`]: script numbers, read exactly from their bit patterns.
//! - [`geometry`]: points, boxes and fixed-point transforms.
//! - [`style`]: line styles, fill styles and path commands.
//! - [`timeline`]: the frame cursor, the play state and the labels of a clip.
//! - [`tree`]: the arena of nodes and the lists of children, in order of depth.
//! - [`stage`]: the tree together with the library of content, the drag
//!   session and the work that is handed out.
//! - [`movie_clip`]: the operations themselves.
//! - [`error`]: the failures that end a script.
//! - [`text`]: comparing words and writing whole numbers.
//!
//! The library does no floating-point arithmetic. A length arrives as the
//! number that the script gave, together with the twips it was converted to,
//! and leaves in twips, a twentieth of a pixel each.

pub mod depth;
pub mod error;
pub mod geometry;
pub mod movie_clip;
pub mod number;
pub mod stage;
pub mod style;
pub mod text;
pub mod timeline;
pub mod tree;
