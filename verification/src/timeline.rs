//! The timeline of a clip: a frame cursor, a play state and frame labels.
//!
//! Frames are counted from one. A cursor of zero belongs to a clip that has
//! not shown a frame yet.

use vstd::prelude::*;
use crate::depth::wrap32;
use crate::number::Number;

verus! {

/// A name given to a frame.
#[derive(Clone, Debug, PartialEq, Eq)]
pub struct FrameLabel {
    pub name: String,
    pub frame: u16,
}

/// The playback state of a clip.
#[derive(Debug)]
pub struct Timeline {
    pub current_frame: u16,
    pub total_frames: u16,
    pub playing: bool,
    pub labels: Vec<FrameLabel>,
}

/// Whether the `i`-th label carries the name `name`.
pub open spec fn label_matches(labels: Seq<FrameLabel>, name: Seq<char>, i: int) -> bool {
    0 <= i < labels.len() && labels[i].name@ == name
}

/// Whether the `i`-th label is the first that carries the name `name`.
pub open spec fn first_match(labels: Seq<FrameLabel>, name: Seq<char>, i: int) -> bool {
    label_matches(labels, name, i) && forall|j: int| 0 <= j < i ==> !label_matches(labels, name, j)
}

/// The frame of the first label that carries the name `name`.
pub open spec fn spec_label_frame(labels: Seq<FrameLabel>, name: Seq<char>) -> Option<u16> {
    if exists|i: int| first_match(labels, name, i) {
        Some(labels[choose|i: int| first_match(labels, name, i)].frame)
    } else {
        None
    }
}

/// The frame, between one and the last, that a jump to `frame` lands on.
pub open spec fn spec_landing(frame: u16, total_frames: u16) -> u16 {
    let at_least_one: u16 = if frame < 1 {
        1
    } else {
        frame
    };
    if at_least_one > total_frames {
        total_frames
    } else {
        at_least_one
    }
}

/// The frame that a whole script number names, counted from one, under a
/// scene offset: the number is reduced to 32 bits, made zero-based, moved by
/// the offset with wrap-around, and names a frame if it is not negative then.
/// The frame is counted from one again and reduced to 16 bits.
pub open spec fn spec_frame_of_number(number: Number, scene_offset: u16) -> Option<u16> {
    let zero_based = wrap32(wrap32(number.spec_wrapping_i32() - 1) + scene_offset);
    if zero_based < 0 {
        None
    } else if zero_based == i32::MAX {
        Some((zero_based % 0x1_0000) as u16)
    } else {
        Some(((zero_based + 1) % 0x1_0000) as u16)
    }
}

/// Computes the frame that a whole script number names under a scene offset.
pub fn frame_of_number(number: Number, scene_offset: u16) -> (frame: Option<u16>)
    ensures
        frame == spec_frame_of_number(number, scene_offset),
{
    let first: i32 = number.to_wrapping_i32();
    let zero_based: i32 = first.wrapping_sub(1).wrapping_add(scene_offset as i32);
    if zero_based < 0 {
        None
    } else {
        let one_based: i32 = if zero_based == i32::MAX {
            zero_based
        } else {
            zero_based + 1
        };
        Some((one_based % 0x1_0000) as u16)
    }
}

/// The frame of a label under a scene offset, wrapping at 16 bits.
pub open spec fn spec_offset_frame(frame: u16, scene_offset: u16) -> u16 {
    ((frame + scene_offset) % 0x1_0000) as u16
}

impl Timeline {
    /// The timeline of a clip of `total_frames` frames that has not shown a
    /// frame yet and is playing.
    pub fn new(total_frames: u16, labels: Vec<FrameLabel>) -> (t: Timeline)
        ensures
            t == (Timeline { current_frame: 0, total_frames, playing: true, labels }),
    {
        Timeline { current_frame: 0, total_frames, playing: true, labels }
    }

    /// Starts playback; the cursor stays.
    pub fn play(&mut self)
        ensures
            *final(self) == (Timeline { playing: true, ..*old(self) }),
    {
        self.playing = true;
    }

    /// Stops playback; the cursor stays.
    pub fn stop(&mut self)
        ensures
            *final(self) == (Timeline { playing: false, ..*old(self) }),
    {
        self.playing = false;
    }

    /// The cursor after a step forward: one further, but not past the last frame.
    pub open spec fn spec_next(self) -> u16 {
        if self.current_frame < self.total_frames {
            (self.current_frame + 1) as u16
        } else {
            self.current_frame
        }
    }

    /// The cursor after a step back: one earlier, but not before the first frame.
    pub open spec fn spec_prev(self) -> u16 {
        if self.current_frame > 1 {
            (self.current_frame - 1) as u16
        } else {
            self.current_frame
        }
    }

    /// The cursor after one tick of a playing timeline: one further, and from
    /// the last of several frames back to the first.
    pub open spec fn spec_ticked(self) -> u16 {
        if !self.playing {
            self.current_frame
        } else if self.current_frame < self.total_frames {
            (self.current_frame + 1) as u16
        } else if self.total_frames > 1 {
            1
        } else {
            self.current_frame
        }
    }

    /// Steps one frame forward and stops.
    pub fn next_frame(&mut self)
        ensures
            *final(self) == (Timeline {
                current_frame: old(self).spec_next(),
                playing: false,
                ..*old(self)
            }),
    {
        if self.current_frame < self.total_frames {
            self.current_frame = self.current_frame + 1;
        }
        self.playing = false;
    }

    /// Steps one frame back and stops.
    pub fn prev_frame(&mut self)
        ensures
            *final(self) == (Timeline {
                current_frame: old(self).spec_prev(),
                playing: false,
                ..*old(self)
            }),
    {
        if self.current_frame > 1 {
            self.current_frame = self.current_frame - 1;
        }
        self.playing = false;
    }

    /// Moves the cursor to `frame`, limited to the frames of the clip, and
    /// stops or plays as `stop` says.
    pub fn goto_frame(&mut self, frame: u16, stop: bool)
        ensures
            *final(self) == (Timeline {
                current_frame: spec_landing(frame, old(self).total_frames),
                playing: !stop,
                ..*old(self)
            }),
    {
        let at_least_one: u16 = if frame < 1 {
            1
        } else {
            frame
        };
        self.current_frame = if at_least_one > self.total_frames {
            self.total_frames
        } else {
            at_least_one
        };
        self.playing = !stop;
    }

    /// Advances a playing timeline by one frame.
    pub fn tick(&mut self)
        ensures
            *final(self) == (Timeline { current_frame: old(self).spec_ticked(), ..*old(self) }),
    {
        if self.playing {
            if self.current_frame < self.total_frames {
                self.current_frame = self.current_frame + 1;
            } else if self.total_frames > 1 {
                self.current_frame = 1;
            }
        }
    }

    /// Looks a label up by its name; the first label of that name counts.
    pub fn frame_label_to_number(&self, name: &String) -> (frame: Option<u16>)
        ensures
            frame == spec_label_frame(self.labels@, name@),
    {
        let mut i: usize = 0;
        while i < self.labels.len()
            invariant
                i <= self.labels@.len(),
                forall|j: int| 0 <= j < i ==> !label_matches(self.labels@, name@, j),
            decreases self.labels@.len() - i,
        {
            if self.labels[i].name == *name {
                proof {
                    let labels = self.labels@;
                    assert(first_match(labels, name@, i as int));
                    let k = choose|k: int| first_match(labels, name@, k);
                    assert(first_match(labels, name@, k));
                    if k < i {
                        assert(!label_matches(labels, name@, k));
                    }
                    if k > i {
                        assert(!label_matches(labels, name@, i as int));
                    }
                }
                return Some(self.labels[i].frame);
            }
            i = i + 1;
        }
        proof {
            let labels = self.labels@;
            assert forall|k: int| !first_match(labels, name@, k) by {
                if 0 <= k < labels.len() {
                    assert(!label_matches(labels, name@, k));
                }
            }
        }
        None
    }
}

} // verus!
