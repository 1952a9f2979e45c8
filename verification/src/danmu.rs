//! The input unit of the engine: one timed overlay comment.

use vstd::prelude::*;

verus! {

/// Maximum comment timestamp the engine accepts, in centiseconds.
pub const MAX_TIMELINE_CS: i64 = 1_100_000_000_000;

/// Maximum comment length in characters, a machine limit that keeps all
/// width arithmetic inside 64 bits.
pub const MAX_TEXT_CHARS: usize = 1_000_000;

/// The display category of a comment.
#[derive(Clone, Copy, Debug, PartialEq, Eq, Structural)]
pub enum DanmuType {
    /// Scrolls from the right edge to the left edge.
    Float,
    /// Pinned near the bottom of the canvas.
    Bottom,
    /// Pinned near the top of the canvas.
    Top,
}

/// One comment: its text, arrival time in centiseconds, display category,
/// and RGB color.
pub struct Danmu {
    pub content: String,
    pub timeline_cs: i64,
    pub kind: DanmuType,
    pub rgb: (u8, u8, u8),
}

/// The mathematical image of a [`Danmu`].
#[verifier::ext_equal]
pub ghost struct DanmuModel {
    pub content: Seq<char>,
    pub timeline_cs: int,
    pub kind: DanmuType,
    pub rgb: (u8, u8, u8),
}

impl View for Danmu {
    type V = DanmuModel;

    open spec fn view(&self) -> DanmuModel {
        DanmuModel {
            content: self.content@,
            timeline_cs: self.timeline_cs as int,
            kind: self.kind,
            rgb: self.rgb,
        }
    }
}

impl DanmuModel {
    /// What the engine requires of a comment: a timestamp within range and a
    /// text short enough for exact width arithmetic.
    pub open spec fn valid(self) -> bool {
        &&& 0 <= self.timeline_cs <= MAX_TIMELINE_CS
        &&& self.content.len() <= MAX_TEXT_CHARS
    }
}

} // verus!
