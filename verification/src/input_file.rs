//! One input video file, remembered by its (already absolutized) path.

use vstd::prelude::*;
use vstd::string::StrSliceExecFns;
use vstd::string::StringExecFns;

use crate::util::{display_filename, spec_display_filename};

verus! {

/// An input file of one conversion run.  The caller hands in the absolute
/// path.
pub struct InputFile {
    pub path: String,
}

impl InputFile {
    /// Wraps a path.
    pub fn from(filepath: &String) -> (r: Self)
        ensures
            r.path@ == filepath@,
    {
        InputFile { path: filepath.clone() }
    }

    /// The path's file name, underlined for log output.
    pub fn display_filename(&self) -> (r: String)
        ensures
            r@ == spec_display_filename(self.path@),
    {
        display_filename(&self.path)
    }

    /// A log line about this file: its display name, a space, the message.
    pub fn log(&self, s: &str) -> (r: String)
        ensures
            r@ == spec_display_filename(self.path@) + " "@ + s@,
    {
        let mut out = self.display_filename();
        out.append(" ");
        out.append(s);
        out
    }
}

} // verus!
