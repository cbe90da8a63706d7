//! What can stop a render.

use vstd::prelude::*;

verus! {

/// The ways in which a render fails. No image is produced in either case.
#[derive(Clone, Copy, Debug, PartialEq, Eq, Structural)]
pub enum RenderError {
    /// The palette name is none of the known ones.
    UnknownPalette,
    /// A hue fell into a sector beyond the sixth.
    HueOutOfRange,
}

impl RenderError {
    /// The text that describes the error.
    pub open spec fn text(self) -> Seq<char> {
        match self {
            RenderError::UnknownPalette => "unknown palette"@,
            RenderError::HueOutOfRange => "hue sector out of range"@,
        }
    }

    /// A description of the error for the caller to show.
    pub fn message(&self) -> (s: String)
        ensures
            s@ == self.text(),
    {
        match self {
            RenderError::UnknownPalette => "unknown palette".to_owned(),
            RenderError::HueOutOfRange => "hue sector out of range".to_owned(),
        }
    }
}

} // verus!
