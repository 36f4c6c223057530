//! The root directory under which an image is written.
use vstd::prelude::*;

verus! {

/// An output directory, by path.
pub struct OutputDir {
    pub path: String,
}

impl OutputDir {
    /// The output directory at `path`.
    pub fn new(path: &str) -> (r: OutputDir)
        ensures
            r.path@ == path@,
    {
        OutputDir { path: path.to_owned() }
    }
}

} // verus!
