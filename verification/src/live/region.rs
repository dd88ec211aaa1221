//! Where the meter learns which game region it is in.
use vstd::prelude::*;

verus! {

/// A path on disk (`std::path::PathBuf`), carried through as it is.
#[verifier::external_type_specification]
#[verifier::external_body]
pub struct ExPathBuf(std::path::PathBuf);

/// A source of the game region's name.
pub trait RegionAccessor {
    /// The region's name, where it is known.
    fn get(&self) -> Option<String>;
}

/// The region source that reads the region's name from a file the game
/// writes.
pub struct DefaultRegionAccessor(pub std::path::PathBuf);

impl DefaultRegionAccessor {
    /// A region source that reads the file at `path`.
    pub fn new(path: std::path::PathBuf) -> (r: Self)
        ensures
            r.0 == path,
    {
        DefaultRegionAccessor(path)
    }
}

} // verus!
