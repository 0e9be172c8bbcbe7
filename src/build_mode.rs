use vstd::prelude::*;

verus! {

/// The build profile: `Optimized` hashes and minifies, `Normal` is the
/// development profile with live reload.
#[derive(Debug, Clone, Copy, PartialEq, Eq, Structural)]
pub enum BuildMode {
    Optimized,
    Normal,
}

impl BuildMode {
    /// Whether this is the production profile.
    pub fn optimize(self) -> (r: bool)
        ensures
            r == (self == BuildMode::Optimized),
    {
        matches!(self, BuildMode::Optimized)
    }

    /// Whether this is the development profile.
    pub fn normal(self) -> (r: bool)
        ensures
            r == (self == BuildMode::Normal),
    {
        matches!(self, BuildMode::Normal)
    }

    /// The lower-case name of the mode, as shown to users and scripts.
    pub fn name(self) -> (r: &'static str)
        ensures
            self == BuildMode::Optimized ==> r@ == "optimized"@,
            self == BuildMode::Normal ==> r@ == "normal"@,
    {
        match self {
            BuildMode::Optimized => "optimized",
            BuildMode::Normal => "normal",
        }
    }
}

} // verus!
