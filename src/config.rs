use vstd::prelude::*;

verus! {

/// What an earlier run chose, as persisted.
pub struct Config {
    /// Labels of the platforms chosen last time.
    pub target_platforms: Vec<String>,
}

} // verus!
