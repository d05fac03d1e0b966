use vstd::prelude::*;

verus! {

/// A representation of a limited migration
pub enum MigrateTo {
    /// A limit: stop after the unit with this name has been applied
    StopAt(String),
    /// No limit
    NoStop,
}

impl MigrateTo {
    /// The name of the unit this limit stops at, if any
    pub open spec fn stop_name(self) -> Option<Seq<char>> {
        match self {
            MigrateTo::StopAt(s) => Some(s@),
            MigrateTo::NoStop => None,
        }
    }
}

} // verus!
