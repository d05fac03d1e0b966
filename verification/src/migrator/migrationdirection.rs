use vstd::prelude::*;
use crate::migrator::migrateto::MigrateTo;

verus! {

/// A representation of the direction of a migration
pub enum MigrationDirection {
    /// An upward migration
    Up(MigrateTo),
    /// A downward migration
    Down(MigrateTo),
}

impl MigrationDirection {
    /// Whether this is the upward direction
    pub open spec fn is_up(self) -> bool {
        match self {
            MigrationDirection::Up(_) => true,
            MigrationDirection::Down(_) => false,
        }
    }

    /// The stop limit carried by this direction
    pub open spec fn stop_name(self) -> Option<Seq<char>> {
        match self {
            MigrationDirection::Up(to) => to.stop_name(),
            MigrationDirection::Down(to) => to.stop_name(),
        }
    }
}

} // verus!
