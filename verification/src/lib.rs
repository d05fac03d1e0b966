use vstd::prelude::*;

pub mod migrator;

pub use migrator::Migrator;
pub use migrator::MigratorError;

verus! {

/// Implemented by a caller's marker type to say where its migration
/// scripts live on disk.
pub trait Migrations {
    fn get_mig_path() -> &'static str;
}

} // verus!
