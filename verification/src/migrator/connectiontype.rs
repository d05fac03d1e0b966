use vstd::prelude::*;
use vstd::string::*;
use crate::migrator::MigratorError;

verus! {

/// A representation of the type of SQLite store being opened
#[derive(Clone, Copy)]
pub enum ConnectionType<'a> {
    /// A connection to a temporary, in-memory SQLite database
    Memory(&'a str),
    /// A connection to a SQLite database file: directory path and database name
    DbFile(&'a str, &'a str),
    /// A connection to a SQLite database file that is rehearsed on a disposable
    /// sibling copy before it is touched: directory path, database name, and
    /// the name the copy is made under
    SafeDbFile(&'a str, &'a str, &'a str),
}

/// The file path of a database named `name` under the directory `path`:
/// `path` and `name.db` joined by `/` unless `path` already ends in one
pub open spec fn spec_joined_db_path(path: Seq<char>, name: Seq<char>) -> Seq<char> {
    if path.len() > 0 && path.last() == '/' {
        path + name + ".db"@
    } else {
        path + "/"@ + name + ".db"@
    }
}

/// Joins a directory path and a database name into a database file path
fn join_db_path(path: &str, name: &str) -> (r: String)
    ensures
        r@ == spec_joined_db_path(path@, name@),
{
    let plen = path.unicode_len();
    let ends_in_slash = if plen > 0 {
        path.get_char(plen - 1) == '/'
    } else {
        false
    };
    let mut s = path.to_owned();
    if !ends_in_slash {
        s.append("/");
    }
    s.append(name);
    s.append(".db");
    proof {
        reveal_strlit("/");
        reveal_strlit(".db");
    }
    s
}

/// Joined paths under one directory agree exactly when the names they were
/// made from agree.
proof fn lemma_joined_db_path_injective(p: Seq<char>, a: Seq<char>, b: Seq<char>)
    ensures
        (spec_joined_db_path(p, a) == spec_joined_db_path(p, b)) <==> (a == b),
{
    if spec_joined_db_path(p, a) == spec_joined_db_path(p, b) {
        let pre = if p.len() > 0 && p.last() == '/' {
            p
        } else {
            p + "/"@
        };
        assert(spec_joined_db_path(p, a) == pre + a + ".db"@);
        assert(spec_joined_db_path(p, b) == pre + b + ".db"@);
        assert(a.len() == b.len());
        assert forall|i: int| 0 <= i < a.len() implies a[i] == b[i] by {
            assert((pre + a + ".db"@)[pre.len() + i] == a[i]);
            assert((pre + b + ".db"@)[pre.len() + i] == b[i]);
        }
        assert(a =~= b);
    }
}

impl<'a> ConnectionType<'a> {
    /// The name of the database this connection targets
    pub open spec fn spec_db_name(self) -> Seq<char> {
        match self {
            ConnectionType::Memory(db_name) => db_name@,
            ConnectionType::DbFile(_, db_name) => db_name@,
            ConnectionType::SafeDbFile(_, db_name, _) => db_name@,
        }
    }

    /// The path handed to the store layer when opening this connection
    pub open spec fn spec_full_db_path(self) -> Seq<char> {
        match self {
            ConnectionType::Memory(_) => ":memory:"@,
            ConnectionType::DbFile(db_path, db_name) => spec_joined_db_path(
                db_path@,
                db_name@,
            ),
            ConnectionType::SafeDbFile(db_path, db_name, _) => spec_joined_db_path(
                db_path@,
                db_name@,
            ),
        }
    }

    /// The path of the disposable rehearsal copy, for targets that have one
    pub open spec fn spec_rehearsal_db_path(self) -> Option<Seq<char>> {
        match self {
            ConnectionType::SafeDbFile(db_path, _, copy_name) => Some(
                spec_joined_db_path(db_path@, copy_name@),
            ),
            _ => None,
        }
    }

    pub fn get_db_name(&self) -> (r: &'a str)
        ensures
            r@ == self.spec_db_name(),
    {
        match self {
            ConnectionType::Memory(db_name) => db_name,
            ConnectionType::DbFile(_, db_name) => db_name,
            ConnectionType::SafeDbFile(_, db_name, _) => db_name,
        }
    }

    /// The path the disposable rehearsal copy is made under, for targets
    /// that rehearse on one
    pub fn get_rehearsal_db_path(&self) -> (r: Option<String>)
        ensures
            match r {
                Some(p) => self.spec_rehearsal_db_path() == Some(p@),
                None => self.spec_rehearsal_db_path() is None,
            },
    {
        match self {
            ConnectionType::SafeDbFile(db_path, _, copy_name) => Some(
                join_db_path(db_path, copy_name),
            ),
            ConnectionType::Memory(_) => None,
            ConnectionType::DbFile(_, _) => None,
        }
    }

    /// Whether the rehearsal copy of this target would land on the very file
    /// it is meant to protect
    pub fn has_rehearsal_collision(&self) -> (r: bool)
        ensures
            r == (self.spec_rehearsal_db_path() == Some(self.spec_full_db_path())),
    {
        match self {
            ConnectionType::SafeDbFile(db_path, db_name, copy_name) => {
                let eq = (*db_name).to_owned() == (*copy_name).to_owned();
                proof {
                    lemma_joined_db_path_injective(db_path@, copy_name@, db_name@);
                }
                eq
            },
            ConnectionType::Memory(_) => false,
            ConnectionType::DbFile(_, _) => false,
        }
    }

    /// Decides whether this target may be rehearsed on, before anything is
    /// opened or copied: a rehearsal copy path must differ from the
    /// production path, and — `copy_exists` says whether a file already sits
    /// at the copy path — must not already exist.
    pub fn validate_rehearsal(&self, copy_exists: bool) -> (r: Result<(), MigratorError>)
        ensures
            match r {
                Ok(u) => self.spec_rehearsal_db_path() != Some(self.spec_full_db_path()) && (
                self.spec_rehearsal_db_path() is Some ==> !copy_exists),
                Err(e) => e matches MigratorError::RehearsalInvariant(_) && (
                self.spec_rehearsal_db_path() == Some(self.spec_full_db_path()) || (
                self.spec_rehearsal_db_path() is Some && copy_exists)),
            },
    {
        if self.has_rehearsal_collision() {
            return Err(
                MigratorError::RehearsalInvariant(
                    String::from_str("the rehearsal copy path equals the production path"),
                ),
            );
        }
        match self {
            ConnectionType::SafeDbFile(_, _, _) => {
                if copy_exists {
                    return Err(
                        MigratorError::RehearsalInvariant(
                            String::from_str("a file already sits at the rehearsal copy path"),
                        ),
                    );
                }
                Ok(())
            },
            ConnectionType::Memory(_) => Ok(()),
            ConnectionType::DbFile(_, _) => Ok(()),
        }
    }

    pub fn get_full_db_path(&self) -> (r: String)
        ensures
            r@ == self.spec_full_db_path(),
    {
        match self {
            ConnectionType::Memory(_) => {
                proof {
                    reveal_strlit(":memory:");
                }
                String::from_str(":memory:")
            },
            ConnectionType::DbFile(db_path, db_name) => join_db_path(db_path, db_name),
            ConnectionType::SafeDbFile(db_path, db_name, _) => join_db_path(db_path, db_name),
        }
    }
}

} // verus!
