use vstd::prelude::*;

pub mod connectiontype;
pub mod migrateto;
pub mod migration;
pub mod migrationdirection;
pub mod model;
mod store;

use crate::migrator::connectiontype::ConnectionType;
use crate::migrator::migrateto::MigrateTo;
use crate::migrator::migration::Migration;
use crate::migrator::migrationdirection::MigrationDirection;

verus! {

/// The kinds of failure a migration run can end in
#[derive(Debug)]
pub enum MigratorError {
    /// Discovery failed: the unit with this number has an incomplete script
    /// set, or the migration root could not be read
    Discovery(i64, String),
    /// A store connection could not be opened
    Connection(String),
    /// Preparing or executing a script failed on the unit with this number
    Statement(i64, String),
    /// Opening or committing a transaction failed on the unit with this number
    Transaction(i64, String),
    /// A rehearsal run broke its invariant: a fresh store must apply and
    /// revert every unit, and a rehearsal copy must not collide with the
    /// production store
    RehearsalInvariant(String),
}

impl MigratorError {
    /// The underlying cause carried by this failure
    pub fn message(&self) -> (r: &String)
        ensures
            (match self {
                MigratorError::Discovery(_, m) => m,
                MigratorError::Connection(m) => m,
                MigratorError::Statement(_, m) => m,
                MigratorError::Transaction(_, m) => m,
                MigratorError::RehearsalInvariant(m) => m,
            }) == r,
    {
        match self {
            MigratorError::Discovery(_, m) => m,
            MigratorError::Connection(m) => m,
            MigratorError::Statement(_, m) => m,
            MigratorError::Transaction(_, m) => m,
            MigratorError::RehearsalInvariant(m) => m,
        }
    }

    /// The number of the unit this failure names, if it names one
    pub fn unit_number(&self) -> (r: Option<i64>)
        ensures
            (match self {
                MigratorError::Discovery(n, _) => Some(*n),
                MigratorError::Statement(n, _) => Some(*n),
                MigratorError::Transaction(n, _) => Some(*n),
                MigratorError::Connection(_) => None::<i64>,
                MigratorError::RehearsalInvariant(_) => None::<i64>,
            }) == r,
    {
        match self {
            MigratorError::Discovery(n, _) => Some(*n),
            MigratorError::Statement(n, _) => Some(*n),
            MigratorError::Transaction(n, _) => Some(*n),
            MigratorError::Connection(_) => None,
            MigratorError::RehearsalInvariant(_) => None,
        }
    }
}

// ---------------------------------------------------------------------------
// Per-unit decisions
// ---------------------------------------------------------------------------

/// Whether a unit must run for this direction, given what its check reported:
/// Up runs a unit whose effect is absent (marker 0); Down runs a unit whose
/// effect is present (marker at least 1). Any other marker skips the unit.
pub open spec fn spec_decide_run(up: bool, check: int) -> bool {
    if up {
        check == 0
    } else {
        check >= 1
    }
}

/// Decides skip against run for one unit
pub fn decide_run(up: bool, check: i64) -> (r: bool)
    ensures
        r == spec_decide_run(up, check as int),
{
    if up {
        check == 0
    } else {
        check >= 1
    }
}

/// The script a direction runs: the forward script for Up, the reverse one
/// for Down. Its result is what is handed to the store.
pub fn direction_script<'m>(m: &'m Migration, d: &MigrationDirection) -> (s: &'m String)
    ensures
        s@ == (if d.is_up() {
            m.up@
        } else {
            m.down@
        }),
{
    match d {
        MigrationDirection::Up(_) => &m.up,
        MigrationDirection::Down(_) => &m.down,
    }
}

/// Turns a check query's outcome into the run's verdict on unit `num`: a
/// scalar passes through untouched; a failing query is read as marker 0
/// under the lenient flag, and is a hard statement error naming the unit
/// otherwise.
pub fn read_check(lenient: bool, q: Result<i64, String>, num: i64) -> (r: Result<
    i64,
    MigratorError,
>)
    ensures
        q matches Ok(i) ==> r == Ok::<i64, MigratorError>(i),
        q is Err && lenient ==> r == Ok::<i64, MigratorError>(0),
        q is Err && !lenient ==> (r matches Err(e) && e matches MigratorError::Statement(n, _)
            && n == num),
{
    match q {
        Ok(i) => Ok(i),
        Err(msg) => {
            if lenient {
                Ok(0)
            } else {
                Err(MigratorError::Statement(num, msg))
            }
        },
    }
}

// ---------------------------------------------------------------------------
// Decimal rendering, for failure messages that carry a count
// ---------------------------------------------------------------------------

/// The character a decimal digit is written with
pub open spec fn digit_char_of(d: int) -> char {
    if d == 0 {
        '0'
    } else if d == 1 {
        '1'
    } else if d == 2 {
        '2'
    } else if d == 3 {
        '3'
    } else if d == 4 {
        '4'
    } else if d == 5 {
        '5'
    } else if d == 6 {
        '6'
    } else if d == 7 {
        '7'
    } else if d == 8 {
        '8'
    } else {
        '9'
    }
}

/// The decimal writing of `n`, most significant digit first
pub open spec fn spec_decimal(n: int) -> Seq<char>
    decreases n,
{
    if n < 10 {
        seq![digit_char_of(n)]
    } else {
        spec_decimal(n / 10) + seq![digit_char_of(n % 10)]
    }
}

fn digit_str(d: usize) -> (s: &'static str)
    requires
        d < 10,
    ensures
        s@ == seq![digit_char_of(d as int)],
{
    proof {
        reveal_strlit("0");
        reveal_strlit("1");
        reveal_strlit("2");
        reveal_strlit("3");
        reveal_strlit("4");
        reveal_strlit("5");
        reveal_strlit("6");
        reveal_strlit("7");
        reveal_strlit("8");
        reveal_strlit("9");
    }
    let s = if d == 0 {
        "0"
    } else if d == 1 {
        "1"
    } else if d == 2 {
        "2"
    } else if d == 3 {
        "3"
    } else if d == 4 {
        "4"
    } else if d == 5 {
        "5"
    } else if d == 6 {
        "6"
    } else if d == 7 {
        "7"
    } else if d == 8 {
        "8"
    } else {
        "9"
    };
    proof {
        assert(s@ =~= seq![digit_char_of(d as int)]);
    }
    s
}

/// Writes a count in decimal
fn decimal_string(n: usize) -> (s: String)
    ensures
        s@ == spec_decimal(n as int),
    decreases n,
{
    if n < 10 {
        digit_str(n).to_owned()
    } else {
        let mut s = decimal_string(n / 10);
        s.append(digit_str(n % 10));
        s
    }
}

// ---------------------------------------------------------------------------
// Ordering
// ---------------------------------------------------------------------------

/// No two migrations of the set share a number
pub open spec fn spec_unique_numbers(migs: Seq<Migration>) -> bool {
    forall|i: int, j: int|
        0 <= i < j < migs.len() ==> (#[trigger] migs[i].number) != (#[trigger] migs[j].number)
}

/// Some migration of the set has this number
pub open spec fn spec_has_number(migs: Seq<Migration>, n: i64) -> bool {
    exists|i: int| 0 <= i < migs.len() && (#[trigger] migs[i].number) == n
}

/// The numbers of a run's applied units move strictly in the run's direction
pub open spec fn spec_ordered_run(log: Seq<i64>, up: bool) -> bool {
    forall|a: int, b: int|
        0 <= a < b < log.len() ==> if up {
            (#[trigger] log[a]) < (#[trigger] log[b])
        } else {
            log[a] > log[b]
        }
}

/// The run ended at the unit carrying the stop name: the last applied number
/// belongs to a migration whose name is the stop target
pub open spec fn spec_stopped_at(migs: Seq<Migration>, log: Seq<i64>, stop: Seq<char>) -> bool {
    log.len() > 0 && exists|i: int|
        0 <= i < migs.len() && (#[trigger] migs[i]).number == log.last() && migs[i].file_name@
            == stop
}

/// `idx` visits every position of `migs` once, by ascending number when `up`
/// and by descending number otherwise
pub open spec fn spec_ordering_of(migs: Seq<Migration>, idx: Seq<usize>, up: bool) -> bool {
    &&& idx.len() == migs.len()
    &&& forall|k: int| 0 <= k < idx.len() ==> (#[trigger] idx[k]) < migs.len()
    &&& idx.no_duplicates()
    &&& forall|a: int, b: int|
        0 <= a < b < idx.len() ==> if up {
            migs[#[trigger] idx[a] as int].number <= migs[#[trigger] idx[b] as int].number
        } else {
            migs[idx[a] as int].number >= migs[idx[b] as int].number
        }
}

/// Orders the positions of a migration set for one direction's traversal,
/// whatever order the set was handed over in
#[verifier::loop_isolation(false)]
fn order_indices(migs: &Vec<Migration>, up: bool) -> (idx: Vec<usize>)
    ensures
        spec_ordering_of(migs@, idx@, up),
{
    let n = migs.len();
    let mut idx: Vec<usize> = Vec::new();
    let mut i: usize = 0;
    while i < n
        invariant
            i <= n,
            idx@.len() == i,
            forall|k: int| 0 <= k < i ==> (#[trigger] idx@[k]) == k,
        decreases n - i,
    {
        idx.push(i);
        i = i + 1;
    }
    assert(idx@.no_duplicates());
    let mut s: usize = 0;
    while s < n
        invariant
            s <= n,
            idx@.len() == n,
            forall|k: int| 0 <= k < n ==> (#[trigger] idx@[k]) < n,
            idx@.no_duplicates(),
            forall|a: int, b: int|
                0 <= a < b < s ==> migs@[#[trigger] idx@[a] as int].number <= migs@[
                    #[trigger] idx@[b] as int
                ].number,
            forall|a: int, b: int|
                0 <= a < s <= b < n ==> migs@[#[trigger] idx@[a] as int].number <= migs@[
                    #[trigger] idx@[b] as int
                ].number,
        decreases n - s,
    {
        let mut best: usize = s;
        let mut t: usize = s + 1;
        while t < n
            invariant
                s <= best < n,
                s + 1 <= t <= n,
                forall|q: int|
                    s <= q < t ==> migs@[idx@[best as int] as int].number <= migs@[
                        #[trigger] idx@[q] as int
                    ].number,
            decreases n - t,
        {
            if migs[idx[t]].number < migs[idx[best]].number {
                best = t;
            }
            t = t + 1;
        }
        let ghost prev = idx@;
        let a = idx[s];
        let b = idx[best];
        idx[s] = b;
        idx[best] = a;
        proof {
            assert forall|k: int| 0 <= k < n implies (#[trigger] idx@[k]) == prev[swap_src(
                k,
                s as int,
                best as int,
            )] by {
                assert(idx@ == prev.update(s as int, b).update(best as int, a));
            }
            assert forall|p: int, q: int|
                0 <= p < idx@.len() && 0 <= q < idx@.len() && p != q implies (#[trigger] idx@[p])
                != (#[trigger] idx@[q]) by {
                assert(swap_src(p, s as int, best as int) != swap_src(q, s as int, best as int));
            }
        }
        s = s + 1;
    }
    if up {
        idx
    } else {
        let mut rev: Vec<usize> = Vec::new();
        let mut r: usize = 0;
        while r < n
            invariant
                r <= n,
                rev@.len() == r,
                forall|k: int| 0 <= k < r ==> (#[trigger] rev@[k]) == idx@[n - 1 - k],
            decreases n - r,
        {
            rev.push(idx[n - 1 - r]);
            r = r + 1;
        }
        proof {
            assert forall|p: int, q: int|
                0 <= p < rev@.len() && 0 <= q < rev@.len() && p != q implies (#[trigger] rev@[p])
                != (#[trigger] rev@[q]) by {
                assert(rev@[p] == idx@[n - 1 - p]);
                assert(rev@[q] == idx@[n - 1 - q]);
            }
        }
        rev
    }
}

/// Where position `k` of a sequence draws its value from after the entries
/// at `i` and `j` trade places
spec fn swap_src(k: int, i: int, j: int) -> int {
    if k == i {
        j
    } else if k == j {
        i
    } else {
        k
    }
}

/// A log of applied units whose entries sit at strictly ascending traversal
/// positions moves strictly in the traversal's direction, and every entry
/// names a unit of the set.
proof fn lemma_log_from_posns(
    migs: Seq<Migration>,
    order: Seq<usize>,
    posns: Seq<int>,
    log: Seq<i64>,
    up: bool,
)
    requires
        spec_unique_numbers(migs),
        spec_ordering_of(migs, order, up),
        posns.len() == log.len(),
        forall|k: int| 0 <= k < posns.len() ==> 0 <= #[trigger] posns[k] < order.len(),
        forall|a: int, b: int| 0 <= a < b < posns.len() ==> posns[a] < posns[b],
        forall|k: int|
            0 <= k < posns.len() ==> log[k] == migs[order[#[trigger] posns[k]] as int].number,
    ensures
        spec_ordered_run(log, up),
        forall|k: int| 0 <= k < log.len() ==> spec_has_number(migs, #[trigger] log[k]),
{
    assert forall|a: int, b: int| 0 <= a < b < log.len() implies (if up {
        (#[trigger] log[a]) < (#[trigger] log[b])
    } else {
        log[a] > log[b]
    }) by {
        let pa = posns[a];
        let pb = posns[b];
        let ia = order[pa] as int;
        let ib = order[pb] as int;
        assert(order[pa] != order[pb]);
        if ia < ib {
            assert(migs[ia].number != migs[ib].number);
        } else {
            assert(migs[ib].number != migs[ia].number);
        }
    }
    assert forall|k: int| 0 <= k < log.len() implies spec_has_number(migs, #[trigger] log[k]) by {
        let i = order[posns[k]] as int;
        assert(0 <= i < migs.len() && migs[i].number == log[k]);
    }
}

// ---------------------------------------------------------------------------
// The migrator
// ---------------------------------------------------------------------------

/// A higher-level object to manage migration statuses: one handle on the
/// store a run is aimed at, one handle on a disposable in-memory store that
/// rehearsals run against, and the last run's bookkeeping.
pub struct Migrator {
    /// The store a run is aimed at
    db: rusqlite::Connection,
    /// The disposable in-memory store rehearsals run against
    mem_db: rusqlite::Connection,
    /// A count of the units the last run skipped
    skip_count: usize,
    /// Whether a failing check query is read as marker 0 instead of an error
    lenient_checks: bool,
    /// The numbers of the units the last run applied, in order
    applied: Ghost<Seq<i64>>,
}

impl Migrator {
    /// A count of the units the last run skipped
    pub closed spec fn spec_skip_count(self) -> usize {
        self.skip_count
    }

    /// The numbers of the units the last run applied, in order
    pub closed spec fn spec_applied(self) -> Seq<i64> {
        self.applied@
    }

    /// Whether a failing check query is read as marker 0 instead of an error
    pub closed spec fn spec_lenient(self) -> bool {
        self.lenient_checks
    }

    /// Opens the store handles for a run aimed at the given target. A target
    /// whose rehearsal copy path would equal its production path is refused
    /// here, before any connection is opened.
    pub fn init(c_type: &ConnectionType) -> (r: Result<Migrator, MigratorError>)
        ensures
            match r {
                Ok(m) => {
                    &&& m.spec_skip_count() == 0
                    &&& m.spec_applied().len() == 0
                    &&& !m.spec_lenient()
                    &&& c_type.spec_rehearsal_db_path() != Some(c_type.spec_full_db_path())
                },
                Err(e) => {
                    &&& (e matches MigratorError::Connection(_) || e
                        matches MigratorError::RehearsalInvariant(_))
                    &&& (e matches MigratorError::RehearsalInvariant(_)
                        ==> c_type.spec_rehearsal_db_path() == Some(c_type.spec_full_db_path()))
                    &&& (c_type.spec_rehearsal_db_path() == Some(c_type.spec_full_db_path())
                        ==> e matches MigratorError::RehearsalInvariant(_))
                },
            },
            c_type.spec_rehearsal_db_path() == Some(c_type.spec_full_db_path()) ==> r is Err,
    {
        if c_type.has_rehearsal_collision() {
            return Err(
                MigratorError::RehearsalInvariant(
                    String::from_str("the rehearsal copy path equals the production path"),
                ),
            );
        }
        let mem_db = match store::open_memory_connection() {
            Ok(c) => c,
            Err(msg) => return Err(MigratorError::Connection(msg)),
        };
        let path = c_type.get_full_db_path();
        let db = match store::open_file_connection(path.as_str()) {
            Ok(c) => c,
            Err(msg) => return Err(MigratorError::Connection(msg)),
        };
        Ok(
            Migrator {
                db,
                mem_db,
                skip_count: 0,
                lenient_checks: false,
                applied: Ghost(Seq::empty()),
            },
        )
    }

    /// Opts in to the lenient check mode: a failing check query is then read
    /// as marker 0 instead of a hard statement error. Off unless asked for,
    /// because it turns store faults into silent skips.
    pub fn set_lenient_checks(&mut self, lenient: bool)
        ensures
            final(self).spec_lenient() == lenient,
            final(self).spec_skip_count() == old(self).spec_skip_count(),
            final(self).spec_applied() == old(self).spec_applied(),
    {
        self.lenient_checks = lenient;
    }

    /// Retrieves the number of migrations skipped due to unpassed checks (not
    /// innately an issue)
    pub fn get_skip_count(&self) -> (r: usize)
        ensures
            r == self.spec_skip_count(),
    {
        self.skip_count
    }

    /// Retrieves whether or not the passed number matches the skip count
    pub fn chk_skip_count(&self, chk: usize) -> (r: bool)
        ensures
            r == (self.spec_skip_count() == chk),
    {
        self.skip_count == chk
    }

    /// Runs the passed migration's check script on the chosen store and reads
    /// one scalar from it. Preparation failure is always a hard error; a
    /// failing query is one too unless the lenient mode was asked for.
    fn query_chk(&self, is_test: bool, m: &Migration) -> (r: Result<i64, MigratorError>)
        ensures
            r matches Err(e) ==> e matches MigratorError::Statement(num, _) && num == m.number,
    {
        let c = if is_test {
            &self.mem_db
        } else {
            &self.db
        };
        let mut stmt = match store::prepare_statement(c, m.check.as_str()) {
            Ok(s) => s,
            Err(msg) => return Err(MigratorError::Statement(m.number, msg)),
        };
        read_check(self.lenient_checks, store::query_scalar(&mut stmt), m.number)
    }

    /// Runs the applicable script of a migration based on the direction,
    /// inside the passed transaction
    fn run_migration(t: &rusqlite::Transaction<'_>, m: &Migration, d: &MigrationDirection) -> (r:
        Result<(), MigratorError>)
        ensures
            r matches Err(e) ==> e matches MigratorError::Statement(num, _) && num == m.number,
    {
        let s = direction_script(m, d);
        match store::execute_batch_in(t, s.as_str()) {
            Ok(u) => Ok(u),
            Err(msg) => Err(MigratorError::Statement(m.number, msg)),
        }
    }

    /// Migrates the chosen store in the given direction.
    ///
    /// Units are visited by ascending number for Up and descending for Down,
    /// whatever order the set came in. A visited unit is skipped, and
    /// counted, unless its check says its direction's work is owed; a run
    /// unit gets a transaction of its own, committed before the next unit is
    /// looked at. The first failure ends the run at once, naming the unit;
    /// after a unit named by the direction's stop limit is applied the run
    /// ends successfully. The result is the number of units skipped.
    #[verifier::loop_isolation(false)]
    pub fn migrate(
        &mut self,
        direction: &MigrationDirection,
        migs: &Vec<Migration>,
        is_test: bool,
    ) -> (r: Result<usize, MigratorError>)
        requires
            spec_unique_numbers(migs@),
        ensures
            final(self).spec_lenient() == old(self).spec_lenient(),
            final(self).spec_skip_count() <= migs@.len(),
            final(self).spec_applied().len() <= migs@.len(),
            spec_ordered_run(final(self).spec_applied(), direction.is_up()),
            forall|k: int|
                0 <= k < final(self).spec_applied().len() ==> spec_has_number(
                    migs@,
                    #[trigger] final(self).spec_applied()[k],
                ),
            match r {
                Ok(n) => n == final(self).spec_skip_count() && n
                    + final(self).spec_applied().len() <= migs@.len(),
                Err(e) => match e {
                    MigratorError::Statement(num, _) => spec_has_number(migs@, num),
                    MigratorError::Transaction(num, _) => spec_has_number(migs@, num),
                    _ => false,
                },
            },
            r matches Ok(n) ==> (direction.stop_name() is None ==> n
                + final(self).spec_applied().len() == migs@.len()),
            r matches Ok(n) ==> (n + final(self).spec_applied().len() < migs@.len()
                ==> direction.stop_name() is Some && spec_stopped_at(
                migs@,
                final(self).spec_applied(),
                direction.stop_name().unwrap(),
            )),
    {
        self.skip_count = 0;
        self.applied = Ghost(Seq::empty());
        let up = match direction {
            MigrationDirection::Up(_) => true,
            MigrationDirection::Down(_) => false,
        };
        let stop: Option<String> = match direction {
            MigrationDirection::Up(MigrateTo::StopAt(s)) => Some(s.clone()),
            MigrationDirection::Down(MigrateTo::StopAt(s)) => Some(s.clone()),
            MigrationDirection::Up(MigrateTo::NoStop) => None,
            MigrationDirection::Down(MigrateTo::NoStop) => None,
        };
        proof {
            assert(match stop {
                Some(s) => direction.stop_name() == Some(s@),
                None => direction.stop_name() is None,
            });
        }
        let order = order_indices(migs, up);
        let ghost mut posns: Seq<int> = Seq::empty();
        let n = migs.len();
        let mut pos: usize = 0;
        while pos < n
            invariant
                pos <= n,
                order@.len() == n,
                self.skip_count + self.applied@.len() == pos,
                self.lenient_checks == old(self).lenient_checks,
                posns.len() == self.applied@.len(),
                forall|k: int| 0 <= k < posns.len() ==> 0 <= #[trigger] posns[k] < pos,
                forall|a: int, b: int| 0 <= a < b < posns.len() ==> posns[a] < posns[b],
                forall|k: int|
                    0 <= k < posns.len() ==> self.applied@[k] == migs@[order@[
                        #[trigger] posns[k]
                    ] as int].number,
            decreases n - pos,
        {
            let mi = order[pos];
            let passing_check = match self.query_chk(is_test, &migs[mi]) {
                Ok(i) => i,
                Err(e) => {
                    proof {
                        lemma_log_from_posns(migs@, order@, posns, self.applied@, up);
                        assert(spec_has_number(migs@, migs@[mi as int].number));
                    }
                    return Err(e);
                },
            };
            let run_it = decide_run(up, passing_check);
            if !run_it {
                self.skip_count = self.skip_count + 1;
                pos = pos + 1;
                continue;
            }
            let num = migs[mi].number;
            let c = if is_test {
                &mut self.mem_db
            } else {
                &mut self.db
            };
            let tx = match store::begin_transaction(c) {
                Ok(t) => t,
                Err(msg) => {
                    proof {
                        lemma_log_from_posns(migs@, order@, posns, self.applied@, up);
                        assert(spec_has_number(migs@, migs@[mi as int].number));
                    }
                    return Err(MigratorError::Transaction(num, msg));
                },
            };
            match Self::run_migration(&tx, &migs[mi], direction) {
                Ok(u) => u,
                Err(e) => {
                    proof {
                        lemma_log_from_posns(migs@, order@, posns, self.applied@, up);
                        assert(spec_has_number(migs@, migs@[mi as int].number));
                    }
                    return Err(e);
                },
            };
            match store::commit_transaction(tx) {
                Ok(u) => u,
                Err(msg) => {
                    proof {
                        lemma_log_from_posns(migs@, order@, posns, self.applied@, up);
                        assert(spec_has_number(migs@, migs@[mi as int].number));
                    }
                    return Err(MigratorError::Transaction(num, msg));
                },
            };
            self.applied = Ghost(self.applied@.push(num));
            proof {
                posns = posns.push(pos as int);
            }
            if let Some(stop_s) = &stop {
                if *stop_s == migs[mi].file_name {
                    proof {
                        lemma_log_from_posns(migs@, order@, posns, self.applied@, up);
                        assert(self.applied@.last() == migs@[mi as int].number);
                        assert(migs@[mi as int].file_name@ == stop_s@);
                        assert(direction.stop_name() == Some(stop_s@));
                        assert(spec_stopped_at(migs@, self.applied@, stop_s@));
                    }
                    return Ok(self.skip_count);
                }
            }
            pos = pos + 1;
        }
        proof {
            lemma_log_from_posns(migs@, order@, posns, self.applied@, up);
        }
        Ok(self.skip_count)
    }

    /// Drives one upward run against the chosen store
    fn upward_migration(
        &mut self,
        migs: &Vec<Migration>,
        is_test: bool,
        migrate_to: MigrateTo,
    ) -> (r: Result<usize, MigratorError>)
        requires
            spec_unique_numbers(migs@),
        ensures
            r matches Ok(n) ==> n == final(self).spec_skip_count() && n <= migs@.len(),
            r matches Err(e) ==> match e {
                MigratorError::Statement(num, _) => spec_has_number(migs@, num),
                MigratorError::Transaction(num, _) => spec_has_number(migs@, num),
                _ => false,
            },
            spec_ordered_run(final(self).spec_applied(), true),
    {
        self.migrate(&MigrationDirection::Up(migrate_to), migs, is_test)
    }

    /// Drives one downward run against the chosen store
    fn downward_migration(
        &mut self,
        migs: &Vec<Migration>,
        is_test: bool,
        migrate_to: MigrateTo,
    ) -> (r: Result<usize, MigratorError>)
        requires
            spec_unique_numbers(migs@),
        ensures
            r matches Ok(n) ==> n == final(self).spec_skip_count() && n <= migs@.len(),
            r matches Err(e) ==> match e {
                MigratorError::Statement(num, _) => spec_has_number(migs@, num),
                MigratorError::Transaction(num, _) => spec_has_number(migs@, num),
                _ => false,
            },
            spec_ordered_run(final(self).spec_applied(), false),
    {
        self.migrate(&MigrationDirection::Down(migrate_to), migs, is_test)
    }

    /// Rehearses the whole set on a disposable in-memory store: migrates the
    /// full way up and then the full way down. A fresh store owes work to
    /// every unit in both directions, so any skip at all breaks the
    /// rehearsal's invariant and fails the run; success always reports zero
    /// skips.
    pub fn run_from_memory(migs: &Vec<Migration>) -> (r: Result<usize, MigratorError>)
        requires
            spec_unique_numbers(migs@),
        ensures
            r matches Ok(n) ==> n == 0,
            r matches Err(e) ==> !(e matches MigratorError::Discovery(_, _)),
            r matches Err(e) ==> (e matches MigratorError::Statement(num, _) ==> spec_has_number(
                migs@,
                num,
            )),
            r matches Err(e) ==> (e matches MigratorError::Transaction(num, _) ==> spec_has_number(
                migs@,
                num,
            )),
    {
        let mut m = match Migrator::init(&ConnectionType::Memory("rehearsal")) {
            Ok(m) => m,
            Err(e) => return Err(e),
        };
        let up_skips = match m.upward_migration(migs, true, MigrateTo::NoStop) {
            Ok(k) => k,
            Err(e) => return Err(e),
        };
        let down_skips = match m.downward_migration(migs, true, MigrateTo::NoStop) {
            Ok(k) => k,
            Err(e) => return Err(e),
        };
        if up_skips > 0 || down_skips > 0 {
            let mut msg = String::from_str(
                "a fresh in-memory store must apply and revert every unit, but skipped ",
            );
            msg.append(decimal_string(up_skips).as_str());
            msg.append(" going up and ");
            msg.append(decimal_string(down_skips).as_str());
            msg.append(" going down");
            return Err(MigratorError::RehearsalInvariant(msg));
        }
        Ok(up_skips + down_skips)
    }

    /// Safely attempts to migrate upward: refuses a colliding rehearsal
    /// target before anything is opened, rehearses the whole set up and down
    /// on a fresh in-memory store, and only on clean success drives the
    /// upward run against the real store.
    pub fn do_up(c_type: &ConnectionType, migs: &Vec<Migration>, migrate_to: MigrateTo) -> (r:
        Result<usize, MigratorError>)
        requires
            spec_unique_numbers(migs@),
        ensures
            c_type.spec_rehearsal_db_path() == Some(c_type.spec_full_db_path()) ==> (r matches Err(
                e,
            ) && e matches MigratorError::RehearsalInvariant(_)),
            r matches Ok(n) ==> n <= migs@.len(),
            r matches Err(e) ==> !(e matches MigratorError::Discovery(_, _)),
            r matches Err(e) ==> (e matches MigratorError::Statement(num, _) ==> spec_has_number(
                migs@,
                num,
            )),
            r matches Err(e) ==> (e matches MigratorError::Transaction(num, _) ==> spec_has_number(
                migs@,
                num,
            )),
    {
        if c_type.has_rehearsal_collision() {
            return Err(
                MigratorError::RehearsalInvariant(
                    String::from_str("the rehearsal copy path equals the production path"),
                ),
            );
        }
        match Migrator::run_from_memory(migs) {
            Ok(k) => k,
            Err(e) => return Err(e),
        };
        let mut m = match Migrator::init(c_type) {
            Ok(m) => m,
            Err(e) => return Err(e),
        };
        m.upward_migration(migs, false, migrate_to)
    }

    /// Safely attempts to migrate downward: refuses a colliding rehearsal
    /// target before anything is opened, rehearses the whole set up and down
    /// on a fresh in-memory store, and only on clean success drives the
    /// downward run against the real store.
    pub fn do_down(c_type: &ConnectionType, migs: &Vec<Migration>, migrate_to: MigrateTo) -> (r:
        Result<usize, MigratorError>)
        requires
            spec_unique_numbers(migs@),
        ensures
            c_type.spec_rehearsal_db_path() == Some(c_type.spec_full_db_path()) ==> (r matches Err(
                e,
            ) && e matches MigratorError::RehearsalInvariant(_)),
            r matches Ok(n) ==> n <= migs@.len(),
            r matches Err(e) ==> !(e matches MigratorError::Discovery(_, _)),
            r matches Err(e) ==> (e matches MigratorError::Statement(num, _) ==> spec_has_number(
                migs@,
                num,
            )),
            r matches Err(e) ==> (e matches MigratorError::Transaction(num, _) ==> spec_has_number(
                migs@,
                num,
            )),
    {
        if c_type.has_rehearsal_collision() {
            return Err(
                MigratorError::RehearsalInvariant(
                    String::from_str("the rehearsal copy path equals the production path"),
                ),
            );
        }
        match Migrator::run_from_memory(migs) {
            Ok(k) => k,
            Err(e) => return Err(e),
        };
        let mut m = match Migrator::init(c_type) {
            Ok(m) => m,
            Err(e) => return Err(e),
        };
        m.downward_migration(migs, false, migrate_to)
    }

    /// Tells whether a migration set is fit for a run: no two of its units
    /// may share a number
    #[verifier::loop_isolation(false)]
    pub fn numbers_unique(migs: &Vec<Migration>) -> (r: bool)
        ensures
            r == spec_unique_numbers(migs@),
    {
        let n = migs.len();
        let mut i: usize = 0;
        while i < n
            invariant
                i <= n,
                forall|a: int, b: int|
                    0 <= a < b < migs@.len() && a < i ==> (#[trigger] migs@[a].number) != (
                    #[trigger] migs@[b].number),
            decreases n - i,
        {
            let mut j: usize = i + 1;
            while j < n
                invariant
                    i < j <= n,
                    forall|b: int|
                        i < b < j ==> (migs@[i as int].number) != (#[trigger] migs@[b].number),
                decreases n - j,
            {
                if migs[i].number == migs[j].number {
                    proof {
                        assert(migs@[i as int].number == migs@[j as int].number);
                        assert(!spec_unique_numbers(migs@));
                    }
                    return false;
                }
                j = j + 1;
            }
            i = i + 1;
        }
        true
    }
}

} // verus!
