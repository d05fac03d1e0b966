use migaton::migrator::connectiontype::ConnectionType;
use migaton::migrator::{decide_run, direction_script, read_check};
use migaton::migrator::migrateto::MigrateTo;
use migaton::migrator::migration::Migration;
use migaton::migrator::migrationdirection::MigrationDirection;
use migaton::{Migrator, MigratorError};

fn chk_table(n: i64) -> String {
    format!(
        "SELECT COUNT(*) FROM sqlite_master WHERE type='table' AND name='t{}';",
        n
    )
}

fn unit(n: i64) -> Migration {
    Migration::new(
        n,
        format!("{}", n),
        format!("CREATE TABLE t{}(x INTEGER);", n),
        format!("DROP TABLE t{};", n),
        chk_table(n),
    )
}

fn units(k: i64) -> Vec<Migration> {
    (1..=k).map(unit).collect()
}

fn memory_migrator() -> Migrator {
    Migrator::init(&ConnectionType::Memory("test")).unwrap()
}

fn up_no_stop() -> MigrationDirection {
    MigrationDirection::Up(MigrateTo::NoStop)
}

fn down_no_stop() -> MigrationDirection {
    MigrationDirection::Down(MigrateTo::NoStop)
}

#[test]
fn t_decide_run() {
    assert!(decide_run(true, 0));
    assert!(!decide_run(true, 1));
    assert!(!decide_run(true, 2));
    assert!(!decide_run(false, 0));
    assert!(decide_run(false, 1));
    assert!(decide_run(false, 2));
}

#[test]
fn t_direction_script() {
    let m = unit(1);
    assert_eq!(
        direction_script(&m, &MigrationDirection::Up(MigrateTo::NoStop)),
        &m.up
    );
    assert_eq!(
        direction_script(&m, &MigrationDirection::Down(MigrateTo::NoStop)),
        &m.down
    );
}

#[test]
fn t_read_check() {
    assert_eq!(read_check(false, Ok(7), 4).unwrap(), 7);
    assert_eq!(read_check(true, Ok(7), 4).unwrap(), 7);
    assert_eq!(read_check(true, Err("gone".to_string()), 4).unwrap(), 0);
    match read_check(false, Err("gone".to_string()), 4) {
        Err(MigratorError::Statement(n, msg)) => {
            assert_eq!(n, 4);
            assert_eq!(msg, "gone");
        }
        other => panic!("a failing check query is a hard error by default, got {:?}", other),
    }
}

#[test]
fn t_numbers_unique() {
    assert!(Migrator::numbers_unique(&units(3)));
    let mut dup = units(2);
    dup.push(unit(2));
    assert!(!Migrator::numbers_unique(&dup));
}

#[test]
fn t_run_from_memory_zero_skips() {
    assert_eq!(Migrator::run_from_memory(&units(3)).unwrap(), 0);
}

#[test]
fn t_do_up_and_do_down_on_memory() {
    let target = ConnectionType::Memory("test");
    assert_eq!(Migrator::do_up(&target, &units(3), MigrateTo::NoStop).unwrap(), 0);
    // a separate run opens a separate fresh in-memory store: nothing is
    // applied there, so a downward run owes no work and skips every unit
    assert_eq!(Migrator::do_down(&target, &units(3), MigrateTo::NoStop).unwrap(), 3);
}

#[test]
fn t_up_then_down_round_trip() {
    let migs = units(3);
    let mut m = memory_migrator();
    assert_eq!(m.migrate(&up_no_stop(), &migs, false).unwrap(), 0);
    assert_eq!(m.migrate(&down_no_stop(), &migs, false).unwrap(), 0);
    // every check is back at its original marker, so a second full pass
    // applies everything again with no skip
    assert_eq!(m.migrate(&up_no_stop(), &migs, false).unwrap(), 0);
}

#[test]
fn t_up_applies_in_ascending_order() {
    // each unit's check reports a marker that only reads "not applied" once
    // every lower-numbered unit's table is already present
    let mut order_sensitive = vec![
        unit(1),
        Migration::new(
            2,
            "2".to_string(),
            "CREATE TABLE t2(x INTEGER);".to_string(),
            "DROP TABLE t2;".to_string(),
            "SELECT CASE WHEN (SELECT COUNT(*) FROM sqlite_master WHERE name='t1')=1 \
             THEN (SELECT COUNT(*) FROM sqlite_master WHERE name='t2') ELSE 5 END;"
                .to_string(),
        ),
        Migration::new(
            3,
            "3".to_string(),
            "CREATE TABLE t3(x INTEGER);".to_string(),
            "DROP TABLE t3;".to_string(),
            "SELECT CASE WHEN (SELECT COUNT(*) FROM sqlite_master WHERE name='t1')=1 \
             AND (SELECT COUNT(*) FROM sqlite_master WHERE name='t2')=1 \
             THEN (SELECT COUNT(*) FROM sqlite_master WHERE name='t3') ELSE 5 END;"
                .to_string(),
        ),
    ];
    // hand the set over in scrambled order: the engine must still go 1, 2, 3
    order_sensitive.rotate_left(1);
    let mut m = memory_migrator();
    assert_eq!(m.migrate(&up_no_stop(), &order_sensitive, false).unwrap(), 0);
}

#[test]
fn t_down_applies_in_descending_order() {
    let mut m = memory_migrator();
    assert_eq!(m.migrate(&up_no_stop(), &units(3), false).unwrap(), 0);
    // each unit's check only reports "applied" once every higher-numbered
    // unit's table is already gone, so a clean pass must go 3, 2, 1
    let order_sensitive = vec![
        Migration::new(
            1,
            "1".to_string(),
            "CREATE TABLE t1(x INTEGER);".to_string(),
            "DROP TABLE t1;".to_string(),
            "SELECT CASE WHEN (SELECT COUNT(*) FROM sqlite_master WHERE name='t2')=0 \
             AND (SELECT COUNT(*) FROM sqlite_master WHERE name='t3')=0 \
             THEN (SELECT COUNT(*) FROM sqlite_master WHERE name='t1') ELSE 0 END;"
                .to_string(),
        ),
        Migration::new(
            2,
            "2".to_string(),
            "CREATE TABLE t2(x INTEGER);".to_string(),
            "DROP TABLE t2;".to_string(),
            "SELECT CASE WHEN (SELECT COUNT(*) FROM sqlite_master WHERE name='t3')=0 \
             THEN (SELECT COUNT(*) FROM sqlite_master WHERE name='t2') ELSE 0 END;"
                .to_string(),
        ),
        unit(3),
    ];
    assert_eq!(m.migrate(&down_no_stop(), &order_sensitive, false).unwrap(), 0);
}

#[test]
fn t_stop_at_third_never_evaluates_fourth() {
    let mut migs = units(3);
    migs.push(Migration::new(
        4,
        "4".to_string(),
        "CREATE TABLE t4(x INTEGER);".to_string(),
        "DROP TABLE t4;".to_string(),
        "THIS IS NOT SQL".to_string(),
    ));
    let mut m = memory_migrator();
    let dir = MigrationDirection::Up(MigrateTo::StopAt("3".to_string()));
    // were the fourth unit ever evaluated, its broken check would fail the run
    assert_eq!(m.migrate(&dir, &migs, false).unwrap(), 0);
}

#[test]
fn t_stop_at_third_applies_exactly_three() {
    let migs = units(4);
    let mut m = memory_migrator();
    let dir = MigrationDirection::Up(MigrateTo::StopAt("3".to_string()));
    assert_eq!(m.migrate(&dir, &migs, false).unwrap(), 0);
    // going down, only the unapplied fourth unit is skipped
    assert_eq!(m.migrate(&down_no_stop(), &migs, false).unwrap(), 1);
}

#[test]
fn t_failure_isolation() {
    let migs = vec![
        unit(1),
        Migration::new(
            2,
            "2".to_string(),
            "THIS IS NOT SQL".to_string(),
            "SELECT 1;".to_string(),
            chk_table(2),
        ),
        unit(3),
    ];
    let mut m = memory_migrator();
    match m.migrate(&up_no_stop(), &migs, false) {
        Err(MigratorError::Statement(n, _)) => assert_eq!(n, 2),
        other => panic!("the run must fail naming unit 2, got {:?}", other),
    }
    // the first unit's transaction stays committed; units 2 and 3 were never
    // applied, so a downward pass reverts exactly one unit
    assert_eq!(m.migrate(&down_no_stop(), &migs, false).unwrap(), 2);
}

#[test]
fn t_rehearsal_catches_failing_script() {
    let migs = vec![
        unit(1),
        Migration::new(
            2,
            "2".to_string(),
            "THIS IS NOT SQL".to_string(),
            "SELECT 1;".to_string(),
            chk_table(2),
        ),
    ];
    match Migrator::do_up(&ConnectionType::Memory("test"), &migs, MigrateTo::NoStop) {
        Err(MigratorError::Statement(n, _)) => assert_eq!(n, 2),
        other => panic!("the rehearsal must surface the failing unit, got {:?}", other),
    }
}

#[test]
fn t_rehearsal_invariant_on_skip() {
    // a unit whose check claims it is already applied on a fresh store makes
    // the rehearsal skip it, which breaks the rehearsal's invariant
    let migs = vec![Migration::new(
        1,
        "1".to_string(),
        "CREATE TABLE t1(x INTEGER);".to_string(),
        "SELECT 1;".to_string(),
        "SELECT 1;".to_string(),
    )];
    match Migrator::run_from_memory(&migs) {
        Err(MigratorError::RehearsalInvariant(msg)) => assert_eq!(
            msg,
            "a fresh in-memory store must apply and revert every unit, \
             but skipped 1 going up and 0 going down"
        ),
        other => panic!("a skipping rehearsal must fail, got {:?}", other),
    }
}

#[test]
fn t_rehearsal_failure_reports_skip_counts() {
    // twelve units whose checks all claim "already applied" on a fresh
    // store: the rehearsal skips each on the way up and says how many
    let migs: Vec<Migration> = (1..=12i64)
        .map(|n| {
            Migration::new(
                n,
                format!("{}", n),
                format!("CREATE TABLE t{}(x INTEGER);", n),
                "SELECT 1;".to_string(),
                "SELECT 1;".to_string(),
            )
        })
        .collect();
    match Migrator::run_from_memory(&migs) {
        Err(MigratorError::RehearsalInvariant(msg)) => assert_eq!(
            msg,
            "a fresh in-memory store must apply and revert every unit, \
             but skipped 12 going up and 0 going down"
        ),
        other => panic!("a skipping rehearsal must fail, got {:?}", other),
    }
}

#[test]
fn t_statement_error_on_broken_check() {
    let migs = vec![Migration::new(
        1,
        "1".to_string(),
        "CREATE TABLE t1(x INTEGER);".to_string(),
        "DROP TABLE t1;".to_string(),
        "THIS IS NOT SQL".to_string(),
    )];
    let mut m = memory_migrator();
    match m.migrate(&up_no_stop(), &migs, false) {
        Err(MigratorError::Statement(n, _)) => assert_eq!(n, 1),
        other => panic!("a broken check must be a hard error, got {:?}", other),
    }
}

#[test]
fn t_lenient_checks_substitute_marker() {
    // this check prepares fine but fails when queried: it returns no row
    let migs = vec![Migration::new(
        1,
        "1".to_string(),
        "CREATE TABLE t1(x INTEGER);".to_string(),
        "DROP TABLE t1;".to_string(),
        "SELECT 1 WHERE 0;".to_string(),
    )];
    let mut strict = memory_migrator();
    match strict.migrate(&up_no_stop(), &migs, false) {
        Err(MigratorError::Statement(n, _)) => assert_eq!(n, 1),
        other => panic!("a failing check query is a hard error by default, got {:?}", other),
    }
    let mut m = memory_migrator();
    m.set_lenient_checks(true);
    // under the opt-in flag the failing check query is read as marker 0,
    // so the unit runs
    assert_eq!(m.migrate(&up_no_stop(), &migs, false).unwrap(), 0);
}

#[test]
fn t_discovered_set_drives_stop_at() {
    // end to end: a scrambled file listing, discovery, then a limited run
    let mut files = Vec::new();
    for n in [3i64, 1, 2] {
        files.push(migaton::migrator::migration::ScriptFile::new(
            format!("{}.up.sql", n),
            format!("CREATE TABLE t{}(x INTEGER);", n),
        ));
        files.push(migaton::migrator::migration::ScriptFile::new(
            format!("{}.down.sql", n),
            format!("DROP TABLE t{};", n),
        ));
        files.push(migaton::migrator::migration::ScriptFile::new(
            format!("{}.chk.sql", n),
            chk_table(n),
        ));
    }
    let migs = Migration::get_all(&files).unwrap();
    assert!(Migrator::numbers_unique(&migs));
    let mut m = memory_migrator();
    let dir = MigrationDirection::Up(MigrateTo::StopAt("2".to_string()));
    assert_eq!(m.migrate(&dir, &migs, false).unwrap(), 0);
    // only the third unit was left unapplied
    assert_eq!(m.migrate(&down_no_stop(), &migs, false).unwrap(), 1);
}

#[test]
fn t_skip_count_accessors() {
    let migs = vec![Migration::new(
        1,
        "1".to_string(),
        "CREATE TABLE t1(x INTEGER);".to_string(),
        "DROP TABLE t1;".to_string(),
        "SELECT 1;".to_string(),
    )];
    let mut m = memory_migrator();
    assert_eq!(m.migrate(&up_no_stop(), &migs, false).unwrap(), 1);
    assert_eq!(m.get_skip_count(), 1);
    assert!(m.chk_skip_count(1));
    assert!(!m.chk_skip_count(0));
}
