use migaton::migrator::connectiontype::ConnectionType;
use migaton::{Migrations, Migrator, MigratorError};

#[test]
fn t_get_db_name() {
    assert_eq!(ConnectionType::Memory("mem").get_db_name(), "mem");
    assert_eq!(ConnectionType::DbFile("./data", "app").get_db_name(), "app");
    assert_eq!(
        ConnectionType::SafeDbFile("./data", "app", "app_copy").get_db_name(),
        "app"
    );
}

#[test]
fn t_get_full_db_path() {
    assert_eq!(ConnectionType::Memory("mem").get_full_db_path(), ":memory:");
    assert_eq!(
        ConnectionType::DbFile("./data", "app").get_full_db_path(),
        "./data/app.db"
    );
    assert_eq!(
        ConnectionType::DbFile("./data/", "app").get_full_db_path(),
        "./data/app.db"
    );
    assert_eq!(
        ConnectionType::SafeDbFile("./data", "app", "app_copy").get_full_db_path(),
        "./data/app.db"
    );
}

#[test]
fn t_rehearsal_collision_detected() {
    assert!(ConnectionType::SafeDbFile("./", "prod", "prod").has_rehearsal_collision());
    assert!(!ConnectionType::SafeDbFile("./", "prod", "prod_copy").has_rehearsal_collision());
    assert!(!ConnectionType::Memory("mem").has_rehearsal_collision());
    assert!(!ConnectionType::DbFile("./", "prod").has_rehearsal_collision());
}

#[test]
fn t_init_refuses_collision() {
    let target = ConnectionType::SafeDbFile("./", "prod", "prod");
    match Migrator::init(&target) {
        Err(MigratorError::RehearsalInvariant(_)) => {}
        _ => panic!("a colliding rehearsal target must be refused before anything is opened"),
    }
}

#[test]
fn t_do_up_refuses_collision() {
    let target = ConnectionType::SafeDbFile("./", "prod", "prod");
    let migs = Vec::new();
    match Migrator::do_up(&target, &migs, migaton::migrator::migrateto::MigrateTo::NoStop) {
        Err(MigratorError::RehearsalInvariant(_)) => {}
        _ => panic!("a colliding rehearsal target must fail the run"),
    }
}

#[test]
fn t_validate_rehearsal() {
    let colliding = ConnectionType::SafeDbFile("./", "prod", "prod");
    assert!(matches!(
        colliding.validate_rehearsal(false),
        Err(MigratorError::RehearsalInvariant(_))
    ));
    let target = ConnectionType::SafeDbFile("./", "prod", "prod_copy");
    assert!(matches!(
        target.validate_rehearsal(true),
        Err(MigratorError::RehearsalInvariant(_))
    ));
    assert!(target.validate_rehearsal(false).is_ok());
    assert!(ConnectionType::Memory("mem").validate_rehearsal(false).is_ok());
}

#[test]
fn t_get_rehearsal_db_path() {
    assert_eq!(
        ConnectionType::SafeDbFile("./data", "app", "app_copy").get_rehearsal_db_path(),
        Some("./data/app_copy.db".to_string())
    );
    assert_eq!(ConnectionType::Memory("mem").get_rehearsal_db_path(), None);
    assert_eq!(ConnectionType::DbFile("./", "app").get_rehearsal_db_path(), None);
}

struct AppMigrations;

impl migaton::Migrations for AppMigrations {
    fn get_mig_path() -> &'static str {
        "./migrations"
    }
}

#[test]
fn t_migrations_trait_names_root() {
    assert_eq!(AppMigrations::get_mig_path(), "./migrations");
}

#[test]
fn t_init_connection_error() {
    let target = ConnectionType::DbFile("./no/such/directory/anywhere", "db");
    match Migrator::init(&target) {
        Err(MigratorError::Connection(_)) => {}
        _ => panic!("an unopenable store must report a connection failure"),
    }
}
