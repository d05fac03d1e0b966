use migaton::migrator::migration::{find_script, parse_unit_number, Migration, ScriptFile};
use migaton::MigratorError;

fn sf(name: &str, contents: &str) -> ScriptFile {
    ScriptFile::new(name.to_string(), contents.to_string())
}

fn triple(n: usize) -> Vec<ScriptFile> {
    vec![
        sf(&format!("{}.up.sql", n), &format!("up {}", n)),
        sf(&format!("{}.down.sql", n), &format!("down {}", n)),
        sf(&format!("{}.chk.sql", n), &format!("chk {}", n)),
    ]
}

#[test]
fn t_parse_unit_number() {
    assert_eq!(parse_unit_number("12.up.sql", ".up.sql"), Some(12));
    assert_eq!(parse_unit_number("3.down.sql", ".down.sql"), Some(3));
    assert_eq!(parse_unit_number("3.down.sql", ".up.sql"), None);
    assert_eq!(parse_unit_number("x.up.sql", ".up.sql"), None);
    assert_eq!(parse_unit_number(".up.sql", ".up.sql"), None);
    assert_eq!(parse_unit_number("0.chk.sql", ".chk.sql"), Some(0));
    assert_eq!(parse_unit_number("01.up.sql", ".up.sql"), None);
    assert_eq!(parse_unit_number("1x2.up.sql", ".up.sql"), None);
}

#[test]
fn t_find_script_first_match() {
    let files = vec![
        sf("notes.txt", ""),
        sf("2.up.sql", "a"),
        sf("1.up.sql", "b"),
        sf("2.up.sql", "c"),
    ];
    assert_eq!(find_script(&files, 2, ".up.sql"), Some(1));
    assert_eq!(find_script(&files, 1, ".up.sql"), Some(2));
    assert_eq!(find_script(&files, 3, ".up.sql"), None);
}

#[test]
fn t_migration_new() {
    let m = Migration::new(
        7,
        "7".to_string(),
        "u".to_string(),
        "d".to_string(),
        "c".to_string(),
    );
    assert_eq!(m.number, 7);
    assert_eq!(m.file_name, "7");
    assert_eq!(m.up, "u");
    assert_eq!(m.down, "d");
    assert_eq!(m.check, "c");
}

#[test]
fn t_get_all_orders_units() {
    let mut files = Vec::new();
    files.extend(triple(2));
    files.extend(triple(1));
    files.push(sf("readme.md", "not a script"));
    files.extend(triple(3));
    let migs = Migration::get_all(&files).unwrap();
    assert_eq!(migs.len(), 3);
    for (i, m) in migs.iter().enumerate() {
        let n = i + 1;
        assert_eq!(m.number as usize, n);
        assert_eq!(m.file_name, format!("{}", n));
        assert_eq!(m.up, format!("up {}", n));
        assert_eq!(m.down, format!("down {}", n));
        assert_eq!(m.check, format!("chk {}", n));
    }
}

#[test]
fn t_get_all_empty_root() {
    let files: Vec<ScriptFile> = Vec::new();
    let migs = Migration::get_all(&files).unwrap();
    assert_eq!(migs.len(), 0);
}

#[test]
fn t_get_all_partial_triple() {
    let mut files = Vec::new();
    files.extend(triple(1));
    files.extend(triple(2));
    files.push(sf("3.up.sql", "up 3"));
    files.push(sf("3.chk.sql", "chk 3"));
    match Migration::get_all(&files) {
        Err(MigratorError::Discovery(n, _)) => assert_eq!(n, 3),
        other => panic!("expected a discovery failure naming unit 3, got {:?}", other),
    }
}

#[test]
fn t_get_all_stops_at_first_gap() {
    let mut files = Vec::new();
    files.extend(triple(1));
    files.extend(triple(3));
    let migs = Migration::get_all(&files).unwrap();
    assert_eq!(migs.len(), 1);
    assert_eq!(migs[0].number, 1);
}

#[test]
fn t_get_all_ignores_non_canonical_names() {
    let files = vec![
        sf("01.up.sql", "u"),
        sf("01.down.sql", "d"),
        sf("01.chk.sql", "c"),
    ];
    let migs = Migration::get_all(&files).unwrap();
    assert_eq!(migs.len(), 0);
}
