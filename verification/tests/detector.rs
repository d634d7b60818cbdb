use test_driver::test_database::TestDatabase;
use test_driver::test_detector::{
    CommandSpec, DirConfig, detect_tests_in_dir, detect_tests_with_command, effective_config,
};

fn entries(list: &[&[u8]]) -> Vec<Vec<u8>> {
    list.iter().map(|e| e.to_vec()).collect()
}

#[test]
fn no_effective_configuration_registers_no_tests() {
    // A directory without its own or an inherited configuration contributes
    // nothing, whatever its files are.
    let mut db = TestDatabase::new();
    let dir = db.add_path(b"/t".to_vec());
    let files = entries(&[b"/t/a.c", b"/t/b.c"]);
    detect_tests_in_dir(&mut db, dir, &files, &None, &b"/bin/mcc".to_vec());
    assert_eq!(db.tests().len(), 0);
}

#[test]
fn flat_configuration_registers_one_test_per_source_file() {
    let mut db = TestDatabase::new();
    let dir = db.add_path(b"/t".to_vec());
    let files = entries(&[b"/t/a.c", b"/t/sub", b"/t/b.c", b"/t/readme.txt"]);
    let config = Some(DirConfig::Flat(CommandSpec {
        command: b"{mcc} {filename}".to_vec(),
        return_code: 1,
        snapshot_test_stderr: false,
    }));
    detect_tests_in_dir(&mut db, dir, &files, &config, &b"/bin/mcc".to_vec());
    assert_eq!(db.tests().len(), 2);
    let t = db.tests()[0];
    assert_eq!(db.get_path(t.path).as_slice(), b"/t/a.c");
    assert_eq!(db.get_command(t.command).as_slice(), b"/bin/mcc {filename}");
    assert_eq!(db.get_string(t.suffix).as_slice(), b"");
    assert_eq!(db.get_path(t.working_dir).as_slice(), b"/t");
    assert_eq!(t.expect_code, 1);
    assert!(!t.snapshot_test_stderr);
    let t2 = db.tests()[1];
    assert_eq!(db.get_path(t2.path).as_slice(), b"/t/b.c");
}

#[test]
fn nested_configuration_registers_variants_times_files() {
    // Two named variants over three source files: exactly six tests.
    let mut db = TestDatabase::new();
    let dir = db.add_path(b"/t".to_vec());
    let files = entries(&[b"/t/a.c", b"/t/b.c", b"/t/c.c", b"/t/notes"]);
    let vars = vec![
        (
            b"debug".to_vec(),
            CommandSpec {
                command: b"{mcc} -g {filename}".to_vec(),
                return_code: 0,
                snapshot_test_stderr: false,
            },
        ),
        (
            b"opt".to_vec(),
            CommandSpec {
                command: b"{mcc} -O2 {filename}".to_vec(),
                return_code: 2,
                snapshot_test_stderr: true,
            },
        ),
    ];
    detect_tests_in_dir(&mut db, dir, &files, &Some(DirConfig::Nested(vars)), &b"/m".to_vec());
    assert_eq!(db.tests().len(), 6);
    // Variant-major order: first all files under the first variant.
    let first = db.tests()[0];
    assert_eq!(db.get_string(first.suffix).as_slice(), b"debug");
    assert_eq!(db.get_command(first.command).as_slice(), b"/m -g {filename}");
    assert_eq!(first.expect_code, 0);
    let fourth = db.tests()[3];
    assert_eq!(db.get_string(fourth.suffix).as_slice(), b"opt");
    assert_eq!(db.get_command(fourth.command).as_slice(), b"/m -O2 {filename}");
    assert_eq!(fourth.expect_code, 2);
    assert!(fourth.snapshot_test_stderr);
    assert_eq!(db.get_path(fourth.path).as_slice(), b"/t/a.c");
}

#[test]
fn configuration_with_no_source_files_is_no_error() {
    let mut db = TestDatabase::new();
    let dir = db.add_path(b"/empty".to_vec());
    let files = entries(&[b"/empty/sub", b"/empty/data.txt"]);
    let config = Some(DirConfig::Flat(CommandSpec {
        command: b"{mcc}".to_vec(),
        return_code: 0,
        snapshot_test_stderr: false,
    }));
    detect_tests_in_dir(&mut db, dir, &files, &config, &b"/m".to_vec());
    assert_eq!(db.tests().len(), 0);
}

#[test]
fn hidden_file_named_like_an_extension_is_not_a_source_file() {
    let mut db = TestDatabase::new();
    let dir = db.add_path(b"/t".to_vec());
    let files = entries(&[b"/t/.c", b"/t/x.c"]);
    let cfg = CommandSpec {
        command: b"{mcc} {filename}".to_vec(),
        return_code: 0,
        snapshot_test_stderr: false,
    };
    detect_tests_with_command(&mut db, dir, &files, &cfg, &b"".to_vec(), &b"/m".to_vec());
    assert_eq!(db.tests().len(), 1);
    assert_eq!(db.get_path(db.tests()[0].path).as_slice(), b"/t/x.c");
}

#[test]
fn own_configuration_wins_over_inherited() {
    let own = Some(DirConfig::Flat(CommandSpec {
        command: b"own".to_vec(),
        return_code: 1,
        snapshot_test_stderr: false,
    }));
    let inherited = Some(DirConfig::Flat(CommandSpec {
        command: b"inherited".to_vec(),
        return_code: 2,
        snapshot_test_stderr: false,
    }));
    match effective_config(own, inherited) {
        Some(DirConfig::Flat(c)) => assert_eq!(c.command, b"own".to_vec()),
        _ => panic!("expected the directory's own configuration"),
    }
}

#[test]
fn inherited_configuration_applies_when_own_is_absent() {
    let inherited = Some(DirConfig::Flat(CommandSpec {
        command: b"inherited".to_vec(),
        return_code: 2,
        snapshot_test_stderr: false,
    }));
    match effective_config(None, inherited) {
        Some(DirConfig::Flat(c)) => assert_eq!(c.command, b"inherited".to_vec()),
        _ => panic!("expected the inherited configuration"),
    }
    assert!(effective_config(None, None).is_none());
}
