use test_driver::test_configuration::TestConfig;
use test_driver::test_database::TestDatabase;

#[test]
fn intern_and_resolve_paths() {
    let mut db = TestDatabase::new();
    let h1 = db.add_path(b"/tests/a.c".to_vec());
    let h2 = db.add_path(b"/tests/b.c".to_vec());
    assert_ne!(h1, h2);
    assert_eq!(db.get_path(h1).as_slice(), b"/tests/a.c");
    assert_eq!(db.get_path(h2).as_slice(), b"/tests/b.c");
}

#[test]
fn commands_and_labels_share_one_arena() {
    let mut db = TestDatabase::new();
    let c = db.add_command(b"cc {filename}".to_vec());
    let s = db.add_string(b"variant".to_vec());
    assert_eq!(db.get_command(c).as_slice(), b"cc {filename}");
    assert_eq!(db.get_string(s).as_slice(), b"variant");
}

#[test]
fn duplicate_content_gets_fresh_handles() {
    let mut db = TestDatabase::new();
    let h1 = db.add_path(b"/same".to_vec());
    let h2 = db.add_path(b"/same".to_vec());
    assert_ne!(h1, h2);
    assert_eq!(db.get_path(h1), db.get_path(h2));
}

#[test]
fn tests_are_kept_in_insertion_order() {
    let mut db = TestDatabase::new();
    let p = db.add_path(b"/tests/a.c".to_vec());
    let w = db.add_path(b"/tests".to_vec());
    let c = db.add_command(b"cc".to_vec());
    let s = db.add_string(b"".to_vec());
    let t1 = TestConfig {
        path: p,
        command: c,
        expect_code: 0,
        suffix: s,
        working_dir: w,
        snapshot_test_stderr: false,
    };
    let mut t2 = t1;
    t2.expect_code = 7;
    db.add_test(t1);
    db.add_test(t2);
    assert_eq!(db.tests().len(), 2);
    assert_eq!(db.tests()[0].expect_code, 0);
    assert_eq!(db.tests()[1].expect_code, 7);
    assert_eq!(db.tests()[1].path, p);
}

#[test]
fn new_database_is_empty() {
    let db = TestDatabase::new();
    assert_eq!(db.tests().len(), 0);
}
