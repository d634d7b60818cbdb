use test_driver::test_configuration::TestConfig;
use test_driver::test_database::TestDatabase;
use test_driver::test_runner::{approved_path_of, build_command, evaluate_test, judge_test, normalize_stderr};

#[test]
fn placeholders_are_substituted() {
    let cmd = build_command(&b"/m/mcc {filename} -o {base}".to_vec(), &b"/t/a.c".to_vec());
    assert_eq!(cmd, b"/m/mcc /t/a.c -o /t/a".to_vec());
}

#[test]
fn base_keeps_paths_without_extension() {
    let cmd = build_command(&b"{base}".to_vec(), &b"/t/binary".to_vec());
    assert_eq!(cmd, b"/t/binary".to_vec());
    let dotted = build_command(&b"{base}".to_vec(), &b"/t.dir/binary".to_vec());
    assert_eq!(dotted, b"/t.dir/binary".to_vec());
}

#[test]
fn base_directory_is_replaced_in_stderr() {
    // The base directory never reaches a snapshot: it is replaced by the
    // portability placeholder before comparison and writing.
    let stderr = b"error in /home/u/tests/d/a.c:1\n".to_vec();
    let norm = normalize_stderr(&stderr, &b"/home/u/tests".to_vec());
    assert_eq!(norm, b"error in {{base_dir}}/d/a.c:1\n".to_vec());
}

#[test]
fn every_occurrence_of_the_base_directory_is_replaced() {
    let stderr = b"/b /b x/b".to_vec();
    let norm = normalize_stderr(&stderr, &b"/b".to_vec());
    assert_eq!(norm, b"{{base_dir}} {{base_dir}} x{{base_dir}}".to_vec());
}

#[test]
fn matching_exit_code_passes() {
    assert!(evaluate_test(2, Some(2), b"".to_vec(), Ok(())).is_ok());
}

#[test]
fn differing_exit_code_fails() {
    let e = evaluate_test(2, Some(1), b"".to_vec(), Ok(())).err().unwrap();
    assert_eq!(e.expect_code, 2);
    assert_eq!(e.actual_code, Some(1));
}

#[test]
fn signal_death_fails() {
    let e = evaluate_test(0, None, b"".to_vec(), Ok(())).err().unwrap();
    assert_eq!(e.actual_code, None);
    let text = String::from_utf8(e.message()).unwrap();
    assert_eq!(text, "Expected return code: 0 Actual return code: none\n");
}

#[test]
fn directive_overrides_directory_code() {
    // Directory says 1, the file says 2: exit code 2 passes.
    let source = b"int main() {} // RETURN: 2\n".to_vec();
    let base = b"/t".to_vec();
    let ok = judge_test(1, false, &source, Some(2), &b"".to_vec(), &base, Err(vec![]), vec![]);
    assert!(ok.is_ok());
    // Exit code 1, the directory's own value, now fails.
    let failed = judge_test(1, false, &source, Some(1), &b"".to_vec(), &base, Err(vec![]), vec![]);
    let e = failed.err().unwrap();
    let text = String::from_utf8(e.message()).unwrap();
    assert_eq!(text, "Expected return code: 2 Actual return code: 1\n");
}

#[test]
fn failure_message_includes_stderr_without_snapshots() {
    let source = b"int main() {}\n".to_vec();
    let e = judge_test(
        0,
        false,
        &source,
        Some(1),
        &b"boom\n".to_vec(),
        &b"/t".to_vec(),
        Err(vec![]),
        vec![],
    )
    .err()
    .unwrap();
    let text = String::from_utf8(e.message()).unwrap();
    assert_eq!(
        text,
        "Expected return code: 0 Actual return code: 1\nwith error message:\nboom\n\n"
    );
}

#[test]
fn missing_approved_snapshot_fails_the_test() {
    // snapshot_test_stderr is on and no approved file exists: the test
    // fails even though the exit code matches.
    let source = b"int main() {}\n".to_vec();
    let e = judge_test(
        0,
        true,
        &source,
        Some(0),
        &b"oops\n".to_vec(),
        &b"/t".to_vec(),
        Err(b"failed to read".to_vec()),
        b"/t/a.stderr.approved.txt".to_vec(),
    )
    .err()
    .unwrap();
    let text = String::from_utf8(e.message()).unwrap();
    assert!(text.contains("Standard error is different than expected:"));
    assert!(text.contains("failed to open /t/a.stderr.approved.txt"));
    assert!(text.contains("+oops"));
}

#[test]
fn matching_snapshot_passes() {
    let source = b"int main() {}\n".to_vec();
    let r = judge_test(
        0,
        true,
        &source,
        Some(0),
        &b"/t/a.c: warning\n".to_vec(),
        &b"/t".to_vec(),
        Ok(b"{{base_dir}}/a.c: warning\n".to_vec()),
        b"/t/a.stderr.approved.txt".to_vec(),
    );
    assert!(r.is_ok());
}

#[test]
fn judging_a_test_is_deterministic() {
    // Two runs over the same inputs reach the same verdict.
    let source = b"int main() {} // RETURN: 3\n".to_vec();
    let base = b"/t".to_vec();
    let a = judge_test(0, false, &source, Some(3), &b"x\n".to_vec(), &base, Err(vec![]), vec![]);
    let b = judge_test(0, false, &source, Some(3), &b"x\n".to_vec(), &base, Err(vec![]), vec![]);
    assert_eq!(a.is_ok(), b.is_ok());
    let c = judge_test(0, false, &source, Some(4), &b"x\n".to_vec(), &base, Err(vec![]), vec![]);
    let d = judge_test(0, false, &source, Some(4), &b"x\n".to_vec(), &base, Err(vec![]), vec![]);
    assert_eq!(c.is_err(), d.is_err());
}

#[test]
fn override_by_file_changes_only_the_expected_code() {
    let mut db = TestDatabase::new();
    let p = db.add_path(b"/t/a.c".to_vec());
    let w = db.add_path(b"/t".to_vec());
    let c = db.add_command(b"cc".to_vec());
    let s = db.add_string(b"".to_vec());
    let t = TestConfig {
        path: p,
        command: c,
        expect_code: 1,
        suffix: s,
        working_dir: w,
        snapshot_test_stderr: true,
    };
    let o = t.override_by_file(&b"// RETURN: 9\n".to_vec());
    assert_eq!(o.expect_code, 9);
    assert_eq!(o.path, t.path);
    assert_eq!(o.command, t.command);
    assert_eq!(o.suffix, t.suffix);
    assert_eq!(o.working_dir, t.working_dir);
    assert!(o.snapshot_test_stderr);
}

#[test]
fn negative_expected_codes_are_printed_with_a_sign() {
    let e = evaluate_test(-1, Some(2), b"".to_vec(), Ok(())).err().unwrap();
    let text = String::from_utf8(e.message()).unwrap();
    assert_eq!(text, "Expected return code: -1 Actual return code: 2\n");
    let e = evaluate_test(-2147483648, None, b"".to_vec(), Ok(())).err().unwrap();
    let text = String::from_utf8(e.message()).unwrap();
    assert_eq!(text, "Expected return code: -2147483648 Actual return code: none\n");
}

#[test]
fn approved_snapshot_path_replaces_the_extension() {
    assert_eq!(
        approved_path_of(&b"/t/a.c".to_vec()),
        b"/t/a.stderr.approved.txt".to_vec()
    );
    assert_eq!(
        approved_path_of(&b"/t/noext".to_vec()),
        b"/t/noext.stderr.approved.txt".to_vec()
    );
}
