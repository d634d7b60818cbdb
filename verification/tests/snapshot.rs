use test_driver::snapshot_testing::snapshot_match;

#[test]
fn matching_text_passes() {
    // Snapshot comparison is reflexive: a file written from the actual
    // output always matches that same output.
    let r = snapshot_match(b"out\n".to_vec(), Ok(b"out\n".to_vec()), b"/t/a.stderr.approved.txt".to_vec());
    assert!(r.is_ok());
}

#[test]
fn differing_text_fails_with_the_inputs_kept() {
    let r = snapshot_match(
        b"actual\n".to_vec(),
        Ok(b"approved\n".to_vec()),
        b"/t/a.stderr.approved.txt".to_vec(),
    );
    let e = r.err().expect("mismatch must fail");
    assert_eq!(e.actual, b"actual\n".to_vec());
    assert_eq!(e.expected, Ok(b"approved\n".to_vec()));
    assert_eq!(e.expected_path, b"/t/a.stderr.approved.txt".to_vec());
}

#[test]
fn unreadable_approved_file_fails() {
    // A missing approved file never matches, even against empty output.
    let r = snapshot_match(
        b"".to_vec(),
        Err(b"No such file or directory".to_vec()),
        b"/t/a.stderr.approved.txt".to_vec(),
    );
    assert!(r.is_err());
}

#[test]
fn missing_approved_file_message_diffs_against_empty_text() {
    let r = snapshot_match(
        b"warning: boom\n".to_vec(),
        Err(b"No such file or directory".to_vec()),
        b"/t/a.stderr.approved.txt".to_vec(),
    );
    let e = r.err().unwrap();
    let text = String::from_utf8(e.message()).unwrap();
    assert!(text.contains("failed to open /t/a.stderr.approved.txt"));
    assert!(text.contains("No such file or directory"));
    assert!(text.contains("+warning: boom"));
    assert!(!text.contains("-warning: boom"));
}

#[test]
fn mismatch_message_shows_a_line_diff() {
    let r = snapshot_match(b"b\n".to_vec(), Ok(b"a\n".to_vec()), b"/p".to_vec());
    let e = r.err().unwrap();
    let text = String::from_utf8(e.message()).unwrap();
    assert_eq!(text, "1         |-a\n     1    |+b\n");
}

#[test]
fn equal_lines_keep_both_line_numbers() {
    let r = snapshot_match(
        b"same\ndiffers\n".to_vec(),
        Ok(b"same\nchanged\n".to_vec()),
        b"/p".to_vec(),
    );
    let e = r.err().unwrap();
    let text = String::from_utf8(e.message()).unwrap();
    assert!(text.contains("1    1    | same\n"));
    assert!(text.contains("-changed\n"));
    assert!(text.contains("+differs\n"));
}

#[test]
fn accepting_the_actual_output_makes_the_next_run_pass() {
    // Interactive accept overwrites the approved file with the actual
    // output; the same comparison afterwards succeeds.
    let actual = b"new output\n".to_vec();
    let first = snapshot_match(actual.clone(), Ok(b"old output\n".to_vec()), b"/p".to_vec());
    let approved = first.err().unwrap().actual;
    let second = snapshot_match(actual, Ok(approved), b"/p".to_vec());
    assert!(second.is_ok());
}
