use test_driver::global_configuration::global_config;
use test_driver::state::TestRunnerStates;
use test_driver::test_reporter::{parse_yes_no, summary_line, tally_results, test_case_prefix};
use test_driver::test_runner::{TestError, TestsOutput, evaluate_test};

#[test]
fn prefix_is_relative_to_the_base_directory() {
    let p = test_case_prefix(&b"/base/dir/a.c".to_vec(), &b"/base".to_vec(), &b"".to_vec());
    assert_eq!(p, b"dir/a.c: ".to_vec());
}

#[test]
fn prefix_shows_the_variant_suffix() {
    let p = test_case_prefix(&b"/base/a.c".to_vec(), &b"/base".to_vec(), &b"opt".to_vec());
    assert_eq!(p, b"a.c[opt]: ".to_vec());
}

#[test]
fn yes_and_no_answers_are_recognized() {
    assert_eq!(parse_yes_no(&b"y\n".to_vec()), Some(true));
    assert_eq!(parse_yes_no(&b"yes\n".to_vec()), Some(true));
    assert_eq!(parse_yes_no(&b"yes".to_vec()), Some(true));
    assert_eq!(parse_yes_no(&b"n\n".to_vec()), Some(false));
    assert_eq!(parse_yes_no(&b"no  \n".to_vec()), Some(false));
}

#[test]
fn unrecognized_answers_ask_again() {
    assert_eq!(parse_yes_no(&b"maybe\n".to_vec()), None);
    assert_eq!(parse_yes_no(&b"".to_vec()), None);
    assert_eq!(parse_yes_no(&b"\n".to_vec()), None);
    assert_eq!(parse_yes_no(&b"Y\n".to_vec()), None);
    assert_eq!(parse_yes_no(&b"yess\n".to_vec()), None);
}

fn failing() -> Result<(), TestError> {
    evaluate_test(0, Some(1), b"".to_vec(), Ok(()))
}

#[test]
fn tally_counts_failures() {
    let results = vec![Ok(()), failing(), Ok(()), failing()];
    assert_eq!(tally_results(&results), 2);
    assert_eq!(tally_results(&vec![]), 0);
    assert_eq!(tally_results(&vec![Ok(()), Ok(())]), 0);
}

#[test]
fn tallying_twice_gives_the_same_count() {
    // With interactive accepts out of the way, reporting the same results
    // twice repeats the tally.
    let results = vec![Ok(()), failing()];
    assert_eq!(tally_results(&results), tally_results(&results));
}

#[test]
fn summary_line_is_exact() {
    assert_eq!(summary_line(3, 4), b"[3/4] tests pass".to_vec());
    assert_eq!(summary_line(0, 0), b"[0/0] tests pass".to_vec());
    assert_eq!(summary_line(12, 12), b"[12/12] tests pass".to_vec());
}

#[test]
fn counters_start_at_zero() {
    let s = TestRunnerStates::new();
    assert_eq!(s.failed_test_count, 0);
    assert_eq!(s.total_test_count, 0);
}

#[test]
fn run_configuration_keeps_its_inputs() {
    let c = global_config(b"/bin/mcc".to_vec(), b"/tests".to_vec(), true, false);
    assert_eq!(c.mcc_path, b"/bin/mcc".to_vec());
    assert_eq!(c.base_dir, b"/tests".to_vec());
    assert!(c.quiet);
    assert!(!c.interactive);
}

#[test]
fn run_output_carries_ordered_results() {
    let out = TestsOutput { results: vec![Ok(()), failing()], time: 1500 };
    assert_eq!(out.results.len(), 2);
    assert!(out.results[0].is_ok());
    assert!(out.results[1].is_err());
    assert_eq!(out.time, 1500);
}
