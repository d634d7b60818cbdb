//! Judging one test run: the effective expected exit code, the command the
//! shell is handed, the normalization of captured standard error, the
//! snapshot comparison, and the verdict with its report text.
//!
//! The functions here are pure: the surrounding program re-reads the test's
//! source file, runs the shell command, and reads the approved snapshot
//! file, then hands the plain values in. The verdict is a function of those
//! values alone.

use crate::snapshot_testing::{
    SnapshotError, expected_view, snapshot_match, snapshot_verdict, spec_snapshot_message,
};
use crate::test_configuration::{lines_of, overridden_code, override_code};
use crate::text::{append_bytes, dec_int, i64_to_dec, replace_all, replaced};
use vstd::prelude::*;

verus! {

/// A failed test: the exit-code expectation and outcome, the normalized
/// captured standard error, and the snapshot comparison's outcome.
pub struct TestError {
    /// The effective expected exit code of this run.
    pub expect_code: i32,
    /// The exit code the process returned; `None` when it was ended by a
    /// signal instead of exiting.
    pub actual_code: Option<i32>,
    /// Captured standard error, with the base directory already replaced by
    /// the portability placeholder.
    pub actual_stderr: Vec<u8>,
    /// The snapshot comparison's outcome; `Ok` when none was requested.
    pub stderr_snapshot_result: Result<(), SnapshotError>,
}

/// The ordered verdicts of a whole run, and how long it took.
pub struct TestsOutput {
    /// One verdict per test case, in database order.
    pub results: Vec<Result<(), TestError>>,
    /// Wall-clock time of the run, in milliseconds.
    pub time: u64,
}

/// The bytes of the `{filename}` placeholder.
pub open spec fn filename_marker() -> Seq<u8> {
    seq![123u8, 102u8, 105u8, 108u8, 101u8, 110u8, 97u8, 109u8, 101u8, 125u8]
}

/// The bytes of the `{base}` placeholder.
pub open spec fn base_marker() -> Seq<u8> {
    seq![123u8, 98u8, 97u8, 115u8, 101u8, 125u8]
}

/// The bytes of the `{{base_dir}}` portability placeholder.
pub open spec fn base_dir_marker() -> Seq<u8> {
    seq![123u8, 123u8, 98u8, 97u8, 115u8, 101u8, 95u8, 100u8, 105u8, 114u8, 125u8, 125u8]
}

/// The index of the last dot of the final path component of `p[..end]`, or
/// a negative value when that component has none.
pub open spec fn dot_pos(p: Seq<u8>, end: int) -> int
    decreases end,
{
    if end <= 0 {
        -1
    } else if end <= p.len() && p[end - 1] == 46 {
        end - 1
    } else if end <= p.len() && p[end - 1] == 47 {
        -1
    } else {
        dot_pos(p, end - 1)
    }
}

/// The path without its extension: everything before the last dot of the
/// final component, when that dot leaves a non-empty stem; otherwise the
/// path unchanged.
pub open spec fn base_of(p: Seq<u8>) -> Seq<u8> {
    let d = dot_pos(p, p.len() as int);
    if d <= 0 {
        p
    } else if p[d - 1] == 47 {
        p
    } else {
        p.subrange(0, d)
    }
}

/// Strips the extension from a path, as [`base_of`] describes.
pub fn strip_extension(p: &Vec<u8>) -> (r: Vec<u8>)
    ensures
        r@ == base_of(p@),
{
    let n = p.len();
    let mut k = n;
    while k > 0 && p[k - 1] != 46 && p[k - 1] != 47
        invariant
            k <= n,
            n == p@.len(),
            dot_pos(p@, n as int) == dot_pos(p@, k as int),
        decreases k,
    {
        k = k - 1;
    }
    if k == 0 || p[k - 1] == 47 {
        proof {
            assert(dot_pos(p@, n as int) == -1);
        }
        return crate::text::copy_bytes(p);
    }
    let d = k - 1;
    proof {
        assert(dot_pos(p@, n as int) == d);
    }
    if d == 0 || p[d - 1] == 47 {
        return crate::text::copy_bytes(p);
    }
    let mut r: Vec<u8> = Vec::new();
    let mut t: usize = 0;
    while t < d
        invariant
            t <= d <= p@.len(),
            r@ == p@.subrange(0, t as int),
        decreases d - t,
    {
        let b = p[t];
        r.push(b);
        proof {
            assert(p@.subrange(0, t as int).push(p@[t as int]) =~= p@.subrange(0, t + 1));
        }
        t = t + 1;
    }
    r
}

/// The bytes of `.stderr.approved.txt`.
pub open spec fn approved_suffix() -> Seq<u8> {
    seq![
        46u8, 115u8, 116u8, 100u8, 101u8, 114u8, 114u8, 46u8, 97u8, 112u8, 112u8, 114u8, 111u8,
        118u8, 101u8, 100u8, 46u8, 116u8, 120u8, 116u8,
    ]
}

/// The fixed derived path of a test's approved snapshot file: the source
/// path with its extension replaced by `stderr.approved.txt`.
pub fn approved_path_of(path: &Vec<u8>) -> (r: Vec<u8>)
    ensures
        r@ == base_of(path@) + approved_suffix(),
{
    let mut r = strip_extension(path);
    let suffix: Vec<u8> = vec![
        46u8, 115u8, 116u8, 100u8, 101u8, 114u8, 114u8, 46u8, 97u8, 112u8, 112u8, 114u8, 111u8,
        118u8, 101u8, 100u8, 46u8, 116u8, 120u8, 116u8,
    ];
    proof {
        assert(suffix@ =~= approved_suffix());
    }
    append_bytes(&mut r, &suffix);
    r
}

/// Substitutes the test's own path for `{filename}` and its path without
/// extension for `{base}` in the command template, in that order.
pub fn build_command(template: &Vec<u8>, path: &Vec<u8>) -> (r: Vec<u8>)
    ensures
        r@ == replaced(
            replaced(template@, filename_marker(), path@),
            base_marker(),
            base_of(path@),
        ),
{
    let fmarker: Vec<u8> = vec![
        123u8, 102u8, 105u8, 108u8, 101u8, 110u8, 97u8, 109u8, 101u8, 125u8,
    ];
    let bmarker: Vec<u8> = vec![123u8, 98u8, 97u8, 115u8, 101u8, 125u8];
    proof {
        assert(fmarker@ =~= filename_marker());
        assert(bmarker@ =~= base_marker());
    }
    let base = strip_extension(path);
    let step = replace_all(template, &fmarker, path);
    replace_all(&step, &bmarker, &base)
}

/// Replaces every occurrence of the base directory in captured standard
/// error by the `{{base_dir}}` placeholder, so snapshots never hold
/// absolute local paths.
pub fn normalize_stderr(stderr: &Vec<u8>, base_dir: &Vec<u8>) -> (r: Vec<u8>)
    requires
        base_dir@.len() >= 1,
    ensures
        r@ == replaced(stderr@, base_dir@, base_dir_marker()),
{
    let marker: Vec<u8> = vec![
        123u8, 123u8, 98u8, 97u8, 115u8, 101u8, 95u8, 100u8, 105u8, 114u8, 125u8, 125u8,
    ];
    proof {
        assert(marker@ =~= base_dir_marker());
    }
    replace_all(stderr, base_dir, &marker)
}

/// A test passes exactly when the process exited with the effective
/// expected code and, where a snapshot comparison was requested, the
/// normalized standard error matches the approved text.
pub open spec fn spec_judgement(
    base_code: i32,
    snapshot_test_stderr: bool,
    source: Seq<u8>,
    actual_code: Option<i32>,
    norm_stderr: Seq<u8>,
    approved: Result<Seq<u8>, Seq<u8>>,
) -> bool {
    &&& actual_code == Some(overridden_code(lines_of(source), base_code))
    &&& (snapshot_test_stderr ==> snapshot_verdict(norm_stderr, approved))
}

/// Judging a test is a pure function of the frozen test case, the source
/// text, and the process outcome: two runs over the same inputs reach the
/// same verdict. With snapshots left untouched, a second run of a whole
/// unmodified tree therefore repeats every verdict and the tally.
pub proof fn lemma_judgement_deterministic(
    base_code: i32,
    snapshot_test_stderr: bool,
    source1: Seq<u8>,
    source2: Seq<u8>,
    actual1: Option<i32>,
    actual2: Option<i32>,
    stderr1: Seq<u8>,
    stderr2: Seq<u8>,
    approved1: Result<Seq<u8>, Seq<u8>>,
    approved2: Result<Seq<u8>, Seq<u8>>,
)
    requires
        source1 == source2,
        actual1 == actual2,
        stderr1 == stderr2,
        approved1 == approved2,
    ensures
        spec_judgement(base_code, snapshot_test_stderr, source1, actual1, stderr1, approved1)
            == spec_judgement(base_code, snapshot_test_stderr, source2, actual2, stderr2, approved2),
{
}

/// Builds the verdict from an exit-code expectation and outcome, the
/// normalized standard error, and the snapshot comparison's outcome.
pub fn evaluate_test(
    expect_code: i32,
    actual_code: Option<i32>,
    actual_stderr: Vec<u8>,
    stderr_snapshot_result: Result<(), SnapshotError>,
) -> (r: Result<(), TestError>)
    ensures
        r is Ok <==> (actual_code == Some(expect_code) && stderr_snapshot_result is Ok),
        r matches Err(te) ==> te.expect_code == expect_code && te.actual_code == actual_code
            && te.actual_stderr == actual_stderr && te.stderr_snapshot_result
            == stderr_snapshot_result,
{
    let code_ok = match actual_code {
        Some(c) => c == expect_code,
        None => false,
    };
    let snap_ok = stderr_snapshot_result.is_ok();
    if code_ok && snap_ok {
        Ok(())
    } else {
        Err(
            TestError {
                expect_code,
                actual_code,
                actual_stderr,
                stderr_snapshot_result,
            },
        )
    }
}

/// Judges one run of a test: applies the per-file override directive to the
/// expected exit code, normalizes the captured standard error, compares it
/// against the approved text where the test asks for it, and builds the
/// verdict. `approved` is only looked at when `snapshot_test_stderr` holds.
pub fn judge_test(
    base_expect_code: i32,
    snapshot_test_stderr: bool,
    source: &Vec<u8>,
    actual_code: Option<i32>,
    raw_stderr: &Vec<u8>,
    base_dir: &Vec<u8>,
    approved: Result<Vec<u8>, Vec<u8>>,
    approved_path: Vec<u8>,
) -> (r: Result<(), TestError>)
    requires
        base_dir@.len() >= 1,
    ensures
        r is Ok <==> spec_judgement(
            base_expect_code,
            snapshot_test_stderr,
            source@,
            actual_code,
            replaced(raw_stderr@, base_dir@, base_dir_marker()),
            expected_view(approved),
        ),
        r matches Err(te) ==> {
            &&& te.expect_code == overridden_code(lines_of(source@), base_expect_code)
            &&& te.actual_code == actual_code
            &&& te.actual_stderr@ == replaced(raw_stderr@, base_dir@, base_dir_marker())
            &&& (snapshot_test_stderr ==> ((te.stderr_snapshot_result is Ok <==> snapshot_verdict(
                te.actual_stderr@,
                expected_view(approved),
            )) && (te.stderr_snapshot_result matches Err(se) ==> se.actual@ == te.actual_stderr@
                && se.expected == approved && se.expected_path == approved_path)))
            &&& (!snapshot_test_stderr ==> te.stderr_snapshot_result is Ok)
        },
{
    let expect_code = override_code(source, base_expect_code);
    let norm = normalize_stderr(raw_stderr, base_dir);
    let snapshot_result: Result<(), SnapshotError> = if snapshot_test_stderr {
        snapshot_match(crate::text::copy_bytes(&norm), approved, approved_path)
    } else {
        Ok(())
    };
    evaluate_test(expect_code, actual_code, norm, snapshot_result)
}

impl TestError {
    /// The reporter's text for this failed test: the exit-code line when
    /// the codes differ, then either the snapshot mismatch with its diff or
    /// the raw captured standard error when there is any.
    pub fn message(&self) -> (r: Vec<u8>)
        ensures
            r@ == spec_test_error_message(
                self.expect_code as int,
                self.actual_code,
                self.actual_stderr@,
                match self.stderr_snapshot_result {
                    Ok(()) => None,
                    Err(se) => Some(
                        spec_snapshot_message(
                            se.actual@,
                            expected_view(se.expected),
                            se.expected_path@,
                        ),
                    ),
                },
            ),
    {
        let mut r: Vec<u8> = Vec::new();
        let code_matches = match self.actual_code {
            Some(c) => c == self.expect_code,
            None => false,
        };
        if !code_matches {
            let head: Vec<u8> = vec![
                69u8, 120u8, 112u8, 101u8, 99u8, 116u8, 101u8, 100u8, 32u8, 114u8, 101u8, 116u8,
                117u8, 114u8, 110u8, 32u8, 99u8, 111u8, 100u8, 101u8, 58u8, 32u8,
            ];
            proof {
                assert(head@ =~= expected_code_prefix());
            }
            append_bytes(&mut r, &head);
            let expect_digits = i64_to_dec(self.expect_code as i64);
            append_bytes(&mut r, &expect_digits);
            let mid: Vec<u8> = vec![
                32u8, 65u8, 99u8, 116u8, 117u8, 97u8, 108u8, 32u8, 114u8, 101u8, 116u8, 117u8,
                114u8, 110u8, 32u8, 99u8, 111u8, 100u8, 101u8, 58u8, 32u8,
            ];
            proof {
                assert(mid@ =~= actual_code_infix());
            }
            append_bytes(&mut r, &mid);
            match self.actual_code {
                Some(c) => {
                    let digits = i64_to_dec(c as i64);
                    append_bytes(&mut r, &digits);
                },
                None => {
                    let none_word: Vec<u8> = vec![110u8, 111u8, 110u8, 101u8];
                    proof {
                        assert(none_word@ =~= none_text());
                    }
                    append_bytes(&mut r, &none_word);
                },
            }
            r.push(10);
        }
        match &self.stderr_snapshot_result {
            Err(se) => {
                let head: Vec<u8> = vec![
                    83u8, 116u8, 97u8, 110u8, 100u8, 97u8, 114u8, 100u8, 32u8, 101u8, 114u8,
                    114u8, 111u8, 114u8, 32u8, 105u8, 115u8, 32u8, 100u8, 105u8, 102u8, 102u8,
                    101u8, 114u8, 101u8, 110u8, 116u8, 32u8, 116u8, 104u8, 97u8, 110u8, 32u8,
                    101u8, 120u8, 112u8, 101u8, 99u8, 116u8, 101u8, 100u8, 58u8,
                ];
                proof {
                    assert(head@ =~= snapshot_differs_text());
                }
                append_bytes(&mut r, &head);
                r.push(10);
                let msg = se.message();
                append_bytes(&mut r, &msg);
                r.push(10);
            },
            Ok(()) => {
                if self.actual_stderr.len() > 0 {
                    let head: Vec<u8> = vec![
                        119u8, 105u8, 116u8, 104u8, 32u8, 101u8, 114u8, 114u8, 111u8, 114u8,
                        32u8, 109u8, 101u8, 115u8, 115u8, 97u8, 103u8, 101u8, 58u8,
                    ];
                    proof {
                        assert(head@ =~= stderr_heading_text());
                    }
                    append_bytes(&mut r, &head);
                    r.push(10);
                    append_bytes(&mut r, &self.actual_stderr);
                    r.push(10);
                }
            },
        }
        proof {
            assert(r@ =~= spec_test_error_message(
                self.expect_code as int,
                self.actual_code,
                self.actual_stderr@,
                match self.stderr_snapshot_result {
                    Ok(()) => None,
                    Err(se) => Some(
                        spec_snapshot_message(
                            se.actual@,
                            expected_view(se.expected),
                            se.expected_path@,
                        ),
                    ),
                },
            ));
        }
        r
    }
}

/// The bytes of `Expected return code: `.
pub open spec fn expected_code_prefix() -> Seq<u8> {
    seq![
        69u8, 120u8, 112u8, 101u8, 99u8, 116u8, 101u8, 100u8, 32u8, 114u8, 101u8, 116u8, 117u8,
        114u8, 110u8, 32u8, 99u8, 111u8, 100u8, 101u8, 58u8, 32u8,
    ]
}

/// The bytes of ` Actual return code: `.
pub open spec fn actual_code_infix() -> Seq<u8> {
    seq![
        32u8, 65u8, 99u8, 116u8, 117u8, 97u8, 108u8, 32u8, 114u8, 101u8, 116u8, 117u8, 114u8,
        110u8, 32u8, 99u8, 111u8, 100u8, 101u8, 58u8, 32u8,
    ]
}

/// The bytes of `none`.
pub open spec fn none_text() -> Seq<u8> {
    seq![110u8, 111u8, 110u8, 101u8]
}

/// The bytes of `Standard error is different than expected:`.
pub open spec fn snapshot_differs_text() -> Seq<u8> {
    seq![
        83u8, 116u8, 97u8, 110u8, 100u8, 97u8, 114u8, 100u8, 32u8, 101u8, 114u8, 114u8, 111u8,
        114u8, 32u8, 105u8, 115u8, 32u8, 100u8, 105u8, 102u8, 102u8, 101u8, 114u8, 101u8, 110u8,
        116u8, 32u8, 116u8, 104u8, 97u8, 110u8, 32u8, 101u8, 120u8, 112u8, 101u8, 99u8, 116u8,
        101u8, 100u8, 58u8,
    ]
}

/// The bytes of `with error message:`.
pub open spec fn stderr_heading_text() -> Seq<u8> {
    seq![
        119u8, 105u8, 116u8, 104u8, 32u8, 101u8, 114u8, 114u8, 111u8, 114u8, 32u8, 109u8, 101u8,
        115u8, 115u8, 97u8, 103u8, 101u8, 58u8,
    ]
}

/// The reporter's text for a failed test. The exit-code line appears only
/// when the actual code differs from the expected one; then comes either
/// the snapshot mismatch with its rendered text, or the captured standard
/// error when there is any.
pub open spec fn spec_test_error_message(
    expect_code: int,
    actual_code: Option<i32>,
    actual_stderr: Seq<u8>,
    snapshot_message: Option<Seq<u8>>,
) -> Seq<u8> {
    (if actual_code == Some(expect_code as i32) {
        Seq::<u8>::empty()
    } else {
        expected_code_prefix() + dec_int(expect_code) + actual_code_infix() + (match actual_code {
            Some(c) => dec_int(c as int),
            None => none_text(),
        }) + seq![10u8]
    }) + (match snapshot_message {
        Some(m) => snapshot_differs_text() + seq![10u8] + m + seq![10u8],
        None => if actual_stderr.len() > 0 {
            stderr_heading_text() + seq![10u8] + actual_stderr + seq![10u8]
        } else {
            Seq::<u8>::empty()
        },
    })
}

} // verus!
