//! The reporter's pure decisions: the per-test message prefix, the
//! interactive yes/no answer, the failure tally, and the final summary line.
//!
//! Printing, terminal colors and the prompt loop live in the surrounding
//! program; everything here is a function from plain values to plain values.

use crate::test_runner::TestError;
use crate::text::{append_bytes, dec_digits, u64_to_dec};
use vstd::prelude::*;

verus! {

/// A path with every leading slash dropped.
pub open spec fn drop_slashes(s: Seq<u8>) -> Seq<u8>
    decreases s.len(),
{
    if s.len() > 0 && s.first() == 47 {
        drop_slashes(s.drop_first())
    } else {
        s
    }
}

/// The relative form of `path` under `base`: the bytes after `base`,
/// without the separator that joins them.
pub open spec fn rel_path(path: Seq<u8>, base: Seq<u8>) -> Seq<u8> {
    drop_slashes(path.subrange(base.len() as int, path.len() as int))
}

/// The message prefix of one test case: its path relative to the base
/// directory, the suffix label in brackets when there is one, and `: `.
pub open spec fn spec_case_prefix(path: Seq<u8>, base: Seq<u8>, suffix: Seq<u8>) -> Seq<u8> {
    rel_path(path, base) + (if suffix.len() > 0 {
        seq![91u8] + suffix + seq![93u8]
    } else {
        Seq::<u8>::empty()
    }) + seq![58u8, 32u8]
}

/// Builds the message prefix of one test case. The test's path always lies
/// under the base directory, since discovery found it there.
pub fn test_case_prefix(path: &Vec<u8>, base_dir: &Vec<u8>, suffix: &Vec<u8>) -> (r: Vec<u8>)
    requires
        base_dir@.len() <= path@.len(),
        path@.subrange(0, base_dir@.len() as int) == base_dir@,
    ensures
        r@ == spec_case_prefix(path@, base_dir@, suffix@),
{
    let n = path.len();
    let mut i = base_dir.len();
    while i < n && path[i] == 47
        invariant
            base_dir@.len() <= i <= n,
            n == path@.len(),
            rel_path(path@, base_dir@) == drop_slashes(path@.subrange(i as int, n as int)),
        decreases n - i,
    {
        proof {
            assert(path@.subrange(i as int, n as int).drop_first() =~= path@.subrange(
                i + 1,
                n as int,
            ));
        }
        i = i + 1;
    }
    let mut r: Vec<u8> = Vec::new();
    let mut t = i;
    while t < n
        invariant
            i <= t <= n,
            n == path@.len(),
            r@ == path@.subrange(i as int, t as int),
        decreases n - t,
    {
        let b = path[t];
        r.push(b);
        proof {
            assert(path@.subrange(i as int, t as int).push(path@[t as int]) =~= path@.subrange(
                i as int,
                t + 1,
            ));
        }
        t = t + 1;
    }
    proof {
        assert(r@ == drop_slashes(path@.subrange(i as int, n as int)));
    }
    if suffix.len() > 0 {
        r.push(91);
        append_bytes(&mut r, suffix);
        r.push(93);
    }
    r.push(58);
    r.push(32);
    proof {
        assert(r@ =~= spec_case_prefix(path@, base_dir@, suffix@));
    }
    r
}

/// True for the whitespace bytes that can end a line read from a terminal:
/// space, tab, carriage return and newline.
pub open spec fn is_trim_byte(b: u8) -> bool {
    b == 32 || b == 9 || b == 13 || b == 10
}

/// The answer without its trailing whitespace.
pub open spec fn trimmed_end(s: Seq<u8>) -> Seq<u8>
    decreases s.len(),
{
    if s.len() > 0 && is_trim_byte(s.last()) {
        trimmed_end(s.drop_last())
    } else {
        s
    }
}

/// How a trimmed prompt answer is read: `y` and `yes` accept, `n` and `no`
/// decline, anything else asks again.
pub open spec fn spec_yes_no(s: Seq<u8>) -> Option<bool> {
    let t = trimmed_end(s);
    if t == seq![121u8] || t == seq![121u8, 101u8, 115u8] {
        Some(true)
    } else if t == seq![110u8] || t == seq![110u8, 111u8] {
        Some(false)
    } else {
        None
    }
}

/// Reads a yes/no answer, ignoring trailing whitespace. `None` means the
/// answer was not recognized and the prompt is repeated.
pub fn parse_yes_no(answer: &Vec<u8>) -> (r: Option<bool>)
    ensures
        r == spec_yes_no(answer@),
{
    let n = answer.len();
    let mut k = n;
    proof {
        assert(answer@.subrange(0, n as int) =~= answer@);
    }
    while k > 0 && (answer[k - 1] == 32 || answer[k - 1] == 9 || answer[k - 1] == 13 || answer[k
        - 1] == 10)
        invariant
            k <= n,
            n == answer@.len(),
            trimmed_end(answer@) == trimmed_end(answer@.subrange(0, k as int)),
        decreases k,
    {
        proof {
            assert(answer@.subrange(0, k as int).drop_last() =~= answer@.subrange(0, k - 1));
        }
        k = k - 1;
    }
    proof {
        if k == 0 {
            assert(answer@.subrange(0, 0) =~= Seq::<u8>::empty());
        }
        assert(trimmed_end(answer@) == answer@.subrange(0, k as int));
    }
    let ghost t = trimmed_end(answer@);
    if k == 1 && answer[0] == 121 {
        proof {
            assert(t =~= seq![121u8]);
        }
        Some(true)
    } else if k == 3 && answer[0] == 121 && answer[1] == 101 && answer[2] == 115 {
        proof {
            assert(t =~= seq![121u8, 101u8, 115u8]);
        }
        Some(true)
    } else if k == 1 && answer[0] == 110 {
        proof {
            assert(t =~= seq![110u8]);
        }
        Some(false)
    } else if k == 2 && answer[0] == 110 && answer[1] == 111 {
        proof {
            assert(t =~= seq![110u8, 111u8]);
        }
        Some(false)
    } else {
        proof {
            assert(t.len() == k);
            if k == 1 {
                assert(t[0] == answer@[0]);
            }
            if k == 2 {
                assert(t[0] == answer@[0] && t[1] == answer@[1]);
            }
            if k == 3 {
                assert(t[0] == answer@[0] && t[1] == answer@[1] && t[2] == answer@[2]);
            }
        }
        None
    }
}

/// How many verdicts are failures.
pub open spec fn failed_count(rs: Seq<Result<(), TestError>>) -> nat
    decreases rs.len(),
{
    if rs.len() == 0 {
        0
    } else {
        failed_count(rs.drop_last()) + (if rs.last() is Err {
            1nat
        } else {
            0nat
        })
    }
}

/// Counts the failed verdicts of a run.
pub fn tally_results(results: &Vec<Result<(), TestError>>) -> (failed: usize)
    ensures
        failed == failed_count(results@),
        failed <= results@.len(),
{
    let mut failed: usize = 0;
    let mut i: usize = 0;
    proof {
        assert(results@.subrange(0, 0) =~= Seq::<Result<(), TestError>>::empty());
    }
    while i < results.len()
        invariant
            i <= results@.len(),
            failed == failed_count(results@.subrange(0, i as int)),
            failed <= i,
        decreases results@.len() - i,
    {
        proof {
            assert(results@.subrange(0, i + 1).drop_last() =~= results@.subrange(0, i as int));
            assert(results@.subrange(0, i + 1).last() == results@[i as int]);
        }
        match &results[i] {
            Err(_) => {
                failed = failed + 1;
            },
            Ok(_) => {},
        }
        i = i + 1;
    }
    proof {
        assert(results@.subrange(0, results@.len() as int) =~= results@);
    }
    failed
}

/// The summary line `[passed/total] tests pass`.
pub open spec fn spec_summary_line(passed: nat, total: nat) -> Seq<u8> {
    seq![91u8] + dec_digits(passed) + seq![47u8] + dec_digits(total) + seq![93u8] + seq![
        32u8, 116u8, 101u8, 115u8, 116u8, 115u8, 32u8, 112u8, 97u8, 115u8, 115u8,
    ]
}

/// Builds the summary line shown after all results are reported.
pub fn summary_line(passed: usize, total: usize) -> (r: Vec<u8>)
    ensures
        r@ == spec_summary_line(passed as nat, total as nat),
{
    let mut r: Vec<u8> = Vec::new();
    r.push(91);
    let p = u64_to_dec(passed as u64);
    append_bytes(&mut r, &p);
    r.push(47);
    let t = u64_to_dec(total as u64);
    append_bytes(&mut r, &t);
    r.push(93);
    let tail: Vec<u8> = vec![
        32u8, 116u8, 101u8, 115u8, 116u8, 115u8, 32u8, 112u8, 97u8, 115u8, 115u8,
    ];
    append_bytes(&mut r, &tail);
    proof {
        assert(tail@ =~= seq![
            32u8, 116u8, 101u8, 115u8, 116u8, 115u8, 32u8, 112u8, 97u8, 115u8, 115u8,
        ]);
        assert(r@ =~= spec_summary_line(passed as nat, total as nat));
    }
    r
}

} // verus!
