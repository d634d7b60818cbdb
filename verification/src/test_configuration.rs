//! The configuration of a single resolved test case, and the per-file
//! directive that can override its expected exit code.
//!
//! A test source file may carry, on any line, a trailing directive of the
//! shape `// RETURN: <digits>` (with one or more spaces after `//` and after
//! `RETURN:`, and the digits ending the line). The last such directive in the
//! file overrides the directory-level expected exit code for that file only.

use crate::test_database::{CommandHandle, PathHandle, StringHandle};
use crate::text::matches_at;
use vstd::prelude::*;

verus! {

/// One resolved, runnable test case.
///
/// Handles point into the [`crate::test_database::TestDatabase`] that the
/// test was registered with. `suffix` is non-empty only when the owning
/// directory configuration names multiple command variants.
#[derive(Debug, Copy, Clone, PartialEq, Eq, Structural)]
pub struct TestConfig {
    pub path: PathHandle,
    pub command: CommandHandle,
    /// Expected process exit code.
    pub expect_code: i32,
    /// Reporting label; non-empty when a file is tested under several variants.
    pub suffix: StringHandle,
    pub working_dir: PathHandle,
    /// Whether captured standard error must match an approved snapshot file.
    pub snapshot_test_stderr: bool,
}

impl TestConfig {
    /// All handles point below the given arena lengths.
    pub open spec fn valid_for(self, n_paths: int, n_strings: int) -> bool {
        &&& self.path.id() < n_paths
        &&& self.working_dir.id() < n_paths
        &&& self.command.id() < n_strings
        &&& self.suffix.id() < n_strings
    }

    /// Applies the per-file override directive found in the test's source
    /// text: the last matching directive replaces the expected exit code;
    /// everything else is kept as it is.
    pub fn override_by_file(&self, source: &Vec<u8>) -> (r: TestConfig)
        ensures
            r.expect_code == overridden_code(lines_of(source@), self.expect_code),
            r.path == self.path,
            r.command == self.command,
            r.suffix == self.suffix,
            r.working_dir == self.working_dir,
            r.snapshot_test_stderr == self.snapshot_test_stderr,
    {
        let mut modified = *self;
        modified.expect_code = override_code(source, self.expect_code);
        modified
    }
}

/// True for the bytes `0` through `9`.
pub open spec fn is_dec_digit(b: u8) -> bool {
    48 <= b <= 57
}

/// The start of the maximal run of decimal digits that ends at `end`.
pub open spec fn digits_start(s: Seq<u8>, end: int) -> int
    decreases end,
{
    if end <= 0 {
        0
    } else if end <= s.len() && is_dec_digit(s[end - 1]) {
        digits_start(s, end - 1)
    } else {
        end
    }
}

/// The start of the maximal run of spaces that ends at `end`.
pub open spec fn spaces_start(s: Seq<u8>, end: int) -> int
    decreases end,
{
    if end <= 0 {
        0
    } else if end <= s.len() && s[end - 1] == 32 {
        spaces_start(s, end - 1)
    } else {
        end
    }
}

/// The bytes of the directive keyword `RETURN:`.
pub open spec fn return_marker() -> Seq<u8> {
    seq![82u8, 69u8, 84u8, 85u8, 82u8, 78u8, 58u8]
}

/// The numeric value of a string of decimal digits, most significant first.
pub open spec fn dec_value(d: Seq<u8>) -> nat
    decreases d.len(),
{
    if d.len() == 0 {
        0
    } else {
        dec_value(d.drop_last()) * 10 + (d.last() - 48) as nat
    }
}

/// The value of the trailing exit-code directive of one line, if the line
/// ends with `//`, one or more spaces, `RETURN:`, one or more spaces, and one
/// or more digits that run to the end of the line.
pub open spec fn directive_of(line: Seq<u8>) -> Option<nat> {
    let n = line.len() as int;
    let k = digits_start(line, n);
    let j = spaces_start(line, k);
    let i = spaces_start(line, j - 7);
    if k < n && j < k && j >= 7 && line.subrange(j - 7, j) == return_marker() && i < j - 7 && i >= 2
        && line.subrange(i - 2, i) == seq![47u8, 47u8] {
        Some(dec_value(line.subrange(k, n)))
    } else {
        None
    }
}

/// The directive value of one line as an exit code. A directive whose value
/// does not fit in `i32` is ignored, as no process can exit with it.
pub open spec fn directive_code_of(line: Seq<u8>) -> Option<i32> {
    match directive_of(line) {
        Some(v) => if v <= i32::MAX as nat {
            Some(v as i32)
        } else {
            None
        },
        None => None,
    }
}

/// The lines of `content`, split on newline bytes; a carriage return that
/// ends a line is dropped. A trailing newline does not open an empty line.
pub open spec fn lines_of(s: Seq<u8>) -> Seq<Seq<u8>>
    decreases s.len(),
    via lines_of_decreases
{
    if s.len() == 0 {
        Seq::empty()
    } else {
        let p = newline_pos(s);
        if p == s.len() {
            seq![strip_cr(s)]
        } else {
            seq![strip_cr(s.subrange(0, p))] + lines_of(s.subrange(p + 1, s.len() as int))
        }
    }
}

#[via_fn]
proof fn lines_of_decreases(s: Seq<u8>) {
    lemma_newline_pos_bounds(s);
}

/// [`newline_pos`] always points inside the text or just past its end.
pub proof fn lemma_newline_pos_bounds(s: Seq<u8>)
    ensures
        0 <= newline_pos(s) <= s.len(),
    decreases s.len(),
{
    if s.len() > 0 && s[0] != 10 {
        lemma_newline_pos_bounds(s.subrange(1, s.len() as int));
    }
}

/// The index of the first newline byte of `s`, or its length.
pub open spec fn newline_pos(s: Seq<u8>) -> int
    decreases s.len(),
{
    if s.len() == 0 {
        0
    } else if s[0] == 10 {
        0
    } else {
        1 + newline_pos(s.subrange(1, s.len() as int))
    }
}

/// One line without a trailing carriage return.
pub open spec fn strip_cr(l: Seq<u8>) -> Seq<u8> {
    if l.len() > 0 && l.last() == 13 {
        l.drop_last()
    } else {
        l
    }
}

/// The expected exit code after applying the per-file directive: the last
/// line carrying a directive wins; without one the given code stands.
pub open spec fn overridden_code(lines: Seq<Seq<u8>>, default_code: i32) -> i32
    decreases lines.len(),
{
    if lines.len() == 0 {
        default_code
    } else {
        match directive_code_of(lines.last()) {
            Some(v) => v,
            None => overridden_code(lines.drop_last(), default_code),
        }
    }
}

/// Scans backward for the start of the digit run that ends at `end`.
fn scan_digits_start(line: &Vec<u8>, end: usize) -> (k: usize)
    requires
        end <= line@.len(),
    ensures
        k == digits_start(line@, end as int),
        k <= end,
{
    let mut k = end;
    while k > 0 && 48 <= line[k - 1] && line[k - 1] <= 57
        invariant
            k <= end <= line@.len(),
            digits_start(line@, end as int) == digits_start(line@, k as int),
        decreases k,
    {
        k = k - 1;
    }
    k
}

/// Scans backward for the start of the space run that ends at `end`.
fn scan_spaces_start(line: &Vec<u8>, end: usize) -> (k: usize)
    requires
        end <= line@.len(),
    ensures
        k == spaces_start(line@, end as int),
        k <= end,
{
    let mut k = end;
    while k > 0 && line[k - 1] == 32
        invariant
            k <= end <= line@.len(),
            spaces_start(line@, end as int) == spaces_start(line@, k as int),
        decreases k,
    {
        k = k - 1;
    }
    k
}

/// Every byte of the run found by [`digits_start`] is a decimal digit.
proof fn lemma_digits_run(s: Seq<u8>, end: int, t: int)
    requires
        end <= s.len(),
        0 <= t,
        digits_start(s, end) <= t < end,
    ensures
        is_dec_digit(s[t]),
    decreases end,
{
    if end > 0 && is_dec_digit(s[end - 1]) {
        if t < end - 1 {
            lemma_digits_run(s, end - 1, t);
        }
    }
}

/// The value of a digit run never shrinks as more digits are appended.
proof fn lemma_dec_value_mono(d: Seq<u8>, p: int)
    requires
        0 <= p <= d.len(),
    ensures
        dec_value(d) >= dec_value(d.subrange(0, p)),
    decreases d.len() - p,
{
    if p == d.len() {
        assert(d.subrange(0, p) =~= d);
    } else {
        lemma_dec_value_mono(d, p + 1);
        assert(d.subrange(0, p + 1).drop_last() =~= d.subrange(0, p));
        assert(dec_value(d.subrange(0, p + 1)) >= dec_value(d.subrange(0, p)));
    }
}

/// Parses the trailing `// RETURN: <digits>` directive of one line.
/// A directive whose value does not fit in `i32` is ignored.
pub fn parse_return_directive(line: &Vec<u8>) -> (r: Option<i32>)
    ensures
        r == directive_code_of(line@),
{
    let n = line.len();
    let k = scan_digits_start(line, n);
    if k >= n {
        return None;
    }
    let j = scan_spaces_start(line, k);
    if j >= k || j < 7 {
        return None;
    }
    let marker: Vec<u8> = vec![82u8, 69u8, 84u8, 85u8, 82u8, 78u8, 58u8];
    proof {
        assert(marker@ =~= return_marker());
    }
    if !matches_at(line, &marker, j - 7) {
        proof {
            assert(line@.subrange(j - 7, j as int) != return_marker());
        }
        return None;
    }
    proof {
        assert(line@.subrange(j - 7, j as int) =~= return_marker());
    }
    let i = scan_spaces_start(line, j - 7);
    if i >= j - 7 || i < 2 {
        return None;
    }
    if line[i - 2] != 47 || line[i - 1] != 47 {
        proof {
            assert(line@.subrange(i - 2, i as int) != seq![47u8, 47u8]);
        }
        return None;
    }
    proof {
        assert(line@.subrange(i - 2, i as int) =~= seq![47u8, 47u8]);
    }
    // The checks above match the directive shape; now read the digit run.
    let ghost digits = line@.subrange(k as int, n as int);
    proof {
        assert(directive_of(line@) == Some(dec_value(digits)));
    }
    let mut acc: u64 = 0;
    let mut p = k;
    proof {
        assert(digits.subrange(0, 0) =~= Seq::<u8>::empty());
    }
    while p < n
        invariant
            k <= p <= n,
            n == line@.len(),
            k == digits_start(line@, n as int),
            directive_of(line@) == Some(dec_value(digits)),
            digits == line@.subrange(k as int, n as int),
            acc == dec_value(digits.subrange(0, p - k)),
            acc <= i32::MAX,
        decreases n - p,
    {
        proof {
            lemma_digits_run(line@, n as int, p as int);
        }
        let d = line[p];
        let new_acc: u64 = acc * 10 + ((d - 48) as u64);
        proof {
            let pref = digits.subrange(0, p + 1 - k);
            assert(pref.drop_last() =~= digits.subrange(0, p - k));
            assert(pref.last() == line@[p as int]);
        }
        if new_acc > i32::MAX as u64 {
            proof {
                lemma_dec_value_mono(digits, p + 1 - k);
            }
            return None;
        }
        acc = new_acc;
        p = p + 1;
    }
    proof {
        assert(digits.subrange(0, n - k) =~= digits);
    }
    Some(acc as i32)
}

/// The expected exit code for one run of a test: the last directive found in
/// the source text wins over the directory-level code.
pub fn override_code(source: &Vec<u8>, default_code: i32) -> (r: i32)
    ensures
        r == overridden_code(lines_of(source@), default_code),
{
    let lines = split_lines(source);
    let ghost all = lines_of(source@);
    let mut cur = default_code;
    let mut idx: usize = 0;
    proof {
        assert(all.subrange(0, 0) =~= Seq::<Seq<u8>>::empty());
    }
    while idx < lines.len()
        invariant
            idx <= lines@.len(),
            lines.deep_view() == all,
            cur == overridden_code(all.subrange(0, idx as int), default_code),
        decreases lines@.len() - idx,
    {
        proof {
            let pref = all.subrange(0, idx + 1);
            assert(pref.drop_last() =~= all.subrange(0, idx as int));
            assert(pref.last() == lines@[idx as int]@);
        }
        match parse_return_directive(&lines[idx]) {
            Some(v) => {
                cur = v;
            },
            None => {},
        }
        idx = idx + 1;
    }
    proof {
        assert(all.subrange(0, all.len() as int) =~= all);
    }
    cur
}

/// The first newline at or after `from`, or the end of the text; the scan
/// realizes [`newline_pos`] on the suffix that starts at `from`.
fn find_newline(s: &Vec<u8>, from: usize) -> (q: usize)
    requires
        from <= s@.len(),
    ensures
        from <= q <= s@.len(),
        q - from == newline_pos(s@.subrange(from as int, s@.len() as int)),
        q < s@.len() ==> s@[q as int] == 10,
{
    let n = s.len();
    let mut q = from;
    while q < n && s[q] != 10
        invariant
            from <= q <= n,
            n == s@.len(),
            forall|t: int| from <= t < q ==> s@[t] != 10,
        decreases n - q,
    {
        q = q + 1;
    }
    proof {
        lemma_newline_pos_at(s@.subrange(from as int, n as int), q - from);
    }
    q
}

/// If everything before `p` is not a newline and `p` is a newline or the
/// end, then `p` is where [`newline_pos`] points.
proof fn lemma_newline_pos_at(s: Seq<u8>, p: int)
    requires
        0 <= p <= s.len(),
        forall|t: int| 0 <= t < p ==> s[t] != 10,
        p < s.len() ==> s[p] == 10,
    ensures
        newline_pos(s) == p,
    decreases p,
{
    if p == 0 {
    } else {
        let tail = s.subrange(1, s.len() as int);
        assert(forall|t: int| 0 <= t < p - 1 ==> tail[t] == s[t + 1] && s[t + 1] != 10);
        lemma_newline_pos_at(tail, p - 1);
    }
}

/// Splits a text into its lines, dropping the newline that ends each line
/// and a carriage return just before it.
pub fn split_lines(s: &Vec<u8>) -> (r: Vec<Vec<u8>>)
    ensures
        r.deep_view() == lines_of(s@),
{
    let n = s.len();
    let mut out: Vec<Vec<u8>> = Vec::new();
    let mut pos: usize = 0;
    proof {
        assert(out.deep_view() =~= Seq::<Seq<u8>>::empty());
        assert(s@.subrange(0, n as int) =~= s@);
    }
    while pos < n
        invariant
            pos <= n,
            n == s@.len(),
            lines_of(s@) == out.deep_view() + lines_of(s@.subrange(pos as int, n as int)),
        decreases n - pos,
    {
        let ghost rest = s@.subrange(pos as int, n as int);
        let q = find_newline(s, pos);
        let mut line: Vec<u8> = Vec::new();
        let mut t = pos;
        // Copy the line, leaving out a carriage return that ends it.
        let line_end = if q > pos && s[q - 1] == 13 {
            q - 1
        } else {
            q
        };
        while t < line_end
            invariant
                pos <= t <= line_end <= n,
                n == s@.len(),
                line@ == s@.subrange(pos as int, t as int),
            decreases line_end - t,
        {
            let b = s[t];
            line.push(b);
            proof {
                assert(s@.subrange(pos as int, t as int).push(s@[t as int]) =~= s@.subrange(
                    pos as int,
                    t + 1,
                ));
            }
            t = t + 1;
        }
        proof {
            let p = q - pos;
            assert(rest.subrange(0, p as int) =~= s@.subrange(pos as int, q as int));
            if q > pos && s@[q - 1] == 13 {
                assert(rest.subrange(0, p as int).drop_last() =~= s@.subrange(
                    pos as int,
                    q - 1,
                ));
            }
            if p == rest.len() {
                assert(strip_cr(rest) == line@);
                assert(out.deep_view().push(line@) =~= out.deep_view() + seq![strip_cr(rest)]);
            } else {
                assert(rest[p as int] == 10);
                assert(strip_cr(rest.subrange(0, p as int)) == line@);
                assert(rest.subrange(p + 1, rest.len() as int) =~= s@.subrange(
                    q + 1,
                    n as int,
                ));
                assert(out.deep_view().push(line@) + lines_of(s@.subrange(q + 1, n as int))
                    =~= out.deep_view() + (seq![strip_cr(rest.subrange(0, p as int))] + lines_of(
                    rest.subrange(p + 1, rest.len() as int),
                )));
            }
        }
        let ghost old_out = out.deep_view();
        out.push(line);
        proof {
            assert(out.deep_view() =~~= old_out.push(line@));
        }
        if q >= n {
            pos = n;
            proof {
                assert(lines_of(s@.subrange(n as int, n as int)) =~= Seq::<Seq<u8>>::empty());
                assert(out.deep_view() + Seq::<Seq<u8>>::empty() =~= out.deep_view());
            }
        } else {
            pos = q + 1;
        }
    }
    proof {
        assert(lines_of(s@.subrange(n as int, n as int)) =~= Seq::<Seq<u8>>::empty());
        assert(out.deep_view() + Seq::<Seq<u8>>::empty() =~= out.deep_view());
    }
    out
}

} // verus!
