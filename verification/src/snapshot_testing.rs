//! Content-addressed snapshot comparison of captured standard error, and the
//! line-diff text shown when a comparison fails.
//!
//! An approved snapshot is a plain text file; the captured output matches
//! only when it equals the approved text byte for byte. A failed comparison
//! carries everything the reporter needs: the actual text, the approved text
//! or the reason it could not be read, and the approved file's path.

use crate::text::{append_bytes, bytes_eq, dec_digits, u64_to_dec};
use vstd::prelude::*;

verus! {

/// Whether a diff line stems from the expected text, the actual text, or
/// both.
#[derive(Debug, Copy, Clone, PartialEq, Eq, Structural)]
pub enum DiffTag {
    Delete,
    Insert,
    Equal,
}

/// One line of a computed diff: its origin, its line numbers in the expected
/// and the actual text, and its bytes.
pub struct DiffChange {
    pub tag: DiffTag,
    pub old_index: Option<usize>,
    pub new_index: Option<usize>,
    pub text: Vec<u8>,
}

impl DiffChange {
    /// The change as a plain tuple of values.
    pub open spec fn abs(self) -> (DiffTag, Option<int>, Option<int>, Seq<u8>) {
        (
            self.tag,
            match self.old_index {
                Some(u) => Some(u as int),
                None => None,
            },
            match self.new_index {
                Some(u) => Some(u as int),
                None => None,
            },
            self.text@,
        )
    }
}

/// The line diff of two byte texts, as the diff algorithm computes it from
/// the texts alone.
pub uninterp spec fn line_diff_of(expected: Seq<u8>, actual: Seq<u8>) -> Seq<
    (DiffTag, Option<int>, Option<int>, Seq<u8>),
>;

/// Relies on similar's `TextDiff::from_lines` and `iter_all_changes`: the
/// computed diff depends on the two texts alone; every change is one line of
/// one or both inputs, so its line index stays below that input's byte
/// length.
#[verifier::external_body]
fn diff_lines(expected: &Vec<u8>, actual: &Vec<u8>) -> (r: Vec<DiffChange>)
    ensures
        r@.map_values(|c: DiffChange| c.abs()) == line_diff_of(expected@, actual@),
        forall|i: int|
            0 <= i < r@.len() ==> (match (#[trigger] r@[i]).old_index {
                Some(u) => u < expected@.len(),
                None => true,
            } && match r@[i].new_index {
                Some(u) => u < actual@.len(),
                None => true,
            }),
{
    let diff = similar::TextDiff::from_lines(expected.as_slice(), actual.as_slice());
    diff.iter_all_changes().map(|c| DiffChange {
        tag: match c.tag() {
            similar::ChangeTag::Delete => DiffTag::Delete,
            similar::ChangeTag::Insert => DiffTag::Insert,
            similar::ChangeTag::Equal => DiffTag::Equal,
        },
        old_index: c.old_index(),
        new_index: c.new_index(),
        text: c.value().to_vec(),
    }).collect()
}

/// `n` spaces.
pub open spec fn spaces(n: nat) -> Seq<u8> {
    Seq::new(n, |i: int| 32u8)
}

/// A line-number column: left-aligned and padded with spaces to width four.
pub open spec fn pad4(s: Seq<u8>) -> Seq<u8> {
    if s.len() >= 4 {
        s
    } else {
        s + spaces((4 - s.len()) as nat)
    }
}

/// The rendered line-number column: a one-based line number, or blank when
/// the line has no number on that side.
pub open spec fn spec_line_no(idx: Option<int>) -> Seq<u8> {
    match idx {
        None => spaces(4),
        Some(i) => pad4(dec_digits((i + 1) as nat)),
    }
}

/// The sign column of a diff line.
pub open spec fn sign_byte(t: DiffTag) -> u8 {
    match t {
        DiffTag::Delete => 45,
        DiffTag::Insert => 43,
        DiffTag::Equal => 32,
    }
}

/// One rendered diff line: both line-number columns, a separator, the sign,
/// and the line's bytes, closed with a newline when the line lacks one.
pub open spec fn spec_change_line(c: (DiffTag, Option<int>, Option<int>, Seq<u8>)) -> Seq<u8> {
    spec_line_no(c.1) + seq![32u8] + spec_line_no(c.2) + seq![32u8, 124u8] + seq![sign_byte(c.0)]
        + c.3 + (if c.3.len() > 0 && c.3.last() == 10 {
        Seq::<u8>::empty()
    } else {
        seq![10u8]
    })
}

/// The rendered text of a whole diff, line by line.
pub open spec fn spec_diff_text(cs: Seq<(DiffTag, Option<int>, Option<int>, Seq<u8>)>) -> Seq<u8>
    decreases cs.len(),
{
    if cs.len() == 0 {
        Seq::empty()
    } else {
        spec_change_line(cs.first()) + spec_diff_text(cs.drop_first())
    }
}

/// All line numbers of the change are small enough to be printed one-based.
pub open spec fn change_indexes_bounded(c: DiffChange) -> bool {
    &&& match c.old_index {
        Some(u) => u < usize::MAX,
        None => true,
    }
    &&& match c.new_index {
        Some(u) => u < usize::MAX,
        None => true,
    }
}

/// Renders a line-number column.
fn render_line_no(idx: Option<usize>) -> (r: Vec<u8>)
    requires
        idx matches Some(u) ==> u < usize::MAX,
    ensures
        r@ == spec_line_no(
            match idx {
                Some(u) => Some(u as int),
                None => None,
            },
        ),
{
    match idx {
        None => {
            let r: Vec<u8> = vec![32u8, 32u8, 32u8, 32u8];
            proof {
                assert(r@ =~= spaces(4));
            }
            r
        },
        Some(u) => {
            let mut r = u64_to_dec((u as u64) + 1);
            let ghost digits = r@;
            while r.len() < 4
                invariant
                    digits.len() >= 4 ==> r@ == digits,
                    digits.len() < 4 ==> digits.len() <= r@.len() <= 4 && r@ == digits + spaces(
                        (r@.len() - digits.len()) as nat,
                    ),
                decreases 4 - r@.len(),
            {
                r.push(32);
                proof {
                    if digits.len() < 4 {
                        assert(r@ =~= digits + spaces((r@.len() - digits.len()) as nat));
                    }
                }
            }
            proof {
                if digits.len() >= 4 {
                    assert(pad4(digits) == digits);
                } else {
                    assert(r@ =~= pad4(digits));
                }
            }
            r
        },
    }
}

/// Renders one diff line.
fn render_change(c: &DiffChange) -> (r: Vec<u8>)
    requires
        change_indexes_bounded(*c),
    ensures
        r@ == spec_change_line(c.abs()),
{
    let mut r = render_line_no(c.old_index);
    r.push(32);
    let newcol = render_line_no(c.new_index);
    append_bytes(&mut r, &newcol);
    r.push(32);
    r.push(124);
    let sign: u8 = match c.tag {
        DiffTag::Delete => 45,
        DiffTag::Insert => 43,
        DiffTag::Equal => 32,
    };
    r.push(sign);
    append_bytes(&mut r, &c.text);
    let needs_nl = c.text.len() == 0 || c.text[c.text.len() - 1] != 10;
    if needs_nl {
        r.push(10);
    }
    proof {
        assert(r@ =~= spec_change_line(c.abs()));
    }
    r
}

/// Appending one change to the diff appends its rendered line.
proof fn lemma_diff_text_snoc(
    cs: Seq<(DiffTag, Option<int>, Option<int>, Seq<u8>)>,
    x: (DiffTag, Option<int>, Option<int>, Seq<u8>),
)
    ensures
        spec_diff_text(cs.push(x)) == spec_diff_text(cs) + spec_change_line(x),
    decreases cs.len(),
{
    let whole = cs.push(x);
    if cs.len() == 0 {
        assert(whole.first() == x);
        assert(whole.drop_first() =~= Seq::<(DiffTag, Option<int>, Option<int>, Seq<u8>)>::empty());
        assert(spec_diff_text(Seq::<(DiffTag, Option<int>, Option<int>, Seq<u8>)>::empty())
            == Seq::<u8>::empty());
        assert(spec_change_line(x) + Seq::<u8>::empty() =~= spec_change_line(x));
        assert(spec_diff_text(cs) + spec_change_line(x) =~= spec_change_line(x));
    } else {
        assert(whole.first() == cs.first());
        assert(whole.drop_first() =~= cs.drop_first().push(x));
        lemma_diff_text_snoc(cs.drop_first(), x);
        assert(spec_diff_text(whole) =~= spec_diff_text(cs) + spec_change_line(x));
    }
}

/// Renders a whole diff, line by line.
pub fn render_diff(changes: &Vec<DiffChange>) -> (r: Vec<u8>)
    requires
        forall|i: int| 0 <= i < changes@.len() ==> change_indexes_bounded(#[trigger] changes@[i]),
    ensures
        r@ == spec_diff_text(changes@.map_values(|c: DiffChange| c.abs())),
{
    let ghost all = changes@.map_values(|c: DiffChange| c.abs());
    let mut r: Vec<u8> = Vec::new();
    let mut i: usize = 0;
    proof {
        assert(r@ =~= spec_diff_text(all.subrange(0, 0)));
    }
    while i < changes.len()
        invariant
            i <= changes@.len(),
            all == changes@.map_values(|c: DiffChange| c.abs()),
            forall|k: int|
                0 <= k < changes@.len() ==> change_indexes_bounded(#[trigger] changes@[k]),
            r@ == spec_diff_text(all.subrange(0, i as int)),
        decreases changes@.len() - i,
    {
        let line = render_change(&changes[i]);
        append_bytes(&mut r, &line);
        proof {
            assert(all.subrange(0, i + 1) =~= all.subrange(0, i as int).push(
                changes@[i as int].abs(),
            ));
            lemma_diff_text_snoc(all.subrange(0, i as int), changes@[i as int].abs());
        }
        i = i + 1;
    }
    proof {
        assert(all.subrange(0, all.len() as int) =~= all);
    }
    r
}

/// A failed snapshot comparison: the actual text, the approved text or the
/// reason it could not be read, and the approved file's path.
pub struct SnapshotError {
    pub actual: Vec<u8>,
    /// The approved text, or the message of the read failure.
    pub expected: Result<Vec<u8>, Vec<u8>>,
    pub expected_path: Vec<u8>,
}

/// The approved-or-failed reading of a snapshot file, as plain values.
pub open spec fn expected_view(e: Result<Vec<u8>, Vec<u8>>) -> Result<Seq<u8>, Seq<u8>> {
    match e {
        Ok(v) => Ok(v@),
        Err(v) => Err(v@),
    }
}

/// A comparison succeeds exactly when the approved text could be read and
/// equals the actual text byte for byte.
pub open spec fn snapshot_verdict(actual: Seq<u8>, expected: Result<Seq<u8>, Seq<u8>>) -> bool {
    expected matches Ok(e) && e == actual
}

/// Snapshot comparison is reflexive: an approved text taken from the actual
/// output always matches that same output.
pub proof fn lemma_snapshot_reflexive(actual: Seq<u8>)
    ensures
        snapshot_verdict(actual, Ok(actual)),
{
}

/// Compares captured output against the approved text read from the
/// snapshot file. A missing or unreadable approved text never matches; the
/// error carries the comparison's inputs for the reporter.
pub fn snapshot_match(actual: Vec<u8>, expected: Result<Vec<u8>, Vec<u8>>, expected_path: Vec<u8>)
    -> (r: Result<(), SnapshotError>)
    ensures
        r is Ok <==> snapshot_verdict(actual@, expected_view(expected)),
        r matches Err(se) ==> se.actual == actual && se.expected == expected && se.expected_path
            == expected_path,
{
    let matches = match &expected {
        Ok(e) => bytes_eq(e, &actual),
        Err(_) => false,
    };
    if matches {
        Ok(())
    } else {
        Err(SnapshotError { actual, expected, expected_path })
    }
}

/// The prefix of the message shown when the approved file could not be
/// read: the bytes of `failed to open `.
pub open spec fn failed_open_prefix() -> Seq<u8> {
    seq![
        102u8, 97u8, 105u8, 108u8, 101u8, 100u8, 32u8, 116u8, 111u8, 32u8, 111u8, 112u8, 101u8,
        110u8, 32u8,
    ]
}

/// The reporter's text for a failed comparison: the line diff of the
/// approved text against the actual text; when the approved file could not
/// be read, a `failed to open` header with the path and the failure, then
/// the diff against an empty approved text.
pub open spec fn spec_snapshot_message(
    actual: Seq<u8>,
    expected: Result<Seq<u8>, Seq<u8>>,
    path: Seq<u8>,
) -> Seq<u8> {
    match expected {
        Ok(e) => spec_diff_text(line_diff_of(e, actual)),
        Err(err) => failed_open_prefix() + path + seq![10u8] + err + seq![10u8] + spec_diff_text(
            line_diff_of(Seq::empty(), actual),
        ),
    }
}

impl SnapshotError {
    /// Renders the reporter's text for this failed comparison.
    pub fn message(&self) -> (r: Vec<u8>)
        ensures
            r@ == spec_snapshot_message(
                self.actual@,
                expected_view(self.expected),
                self.expected_path@,
            ),
    {
        match &self.expected {
            Ok(e) => {
                let n_exp = e.len();
                let n_act = self.actual.len();
                let changes = diff_lines(e, &self.actual);
                proof {
                    assert forall|i: int| 0 <= i < changes@.len() implies change_indexes_bounded(
                        #[trigger] changes@[i],
                    ) by {
                        assert(e@.len() == n_exp);
                        assert(self.actual@.len() == n_act);
                    }
                }
                render_diff(&changes)
            },
            Err(err) => {
                let mut r: Vec<u8> = vec![
                    102u8, 97u8, 105u8, 108u8, 101u8, 100u8, 32u8, 116u8, 111u8, 32u8, 111u8,
                    112u8, 101u8, 110u8, 32u8,
                ];
                proof {
                    assert(r@ =~= failed_open_prefix());
                }
                append_bytes(&mut r, &self.expected_path);
                r.push(10);
                append_bytes(&mut r, err);
                r.push(10);
                let empty: Vec<u8> = Vec::new();
                let n_act = self.actual.len();
                let changes = diff_lines(&empty, &self.actual);
                proof {
                    assert forall|i: int| 0 <= i < changes@.len() implies change_indexes_bounded(
                        #[trigger] changes@[i],
                    ) by {
                        assert(empty@.len() == 0);
                        assert(self.actual@.len() == n_act);
                    }
                }
                let diff = render_diff(&changes);
                append_bytes(&mut r, &diff);
                proof {
                    assert(empty@ =~= Seq::<u8>::empty());
                    assert(r@ =~= spec_snapshot_message(
                        self.actual@,
                        expected_view(self.expected),
                        self.expected_path@,
                    ));
                }
                r
            },
        }
    }
}

} // verus!
