//! Byte-string utilities: equality, placeholder substitution and decimal
//! formatting. All specifications are stated over `Seq<u8>` views.

use vstd::prelude::*;

verus! {

/// True when `pat` occurs in `s` starting at index `i`.
pub open spec fn is_match_at(s: Seq<u8>, pat: Seq<u8>, i: int) -> bool {
    &&& 0 <= i
    &&& i + pat.len() <= s.len()
    &&& s.subrange(i, i + pat.len()) == pat
}

/// The text `s` with every occurrence of the non-empty pattern `pat` replaced
/// by `repl`: occurrences are taken leftmost-first and do not overlap, and the
/// replacement text is never rescanned.
pub open spec fn replaced(s: Seq<u8>, pat: Seq<u8>, repl: Seq<u8>) -> Seq<u8>
    decreases s.len(),
{
    if pat.len() == 0 || s.len() == 0 {
        s
    } else if s.len() >= pat.len() && s.subrange(0, pat.len() as int) == pat {
        repl + replaced(s.subrange(pat.len() as int, s.len() as int), pat, repl)
    } else {
        s.subrange(0, 1) + replaced(s.subrange(1, s.len() as int), pat, repl)
    }
}

/// Compares two byte strings for equality.
pub fn bytes_eq(a: &Vec<u8>, b: &Vec<u8>) -> (r: bool)
    ensures
        r == (a@ == b@),
{
    if a.len() != b.len() {
        proof {
            assert(a@.len() != b@.len());
        }
        return false;
    }
    let mut i: usize = 0;
    while i < a.len()
        invariant
            i <= a@.len(),
            a@.len() == b@.len(),
            forall|k: int| 0 <= k < i ==> a@[k] == b@[k],
        decreases a@.len() - i,
    {
        if a[i] != b[i] {
            return false;
        }
        i = i + 1;
    }
    proof {
        assert(a@ =~= b@);
    }
    true
}

/// True when `pat` occurs in `s` at index `i`; executable counterpart of
/// [`is_match_at`].
pub fn matches_at(s: &Vec<u8>, pat: &Vec<u8>, i: usize) -> (r: bool)
    ensures
        r == is_match_at(s@, pat@, i as int),
{
    if pat.len() > s.len() || i > s.len() - pat.len() {
        return false;
    }
    let mut k: usize = 0;
    while k < pat.len()
        invariant
            k <= pat@.len(),
            i + pat@.len() <= s@.len(),
            forall|j: int| 0 <= j < k ==> s@[i + j] == pat@[j],
        decreases pat@.len() - k,
    {
        proof {
            assert(s@.len() == s.len());
            assert(i + k < s@.len());
        }
        let idx: usize = i + k;
        if s[idx] != pat[k] {
            proof {
                assert(s@.subrange(i as int, i + pat@.len())[k as int] != pat@[k as int]);
            }
            return false;
        }
        k = k + 1;
    }
    proof {
        assert(s@.subrange(i as int, i + pat@.len()) =~= pat@);
    }
    true
}

/// True when `needle` occurs somewhere in `haystack`.
pub open spec fn contains_seq(haystack: Seq<u8>, needle: Seq<u8>) -> bool {
    exists|i: int| is_match_at(haystack, needle, i)
}

/// Searches `haystack` for `needle`; an empty needle is found at once.
pub fn contains_bytes(haystack: &Vec<u8>, needle: &Vec<u8>) -> (r: bool)
    ensures
        r == contains_seq(haystack@, needle@),
{
    if needle.len() > haystack.len() {
        return false;
    }
    let last = haystack.len() - needle.len();
    let mut i: usize = 0;
    loop
        invariant
            i <= last,
            last == haystack@.len() - needle@.len(),
            forall|j: int| 0 <= j < i ==> !is_match_at(haystack@, needle@, j),
        ensures
            forall|j: int| 0 <= j <= last ==> !is_match_at(haystack@, needle@, j),
        decreases last - i,
    {
        if matches_at(haystack, needle, i) {
            proof {
                assert(is_match_at(haystack@, needle@, i as int));
            }
            return true;
        }
        if i == last {
            proof {
                assert(forall|j: int| 0 <= j <= last ==> !is_match_at(haystack@, needle@, j));
            }
            break ;
        }
        i = i + 1;
    }
    proof {
        assert forall|j: int| !is_match_at(haystack@, needle@, j) by {
            if 0 <= j <= last {
                assert(!is_match_at(haystack@, needle@, j));
            }
        }
    }
    false
}

/// Copies a byte string.
pub fn copy_bytes(v: &Vec<u8>) -> (r: Vec<u8>)
    ensures
        r@ == v@,
{
    let mut r: Vec<u8> = Vec::new();
    let mut k: usize = 0;
    while k < v.len()
        invariant
            k <= v@.len(),
            r@ == v@.subrange(0, k as int),
        decreases v@.len() - k,
    {
        r.push(v[k]);
        proof {
            assert(v@.subrange(0, k as int).push(v@[k as int]) =~= v@.subrange(0, k + 1));
        }
        k = k + 1;
    }
    proof {
        assert(v@.subrange(0, v@.len() as int) =~= v@);
    }
    r
}

/// Appends all of `other` to `out`.
pub fn append_bytes(out: &mut Vec<u8>, other: &Vec<u8>)
    ensures
        final(out)@ == old(out)@ + other@,
{
    let mut k: usize = 0;
    while k < other.len()
        invariant
            k <= other@.len(),
            out@ == old(out)@ + other@.subrange(0, k as int),
        decreases other@.len() - k,
    {
        out.push(other[k]);
        proof {
            assert(old(out)@ + other@.subrange(0, k as int) + seq![other@[k as int]] =~= old(out)@
                + other@.subrange(0, k + 1));
        }
        k = k + 1;
    }
    proof {
        assert(other@.subrange(0, other@.len() as int) =~= other@);
    }
}

/// Replaces every occurrence of the non-empty pattern `pat` in `s` by `repl`,
/// leftmost-first and without overlap.
pub fn replace_all(s: &Vec<u8>, pat: &Vec<u8>, repl: &Vec<u8>) -> (r: Vec<u8>)
    requires
        pat@.len() >= 1,
    ensures
        r@ == replaced(s@, pat@, repl@),
{
    let mut out: Vec<u8> = Vec::new();
    let mut i: usize = 0;
    proof {
        assert(out@ =~= Seq::<u8>::empty());
        assert(s@.subrange(0, s@.len() as int) =~= s@);
    }
    while i < s.len()
        invariant
            pat@.len() >= 1,
            i <= s@.len(),
            out@ + replaced(s@.subrange(i as int, s@.len() as int), pat@, repl@) == replaced(
                s@,
                pat@,
                repl@,
            ),
        decreases s@.len() - i,
    {
        let ghost tail = s@.subrange(i as int, s@.len() as int);
        if matches_at(s, pat, i) {
            proof {
                assert(tail.subrange(0, pat@.len() as int) =~= s@.subrange(
                    i as int,
                    i + pat@.len(),
                ));
                assert(tail.subrange(pat@.len() as int, tail.len() as int) =~= s@.subrange(
                    i + pat@.len(),
                    s@.len() as int,
                ));
            }
            append_bytes(&mut out, repl);
            i = i + pat.len();
        } else {
            proof {
                if tail.len() >= pat@.len() {
                    assert(tail.subrange(0, pat@.len() as int) =~= s@.subrange(
                        i as int,
                        i + pat@.len(),
                    ));
                }
                assert(tail.subrange(0, 1) =~= seq![s@[i as int]]);
                assert(tail.subrange(1, tail.len() as int) =~= s@.subrange(
                    i + 1,
                    s@.len() as int,
                ));
            }
            let b = s[i];
            out.push(b);
            i = i + 1;
        }
    }
    proof {
        assert(s@.subrange(s@.len() as int, s@.len() as int) =~= Seq::<u8>::empty());
        assert(out@ + Seq::<u8>::empty() =~= out@);
    }
    out
}

/// The byte for a single decimal digit.
pub open spec fn digit_byte(d: nat) -> u8 {
    (d % 10 + 48) as u8
}

/// The decimal representation of `n`, most significant digit first, with no
/// leading zeros (the representation of zero is the single digit `0`).
pub open spec fn dec_digits(n: nat) -> Seq<u8>
    decreases n,
{
    if n < 10 {
        seq![digit_byte(n)]
    } else {
        dec_digits(n / 10).push(digit_byte(n % 10))
    }
}

/// The decimal representation of a signed value: a leading `-` for negative
/// values, then the digits of the absolute value.
pub open spec fn dec_int(n: int) -> Seq<u8> {
    if n < 0 {
        seq![45u8] + dec_digits((-n) as nat)
    } else {
        dec_digits(n as nat)
    }
}

/// Writes `n` in decimal.
pub fn u64_to_dec(n: u64) -> (r: Vec<u8>)
    ensures
        r@ == dec_digits(n as nat),
{
    if n == 0 {
        let mut out: Vec<u8> = Vec::new();
        out.push(48);
        proof {
            assert(out@ =~= dec_digits(0));
        }
        return out;
    }
    let mut rev: Vec<u8> = Vec::new();
    let mut m: u64 = n;
    proof {
        assert(dec_digits(n as nat) + rev@.reverse() =~= dec_digits(n as nat));
    }
    while m > 0
        invariant
            m > 0 ==> dec_digits(n as nat) == dec_digits(m as nat) + rev@.reverse(),
            m == 0 ==> dec_digits(n as nat) == rev@.reverse(),
        decreases m,
    {
        let d: u8 = (m % 10) as u8 + 48;
        let ghost old_rev = rev@;
        rev.push(d);
        proof {
            assert(rev@.reverse() =~= seq![d] + old_rev.reverse());
            assert(d == digit_byte(m as nat));
        }
        if m < 10 {
            proof {
                assert(dec_digits(m as nat) =~= seq![d]);
                assert(seq![d] + old_rev.reverse() =~= rev@.reverse());
            }
        } else {
            proof {
                assert(dec_digits(m as nat) == dec_digits((m as nat) / 10).push(
                    digit_byte(m as nat),
                ));
                assert((m as nat) / 10 == (m / 10) as nat);
                assert(dec_digits((m / 10) as nat).push(d) + old_rev.reverse() =~= dec_digits(
                    (m / 10) as nat,
                ) + rev@.reverse());
            }
        }
        m = m / 10;
    }
    let mut out: Vec<u8> = Vec::new();
    let n_rev = rev.len();
    let mut j: usize = 0;
    while j < n_rev
        invariant
            n_rev == rev@.len(),
            j <= n_rev,
            out@ == rev@.reverse().subrange(0, j as int),
        decreases n_rev - j,
    {
        out.push(rev[n_rev - 1 - j]);
        proof {
            assert(out@ =~= rev@.reverse().subrange(0, j + 1));
        }
        j = j + 1;
    }
    proof {
        assert(rev@.reverse().subrange(0, rev@.len() as int) =~= rev@.reverse());
    }
    out
}

/// Writes a signed value in decimal, with a leading `-` when negative.
pub fn i64_to_dec(n: i64) -> (r: Vec<u8>)
    ensures
        r@ == dec_int(n as int),
{
    if n < 0 {
        let mut out: Vec<u8> = Vec::new();
        out.push(45);
        let low: i64 = n + 1;
        let mag: u64 = ((-low) as u64) + 1;
        proof {
            assert(mag as nat == (-(n as int)) as nat);
        }
        let digits = u64_to_dec(mag);
        append_bytes(&mut out, &digits);
        proof {
            assert(out@ =~= dec_int(n as int));
        }
        out
    } else {
        u64_to_dec(n as u64)
    }
}

} // verus!
