use vstd::prelude::*;

verus! {

/// `pat` occurs in `line` as the contiguous block of bytes starting at `i`.
pub open spec fn match_at(line: Seq<u8>, pat: Seq<u8>, i: int) -> bool {
    &&& 0 <= i
    &&& i + pat.len() <= line.len()
    &&& line.subrange(i, i + pat.len() as int) == pat
}

/// `line` contains `pat` as a contiguous substring. An empty `pat` occurs in
/// every line, matching the containment test of the scanner.
pub open spec fn contains_pat(line: Seq<u8>, pat: Seq<u8>) -> bool {
    exists|i: int| match_at(line, pat, i)
}

/// An empty pattern occurs in every line, so every line matches it.
pub proof fn lemma_empty_pat_matches(line: Seq<u8>)
    ensures
        contains_pat(line, Seq::empty()),
{
    assert(line.subrange(0, 0) =~= Seq::<u8>::empty());
    assert(match_at(line, Seq::empty(), 0));
}

/// Decides whether `pat` occurs in `line` at position `i`.
fn is_match_at(line: &Vec<u8>, pat: &Vec<u8>, i: usize) -> (r: bool)
    requires
        i + pat@.len() <= line@.len(),
    ensures
        r == match_at(line@, pat@, i as int),
{
    let n = line.len();
    let mut j: usize = 0;
    while j < pat.len()
        invariant
            n == line@.len(),
            i + pat@.len() <= n,
            j <= pat@.len(),
            forall|k: int| 0 <= k < j ==> line@[i + k] == pat@[k],
        decreases pat@.len() - j,
    {
        if line[i + j] != pat[j] {
            proof {
                assert(line@.subrange(i as int, i + pat@.len() as int)[j as int] == line@[i + j]);
            }
            return false;
        }
        j += 1;
    }
    proof {
        assert(line@.subrange(i as int, i + pat@.len() as int) =~= pat@);
    }
    true
}

/// Decides substring containment: whether `line` contains `pat` anywhere.
pub fn contains_bytes(line: &Vec<u8>, pat: &Vec<u8>) -> (r: bool)
    ensures
        r == contains_pat(line@, pat@),
{
    if pat.len() > line.len() {
        return false;
    }
    if pat.len() == 0 {
        proof {
            assert(line@.subrange(0, 0) =~= pat@);
            assert(match_at(line@, pat@, 0));
        }
        return true;
    }
    let bound = line.len() - pat.len();
    let mut i: usize = 0;
    while i <= bound
        invariant
            1 <= pat@.len() <= line@.len(),
            bound == line@.len() - pat@.len(),
            bound + 1 <= usize::MAX,
            i <= bound + 1,
            forall|k: int| 0 <= k < i ==> !match_at(line@, pat@, k),
        decreases bound + 1 - i,
    {
        if is_match_at(line, pat, i) {
            return true;
        }
        i += 1;
    }
    proof {
        assert(forall|k: int| k > bound ==> !match_at(line@, pat@, k));
    }
    false
}

/// Replacement of each occurrence of a non-empty `pat` in `line` by `repl`,
/// scanning left to right and never overlapping two occurrences.
pub open spec fn replace_from(line: Seq<u8>, pat: Seq<u8>, repl: Seq<u8>) -> Seq<u8>
    recommends
        pat.len() > 0,
    decreases line.len(),
{
    if pat.len() == 0 || line.len() < pat.len() {
        line
    } else if line.subrange(0, pat.len() as int) == pat {
        repl + replace_from(line.skip(pat.len() as int), pat, repl)
    } else {
        seq![line[0]] + replace_from(line.skip(1), pat, repl)
    }
}

/// Replacement of every non-overlapping occurrence of `pat` in `line` by
/// `repl`. An empty `pat` matches only zero-width slots and leaves the line
/// unchanged.
pub open spec fn replace_all(line: Seq<u8>, pat: Seq<u8>, repl: Seq<u8>) -> Seq<u8> {
    if pat.len() == 0 {
        line
    } else {
        replace_from(line, pat, repl)
    }
}

/// Replacing each occurrence of `pat` by `pat` itself gives the line back.
pub proof fn lemma_replace_self(line: Seq<u8>, pat: Seq<u8>)
    ensures
        replace_all(line, pat, pat) == line,
    decreases line.len(),
{
    if pat.len() == 0 || line.len() < pat.len() {
    } else if line.subrange(0, pat.len() as int) == pat {
        lemma_replace_self(line.skip(pat.len() as int), pat);
        assert(pat + line.skip(pat.len() as int) =~= line);
    } else {
        lemma_replace_self(line.skip(1), pat);
        assert(seq![line[0]] + line.skip(1) =~= line);
    }
}

/// Replaces every non-overlapping occurrence of `pat` in `line` by `repl`,
/// scanning left to right; an empty `pat` leaves the line unchanged.
pub fn replace_bytes(line: &Vec<u8>, pat: &Vec<u8>, repl: &Vec<u8>) -> (r: Vec<u8>)
    ensures
        r@ == replace_all(line@, pat@, repl@),
{
    let mut out: Vec<u8> = Vec::new();
    if pat.len() == 0 {
        crate::bytes::push_all(&mut out, line);
        return out;
    }
    let n = line.len();
    let mut i: usize = 0;
    proof {
        assert(line@.skip(0) =~= line@);
        assert(Seq::<u8>::empty() + replace_from(line@, pat@, repl@) =~= replace_from(
            line@,
            pat@,
            repl@,
        ));
    }
    while i < n
        invariant
            n == line@.len(),
            pat@.len() > 0,
            i <= n,
            replace_from(line@, pat@, repl@) == out@ + replace_from(
                line@.skip(i as int),
                pat@,
                repl@,
            ),
        decreases n - i,
    {
        let ghost rest = line@.skip(i as int);
        if n - i >= pat.len() && is_match_at(line, pat, i) {
            proof {
                assert(rest.subrange(0, pat@.len() as int) =~= line@.subrange(
                    i as int,
                    i + pat@.len(),
                ));
                assert(rest.skip(pat@.len() as int) =~= line@.skip(i + pat@.len()));
                assert(out@ + (repl@ + replace_from(line@.skip(i + pat@.len()), pat@, repl@)) =~= (
                out@ + repl@) + replace_from(line@.skip(i + pat@.len()), pat@, repl@));
            }
            crate::bytes::push_all(&mut out, repl);
            i += pat.len();
        } else {
            proof {
                if rest.len() >= pat@.len() {
                    assert(rest.subrange(0, pat@.len() as int) =~= line@.subrange(
                        i as int,
                        i + pat@.len(),
                    ));
                }
                assert(rest.skip(1) =~= line@.skip(i + 1));
                assert(rest =~= seq![line@[i as int]] + rest.skip(1));
                assert(out@ + (seq![line@[i as int]] + replace_from(line@.skip(i + 1), pat@, repl@))
                    =~= out@.push(line@[i as int]) + replace_from(line@.skip(i + 1), pat@, repl@));
            }
            out.push(line[i]);
            i += 1;
        }
    }
    proof {
        assert(line@.skip(n as int) =~= Seq::<u8>::empty());
        assert(out@ + replace_from(Seq::<u8>::empty(), pat@, repl@) =~= out@);
    }
    out
}

} // verus!
