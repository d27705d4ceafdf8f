//! Exact (non-regex) substring search and replacement: matches are found
//! left to right and never overlap, as `str::match_indices`, `str::find` and
//! `str::replace` find them.

use vstd::prelude::*;

verus! {

/// Whether `n` occurs in `h` at position `at`.
pub open spec fn occurs_at<A>(h: Seq<A>, n: Seq<A>, at: int) -> bool {
    0 <= at && at + n.len() <= h.len() && h.subrange(at, at + n.len()) == n
}

/// Start positions of the matches of a non-empty `n` in `h[from..]`, found
/// left to right, each search resuming after the previous match.
pub open spec fn matches_from<A>(h: Seq<A>, n: Seq<A>, from: int) -> Seq<int>
    decreases h.len() - from,
{
    if n.len() == 0 || from < 0 || from + n.len() > h.len() {
        Seq::empty()
    } else if occurs_at(h, n, from) {
        seq![from] + matches_from(h, n, from + n.len())
    } else {
        matches_from(h, n, from + 1)
    }
}

/// Start positions of the matches of `n` in `h`.
pub open spec fn match_positions<A>(h: Seq<A>, n: Seq<A>) -> Seq<int> {
    matches_from(h, n, 0)
}

/// `h[from..]` with every match of a non-empty `n` replaced by `r`.
pub open spec fn replace_from<A>(h: Seq<A>, n: Seq<A>, r: Seq<A>, from: int) -> Seq<A>
    decreases h.len() - from,
{
    if from < 0 || from >= h.len() {
        Seq::empty()
    } else if n.len() > 0 && occurs_at(h, n, from) {
        r + replace_from(h, n, r, from + n.len())
    } else {
        seq![h[from]] + replace_from(h, n, r, from + 1)
    }
}

/// `h` with every match of a non-empty `n` replaced by `r`.
pub open spec fn replace_all<A>(h: Seq<A>, n: Seq<A>, r: Seq<A>) -> Seq<A> {
    replace_from(h, n, r, 0)
}

fn occurs_at_bytes(h: &[u8], n: &[u8], at: usize) -> (r: bool)
    requires
        at + n@.len() <= h@.len(),
    ensures
        r == occurs_at(h@, n@, at as int),
{
    let hl = h.len();
    let mut k: usize = 0;
    while k < n.len()
        invariant
            hl == h@.len(),
            at + n@.len() <= h@.len(),
            0 <= k <= n@.len(),
            forall|j: int| 0 <= j < k ==> h@[at + j] == n@[j],
        decreases n@.len() - k,
    {
        if h[at + k] != n[k] {
            assert(h@.subrange(at as int, at + n@.len())[k as int] != n@[k as int]);
            return false;
        }
        k = k + 1;
    }
    assert(h@.subrange(at as int, at + n@.len()) =~= n@);
    true
}

fn occurs_at_chars(h: &[char], n: &[char], at: usize) -> (r: bool)
    requires
        at + n@.len() <= h@.len(),
    ensures
        r == occurs_at(h@, n@, at as int),
{
    let hl = h.len();
    let mut k: usize = 0;
    while k < n.len()
        invariant
            hl == h@.len(),
            at + n@.len() <= h@.len(),
            0 <= k <= n@.len(),
            forall|j: int| 0 <= j < k ==> h@[at + j] == n@[j],
        decreases n@.len() - k,
    {
        if h[at + k] != n[k] {
            assert(h@.subrange(at as int, at + n@.len())[k as int] != n@[k as int]);
            return false;
        }
        k = k + 1;
    }
    assert(h@.subrange(at as int, at + n@.len()) =~= n@);
    true
}

proof fn lemma_matches_step<A>(h: Seq<A>, n: Seq<A>, from: int)
    requires
        n.len() > 0,
        0 <= from,
        from + n.len() <= h.len(),
    ensures
        matches_from(h, n, from) == (if occurs_at(h, n, from) {
            seq![from] + matches_from(h, n, from + n.len())
        } else {
            matches_from(h, n, from + 1)
        }),
{
}

/// Byte positions of the matches of the non-empty `n` in `h`.
pub fn match_byte_indices(h: &[u8], n: &[u8]) -> (r: Vec<usize>)
    requires
        n@.len() > 0,
    ensures
        r@.map_values(|i: usize| i as int) == match_positions(h@, n@),
        forall|k: int| 0 <= k < r@.len() ==> r@[k] + n@.len() <= h@.len(),
{
    let mut out: Vec<usize> = Vec::new();
    let mut i: usize = 0;
    while i <= h.len() && n.len() <= h.len() - i
        invariant
            n@.len() > 0,
            0 <= i,
            i <= h@.len() || n@.len() > h@.len() - i,
            out@.map_values(|i: usize| i as int) + matches_from(h@, n@, i as int) == match_positions(
                h@,
                n@,
            ),
            forall|k: int| 0 <= k < out@.len() ==> out@[k] + n@.len() <= h@.len(),
        decreases h@.len() + 1 - i,
    {
        let ghost before = out@.map_values(|i: usize| i as int);
        proof {
            lemma_matches_step(h@, n@, i as int);
        }
        if occurs_at_bytes(h, n, i) {
            out.push(i);
            assert(out@.map_values(|i: usize| i as int) =~= before.push(i as int));
            assert(before.push(i as int) + matches_from(h@, n@, i + n@.len()) =~= before + (seq![
                i as int,
            ] + matches_from(h@, n@, i + n@.len())));
            i = i + n.len();
        } else {
            i = i + 1;
        }
    }
    proof {
        assert(matches_from(h@, n@, i as int) =~= Seq::<int>::empty());
        assert(out@.map_values(|i: usize| i as int) + Seq::<int>::empty() =~= out@.map_values(
            |i: usize| i as int,
        ));
    }
    out
}

/// Character positions of the matches of the non-empty `n` in `h`.
pub fn match_char_indices(h: &[char], n: &[char]) -> (r: Vec<usize>)
    requires
        n@.len() > 0,
    ensures
        r@.map_values(|i: usize| i as int) == match_positions(h@, n@),
        forall|k: int| 0 <= k < r@.len() ==> r@[k] + n@.len() <= h@.len(),
{
    let mut out: Vec<usize> = Vec::new();
    let mut i: usize = 0;
    while i <= h.len() && n.len() <= h.len() - i
        invariant
            n@.len() > 0,
            0 <= i,
            i <= h@.len() || n@.len() > h@.len() - i,
            out@.map_values(|i: usize| i as int) + matches_from(h@, n@, i as int) == match_positions(
                h@,
                n@,
            ),
            forall|k: int| 0 <= k < out@.len() ==> out@[k] + n@.len() <= h@.len(),
        decreases h@.len() + 1 - i,
    {
        let ghost before = out@.map_values(|i: usize| i as int);
        proof {
            lemma_matches_step(h@, n@, i as int);
        }
        if occurs_at_chars(h, n, i) {
            out.push(i);
            assert(out@.map_values(|i: usize| i as int) =~= before.push(i as int));
            assert(before.push(i as int) + matches_from(h@, n@, i + n@.len()) =~= before + (seq![
                i as int,
            ] + matches_from(h@, n@, i + n@.len())));
            i = i + n.len();
        } else {
            i = i + 1;
        }
    }
    proof {
        assert(matches_from(h@, n@, i as int) =~= Seq::<int>::empty());
        assert(out@.map_values(|i: usize| i as int) + Seq::<int>::empty() =~= out@.map_values(
            |i: usize| i as int,
        ));
    }
    out
}

/// `h` with every match of the non-empty `n` replaced by `r`.
pub fn replace_all_chars(h: &[char], n: &[char], r: &[char]) -> (out: Vec<char>)
    requires
        n@.len() > 0,
    ensures
        out@ == replace_all(h@, n@, r@),
{
    let mut out: Vec<char> = Vec::new();
    let mut i: usize = 0;
    while i < h.len()
        invariant
            n@.len() > 0,
            0 <= i <= h@.len(),
            out@ + replace_from(h@, n@, r@, i as int) == replace_all(h@, n@, r@),
        decreases h@.len() - i,
    {
        let ghost before = out@;
        if n.len() <= h.len() - i && occurs_at_chars(h, n, i) {
            crate::text::extend_from(&mut out, r);
            assert(before + (r@ + replace_from(h@, n@, r@, i + n@.len())) =~= out@ + replace_from(
                h@,
                n@,
                r@,
                i + n@.len(),
            ));
            i = i + n.len();
        } else {
            out.push(h[i]);
            assert(before + (seq![h@[i as int]] + replace_from(h@, n@, r@, i + 1)) =~= out@
                + replace_from(h@, n@, r@, i + 1));
            i = i + 1;
        }
    }
    assert(out@ + Seq::<char>::empty() =~= out@);
    out
}

/// The matches of a non-empty `n` found from `from` are real occurrences,
/// left to right and not overlapping; the first is the first occurrence at
/// or after `from`, and there is one whenever `n` occurs there at all.
pub proof fn law_matches_are_first_occurrences<A>(h: Seq<A>, n: Seq<A>, from: int)
    requires
        n.len() > 0,
        0 <= from,
    ensures
        ({
            let m = matches_from(h, n, from);
            &&& forall|k: int| 0 <= k < m.len() ==> m[k] >= from && occurs_at(h, n, #[trigger] m[k])
            &&& forall|k: int| 0 <= k < m.len() - 1 ==> #[trigger] m[k] + n.len() <= m[k + 1]
            &&& m.len() > 0 ==> forall|i: int| from <= i < m[0] ==> !occurs_at(h, n, i)
            &&& (exists|i: int| from <= i && occurs_at(h, n, i)) ==> m.len() > 0
        }),
    decreases h.len() - from,
{
    let m = matches_from(h, n, from);
    if from + n.len() > h.len() {
        assert forall|i: int| from <= i implies !occurs_at(h, n, i) by {}
    } else if occurs_at(h, n, from) {
        law_matches_are_first_occurrences(h, n, from + n.len());
        let rest = matches_from(h, n, from + n.len());
        assert(m == seq![from] + rest);
        assert forall|k: int| 0 <= k < m.len() implies m[k] >= from && occurs_at(h, n, #[trigger] m[k]) by {
            if k > 0 {
                assert(m[k] == rest[k - 1]);
            }
        }
        assert forall|k: int| 0 <= k < m.len() - 1 implies #[trigger] m[k] + n.len() <= m[k + 1] by {
            assert(m[k + 1] == rest[k]);
            if k > 0 {
                assert(m[k] == rest[k - 1]);
            }
        }
    } else {
        law_matches_are_first_occurrences(h, n, from + 1);
        let rest = matches_from(h, n, from + 1);
        assert(m == rest);
        if exists|i: int| from <= i && occurs_at(h, n, i) {
            let i = choose|i: int| from <= i && occurs_at(h, n, i);
            assert(i != from);
        }
    }
}

} // verus!
