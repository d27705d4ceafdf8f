//! The order of `str` values (`Ord for str`): lexicographic by character,
//! shorter prefix first; and sorting lists of strings by it.

use vstd::prelude::*;
use vstd::multiset::Multiset;

verus! {

/// `a` sorts strictly before `b`.
pub open spec fn lex_lt(a: Seq<char>, b: Seq<char>) -> bool
    decreases a.len(),
{
    if a.len() == 0 {
        b.len() > 0
    } else if b.len() == 0 {
        false
    } else if a[0] == b[0] {
        lex_lt(a.drop_first(), b.drop_first())
    } else {
        (a[0] as u32) < (b[0] as u32)
    }
}

pub open spec fn lex_le(a: Seq<char>, b: Seq<char>) -> bool {
    lex_lt(a, b) || a == b
}

pub proof fn lemma_lex_trans(a: Seq<char>, b: Seq<char>, c: Seq<char>)
    requires
        lex_lt(a, b),
        lex_lt(b, c),
    ensures
        lex_lt(a, c),
    decreases a.len(),
{
    if a.len() > 0 && b.len() > 0 && c.len() > 0 {
        if a[0] == b[0] && b[0] == c[0] {
            lemma_lex_trans(a.drop_first(), b.drop_first(), c.drop_first());
        }
    }
}

pub proof fn lemma_lex_total(a: Seq<char>, b: Seq<char>)
    ensures
        lex_lt(a, b) || a == b || lex_lt(b, a),
    decreases a.len(),
{
    if a.len() > 0 && b.len() > 0 {
        if a[0] == b[0] {
            lemma_lex_total(a.drop_first(), b.drop_first());
            if a.drop_first() == b.drop_first() {
                assert(a =~= seq![a[0]] + a.drop_first());
                assert(b =~= seq![b[0]] + b.drop_first());
            }
        } else {
            let x = a[0] as u32;
            let y = b[0] as u32;
            vstd::utf8::char_u32_cast(a[0], x);
            vstd::utf8::char_u32_cast(b[0], y);
        }
    } else if a.len() == 0 && b.len() == 0 {
        assert(a =~= b);
    }
}

pub proof fn lemma_lex_irrefl(a: Seq<char>)
    ensures
        !lex_lt(a, a),
    decreases a.len(),
{
    if a.len() > 0 {
        lemma_lex_irrefl(a.drop_first());
    }
}

/// `s` is in ascending order.
pub open spec fn sorted_strings(s: Seq<Seq<char>>) -> bool {
    forall|i: int, j: int| 0 <= i < j < s.len() ==> lex_le(s[i], s[j])
}

pub open spec fn str_views(v: Seq<String>) -> Seq<Seq<char>> {
    v.map_values(|s: String| s@)
}

/// Whether `a` sorts strictly before `b`.
pub fn str_lt(a: &str, b: &str) -> (r: bool)
    ensures
        r == lex_lt(a@, b@),
{
    let x = crate::text::chars_of(a);
    let y = crate::text::chars_of(b);
    let mut i: usize = 0;
    proof {
        assert(x@.subrange(0, x@.len() as int) =~= x@);
        assert(y@.subrange(0, y@.len() as int) =~= y@);
    }
    while i < x.len() && i < y.len() && x[i] == y[i]
        invariant
            0 <= i <= x@.len(),
            i <= y@.len(),
            forall|k: int| 0 <= k < i ==> x@[k] == y@[k],
            lex_lt(a@, b@) == lex_lt(x@.subrange(i as int, x@.len() as int), y@.subrange(
                i as int,
                y@.len() as int,
            )),
            x@ == a@,
            y@ == b@,
        decreases x@.len() - i,
    {
        let ghost xs = x@.subrange(i as int, x@.len() as int);
        let ghost ys = y@.subrange(i as int, y@.len() as int);
        assert(xs.drop_first() =~= x@.subrange(i + 1, x@.len() as int));
        assert(ys.drop_first() =~= y@.subrange(i + 1, y@.len() as int));
        i = i + 1;
    }
    if i == x.len() {
        i < y.len()
    } else if i == y.len() {
        false
    } else {
        (x[i] as u32) < (y[i] as u32)
    }
}

/// The strings of `v` in ascending order.
pub fn sort_strings(v: Vec<String>) -> (r: Vec<String>)
    ensures
        sorted_strings(str_views(r@)),
        str_views(r@).to_multiset() == str_views(v@).to_multiset(),
{
    broadcast use vstd::seq_lib::group_to_multiset_ensures;
    broadcast use vstd::multiset::group_multiset_axioms;

    let mut rem = v;
    let ghost all = str_views(rem@).to_multiset();
    let mut out: Vec<String> = Vec::new();
    while rem.len() > 0
        invariant
            sorted_strings(str_views(out@)),
            forall|i: int, j: int|
                0 <= i < out@.len() && 0 <= j < rem@.len() ==> lex_le(out@[i]@, rem@[j]@),
            str_views(out@).to_multiset().add(str_views(rem@).to_multiset()) == all,
        decreases rem@.len(),
    {
        let mut best: usize = 0;
        let mut k: usize = 1;
        while k < rem.len()
            invariant
                0 <= best < rem@.len(),
                1 <= k <= rem@.len(),
                forall|j: int| 0 <= j < k ==> lex_le(rem@[best as int]@, rem@[j]@),
            decreases rem@.len() - k,
        {
            if str_lt(rem[k].as_str(), rem[best].as_str()) {
                proof {
                    assert forall|j: int| 0 <= j < k + 1 implies lex_le(rem@[k as int]@, rem@[j]@) by {
                        if j < k && rem@[best as int]@ != rem@[j]@ {
                            lemma_lex_trans(rem@[k as int]@, rem@[best as int]@, rem@[j]@);
                        }
                    }
                }
                best = k;
            } else {
                proof {
                    lemma_lex_total(rem@[k as int]@, rem@[best as int]@);
                }
            }
            k = k + 1;
        }
        let ghost old_rem = rem@;
        let ghost old_out = out@;
        let x = rem.remove(best);
        out.push(x);
        proof {
            assert(str_views(rem@) =~= str_views(old_rem).remove(best as int));
            assert(str_views(out@) =~= str_views(old_out).push(x@));
            assert(str_views(old_rem)[best as int] == x@);
            assert forall|i: int, j: int| 0 <= i < j < out@.len() implies lex_le(
                str_views(out@)[i],
                str_views(out@)[j],
            ) by {
                if j == out@.len() - 1 {
                    assert(lex_le(old_out[i]@, old_rem[best as int]@));
                } else {
                    assert(lex_le(str_views(old_out)[i], str_views(old_out)[j]));
                }
            }
            assert forall|i: int, j: int|
                0 <= i < out@.len() && 0 <= j < rem@.len() implies lex_le(out@[i]@, rem@[j]@) by {
                let jj = if j < best { j } else { j + 1 };
                assert(rem@[j] == old_rem[jj]);
                if i < out@.len() - 1 {
                    assert(lex_le(old_out[i]@, old_rem[jj]@));
                } else {
                    assert(lex_le(old_rem[best as int]@, old_rem[jj]@));
                }
            }
            let mo = str_views(old_out).to_multiset();
            let mr = str_views(old_rem).to_multiset();
            vstd::seq_lib::to_multiset_build(str_views(old_out), x@);
            vstd::seq_lib::to_multiset_remove(str_views(old_rem), best as int);
            assert(str_views(out@).to_multiset() == mo.insert(x@));
            assert(str_views(rem@).to_multiset() == mr.remove(x@));
            assert(str_views(old_rem).contains(x@)) by {
                assert(str_views(old_rem)[best as int] == x@);
            }
            vstd::seq_lib::to_multiset_contains(str_views(old_rem), x@);
            assert(mr.count(x@) > 0);
            assert(mo.insert(x@).add(mr.remove(x@)) =~= mo.add(mr));
        }
    }
    proof {
        assert(str_views(rem@).to_multiset() =~= Multiset::empty());
        assert(str_views(out@).to_multiset().add(Multiset::empty()) =~= str_views(out@).to_multiset());
    }
    out
}

} // verus!
