//! Classifying file-system event paths that point into a repository's `.git`
//! directory.
//!
//! A path is read as its `/`-separated components, with empty components
//! and `.` components dropped (as `std::path::Path::components` does for
//! the names compared here).

use vstd::prelude::*;

use crate::text::{chars_of, split_chars, split_seq};

verus! {

pub open spec fn dot_git() -> Seq<char> {
    seq!['.', 'g', 'i', 't']
}

pub open spec fn head_name() -> Seq<char> {
    seq!['H', 'E', 'A', 'D']
}

pub open spec fn refs_name() -> Seq<char> {
    seq!['r', 'e', 'f', 's']
}

pub open spec fn packed_refs_name() -> Seq<char> {
    seq!['p', 'a', 'c', 'k', 'e', 'd', '-', 'r', 'e', 'f', 's']
}

/// A `/`-separated piece that names no component (empty, or `.`).
pub open spec fn is_skipped_piece(s: Seq<char>) -> bool {
    s.len() == 0 || s == seq!['.']
}

/// The pieces that name components, in order.
pub open spec fn components_of(parts: Seq<Seq<char>>) -> Seq<Seq<char>>
    decreases parts.len(),
{
    if parts.len() == 0 {
        Seq::empty()
    } else if is_skipped_piece(parts[0]) {
        components_of(parts.drop_first())
    } else {
        seq![parts[0]] + components_of(parts.drop_first())
    }
}

/// The components of path `p`.
pub open spec fn path_components(p: Seq<char>) -> Seq<Seq<char>> {
    components_of(split_seq(p, '/'))
}

/// A name under `.git` that decides which branch is checked out.
pub open spec fn is_ref_name(s: Seq<char>) -> bool {
    s == head_name() || s == packed_refs_name() || s == refs_name()
}

/// The component right after the first `.git` component is a ref name.
pub open spec fn ref_after_git(c: Seq<Seq<char>>) -> bool
    decreases c.len(),
{
    if c.len() == 0 {
        false
    } else if c[0] == dot_git() {
        c.len() > 1 && is_ref_name(c[1])
    } else {
        ref_after_git(c.drop_first())
    }
}

proof fn lemma_contains_cons(x: Seq<char>, s: Seq<Seq<char>>, d: Seq<char>)
    ensures
        (seq![x] + s).contains(d) <==> (x == d || s.contains(d)),
{
    let t = seq![x] + s;
    if t.contains(d) {
        let i = choose|i: int| 0 <= i < t.len() && t[i] == d;
        if i > 0 {
            assert(s[i - 1] == d);
        }
    }
    if s.contains(d) {
        let i = choose|i: int| 0 <= i < s.len() && s[i] == d;
        assert(t[i + 1] == d);
    }
    if x == d {
        assert(t[0] == d);
    }
}

proof fn lemma_ref_after_git_contains(c: Seq<Seq<char>>)
    ensures
        ref_after_git(c) ==> c.contains(dot_git()),
    decreases c.len(),
{
    if c.len() > 0 {
        if c[0] == dot_git() {
            assert(c[0] == dot_git());
        } else {
            lemma_ref_after_git_contains(c.drop_first());
            if ref_after_git(c) {
                let i = choose|i: int|
                    0 <= i < c.drop_first().len() && c.drop_first()[i] == dot_git();
                assert(c[i + 1] == dot_git());
            }
        }
    }
}

fn is_skipped(v: &Vec<char>) -> (r: bool)
    ensures
        r == is_skipped_piece(v@),
{
    if v.len() == 0 {
        return true;
    }
    if v.len() == 1 && v[0] == '.' {
        assert(v@ =~= seq!['.']);
        return true;
    }
    assert(v@.len() != 1 || v@[0] != '.');
    false
}

fn chars_equal(v: &Vec<char>, lit: &Vec<char>) -> (r: bool)
    ensures
        r == (v@ == lit@),
{
    if v.len() != lit.len() {
        return false;
    }
    let mut i: usize = 0;
    while i < v.len()
        invariant
            v@.len() == lit@.len(),
            0 <= i <= v@.len(),
            forall|k: int| 0 <= k < i ==> v@[k] == lit@[k],
        decreases v@.len() - i,
    {
        if v[i] != lit[i] {
            return false;
        }
        i = i + 1;
    }
    assert(v@ =~= lit@);
    true
}

fn dot_git_chars() -> (r: Vec<char>)
    ensures
        r@ == dot_git(),
{
    let r = vec!['.', 'g', 'i', 't'];
    assert(r@ =~= dot_git());
    r
}

fn is_ref_piece(v: &Vec<char>) -> (r: bool)
    ensures
        r == is_ref_name(v@),
{
    let head = vec!['H', 'E', 'A', 'D'];
    let refs = vec!['r', 'e', 'f', 's'];
    let packed = vec!['p', 'a', 'c', 'k', 'e', 'd', '-', 'r', 'e', 'f', 's'];
    assert(head@ =~= head_name());
    assert(refs@ =~= refs_name());
    assert(packed@ =~= packed_refs_name());
    chars_equal(v, &head) || chars_equal(v, &packed) || chars_equal(v, &refs)
}

proof fn lemma_components_step(parts: Seq<Seq<char>>, j: int)
    requires
        0 <= j < parts.len(),
    ensures
        components_of(parts.subrange(j, parts.len() as int)) == (if is_skipped_piece(parts[j]) {
            components_of(parts.subrange(j + 1, parts.len() as int))
        } else {
            seq![parts[j]] + components_of(parts.subrange(j + 1, parts.len() as int))
        }),
{
    let tail = parts.subrange(j, parts.len() as int);
    assert(tail.drop_first() =~= parts.subrange(j + 1, parts.len() as int));
    assert(tail[0] == parts[j]);
}

/// True when any component of `p` is literally `.git`.
pub fn path_inside_dot_git(p: &str) -> (r: bool)
    ensures
        r == path_components(p@).contains(dot_git()),
{
    let chars = chars_of(p);
    let parts = split_chars(chars.as_slice(), '/');
    let ghost ps = parts@.map_values(|v: Vec<char>| v@);
    let dg = dot_git_chars();
    let mut j: usize = 0;
    proof {
        assert(ps.subrange(0, ps.len() as int) =~= ps);
    }
    while j < parts.len()
        invariant
            ps == parts@.map_values(|v: Vec<char>| v@),
            ps == split_seq(p@, '/'),
            dg@ == dot_git(),
            0 <= j <= parts@.len(),
            path_components(p@).contains(dot_git()) == components_of(
                ps.subrange(j as int, ps.len() as int),
            ).contains(dot_git()),
        decreases parts@.len() - j,
    {
        let part = &parts[j];
        assert(ps[j as int] == part@);
        proof {
            lemma_components_step(ps, j as int);
        }
        if !is_skipped(part) {
            proof {
                lemma_contains_cons(
                    part@,
                    components_of(ps.subrange(j + 1, ps.len() as int)),
                    dot_git(),
                );
            }
            if chars_equal(part, &dg) {
                return true;
            }
        }
        j = j + 1;
    }
    proof {
        assert(ps.subrange(j as int, ps.len() as int) =~= Seq::<Seq<char>>::empty());
    }
    false
}

/// True when the component right after the first `.git` component is
/// `HEAD`, `refs` or `packed-refs`: the paths that decide which branch is
/// checked out.
pub fn is_git_ref_like(p: &str) -> (r: bool)
    ensures
        r == ref_after_git(path_components(p@)),
{
    let chars = chars_of(p);
    let parts = split_chars(chars.as_slice(), '/');
    let ghost ps = parts@.map_values(|v: Vec<char>| v@);
    let dg = dot_git_chars();
    let mut j: usize = 0;
    proof {
        assert(ps.subrange(0, ps.len() as int) =~= ps);
    }
    while j < parts.len()
        invariant
            ps == parts@.map_values(|v: Vec<char>| v@),
            ps == split_seq(p@, '/'),
            dg@ == dot_git(),
            0 <= j <= parts@.len(),
            ref_after_git(path_components(p@)) == ref_after_git(
                components_of(ps.subrange(j as int, ps.len() as int)),
            ),
        decreases parts@.len() - j,
    {
        let part = &parts[j];
        assert(ps[j as int] == part@);
        proof {
            lemma_components_step(ps, j as int);
        }
        if !is_skipped(part) {
            let ghost rest = components_of(ps.subrange(j + 1, ps.len() as int));
            assert((seq![part@] + rest)[0] == part@);
            assert((seq![part@] + rest).drop_first() =~= rest);
            if chars_equal(part, &dg) {
                // The answer is decided by the next component.
                let mut k: usize = j + 1;
                proof {
                    assert(ps.subrange(k as int, ps.len() as int) =~= ps.subrange(
                        j + 1,
                        ps.len() as int,
                    ));
                }
                while k < parts.len()
                    invariant
                        ps == parts@.map_values(|v: Vec<char>| v@),
                        j < k <= parts@.len(),
                        rest == components_of(ps.subrange(j + 1, ps.len() as int)),
                        ref_after_git(path_components(p@)) == (rest.len() > 0 && is_ref_name(
                            rest[0],
                        )),
                        components_of(ps.subrange(k as int, ps.len() as int)) == rest,
                    decreases parts@.len() - k,
                {
                    let next = &parts[k];
                    assert(ps[k as int] == next@);
                    proof {
                        lemma_components_step(ps, k as int);
                    }
                    if !is_skipped(next) {
                        return is_ref_piece(next);
                    }
                    k = k + 1;
                }
                proof {
                    assert(ps.subrange(k as int, ps.len() as int) =~= Seq::<Seq<char>>::empty());
                }
                return false;
            }
        }
        j = j + 1;
    }
    proof {
        assert(ps.subrange(j as int, ps.len() as int) =~= Seq::<Seq<char>>::empty());
    }
    false
}

/// Every path that gates a branch refresh is also inside `.git`.
pub proof fn law_ref_like_is_inside_dot_git(p: Seq<char>)
    ensures
        ref_after_git(path_components(p)) ==> path_components(p).contains(dot_git()),
{
    lemma_ref_after_git_contains(path_components(p));
}

} // verus!

verus! {

/// The components of path `p`.
pub fn components(p: &str) -> (r: Vec<Vec<char>>)
    ensures
        crate::text::views_of(r@) == path_components(p@),
{
    let chars = chars_of(p);
    let parts = split_chars(chars.as_slice(), '/');
    let ghost ps = parts@.map_values(|v: Vec<char>| v@);
    let mut out: Vec<Vec<char>> = Vec::new();
    let mut j: usize = 0;
    proof {
        assert(ps.subrange(0, ps.len() as int) =~= ps);
    }
    while j < parts.len()
        invariant
            ps == parts@.map_values(|v: Vec<char>| v@),
            ps == split_seq(p@, '/'),
            0 <= j <= parts@.len(),
            crate::text::views_of(out@) + components_of(ps.subrange(j as int, ps.len() as int))
                == path_components(p@),
        decreases parts@.len() - j,
    {
        let ghost before = crate::text::views_of(out@);
        assert(ps[j as int] == parts@[j as int]@);
        proof {
            lemma_components_step(ps, j as int);
        }
        if !is_skipped(&parts[j]) {
            let c = parts[j].clone();
            out.push(c);
            assert(crate::text::views_of(out@) =~= before.push(parts@[j as int]@));
            assert(before.push(ps[j as int]) + components_of(ps.subrange(j + 1, ps.len() as int))
                =~= before + (seq![ps[j as int]] + components_of(
                ps.subrange(j + 1, ps.len() as int),
            )));
        }
        j = j + 1;
    }
    proof {
        assert(ps.subrange(j as int, ps.len() as int) =~= Seq::<Seq<char>>::empty());
        assert(crate::text::views_of(out@) + Seq::<Seq<char>>::empty() =~= crate::text::views_of(
            out@,
        ));
    }
    out
}

} // verus!
