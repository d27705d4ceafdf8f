//! Workspace-relative path resolution: the lexical half of the security
//! boundary (the caller then resolves symbolic links of the part that
//! exists and checks the result again with [`path_starts_with`]).
//!
//! Paths are Unix paths: `/`-separated, absolute when they begin with `/`.

use vstd::prelude::*;

use crate::editor::git_paths::{components, path_components};
use crate::text::{
    chars_eq, chars_of, join_range, join_seq, seq_starts_with, string_from_chars, trim_chars, trim_seq,
    views_of,
};
use crate::tools::error::{ToolError, ToolErrorView};

verus! {

pub open spec fn parent_dir() -> Seq<char> {
    seq!['.', '.']
}

/// `base` after walking `comps`: `..` steps up (failing above the file
/// system root), other names step down.
pub open spec fn walk(base: Seq<Seq<char>>, comps: Seq<Seq<char>>) -> Option<Seq<Seq<char>>>
    decreases comps.len(),
{
    if comps.len() == 0 {
        Some(base)
    } else if comps[0] == parent_dir() {
        if base.len() == 0 {
            None
        } else {
            walk(base.drop_last(), comps.drop_first())
        }
    } else {
        walk(base.push(comps[0]), comps.drop_first())
    }
}

/// The absolute path with these components.
pub open spec fn absolute_text(comps: Seq<Seq<char>>) -> Seq<char> {
    seq!['/'] + join_seq(comps, '/')
}

/// `relative` resolved under the canonical root `root`, or why it may not be.
pub open spec fn resolve_under(root: Seq<char>, relative: Seq<char>) -> Result<Seq<char>, ToolErrorView> {
    let t = trim_seq(relative);
    let base = path_components(root);
    if t.len() == 0 {
        Err(ToolErrorView::Message("empty path"@))
    } else if t[0] == '/' {
        Err(ToolErrorView::PathEscape(t))
    } else {
        match walk(base, path_components(t)) {
            None => Err(ToolErrorView::PathEscape(t)),
            Some(b) => if seq_starts_with(b, base) {
                Ok(absolute_text(b))
            } else {
                Err(ToolErrorView::PathEscape(t))
            },
        }
    }
}

fn is_parent(c: &Vec<char>) -> (r: bool)
    ensures
        r == (c@ == parent_dir()),
{
    let pd = vec!['.', '.'];
    assert(pd@ =~= parent_dir());
    chars_eq(c.as_slice(), pd.as_slice())
}

fn escape(t: &Vec<char>) -> (r: ToolError)
    ensures
        r@ == ToolErrorView::PathEscape(t@),
{
    ToolError::PathEscape(string_from_chars(t.as_slice()))
}

/// Whether the components `b` begin with the components `base`.
fn comps_start_with(b: &Vec<Vec<char>>, base: &Vec<Vec<char>>) -> (r: bool)
    ensures
        r == seq_starts_with(views_of(b@), views_of(base@)),
{
    if base.len() > b.len() {
        return false;
    }
    let mut i: usize = 0;
    while i < base.len()
        invariant
            base@.len() <= b@.len(),
            0 <= i <= base@.len(),
            forall|k: int| 0 <= k < i ==> b@[k]@ == base@[k]@,
        decreases base@.len() - i,
    {
        if !chars_eq(b[i].as_slice(), base[i].as_slice()) {
            assert(views_of(b@).subrange(0, base@.len() as int)[i as int] != views_of(base@)[i as int]);
            return false;
        }
        i = i + 1;
    }
    assert(views_of(b@).subrange(0, base@.len() as int) =~= views_of(base@));
    true
}

/// Whether path `p` begins with path `base`, component by component.
pub fn path_starts_with(p: &str, base: &str) -> (r: bool)
    ensures
        r == seq_starts_with(path_components(p@), path_components(base@)),
{
    let a = components(p);
    let b = components(base);
    comps_start_with(&a, &b)
}

/// Resolves `relative` under the workspace root and checks that the result
/// stays inside it, by components only. `root` is the canonical workspace
/// root, or the error that canonicalizing it gave.
pub fn canonical_under_workspace(root: Result<String, ToolError>, relative: &str) -> (r: Result<
    String,
    ToolError,
>)
    ensures
        trim_seq(relative@).len() == 0 ==> r is Err && r->Err_0@ == ToolErrorView::Message(
            "empty path"@,
        ),
        (trim_seq(relative@).len() > 0 && trim_seq(relative@)[0] == '/') ==> r is Err && r->Err_0@
            == ToolErrorView::PathEscape(trim_seq(relative@)),
        (trim_seq(relative@).len() > 0 && trim_seq(relative@)[0] != '/') ==> match root {
            Err(e) => r is Err && r->Err_0@ == e@,
            Ok(rt) => match resolve_under(rt@, relative@) {
                Ok(t) => r is Ok && r->Ok_0@ == t,
                Err(ev) => r is Err && r->Err_0@ == ev,
            },
        },
{
    let rc = chars_of(relative);
    let t = trim_chars(&rc);
    if t.len() == 0 {
        return Err(ToolError::msg("empty path".to_owned()));
    }
    if t[0] == '/' {
        return Err(escape(&t));
    }
    let rt = root?;
    let base = components(rt.as_str());
    let ts = string_from_chars(t.as_slice());
    let comps = components(ts.as_str());
    let mut built = components(rt.as_str());
    let mut i: usize = 0;
    proof {
        assert(views_of(comps@).subrange(0, comps@.len() as int) =~= views_of(comps@));
    }
    while i < comps.len()
        invariant
            0 <= i <= comps@.len(),
            t@ == trim_seq(relative@),
            t@.len() > 0,
            t@[0] != '/',
            root matches Ok(x) && x@ == rt@,
            views_of(comps@) == path_components(t@),
            views_of(base@) == path_components(rt@),
            walk(views_of(built@), views_of(comps@).subrange(i as int, comps@.len() as int)) == walk(
                views_of(base@),
                views_of(comps@),
            ),
        decreases comps@.len() - i,
    {
        let ghost rest = views_of(comps@).subrange(i as int, comps@.len() as int);
        assert(rest[0] == comps@[i as int]@);
        assert(rest.drop_first() =~= views_of(comps@).subrange(i + 1, comps@.len() as int));
        if is_parent(&comps[i]) {
            if built.len() == 0 {
                assert(walk(views_of(built@), rest) is None);
                return Err(escape(&t));
            }
            let ghost pre = views_of(built@);
            built.pop();
            assert(views_of(built@) =~= pre.drop_last());
        } else {
            let ghost pre = views_of(built@);
            built.push(comps[i].clone());
            assert(views_of(built@) =~= pre.push(comps@[i as int]@));
        }
        i = i + 1;
    }
    proof {
        assert(views_of(comps@).subrange(i as int, comps@.len() as int) =~= Seq::<Seq<char>>::empty());
    }
    if !comps_start_with(&built, &base) {
        return Err(escape(&t));
    }
    let joined = join_range(&built, 0, built.len(), '/');
    assert(views_of(built@).subrange(0, built@.len() as int) =~= views_of(built@));
    let mut out = "/".to_owned();
    out.append(string_from_chars(joined.as_slice()).as_str());
    proof {
        reveal_strlit("/");
    }
    Ok(out)
}

} // verus!

verus! {

/// A component as resolution produces them: non-empty, not `.`, no `/`.
pub open spec fn good_component(c: Seq<char>) -> bool {
    !crate::editor::git_paths::is_skipped_piece(c) && !c.contains('/')
}

pub open spec fn all_good(b: Seq<Seq<char>>) -> bool {
    forall|i: int| 0 <= i < b.len() ==> good_component(#[trigger] b[i])
}

proof fn lemma_split_shift(p: Seq<char>, y: Seq<char>, j: int, cur: Seq<char>)
    requires
        0 <= j <= y.len(),
    ensures
        crate::text::split_from(p + y, '/', p.len() + j, cur) == crate::text::split_from(y, '/', j, cur),
    decreases y.len() - j,
{
    if j < y.len() {
        assert((p + y)[p.len() + j] == y[j]);
        if y[j] == '/' {
            lemma_split_shift(p, y, j + 1, Seq::empty());
        } else {
            lemma_split_shift(p, y, j + 1, cur.push(y[j]));
        }
    }
}

proof fn lemma_split_concat_from(x: Seq<char>, y: Seq<char>, i: int, cur: Seq<char>)
    requires
        0 <= i <= x.len(),
    ensures
        crate::text::split_from(x + seq!['/'] + y, '/', i, cur) == crate::text::split_from(x, '/', i, cur)
            + crate::text::split_from(y, '/', 0, Seq::empty()),
    decreases x.len() - i,
{
    let s = x + seq!['/'] + y;
    if i == x.len() {
        assert(s[i] == '/');
        lemma_split_shift(x + seq!['/'], y, 0, Seq::empty());
        assert((x + seq!['/']) + y == s);
    } else {
        assert(s[i] == x[i]);
        if x[i] == '/' {
            lemma_split_concat_from(x, y, i + 1, Seq::empty());
        } else {
            lemma_split_concat_from(x, y, i + 1, cur.push(x[i]));
        }
    }
}

/// Splitting at a separator splits the two sides.
proof fn lemma_split_concat(x: Seq<char>, y: Seq<char>)
    ensures
        crate::text::split_seq(x + seq!['/'] + y, '/') == crate::text::split_seq(x, '/')
            + crate::text::split_seq(y, '/'),
{
    lemma_split_concat_from(x, y, 0, Seq::empty());
}

proof fn lemma_split_plain(s: Seq<char>, i: int, cur: Seq<char>)
    requires
        0 <= i <= s.len(),
        !s.contains('/'),
    ensures
        crate::text::split_from(s, '/', i, cur) == seq![cur + s.subrange(i, s.len() as int)],
    decreases s.len() - i,
{
    if i < s.len() {
        assert(s[i] != '/');
        lemma_split_plain(s, i + 1, cur.push(s[i]));
        assert(cur.push(s[i]) + s.subrange(i + 1, s.len() as int) =~= cur + s.subrange(i, s.len() as int));
    } else {
        assert(cur + s.subrange(i, s.len() as int) =~= cur);
    }
}

/// Splitting joined components gives them back.
proof fn lemma_split_join(b: Seq<Seq<char>>)
    requires
        b.len() > 0,
        all_good(b),
    ensures
        crate::text::split_seq(join_seq(b, '/'), '/') == b,
    decreases b.len(),
{
    let last = b.last();
    assert(good_component(b[b.len() - 1]));
    lemma_split_plain(last, 0, Seq::empty());
    assert(Seq::<char>::empty() + last.subrange(0, last.len() as int) =~= last);
    if b.len() == 1 {
        assert(join_seq(b, '/') == b[0]);
        assert(seq![last] =~= b);
    } else {
        let front = b.drop_last();
        assert(all_good(front)) by {
            assert forall|i: int| 0 <= i < front.len() implies good_component(#[trigger] front[i]) by {
                assert(front[i] == b[i]);
            }
        }
        lemma_split_join(front);
        assert(join_seq(b, '/') == join_seq(front, '/').push('/') + last);
        assert(join_seq(front, '/').push('/') + last =~= join_seq(front, '/') + seq!['/'] + last);
        lemma_split_concat(join_seq(front, '/'), last);
        assert(front + seq![last] =~= b);
    }
}

proof fn lemma_components_all_good(b: Seq<Seq<char>>)
    requires
        all_good(b),
    ensures
        crate::editor::git_paths::components_of(b) == b,
    decreases b.len(),
{
    if b.len() > 0 {
        assert(good_component(b[0]));
        let rest = b.drop_first();
        assert(all_good(rest)) by {
            assert forall|i: int| 0 <= i < rest.len() implies good_component(#[trigger] rest[i]) by {
                assert(rest[i] == b[i + 1]);
            }
        }
        lemma_components_all_good(rest);
        assert(seq![b[0]] + rest =~= b);
    }
}

/// The components of the absolute path built from good components are
/// those components.
proof fn lemma_absolute_components(b: Seq<Seq<char>>)
    requires
        all_good(b),
    ensures
        path_components(absolute_text(b)) == b,
{
    let t = absolute_text(b);
    assert(t =~= Seq::<char>::empty() + seq!['/'] + join_seq(b, '/'));
    lemma_split_concat(Seq::<char>::empty(), join_seq(b, '/'));
    let e = crate::text::split_seq(Seq::<char>::empty(), '/');
    assert(e == seq![Seq::<char>::empty()]);
    assert(crate::text::split_seq(t, '/') == e + crate::text::split_seq(join_seq(b, '/'), '/'));
    if b.len() == 0 {
        assert(join_seq(b, '/') == Seq::<char>::empty());
        let parts = e + e;
        assert(crate::text::split_seq(t, '/') == parts);
        assert(parts[0].len() == 0);
        assert(parts.drop_first() =~= e);
        assert(e.drop_first() =~= Seq::<Seq<char>>::empty());
        assert(crate::editor::git_paths::components_of(e.drop_first()) == Seq::<Seq<char>>::empty());
        assert(crate::editor::git_paths::components_of(e) == Seq::<Seq<char>>::empty());
        assert(crate::editor::git_paths::components_of(parts) == Seq::<Seq<char>>::empty());
    } else {
        lemma_split_join(b);
        let parts = e + b;
        assert(crate::text::split_seq(t, '/') == parts);
        assert(parts[0].len() == 0);
        assert(parts.drop_first() =~= b);
        lemma_components_all_good(b);
        assert(crate::editor::git_paths::components_of(parts) == crate::editor::git_paths::components_of(b));
    }
}

proof fn lemma_split_pieces_plain(s: Seq<char>, i: int, cur: Seq<char>)
    requires
        0 <= i <= s.len(),
        !cur.contains('/'),
    ensures
        forall|k: int| 0 <= k < crate::text::split_from(s, '/', i, cur).len() ==> !(#[trigger] crate::text::split_from(s, '/', i, cur)[k]).contains('/'),
    decreases s.len() - i,
{
    if i < s.len() {
        if s[i] == '/' {
            lemma_split_pieces_plain(s, i + 1, Seq::empty());
            let r = crate::text::split_from(s, '/', i + 1, Seq::empty());
            assert(crate::text::split_from(s, '/', i, cur) == seq![cur] + r);
            assert forall|k: int| 0 <= k < (seq![cur] + r).len() implies !(#[trigger] (seq![cur] + r)[k]).contains('/') by {
                if k > 0 {
                    assert((seq![cur] + r)[k] == r[k - 1]);
                }
            }
        } else {
            assert(!cur.push(s[i]).contains('/')) by {
                if cur.push(s[i]).contains('/') {
                    let k = choose|k: int| 0 <= k < cur.push(s[i]).len() && cur.push(s[i])[k] == '/';
                    if k < cur.len() {
                        assert(cur[k] == '/');
                    }
                }
            }
            lemma_split_pieces_plain(s, i + 1, cur.push(s[i]));
            assert(crate::text::split_from(s, '/', i, cur) == crate::text::split_from(
                s,
                '/',
                i + 1,
                cur.push(s[i]),
            ));
        }
    } else {
        assert(crate::text::split_from(s, '/', i, cur) == seq![cur]);
        assert forall|k: int| 0 <= k < seq![cur].len() implies !(#[trigger] seq![cur][k]).contains('/') by {
            assert(seq![cur][k] == cur);
        }
    }
}

proof fn lemma_components_of_good(parts: Seq<Seq<char>>)
    requires
        forall|k: int| 0 <= k < parts.len() ==> !(#[trigger] parts[k]).contains('/'),
    ensures
        all_good(crate::editor::git_paths::components_of(parts)),
    decreases parts.len(),
{
    if parts.len() > 0 {
        let rest = parts.drop_first();
        assert forall|k: int| 0 <= k < rest.len() implies !(#[trigger] rest[k]).contains('/') by {
            assert(rest[k] == parts[k + 1]);
        }
        lemma_components_of_good(rest);
        if !crate::editor::git_paths::is_skipped_piece(parts[0]) {
            let c = crate::editor::git_paths::components_of(rest);
            assert(!parts[0].contains('/'));
            assert forall|i: int| 0 <= i < (seq![parts[0]] + c).len() implies good_component(
                #[trigger] (seq![parts[0]] + c)[i],
            ) by {
                if i > 0 {
                    assert((seq![parts[0]] + c)[i] == c[i - 1]);
                }
            }
        }
    }
}

/// Path components are good components.
pub proof fn lemma_path_components_good(p: Seq<char>)
    ensures
        all_good(path_components(p)),
{
    lemma_split_pieces_plain(p, 0, Seq::empty());
    lemma_components_of_good(crate::text::split_seq(p, '/'));
}

proof fn lemma_walk_good(base: Seq<Seq<char>>, comps: Seq<Seq<char>>)
    requires
        all_good(base),
        all_good(comps),
    ensures
        walk(base, comps) matches Some(b) ==> all_good(b),
    decreases comps.len(),
{
    if comps.len() > 0 {
        let rest = comps.drop_first();
        assert(all_good(rest)) by {
            assert forall|i: int| 0 <= i < rest.len() implies good_component(#[trigger] rest[i]) by {
                assert(rest[i] == comps[i + 1]);
            }
        }
        if comps[0] == parent_dir() {
            if base.len() > 0 {
                let nb = base.drop_last();
                assert(all_good(nb)) by {
                    assert forall|i: int| 0 <= i < nb.len() implies good_component(#[trigger] nb[i]) by {
                        assert(nb[i] == base[i]);
                    }
                }
                lemma_walk_good(nb, rest);
            }
        } else {
            let nb = base.push(comps[0]);
            assert(good_component(comps[0]));
            assert(all_good(nb)) by {
                assert forall|i: int| 0 <= i < nb.len() implies good_component(#[trigger] nb[i]) by {
                    if i < base.len() {
                        assert(nb[i] == base[i]);
                    }
                }
            }
            lemma_walk_good(nb, rest);
        }
    }
}

/// A path that resolves lies inside the workspace: its components begin
/// with the root's components.
pub proof fn law_resolved_path_stays_inside(root: Seq<char>, relative: Seq<char>)
    ensures
        resolve_under(root, relative) matches Ok(t) ==> seq_starts_with(
            path_components(t),
            path_components(root),
        ),
{
    if let Ok(t) = resolve_under(root, relative) {
        let base = path_components(root);
        let tr = trim_seq(relative);
        lemma_path_components_good(root);
        lemma_path_components_good(tr);
        lemma_walk_good(base, path_components(tr));
        let b = walk(base, path_components(tr))->Some_0;
        lemma_absolute_components(b);
    }
}

} // verus!

verus! {

/// `prefix` joined with the components `rest`, as `Path::join` writes it:
/// one `/` between them unless `prefix` already ends with one.
pub open spec fn with_rest(prefix: Seq<char>, rest: Seq<Seq<char>>) -> Seq<char> {
    if rest.len() == 0 {
        prefix
    } else if prefix.len() > 0 && prefix.last() == '/' {
        prefix + join_seq(rest, '/')
    } else {
        prefix + seq!['/'] + join_seq(rest, '/')
    }
}

/// The resolved path cut after its first `keep` components: the absolute
/// path of those (the candidate that the caller checks for existence and
/// canonicalizes) and the components that follow.
pub fn split_resolved(resolved: &str, keep: usize) -> (r: (String, Vec<String>))
    requires
        keep <= path_components(resolved@).len(),
    ensures
        r.0@ == absolute_text(path_components(resolved@).subrange(0, keep as int)),
        r.1@.map_values(|s: String| s@) == path_components(resolved@).subrange(
            keep as int,
            path_components(resolved@).len() as int,
        ),
{
    let comps = components(resolved);
    let ghost cv = path_components(resolved@);
    let joined = join_range(&comps, 0, keep, '/');
    let mut head = "/".to_owned();
    head.append(string_from_chars(joined.as_slice()).as_str());
    proof {
        reveal_strlit("/");
        assert(head@ =~= seq!['/'] + join_seq(cv.subrange(0, keep as int), '/'));
    }
    let mut rest: Vec<String> = Vec::new();
    let mut i = keep;
    while i < comps.len()
        invariant
            keep <= i <= comps@.len(),
            views_of(comps@) == cv,
            rest@.map_values(|s: String| s@) == cv.subrange(keep as int, i as int),
        decreases comps@.len() - i,
    {
        let piece = string_from_chars(comps[i].as_slice());
        let ghost before = rest@;
        rest.push(piece);
        assert(cv[i as int] == comps@[i as int]@);
        assert(rest@ == before.push(piece));
        assert(rest@.map_values(|s: String| s@) =~= before.map_values(|s: String| s@).push(piece@));
        assert(cv.subrange(keep as int, i + 1) =~= cv.subrange(keep as int, i as int).push(cv[i as int]));
        i = i + 1;
    }
    (head, rest)
}

/// The final step of resolving a workspace path, after the caller has
/// canonicalized (resolving symbolic links) the longest existing prefix of
/// the lexically resolved path: that prefix must still lie under the
/// canonical `root`, else the path escapes; the result is the prefix joined
/// with the components that do not exist yet.
pub fn check_under_root(root: &str, relative: &str, canonical_prefix: &str, rest: &Vec<String>) -> (r: Result<
    String,
    ToolError,
>)
    ensures
        !seq_starts_with(path_components(canonical_prefix@), path_components(root@)) ==> r is Err
            && r->Err_0@ == ToolErrorView::PathEscape(trim_seq(relative@)),
        seq_starts_with(path_components(canonical_prefix@), path_components(root@)) ==> r is Ok
            && r->Ok_0@ == with_rest(canonical_prefix@, rest@.map_values(|s: String| s@)),
{
    if !path_starts_with(canonical_prefix, root) {
        let rc = chars_of(relative);
        let t = trim_chars(&rc);
        return Err(escape(&t));
    }
    let ghost rv = rest@.map_values(|s: String| s@);
    if rest.len() == 0 {
        return Ok(canonical_prefix.to_owned());
    }
    let mut parts: Vec<Vec<char>> = Vec::new();
    let mut i: usize = 0;
    while i < rest.len()
        invariant
            0 <= i <= rest@.len(),
            rv == rest@.map_values(|s: String| s@),
            views_of(parts@) == rv.subrange(0, i as int),
        decreases rest@.len() - i,
    {
        let piece = chars_of(rest[i].as_str());
        let ghost before = parts@;
        parts.push(piece);
        assert(rv[i as int] == rest@[i as int]@);
        assert(parts@ == before.push(piece));
        assert(views_of(parts@) =~= views_of(before).push(piece@));
        assert(rv.subrange(0, i + 1) =~= rv.subrange(0, i as int).push(rv[i as int]));
        i = i + 1;
    }
    assert(rv.subrange(0, rest@.len() as int) =~= rv);
    let joined = join_range(&parts, 0, parts.len(), '/');
    assert(views_of(parts@).subrange(0, parts@.len() as int) =~= rv);
    let pc = chars_of(canonical_prefix);
    let mut out = canonical_prefix.to_owned();
    if !(pc.len() > 0 && pc[pc.len() - 1] == '/') {
        out.append("/");
        proof {
            reveal_strlit("/");
        }
    }
    out.append(string_from_chars(joined.as_slice()).as_str());
    proof {
        assert(out@ =~= with_rest(canonical_prefix@, rv));
    }
    Ok(out)
}

} // verus!
