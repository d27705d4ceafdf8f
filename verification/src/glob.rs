//! Path globbing used by the file-finding tools: `*` and `?` inside a
//! segment, `**` across whole `/`-separated segments.

use vstd::prelude::*;
use vstd::string::StringSliceAdditionalSpecFns;

use crate::text::{split_bytes_on, split_seq};

verus! {

pub open spec fn STAR() -> u8 { 42u8 }

pub open spec fn QMARK() -> u8 { 63u8 }

pub open spec fn SLASH() -> u8 { 47u8 }

/// `p[pi..]` consists of `*` bytes only.
pub open spec fn only_stars_from(p: Seq<u8>, pi: int) -> bool {
    forall|k: int| pi <= k < p.len() ==> p[k] == STAR()
}

/// The single-segment matcher, as a run of the scanning matcher: `pi`/`si`
/// are the positions in pattern and text, and (`spi`, `ssi`) the last `*`
/// in the pattern together with the text position it has absorbed up to.
/// A `*` in the text is first tried as a literal against a `*` in the
/// pattern, before the pattern `*` is taken as a wildcard.
pub open spec fn scan_match(
    p: Seq<u8>,
    s: Seq<u8>,
    pi: int,
    si: int,
    has_star: bool,
    spi: int,
    ssi: int,
) -> bool
    decreases
            (if has_star { s.len() - ssi } else { s.len() as int + 1 }),
            s.len() - si,
            p.len() - pi,
    when 0 <= pi <= p.len() && 0 <= si <= s.len() && (has_star ==> 0 <= ssi <= si)
{
    if si >= s.len() {
        only_stars_from(p, pi)
    } else if pi < p.len() && (p[pi] == QMARK() || p[pi] == s[si]) {
        scan_match(p, s, pi + 1, si + 1, has_star, spi, ssi)
    } else if pi < p.len() && p[pi] == STAR() {
        scan_match(p, s, pi + 1, si, true, pi, si)
    } else if has_star && 0 <= spi < p.len() {
        scan_match(p, s, spi + 1, ssi + 1, true, spi, ssi + 1)
    } else {
        false
    }
}

/// What `wildcard_match` answers for pattern bytes `p` and text bytes `s`.
pub open spec fn wildcard_spec(p: Seq<u8>, s: Seq<u8>) -> bool {
    scan_match(p, s, 0, 0, false, 0, 0)
}

/// Declarative wildcard matching of `p[i..]` against `s[j..]`: `?` matches one
/// byte, `*` any run of bytes, everything else itself.
pub open spec fn wild(p: Seq<u8>, i: int, s: Seq<u8>, j: int) -> bool
    decreases p.len() - i, s.len() - j,
    when 0 <= i <= p.len() && 0 <= j <= s.len()
{
    if i == p.len() {
        j == s.len()
    } else if p[i] == STAR() {
        wild(p, i + 1, s, j) || (j < s.len() && wild(p, i, s, j + 1))
    } else {
        j < s.len() && (p[i] == QMARK() || p[i] == s[j]) && wild(p, i + 1, s, j + 1)
    }
}

pub open spec fn no_star(s: Seq<u8>) -> bool {
    forall|k: int| 0 <= k < s.len() ==> s[k] != STAR()
}


/// `p[a..a+len]` holds no `*` and matches `s[b..b+len]` byte for byte
/// (`?` matching any byte).
pub open spec fn literal_run(p: Seq<u8>, a: int, s: Seq<u8>, b: int, len: int) -> bool {
    &&& 0 <= a && a + len <= p.len()
    &&& 0 <= b && b + len <= s.len()
    &&& 0 <= len
    &&& forall|u: int|
        a <= u < a + len ==> #[trigger] p[u] != STAR() && (p[u] == QMARK() || p[u] == s[b + (u
            - a)])
}

proof fn lemma_literal_run(p: Seq<u8>, a: int, s: Seq<u8>, b: int, len: int)
    requires
        literal_run(p, a, s, b, len),
    ensures
        wild(p, a, s, b) == wild(p, a + len, s, b + len),
    decreases len,
{
    if len > 0 {
        assert(p[a] != STAR() && (p[a] == QMARK() || p[a] == s[b]));
        assert(literal_run(p, a + 1, s, b + 1, len - 1));
        lemma_literal_run(p, a + 1, s, b + 1, len - 1);
    }
}

proof fn lemma_star(p: Seq<u8>, i: int, s: Seq<u8>, j: int)
    requires
        0 <= i < p.len(),
        0 <= j <= s.len(),
        p[i] == STAR(),
    ensures
        wild(p, i, s, j) == exists|k: int| j <= k <= s.len() && #[trigger] wild(p, i + 1, s, k),
    decreases s.len() - j,
{
    if j < s.len() {
        lemma_star(p, i, s, j + 1);
        if wild(p, i, s, j) {
            if wild(p, i + 1, s, j) {
                assert(j <= j <= s.len() && wild(p, i + 1, s, j));
            } else {
                let k = choose|k: int| j + 1 <= k <= s.len() && #[trigger] wild(p, i + 1, s, k);
                assert(j <= k <= s.len() && wild(p, i + 1, s, k));
            }
        }
        if exists|k: int| j <= k <= s.len() && #[trigger] wild(p, i + 1, s, k) {
            let k = choose|k: int| j <= k <= s.len() && #[trigger] wild(p, i + 1, s, k);
            if k > j {
                assert(j + 1 <= k <= s.len() && wild(p, i + 1, s, k));
            }
        }
    } else {
        if exists|k: int| j <= k <= s.len() && #[trigger] wild(p, i + 1, s, k) {
            let k = choose|k: int| j <= k <= s.len() && #[trigger] wild(p, i + 1, s, k);
            assert(k == j);
        }
        if wild(p, i, s, j) {
            assert(j <= j <= s.len() && wild(p, i + 1, s, j));
        }
    }
}

proof fn lemma_tail(p: Seq<u8>, i: int, s: Seq<u8>)
    requires
        0 <= i <= p.len(),
    ensures
        wild(p, i, s, s.len() as int) == only_stars_from(p, i),
    decreases p.len() - i,
{
    if i < p.len() {
        lemma_tail(p, i + 1, s);
        if !only_stars_from(p, i + 1) {
            let k = choose|k: int| i + 1 <= k < p.len() && p[k] != STAR();
            assert(!only_stars_from(p, i));
        }
    }
}

/// A star-free stretch of the pattern must be matched literally.
proof fn lemma_star_free_forces(p: Seq<u8>, a: int, s: Seq<u8>, k: int, len: int)
    requires
        0 <= a && a + len <= p.len(),
        0 <= k <= s.len(),
        0 <= len,
        forall|u: int| a <= u < a + len ==> #[trigger] p[u] != STAR(),
        wild(p, a, s, k),
    ensures
        k + len <= s.len(),
        wild(p, a + len, s, k + len),
    decreases len,
{
    if len > 0 {
        assert(p[a] != STAR());
        lemma_star_free_forces(p, a + 1, s, k + 1, len - 1);
    }
}

/// Invariant of the scanning matcher with respect to the declarative match.
pub open spec fn scan_inv(
    p: Seq<u8>,
    s: Seq<u8>,
    pi: int,
    si: int,
    has_star: bool,
    spi: int,
    ssi: int,
) -> bool {
    &&& 0 <= pi <= p.len()
    &&& 0 <= si <= s.len()
    &&& if has_star {
        &&& 0 <= spi < pi
        &&& p[spi] == STAR()
        &&& 0 <= ssi <= si
        &&& pi - (spi + 1) == si - ssi
        &&& literal_run(p, spi + 1, s, ssi, pi - (spi + 1))
        &&& wild(p, 0, s, 0) == exists|k: int|
            ssi <= k <= s.len() && #[trigger] wild(p, spi + 1, s, k)
    } else {
        wild(p, 0, s, 0) == wild(p, pi, s, si)
    }
}

proof fn lemma_scan(p: Seq<u8>, s: Seq<u8>, pi: int, si: int, has_star: bool, spi: int, ssi: int)
    requires
        no_star(s),
        scan_inv(p, s, pi, si, has_star, spi, ssi),
    ensures
        scan_match(p, s, pi, si, has_star, spi, ssi) == wild(p, 0, s, 0),
    decreases
            (if has_star { s.len() - ssi } else { s.len() as int + 1 }),
            s.len() - si,
            p.len() - pi,
{
    let g = wild(p, 0, s, 0);
    if has_star {
        lemma_literal_run(p, spi + 1, s, ssi, pi - (spi + 1));
    }
    if si >= s.len() {
        lemma_tail(p, pi, s);
        if has_star {
            let len = pi - (spi + 1);
            if g {
                let k = choose|k: int| ssi <= k <= s.len() && #[trigger] wild(p, spi + 1, s, k);
                if k > ssi {
                    lemma_star_free_forces(p, spi + 1, s, k, len);
                }
            } else {
                if wild(p, pi, s, si) {
                    assert(ssi <= ssi <= s.len() && wild(p, spi + 1, s, ssi));
                }
            }
        }
    } else if pi < p.len() && (p[pi] == QMARK() || p[pi] == s[si]) {
        assert(s[si] != STAR());
        assert(p[pi] != STAR());
        if has_star {
            assert(literal_run(p, spi + 1, s, ssi, pi + 1 - (spi + 1)));
        }
        lemma_scan(p, s, pi + 1, si + 1, has_star, spi, ssi);
    } else if pi < p.len() && p[pi] == STAR() {
        lemma_star(p, pi, s, si);
        let ex = exists|k: int| si <= k <= s.len() && #[trigger] wild(p, pi + 1, s, k);
        if has_star {
            let len = pi - (spi + 1);
            if g {
                let k = choose|k: int| ssi <= k <= s.len() && #[trigger] wild(p, spi + 1, s, k);
                lemma_star_free_forces(p, spi + 1, s, k, len);
                lemma_star(p, pi, s, k + len);
                let k2 = choose|k2: int| k + len <= k2 <= s.len() && #[trigger] wild(p, pi + 1, s, k2);
                assert(si <= k2 <= s.len() && wild(p, pi + 1, s, k2));
            }
            if ex {
                assert(ssi <= ssi <= s.len() && wild(p, spi + 1, s, ssi));
            }
        }
        assert(literal_run(p, pi + 1, s, si, 0));
        assert(scan_inv(p, s, pi + 1, si, true, pi, si));
        lemma_scan(p, s, pi + 1, si, true, pi, si);
    } else if has_star && 0 <= spi < p.len() {
        assert(!wild(p, pi, s, si));
        if g {
            let k = choose|k: int| ssi <= k <= s.len() && #[trigger] wild(p, spi + 1, s, k);
            assert(k != ssi);
            assert(ssi + 1 <= k <= s.len() && wild(p, spi + 1, s, k));
        }
        if exists|k: int| ssi + 1 <= k <= s.len() && #[trigger] wild(p, spi + 1, s, k) {
            let k = choose|k: int| ssi + 1 <= k <= s.len() && #[trigger] wild(p, spi + 1, s, k);
            assert(ssi <= k <= s.len() && wild(p, spi + 1, s, k));
        }
        assert(literal_run(p, spi + 1, s, ssi + 1, 0));
        assert(scan_inv(p, s, spi + 1, ssi + 1, true, spi, ssi + 1));
        lemma_scan(p, s, spi + 1, ssi + 1, true, spi, ssi + 1);
    } else {
        assert(!has_star);
        assert(!wild(p, pi, s, si));
    }
}

/// On text without `*` bytes the scanning matcher decides exactly the
/// declarative wildcard match: `*` any run of bytes, `?` any single byte.
pub proof fn law_wildcard_declarative(p: Seq<u8>, s: Seq<u8>)
    requires
        no_star(s),
    ensures
        wildcard_spec(p, s) == wild(p, 0, s, 0),
{
    lemma_scan(p, s, 0, 0, false, 0, 0);
}

/// Byte-level wildcard match of one path segment: `*` matches any run of
/// bytes, `?` exactly one byte.
pub fn wildcard_match_bytes(pb: &[u8], sb: &[u8]) -> (r: bool)
    ensures
        r == wildcard_spec(pb@, sb@),
{
    let mut pi: usize = 0;
    let mut si: usize = 0;
    let mut has_star: bool = false;
    let mut star_pi: usize = 0;
    let mut star_si: usize = 0;
    while si < sb.len()
        invariant
            0 <= pi <= pb@.len(),
            0 <= si <= sb@.len(),
            has_star ==> star_si <= si && star_pi < pb@.len(),
            scan_match(pb@, sb@, pi as int, si as int, has_star, star_pi as int, star_si as int)
                == wildcard_spec(pb@, sb@),
        decreases
            (if has_star { sb@.len() - star_si } else { sb@.len() as int + 1 }),
            sb@.len() - si,
            pb@.len() - pi,
    {
        if pi < pb.len() && (pb[pi] == 63u8 || pb[pi] == sb[si]) {
            pi = pi + 1;
            si = si + 1;
        } else if pi < pb.len() && pb[pi] == 42u8 {
            has_star = true;
            star_pi = pi;
            star_si = si;
            pi = pi + 1;
        } else if has_star {
            star_si = star_si + 1;
            si = star_si;
            pi = star_pi + 1;
        } else {
            return false;
        }
    }
    while pi < pb.len() && pb[pi] == 42u8
        invariant
            0 <= pi <= pb@.len(),
            si == sb@.len(),
            only_stars_from(pb@, pi as int) == wildcard_spec(pb@, sb@),
        decreases pb@.len() - pi,
    {
        pi = pi + 1;
    }
    pi == pb.len()
}

/// The `**` segment.
pub open spec fn is_double_star(seg: Seq<u8>) -> bool {
    seg == seq![STAR(), STAR()]
}

/// Segment-wise glob match of `pat[pi..]` against `s[si..]`: `**` matches
/// any number of whole segments (all of the rest when it is last), any other
/// pattern segment matches exactly one text segment by `wildcard_spec`.
pub open spec fn glob_parts(pat: Seq<Seq<u8>>, pi: int, s: Seq<Seq<u8>>, si: int) -> bool
    decreases pat.len() - pi, s.len() - si,
    when 0 <= pi <= pat.len() && 0 <= si <= s.len()
{
    if pi == pat.len() {
        si == s.len()
    } else if is_double_star(pat[pi]) {
        if pi + 1 == pat.len() {
            true
        } else {
            glob_parts(pat, pi + 1, s, si) || (si < s.len() && glob_parts(pat, pi, s, si + 1))
        }
    } else if si == s.len() {
        false
    } else {
        wildcard_spec(pat[pi], s[si]) && glob_parts(pat, pi + 1, s, si + 1)
    }
}

/// What `glob_match` answers for pattern bytes `p` and path bytes `s`.
pub open spec fn glob_spec(p: Seq<u8>, s: Seq<u8>) -> bool {
    glob_parts(split_seq(p, SLASH()), 0, split_seq(s, SLASH()), 0)
}

proof fn lemma_double_star(pat: Seq<Seq<u8>>, pi: int, s: Seq<Seq<u8>>, si: int)
    requires
        0 <= pi,
        pi + 1 < pat.len(),
        0 <= si <= s.len(),
        is_double_star(pat[pi]),
    ensures
        glob_parts(pat, pi, s, si) == exists|j: int|
            si <= j <= s.len() && #[trigger] glob_parts(pat, pi + 1, s, j),
    decreases s.len() - si,
{
    if si < s.len() {
        lemma_double_star(pat, pi, s, si + 1);
        if glob_parts(pat, pi, s, si) && !glob_parts(pat, pi + 1, s, si) {
            let j = choose|j: int| si + 1 <= j <= s.len() && #[trigger] glob_parts(pat, pi + 1, s, j);
            assert(si <= j <= s.len() && glob_parts(pat, pi + 1, s, j));
        }
        if glob_parts(pat, pi + 1, s, si) {
            assert(si <= si <= s.len() && glob_parts(pat, pi + 1, s, si));
        }
        if exists|j: int| si <= j <= s.len() && #[trigger] glob_parts(pat, pi + 1, s, j) {
            let j = choose|j: int| si <= j <= s.len() && #[trigger] glob_parts(pat, pi + 1, s, j);
            if j > si {
                assert(si + 1 <= j <= s.len() && glob_parts(pat, pi + 1, s, j));
            }
        }
    } else {
        if glob_parts(pat, pi + 1, s, si) {
            assert(si <= si <= s.len() && glob_parts(pat, pi + 1, s, si));
        }
    }
}

fn segment_is_double_star(seg: &Vec<u8>) -> (r: bool)
    ensures
        r == is_double_star(seg@),
{
    if seg.len() == 2 && seg[0] == 42u8 && seg[1] == 42u8 {
        assert(seg@ == seq![STAR(), STAR()]);
        true
    } else {
        false
    }
}

/// Segment-wise matcher over split pattern and path.
fn glob_match_parts(pat: &Vec<Vec<u8>>, pi: usize, s: &Vec<Vec<u8>>, si: usize) -> (r: bool)
    requires
        pi <= pat@.len(),
        si <= s@.len(),
    ensures
        r == glob_parts(pat@.map_values(|v: Vec<u8>| v@), pi as int, s@.map_values(|v: Vec<u8>| v@), si as int),
    decreases pat@.len() - pi, s@.len() - si,
{
    let ghost ps = pat@.map_values(|v: Vec<u8>| v@);
    let ghost ss = s@.map_values(|v: Vec<u8>| v@);
    if pi == pat.len() {
        return si == s.len();
    }
    if segment_is_double_star(&pat[pi]) {
        if pi + 1 == pat.len() {
            return true;
        }
        proof {
            lemma_double_star(ps, pi as int, ss, si as int);
        }
        let next = pi + 1;
        let mut i: usize = si;
        loop
            invariant
                si <= i <= s@.len(),
                pi + 1 < pat@.len(),
                ps == pat@.map_values(|v: Vec<u8>| v@),
                ss == s@.map_values(|v: Vec<u8>| v@),
                glob_parts(ps, pi as int, ss, si as int) == exists|j: int|
                    si <= j <= ss.len() && #[trigger] glob_parts(ps, pi + 1, ss, j),
                next == pi + 1,
                forall|j: int| si <= j < i ==> !#[trigger] glob_parts(ps, pi + 1, ss, j),
            ensures
                forall|j: int| si <= j <= ss.len() ==> !#[trigger] glob_parts(ps, pi + 1, ss, j),
            decreases s@.len() - i,
        {
            if glob_match_parts(pat, next, s, i) {
                assert(si <= i <= ss.len() && glob_parts(ps, pi + 1, ss, i as int));
                return true;
            }
            if i == s.len() {
                break;
            }
            i = i + 1;
        }
        return false;
    }
    if si == s.len() {
        return false;
    }
    if wildcard_match_bytes(pat[pi].as_slice(), s[si].as_slice()) {
        glob_match_parts(pat, pi + 1, s, si + 1)
    } else {
        false
    }
}

/// Glob match of a `/`-separated path against a pattern (`**` spans whole
/// segments, `*` and `?` work inside one segment).
pub fn glob_match(pattern: &str, s: &str) -> (r: bool)
    ensures
        r == glob_spec(pattern.spec_bytes(), s.spec_bytes()),
{
    let pat_parts = split_bytes_on(pattern.as_bytes(), 47u8);
    let s_parts = split_bytes_on(s.as_bytes(), 47u8);
    glob_match_parts(&pat_parts, 0, &s_parts, 0)
}

/// Wildcard match of one name: `*` any run of bytes, `?` one byte.
pub fn wildcard_match(pattern: &str, s: &str) -> (r: bool)
    ensures
        r == wildcard_spec(pattern.spec_bytes(), s.spec_bytes()),
{
    wildcard_match_bytes(pattern.as_bytes(), s.as_bytes())
}

} // verus!
