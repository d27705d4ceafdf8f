//! Sequence and character helpers shared by the text-processing modules.

use vstd::prelude::*;

verus! {

/// `b[i..]` split at every `sep`, with `cur` the items collected so far for
/// the segment that is still open.
pub open spec fn split_from<A>(b: Seq<A>, sep: A, i: int, cur: Seq<A>) -> Seq<Seq<A>>
    decreases b.len() - i,
{
    if i >= b.len() {
        seq![cur]
    } else if b[i] == sep {
        seq![cur] + split_from(b, sep, i + 1, Seq::empty())
    } else {
        split_from(b, sep, i + 1, cur.push(b[i]))
    }
}

/// The pieces of `b` between occurrences of `sep` (always at least one).
pub open spec fn split_seq<A>(b: Seq<A>, sep: A) -> Seq<Seq<A>> {
    split_from(b, sep, 0, Seq::empty())
}

/// The pieces joined with `sep` between neighbours.
pub open spec fn join_seq<A>(parts: Seq<Seq<A>>, sep: A) -> Seq<A>
    decreases parts.len(),
{
    if parts.len() == 0 {
        Seq::empty()
    } else if parts.len() == 1 {
        parts[0]
    } else {
        join_seq(parts.drop_last(), sep).push(sep) + parts.last()
    }
}

/// `s` begins with `prefix`.
pub open spec fn seq_starts_with<A>(s: Seq<A>, prefix: Seq<A>) -> bool {
    prefix.len() <= s.len() && s.subrange(0, prefix.len() as int) == prefix
}

/// Unicode `White_Space`, the set that `char::is_whitespace` tests.
pub open spec fn is_ws(c: char) -> bool {
    let u = c as u32;
    (0x9 <= u <= 0xd) || u == 0x20 || u == 0x85 || u == 0xa0 || u == 0x1680 || (0x2000 <= u
        <= 0x200a) || u == 0x2028 || u == 0x2029 || u == 0x202f || u == 0x205f || u == 0x3000
}

/// `s` without its leading whitespace.
pub open spec fn trim_start_seq(s: Seq<char>) -> Seq<char>
    decreases s.len(),
{
    if s.len() > 0 && is_ws(s[0]) {
        trim_start_seq(s.drop_first())
    } else {
        s
    }
}

/// `s` without its trailing whitespace.
pub open spec fn trim_end_seq(s: Seq<char>) -> Seq<char>
    decreases s.len(),
{
    if s.len() > 0 && is_ws(s.last()) {
        trim_end_seq(s.drop_last())
    } else {
        s
    }
}

/// `s` without leading and trailing whitespace (`str::trim`).
pub open spec fn trim_seq(s: Seq<char>) -> Seq<char> {
    trim_end_seq(trim_start_seq(s))
}

pub fn is_whitespace_char(c: char) -> (r: bool)
    ensures
        r == is_ws(c),
{
    let u = c as u32;
    (0x9 <= u && u <= 0xd) || u == 0x20 || u == 0x85 || u == 0xa0 || u == 0x1680 || (0x2000 <= u
        && u <= 0x200a) || u == 0x2028 || u == 0x2029 || u == 0x202f || u == 0x205f || u == 0x3000
}

/// The characters of `s`.
pub fn chars_of(s: &str) -> (r: Vec<char>)
    ensures
        r@ == s@,
{
    let mut out: Vec<char> = Vec::new();
    for c in it: s.chars()
        invariant
            out@ == it.seq().take(it.index() as int),
            it.seq() == s@,
    {
        out.push(c);
    }
    out
}

/// A `String` holding exactly the characters `v`.
#[verifier::external_body]
pub(crate) fn string_from_chars(v: &[char]) -> (r: String)
    ensures
        r@ == v@,
{
    String::from_iter(v.iter())
}

/// `v[from..to]` as a new vector.
pub fn sub_vec<T: Copy>(v: &Vec<T>, from: usize, to: usize) -> (r: Vec<T>)
    requires
        from <= to <= v@.len(),
    ensures
        r@ == v@.subrange(from as int, to as int),
{
    let mut out: Vec<T> = Vec::new();
    let mut i = from;
    while i < to
        invariant
            from <= i <= to <= v@.len(),
            out@ == v@.subrange(from as int, i as int),
        decreases to - i,
    {
        out.push(v[i]);
        i = i + 1;
    }
    out
}

/// Appends all of `src` to `dst`.
pub fn extend_from<T: Copy>(dst: &mut Vec<T>, src: &[T])
    ensures
        final(dst)@ == old(dst)@ + src@,
{
    let mut i: usize = 0;
    while i < src.len()
        invariant
            0 <= i <= src@.len(),
            dst@ == old(dst)@ + src@.subrange(0, i as int),
        decreases src@.len() - i,
    {
        dst.push(src[i]);
        i = i + 1;
    }
}

/// Splits `b` at every `sep` character.
pub fn split_chars(b: &[char], sep: char) -> (r: Vec<Vec<char>>)
    ensures
        r@.map_values(|v: Vec<char>| v@) == split_seq(b@, sep),
{
    let mut out: Vec<Vec<char>> = Vec::new();
    let mut cur: Vec<char> = Vec::new();
    let mut i: usize = 0;
    while i < b.len()
        invariant
            0 <= i <= b@.len(),
            out@.map_values(|v: Vec<char>| v@) + split_from(b@, sep, i as int, cur@) == split_seq(
                b@,
                sep,
            ),
        decreases b@.len() - i,
    {
        let ghost before = out@.map_values(|v: Vec<char>| v@);
        if b[i] == sep {
            let done = cur;
            cur = Vec::new();
            out.push(done);
            assert(out@.map_values(|v: Vec<char>| v@) == before.push(done@));
            assert(before + split_from(b@, sep, i as int, done@) == before.push(done@)
                + split_from(b@, sep, i + 1, cur@));
        } else {
            cur.push(b[i]);
        }
        i = i + 1;
    }
    let ghost before = out@.map_values(|v: Vec<char>| v@);
    out.push(cur);
    assert(out@.map_values(|v: Vec<char>| v@) == before.push(cur@));
    out
}

/// Splits `b` at every `sep` byte.
pub fn split_bytes_on(b: &[u8], sep: u8) -> (r: Vec<Vec<u8>>)
    ensures
        r@.map_values(|v: Vec<u8>| v@) == split_seq(b@, sep),
{
    let mut out: Vec<Vec<u8>> = Vec::new();
    let mut cur: Vec<u8> = Vec::new();
    let mut i: usize = 0;
    while i < b.len()
        invariant
            0 <= i <= b@.len(),
            out@.map_values(|v: Vec<u8>| v@) + split_from(b@, sep, i as int, cur@) == split_seq(
                b@,
                sep,
            ),
        decreases b@.len() - i,
    {
        let ghost before = out@.map_values(|v: Vec<u8>| v@);
        if b[i] == sep {
            let done = cur;
            cur = Vec::new();
            out.push(done);
            assert(out@.map_values(|v: Vec<u8>| v@) == before.push(done@));
            assert(before + split_from(b@, sep, i as int, done@) == before.push(done@)
                + split_from(b@, sep, i + 1, cur@));
        } else {
            cur.push(b[i]);
        }
        i = i + 1;
    }
    let ghost before = out@.map_values(|v: Vec<u8>| v@);
    out.push(cur);
    assert(out@.map_values(|v: Vec<u8>| v@) == before.push(cur@));
    out
}

/// `s[i..]` with leading whitespace skipped: the first index that is not
/// whitespace.
pub fn skip_ws(s: &Vec<char>, i: usize) -> (r: usize)
    requires
        i <= s@.len(),
    ensures
        i <= r <= s@.len(),
        trim_start_seq(s@.subrange(i as int, s@.len() as int)) == s@.subrange(r as int, s@.len() as int),
{
    let mut j = i;
    while j < s.len() && is_whitespace_char(s[j])
        invariant
            i <= j <= s@.len(),
            trim_start_seq(s@.subrange(i as int, s@.len() as int)) == trim_start_seq(
                s@.subrange(j as int, s@.len() as int),
            ),
        decreases s@.len() - j,
    {
        assert(s@.subrange(j as int, s@.len() as int).drop_first() == s@.subrange(j + 1, s@.len() as int));
        j = j + 1;
    }
    j
}

/// The decimal digit for `d < 10`.
pub open spec fn digit_char(d: nat) -> char {
    if d == 0 { '0' } else if d == 1 { '1' } else if d == 2 { '2' } else if d == 3 { '3' }
    else if d == 4 { '4' } else if d == 5 { '5' } else if d == 6 { '6' } else if d == 7 { '7' }
    else if d == 8 { '8' } else { '9' }
}

/// Decimal notation of `n`, without leading zeros (`"0"` for zero).
pub open spec fn decimal(n: nat) -> Seq<char>
    decreases n,
{
    if n < 10 {
        seq![digit_char(n)]
    } else {
        decimal(n / 10).push(digit_char(n % 10))
    }
}

fn digit(d: u64) -> (c: char)
    requires
        d < 10,
    ensures
        c == digit_char(d as nat),
{
    if d == 0 { '0' } else if d == 1 { '1' } else if d == 2 { '2' } else if d == 3 { '3' }
    else if d == 4 { '4' } else if d == 5 { '5' } else if d == 6 { '6' } else if d == 7 { '7' }
    else if d == 8 { '8' } else { '9' }
}

/// Decimal notation of `n`.
pub fn decimal_chars(n: u64) -> (r: Vec<char>)
    ensures
        r@ == decimal(n as nat),
    decreases n,
{
    if n < 10 {
        let mut v = Vec::new();
        v.push(digit(n));
        v
    } else {
        let mut v = decimal_chars(n / 10);
        v.push(digit(n % 10));
        v
    }
}

/// Appends the decimal notation of `n` to `s`.
pub fn push_decimal(s: &mut String, n: u64)
    ensures
        final(s)@ == old(s)@ + decimal(n as nat),
{
    let d = decimal_chars(n);
    let t = string_from_chars(d.as_slice());
    s.append(t.as_str());
}

/// Every character of `s` is whitespace.
pub open spec fn all_ws(s: Seq<char>) -> bool {
    forall|i: int| 0 <= i < s.len() ==> is_ws(s[i])
}

pub proof fn lemma_trim_start_all_ws(s: Seq<char>)
    ensures
        (trim_start_seq(s).len() == 0) == all_ws(s),
        trim_start_seq(s).len() > 0 ==> !is_ws(trim_start_seq(s)[0]),
    decreases s.len(),
{
    if s.len() > 0 && is_ws(s[0]) {
        lemma_trim_start_all_ws(s.drop_first());
        if all_ws(s.drop_first()) {
            assert forall|i: int| 0 <= i < s.len() implies is_ws(s[i]) by {
                if i > 0 {
                    assert(s[i] == s.drop_first()[i - 1]);
                }
            }
        }
        if all_ws(s) {
            assert forall|i: int| 0 <= i < s.drop_first().len() implies is_ws(s.drop_first()[i]) by {
                assert(s.drop_first()[i] == s[i + 1]);
            }
        }
    } else if s.len() > 0 {
        assert(!all_ws(s));
    }
}

proof fn lemma_trim_end_nonempty(s: Seq<char>)
    requires
        s.len() > 0,
        !is_ws(s[0]),
    ensures
        trim_end_seq(s).len() > 0,
    decreases s.len(),
{
    if is_ws(s.last()) {
        assert(s.len() > 1);
        assert(s.drop_last()[0] == s[0]);
        lemma_trim_end_nonempty(s.drop_last());
    }
}

/// `str::trim` leaves nothing exactly when the text is all whitespace.
pub proof fn lemma_trim_empty(s: Seq<char>)
    ensures
        (trim_seq(s).len() == 0) == all_ws(s),
{
    lemma_trim_start_all_ws(s);
    if trim_start_seq(s).len() > 0 {
        lemma_trim_end_nonempty(trim_start_seq(s));
    }
}

/// Whether `s` trims to nothing.
pub fn is_blank(s: &str) -> (r: bool)
    ensures
        r == (trim_seq(s@).len() == 0),
{
    proof {
        lemma_trim_empty(s@);
    }
    let cs = chars_of(s);
    let mut i: usize = 0;
    while i < cs.len()
        invariant
            0 <= i <= cs@.len(),
            cs@ == s@,
            forall|j: int| 0 <= j < i ==> is_ws(cs@[j]),
        decreases cs@.len() - i,
    {
        if !is_whitespace_char(cs[i]) {
            assert(!is_ws(s@[i as int]));
            assert(!all_ws(s@));
            proof {
                lemma_trim_empty(s@);
            }
            return false;
        }
        i = i + 1;
    }
    true
}

proof fn lemma_join_prepend<A>(x: Seq<A>, rest: Seq<Seq<A>>, sep: A)
    requires
        rest.len() > 0,
    ensures
        join_seq(seq![x] + rest, sep) == x.push(sep) + join_seq(rest, sep),
    decreases rest.len(),
{
    let all = seq![x] + rest;
    if rest.len() == 1 {
        assert(all.drop_last() =~= seq![x]);
        assert(all.last() == rest[0]);
        assert(join_seq(seq![x], sep) == x);
        assert(join_seq(rest, sep) == rest[0]);
        assert(join_seq(all, sep) == join_seq(all.drop_last(), sep).push(sep) + all.last());
    } else {
        lemma_join_prepend(x, rest.drop_last(), sep);
        assert(all.drop_last() =~= seq![x] + rest.drop_last());
        assert(all.last() == rest.last());
        assert((x.push(sep) + join_seq(rest.drop_last(), sep)).push(sep) + rest.last() =~= x.push(sep)
            + (join_seq(rest.drop_last(), sep).push(sep) + rest.last()));
    }
}

pub proof fn lemma_split_from_nonempty<A>(b: Seq<A>, sep: A, i: int, cur: Seq<A>)
    ensures
        split_from(b, sep, i, cur).len() >= 1,
    decreases b.len() - i,
{
    if i < b.len() {
        if b[i] == sep {
            lemma_split_from_nonempty(b, sep, i + 1, Seq::empty());
        } else {
            lemma_split_from_nonempty(b, sep, i + 1, cur.push(b[i]));
        }
    }
}

proof fn lemma_join_split_from<A>(b: Seq<A>, sep: A, i: int, cur: Seq<A>)
    requires
        0 <= i <= b.len(),
    ensures
        join_seq(split_from(b, sep, i, cur), sep) == cur + b.subrange(i, b.len() as int),
    decreases b.len() - i,
{
    if i >= b.len() {
        assert(cur + b.subrange(i, b.len() as int) =~= cur);
    } else if b[i] == sep {
        lemma_join_split_from(b, sep, i + 1, Seq::empty());
        lemma_split_from_nonempty(b, sep, i + 1, Seq::empty());
        lemma_join_prepend(cur, split_from(b, sep, i + 1, Seq::empty()), sep);
        assert(cur.push(sep) + (Seq::<A>::empty() + b.subrange(i + 1, b.len() as int)) =~= cur
            + b.subrange(i, b.len() as int));
    } else {
        lemma_join_split_from(b, sep, i + 1, cur.push(b[i]));
        assert(cur.push(b[i]) + b.subrange(i + 1, b.len() as int) =~= cur + b.subrange(i, b.len() as int));
    }
}

/// Splitting at a separator loses nothing: joining the pieces back with the
/// same separator gives the original sequence.
pub proof fn law_join_undoes_split<A>(b: Seq<A>, sep: A)
    ensures
        join_seq(split_seq(b, sep), sep) == b,
{
    lemma_join_split_from(b, sep, 0, Seq::empty());
    assert(Seq::<A>::empty() + b.subrange(0, b.len() as int) =~= b);
}

} // verus!

verus! {

pub open spec fn views_of(v: Seq<Vec<char>>) -> Seq<Seq<char>> {
    v.map_values(|x: Vec<char>| x@)
}

/// `parts[from..to]` joined with `sep` between neighbours.
pub fn join_range(parts: &Vec<Vec<char>>, from: usize, to: usize, sep: char) -> (r: Vec<char>)
    requires
        from <= to <= parts@.len(),
    ensures
        r@ == join_seq(views_of(parts@).subrange(from as int, to as int), sep),
{
    let mut out: Vec<char> = Vec::new();
    let mut i = from;
    proof {
        assert(views_of(parts@).subrange(from as int, from as int) =~= Seq::<Seq<char>>::empty());
    }
    while i < to
        invariant
            from <= i <= to <= parts@.len(),
            out@ == join_seq(views_of(parts@).subrange(from as int, i as int), sep),
        decreases to - i,
    {
        let ghost pre = views_of(parts@).subrange(from as int, i as int);
        let ghost next = views_of(parts@).subrange(from as int, i + 1);
        assert(next.drop_last() =~= pre);
        assert(next.last() == parts@[i as int]@);
        if i > from {
            out.push(sep);
        }
        extend_from(&mut out, parts[i].as_slice());
        i = i + 1;
    }
    out
}

} // verus!

verus! {

/// `s` without leading and trailing whitespace (`str::trim`).
pub fn trim_chars(s: &Vec<char>) -> (r: Vec<char>)
    ensures
        r@ == trim_seq(s@),
{
    let start = skip_ws(s, 0);
    assert(s@.subrange(0, s@.len() as int) =~= s@);
    let mut end = s.len();
    while end > start && is_whitespace_char(s[end - 1])
        invariant
            start <= end <= s@.len(),
            trim_end_seq(s@.subrange(start as int, s@.len() as int)) == trim_end_seq(
                s@.subrange(start as int, end as int),
            ),
        decreases end,
    {
        assert(s@.subrange(start as int, end as int).drop_last() =~= s@.subrange(
            start as int,
            end - 1,
        ));
        end = end - 1;
    }
    let r = sub_vec(s, start, end);
    proof {
        let t = s@.subrange(start as int, end as int);
        if t.len() > 0 {
            assert(t.last() == s@[end - 1]);
        }
    }
    r
}

/// `s` with every `from` character replaced by `to`.
pub open spec fn replace_char(s: Seq<char>, from: char, to: char) -> Seq<char> {
    s.map_values(|c: char| if c == from { to } else { c })
}

pub fn replace_char_exec(s: &Vec<char>, from: char, to: char) -> (r: Vec<char>)
    ensures
        r@ == replace_char(s@, from, to),
{
    let mut out: Vec<char> = Vec::new();
    let mut i: usize = 0;
    while i < s.len()
        invariant
            0 <= i <= s@.len(),
            out@ == replace_char(s@.subrange(0, i as int), from, to),
        decreases s@.len() - i,
    {
        let c = if s[i] == from { to } else { s[i] };
        out.push(c);
        assert(replace_char(s@.subrange(0, i + 1), from, to) =~= replace_char(
            s@.subrange(0, i as int),
            from,
            to,
        ).push(c));
        i = i + 1;
    }
    assert(s@.subrange(0, s@.len() as int) =~= s@);
    out
}

} // verus!

verus! {

/// Whether `a` and `b` hold the same characters.
pub fn chars_eq(a: &[char], b: &[char]) -> (r: bool)
    ensures
        r == (a@ == b@),
{
    if a.len() != b.len() {
        return false;
    }
    let mut i: usize = 0;
    while i < a.len()
        invariant
            a@.len() == b@.len(),
            0 <= i <= a@.len(),
            forall|k: int| 0 <= k < i ==> a@[k] == b@[k],
        decreases a@.len() - i,
    {
        if a[i] != b[i] {
            return false;
        }
        i = i + 1;
    }
    assert(a@ =~= b@);
    true
}

/// Whether `s` begins with `prefix`.
pub fn starts_with_chars(s: &[char], prefix: &[char]) -> (r: bool)
    ensures
        r == seq_starts_with(s@, prefix@),
{
    if prefix.len() > s.len() {
        return false;
    }
    let mut i: usize = 0;
    while i < prefix.len()
        invariant
            prefix@.len() <= s@.len(),
            0 <= i <= prefix@.len(),
            forall|k: int| 0 <= k < i ==> s@[k] == prefix@[k],
        decreases prefix@.len() - i,
    {
        if s[i] != prefix[i] {
            assert(s@.subrange(0, prefix@.len() as int)[i as int] != prefix@[i as int]);
            return false;
        }
        i = i + 1;
    }
    assert(s@.subrange(0, prefix@.len() as int) =~= prefix@);
    true
}

/// Decimal notation of a signed integer.
pub open spec fn signed_decimal(n: int) -> Seq<char> {
    if n < 0 {
        seq!['-'] + decimal((-n) as nat)
    } else {
        decimal(n as nat)
    }
}

/// Appends the decimal notation of `n` to `s`.
pub fn push_signed(s: &mut String, n: i32)
    ensures
        final(s)@ == old(s)@ + signed_decimal(n as int),
{
    if n < 0 {
        s.append("-");
        let m: i64 = -(n as i64);
        push_decimal(s, m as u64);
        proof {
            reveal_strlit("-");
            assert(final(s)@ =~= old(s)@ + signed_decimal(n as int));
        }
    } else {
        push_decimal(s, n as u64);
    }
}

} // verus!

verus! {

pub proof fn lemma_trim_start_idempotent(s: Seq<char>)
    ensures
        trim_start_seq(trim_start_seq(s)) == trim_start_seq(s),
        trim_start_seq(s).len() > 0 ==> !is_ws(trim_start_seq(s)[0]),
    decreases s.len(),
{
    lemma_trim_start_all_ws(s);
    if s.len() > 0 && is_ws(s[0]) {
        lemma_trim_start_idempotent(s.drop_first());
    }
}

pub proof fn lemma_trim_end_keeps_start(s: Seq<char>)
    requires
        s.len() > 0 ==> !is_ws(s[0]),
    ensures
        trim_start_seq(trim_end_seq(s)) == trim_end_seq(s),
        trim_end_seq(s).len() > 0 ==> !is_ws(trim_end_seq(s).last()),
        trim_end_seq(trim_end_seq(s)) == trim_end_seq(s),
        trim_end_seq(s).len() > 0 ==> trim_end_seq(s)[0] == s[0],
    decreases s.len(),
{
    if s.len() > 0 && is_ws(s.last()) {
        if s.len() > 1 {
            assert(s.drop_last()[0] == s[0]);
        }
        lemma_trim_end_keeps_start(s.drop_last());
    }
}

/// Trimming is idempotent.
pub proof fn lemma_trim_idempotent(s: Seq<char>)
    ensures
        trim_seq(trim_seq(s)) == trim_seq(s),
{
    lemma_trim_start_idempotent(s);
    let a = trim_start_seq(s);
    lemma_trim_end_keeps_start(a);
    let b = trim_end_seq(a);
    assert(trim_start_seq(b) == b);
}

/// A text without surrounding whitespace keeps a prefix that starts with a
/// non-whitespace character through trimming.
pub proof fn lemma_trim_prefixed(p: Seq<char>, s: Seq<char>)
    requires
        p.len() > 0,
        !is_ws(p[0]),
        trim_seq(s) == s,
        s.len() > 0,
    ensures
        trim_seq(p + s) == p + s,
{
    let t = p + s;
    assert(trim_start_seq(t) == t);
    lemma_trim_start_idempotent(s);
    let a = trim_start_seq(s);
    lemma_trim_end_keeps_start(a);
    assert(!is_ws(s.last()));
    assert(t.last() == s.last());
    assert(trim_end_seq(t) == t);
}

} // verus!

verus! {

/// A copy of `v`.
pub fn copy_chars(v: &Vec<char>) -> (r: Vec<char>)
    ensures
        r@ == v@,
{
    let r = sub_vec(v, 0, v.len());
    assert(v@.subrange(0, v@.len() as int) =~= v@);
    r
}

} // verus!
