//! Server-Sent Events: incremental extraction of `data:` payloads from the
//! text of a provider's response stream.

use vstd::prelude::*;

use crate::text::{
    chars_of, extend_from, join_seq, seq_starts_with, skip_ws, split_chars, split_seq, string_from_chars,
    sub_vec, trim_start_seq,
};

verus! {

pub open spec fn NL() -> char { '\n' }

/// `s` with every `"\r\n"` replaced by `"\n"` (scanning left to right).
pub open spec fn normalize_crlf(s: Seq<char>) -> Seq<char>
    decreases s.len(),
{
    if s.len() == 0 {
        s
    } else if s.len() >= 2 && s[0] == '\r' && s[1] == '\n' {
        seq!['\n'] + normalize_crlf(s.subrange(2, s.len() as int))
    } else {
        seq![s[0]] + normalize_crlf(s.drop_first())
    }
}

/// Index of the first blank-line delimiter `"\n\n"` at or after `i`, or -1.
pub open spec fn find_blank(p: Seq<char>, i: int) -> int
    decreases p.len() - i,
{
    if i < 0 || i + 1 >= p.len() {
        -1
    } else if p[i] == NL() && p[i + 1] == NL() {
        i
    } else {
        find_blank(p, i + 1)
    }
}

pub proof fn lemma_find_blank_bounds(p: Seq<char>, i: int)
    ensures
        find_blank(p, i) == -1 || (0 <= i <= find_blank(p, i) && find_blank(p, i) + 1 < p.len()
            && p[find_blank(p, i)] == NL() && p[find_blank(p, i) + 1] == NL()),
    decreases p.len() - i,
{
    if !(i < 0 || i + 1 >= p.len()) && !(p[i] == NL() && p[i + 1] == NL()) {
        lemma_find_blank_bounds(p, i + 1);
    }
}

/// The complete event blocks of `p[i..]`, in order.
pub open spec fn blocks_from(p: Seq<char>, i: int) -> Seq<Seq<char>>
    decreases p.len() - i,
{
    let k = find_blank(p, i);
    if 0 <= i && i <= k {
        proof {
            lemma_find_blank_bounds(p, i);
        }
        seq![p.subrange(i, k)] + blocks_from(p, k + 2)
    } else {
        Seq::empty()
    }
}

/// What remains of `p[i..]` after its complete blocks are taken out.
pub open spec fn rest_from(p: Seq<char>, i: int) -> Seq<char>
    decreases p.len() - i,
{
    let k = find_blank(p, i);
    if 0 <= i && i <= k {
        proof {
            lemma_find_blank_bounds(p, i);
        }
        rest_from(p, k + 2)
    } else if 0 <= i <= p.len() {
        p.subrange(i, p.len() as int)
    } else {
        Seq::empty()
    }
}

/// The payload of one `data:` line, leading whitespace removed.
pub open spec fn data_line(line: Seq<char>) -> Option<Seq<char>> {
    if line.len() == 0 || line[0] == ':' {
        None
    } else if seq_starts_with(line, seq!['d', 'a', 't', 'a', ':']) {
        Some(trim_start_seq(line.subrange(5, line.len() as int)))
    } else {
        None
    }
}

/// The `data:` payloads of `lines[i..]`, in order.
pub open spec fn data_parts(lines: Seq<Seq<char>>, i: int) -> Seq<Seq<char>>
    decreases lines.len() - i,
{
    if i < 0 || i >= lines.len() {
        Seq::empty()
    } else {
        match data_line(lines[i]) {
            Some(d) => seq![d] + data_parts(lines, i + 1),
            None => data_parts(lines, i + 1),
        }
    }
}

/// The logical payload of one event block: its `data:` lines joined with
/// newlines; `None` when the block has no `data:` line.
pub open spec fn block_payload(block: Seq<char>) -> Option<Seq<char>> {
    let parts = data_parts(split_seq(block, NL()), 0);
    if parts.len() == 0 {
        None
    } else {
        Some(join_seq(parts, NL()))
    }
}

pub open spec fn DONE_MARK() -> Seq<char> {
    seq!['[', 'D', 'O', 'N', 'E', ']']
}

/// The payloads a sequence of blocks yields: blocks without `data:` lines
/// and the `[DONE]` marker yield nothing.
pub open spec fn payloads_of(blocks: Seq<Seq<char>>) -> Seq<Seq<char>>
    decreases blocks.len(),
{
    if blocks.len() == 0 {
        Seq::empty()
    } else {
        let head = match block_payload(blocks[0]) {
            Some(d) => if d == DONE_MARK() {
                Seq::<Seq<char>>::empty()
            } else {
                seq![d]
            },
            None => Seq::<Seq<char>>::empty(),
        };
        head + payloads_of(blocks.drop_first())
    }
}


proof fn lemma_normalize_concat(x: Seq<char>, y: Seq<char>)
    requires
        !(x.len() > 0 && y.len() > 0 && x.last() == '\r' && y[0] == '\n'),
    ensures
        normalize_crlf(x + y) == normalize_crlf(x) + normalize_crlf(y),
    decreases x.len(),
{
    if x.len() == 0 {
        assert(x + y == y);
    } else if x.len() >= 2 && x[0] == '\r' && x[1] == '\n' {
        let x2 = x.subrange(2, x.len() as int);
        assert((x + y).subrange(2, (x + y).len() as int) == x2 + y);
        if x2.len() > 0 {
            assert(x2.last() == x.last());
        }
        lemma_normalize_concat(x2, y);
    } else {
        let x1 = x.drop_first();
        assert((x + y).drop_first() == x1 + y);
        if x.len() == 1 {
            assert(!((x + y).len() >= 2 && (x + y)[0] == '\r' && (x + y)[1] == '\n'));
        } else {
            assert((x + y)[1] == x[1]);
        }
        if x1.len() > 0 {
            assert(x1.last() == x.last());
        }
        lemma_normalize_concat(x1, y);
    }
}

proof fn lemma_payloads_concat(a: Seq<Seq<char>>, b: Seq<Seq<char>>)
    ensures
        payloads_of(a + b) == payloads_of(a) + payloads_of(b),
    decreases a.len(),
{
    if a.len() == 0 {
        assert(a + b == b);
    } else {
        assert((a + b)[0] == a[0]);
        assert((a + b).drop_first() == a.drop_first() + b);
        lemma_payloads_concat(a.drop_first(), b);
    }
}

proof fn lemma_find_extend(q: Seq<char>, y: Seq<char>, i: int)
    requires
        0 <= i,
        find_blank(q, i) != -1,
    ensures
        find_blank(q + y, i) == find_blank(q, i),
    decreases q.len() - i,
{
    if !(i + 1 >= q.len()) && !(q[i] == NL() && q[i + 1] == NL()) {
        lemma_find_extend(q, y, i + 1);
    }
}

proof fn lemma_find_shift(z: Seq<char>, i: int, j: int)
    requires
        0 <= i <= z.len(),
        0 <= j,
    ensures
        find_blank(z, i + j) == (if find_blank(z.subrange(i, z.len() as int), j) == -1 {
            -1
        } else {
            find_blank(z.subrange(i, z.len() as int), j) + i
        }),
    decreases z.len() - (i + j),
{
    let t = z.subrange(i, z.len() as int);
    if i + j + 1 < z.len() {
        assert(t[j] == z[i + j] && t[j + 1] == z[i + j + 1]);
        if !(z[i + j] == NL() && z[i + j + 1] == NL()) {
            lemma_find_shift(z, i, j + 1);
        }
    }
}

proof fn lemma_blocks_shift(z: Seq<char>, i: int, j: int)
    requires
        0 <= i <= z.len(),
        0 <= j,
    ensures
        blocks_from(z, i + j) == blocks_from(z.subrange(i, z.len() as int), j),
        rest_from(z, i + j) == rest_from(z.subrange(i, z.len() as int), j),
    decreases z.len() - (i + j),
{
    let t = z.subrange(i, z.len() as int);
    lemma_find_shift(z, i, j);
    lemma_find_blank_bounds(t, j);
    let k = find_blank(t, j);
    if k != -1 {
        assert(z.subrange(i + j, k + i) == t.subrange(j, k));
        lemma_blocks_shift(z, i, k + 2);
        assert(i + (k + 2) == (k + i) + 2);
    } else {
        if i + j <= z.len() {
            assert(z.subrange(i + j, z.len() as int) == t.subrange(j, t.len() as int));
        }
    }
}

proof fn lemma_blocks_append(q: Seq<char>, y: Seq<char>, i: int)
    requires
        0 <= i <= q.len(),
    ensures
        blocks_from(q + y, i) == blocks_from(q, i) + blocks_from(rest_from(q, i) + y, 0),
        rest_from(q + y, i) == rest_from(rest_from(q, i) + y, 0),
    decreases q.len() - i,
{
    lemma_find_blank_bounds(q, i);
    let k = find_blank(q, i);
    if k != -1 {
        lemma_find_extend(q, y, i);
        assert((q + y).subrange(i, k) == q.subrange(i, k));
        lemma_blocks_append(q, y, k + 2);
        assert(seq![q.subrange(i, k)] + (blocks_from(q, k + 2) + blocks_from(
            rest_from(q, k + 2) + y,
            0,
        )) == (seq![q.subrange(i, k)] + blocks_from(q, k + 2)) + blocks_from(
            rest_from(q, k + 2) + y,
            0,
        ));
    } else {
        let z = q + y;
        assert(z.subrange(i, z.len() as int) == q.subrange(i, q.len() as int) + y);
        lemma_blocks_shift(z, i, 0);
        assert(blocks_from(q, i) == Seq::<Seq<char>>::empty());
        assert(Seq::<Seq<char>>::empty() + blocks_from(rest_from(q, i) + y, 0) == blocks_from(
            rest_from(q, i) + y,
            0,
        ));
    }
}

/// Feeding the stream in two pieces yields the same payloads, in the same
/// order, and leaves the same pending text as feeding it at once, as long as
/// the cut does not fall between the two characters of a `"\r\n"`.
pub proof fn law_sse_chunking(pending: Seq<char>, x: Seq<char>, y: Seq<char>)
    requires
        !(x.len() > 0 && y.len() > 0 && x.last() == '\r' && y[0] == '\n'),
    ensures
        ({
            let a1 = pending + normalize_crlf(x);
            let p1 = rest_from(a1, 0);
            let a2 = p1 + normalize_crlf(y);
            let a = pending + normalize_crlf(x + y);
            &&& payloads_of(blocks_from(a1, 0)) + payloads_of(blocks_from(a2, 0)) == payloads_of(
                blocks_from(a, 0),
            )
            &&& rest_from(a2, 0) == rest_from(a, 0)
        }),
{
    let a1 = pending + normalize_crlf(x);
    let p1 = rest_from(a1, 0);
    let a2 = p1 + normalize_crlf(y);
    let a = pending + normalize_crlf(x + y);
    lemma_normalize_concat(x, y);
    assert(a == a1 + normalize_crlf(y));
    lemma_blocks_append(a1, normalize_crlf(y), 0);
    lemma_payloads_concat(blocks_from(a1, 0), blocks_from(a2, 0));
}

/// Holds incomplete event text until a blank-line delimiter arrives.
pub struct SseBuffer {
    pending: Vec<char>,
}

impl View for SseBuffer {
    type V = Seq<char>;

    closed spec fn view(&self) -> Seq<char> {
        self.pending@
    }
}

impl Default for SseBuffer {
    fn default() -> (r: Self)
        ensures
            r@ == Seq::<char>::empty(),
    {
        SseBuffer { pending: Vec::new() }
    }
}

proof fn lemma_normalize_step(s: Seq<char>, i: int)
    requires
        0 <= i < s.len(),
    ensures
        s[i] == '\r' && i + 1 < s.len() && s[i + 1] == '\n' ==> normalize_crlf(
            s.subrange(i, s.len() as int),
        ) == seq!['\n'] + normalize_crlf(s.subrange(i + 2, s.len() as int)),
        !(s[i] == '\r' && i + 1 < s.len() && s[i + 1] == '\n') ==> normalize_crlf(
            s.subrange(i, s.len() as int),
        ) == seq![s[i]] + normalize_crlf(s.subrange(i + 1, s.len() as int)),
{
    let t = s.subrange(i, s.len() as int);
    if i + 1 < s.len() {
        assert(t.subrange(2, t.len() as int) == s.subrange(i + 2, s.len() as int));
    }
    assert(t.drop_first() == s.subrange(i + 1, s.len() as int));
}

/// Appends `s` to `dst` with `"\r\n"` turned into `"\n"`.
fn push_normalized(dst: &mut Vec<char>, s: &Vec<char>)
    ensures
        final(dst)@ == old(dst)@ + normalize_crlf(s@),
{
    let mut i: usize = 0;
    assert(s@.subrange(0, s@.len() as int) == s@);
    while i < s.len()
        invariant
            0 <= i <= s@.len(),
            old(dst)@ + normalize_crlf(s@) == dst@ + normalize_crlf(s@.subrange(i as int, s@.len() as int)),
        decreases s@.len() - i,
    {
        proof {
            lemma_normalize_step(s@, i as int);
        }
        if s[i] == '\r' && i + 1 < s.len() && s[i + 1] == '\n' {
            dst.push('\n');
            i = i + 2;
        } else {
            dst.push(s[i]);
            i = i + 1;
        }
    }
    assert(s@.subrange(s@.len() as int, s@.len() as int) == Seq::<char>::empty());
}

/// Index of the first `"\n\n"` at or after `i`, if any.
fn find_blank_from(p: &Vec<char>, i: usize) -> (r: Option<usize>)
    requires
        i <= p@.len(),
    ensures
        match r {
            Some(k) => find_blank(p@, i as int) == k as int,
            None => find_blank(p@, i as int) == -1,
        },
{
    if p.len() < 2 {
        return None;
    }
    let mut k = i;
    while k < p.len() - 1
        invariant
            i <= k <= p@.len(),
            p@.len() >= 2,
            find_blank(p@, i as int) == find_blank(p@, k as int),
        decreases p@.len() - k,
    {
        if p[k] == '\n' && p[k + 1] == '\n' {
            return Some(k);
        }
        k = k + 1;
    }
    None
}

/// The logical `data` payload of one event block.
pub fn extract_data_payload(block: &Vec<char>) -> (r: Option<Vec<char>>)
    ensures
        match r {
            Some(v) => block_payload(block@) == Some(v@),
            None => block_payload(block@) is None,
        },
{
    let lines = split_chars(block.as_slice(), '\n');
    let ghost ls = lines@.map_values(|v: Vec<char>| v@);
    let mut merged: Vec<char> = Vec::new();
    let mut count: usize = 0;
    let mut i: usize = 0;
    while i < lines.len()
        invariant
            0 <= i <= lines@.len(),
            ls == lines@.map_values(|v: Vec<char>| v@),
            ls == split_seq(block@, NL()),
            count <= i,
            ({
                let done = data_parts(ls, 0);
                let todo = data_parts(ls, i as int);
                &&& done.len() == count + todo.len()
                &&& done.subrange(count as int, done.len() as int) == todo
                &&& merged@ == join_seq(done.subrange(0, count as int), NL())
            }),
        decreases lines@.len() - i,
    {
        let line = &lines[i];
        let ghost done = data_parts(ls, 0);
        assert(line@ == ls[i as int]);
        if line.len() > 0 && line[0] != ':' && line.len() >= 5 && line[0] == 'd' && line[1] == 'a'
            && line[2] == 't' && line[3] == 'a' && line[4] == ':' {
            assert(line@.subrange(0, 5) == seq!['d', 'a', 't', 'a', ':']);
            assert(data_line(line@) == Some(trim_start_seq(line@.subrange(5, line@.len() as int))));
            let start = skip_ws(line, 5);
            if count > 0 {
                merged.push('\n');
            }
            let piece = sub_vec(line, start, line.len());
            let ghost before = merged@;
            extend_from(&mut merged, piece.as_slice());
            proof {
                let d = trim_start_seq(line@.subrange(5, line@.len() as int));
                assert(data_parts(ls, i as int) == seq![d] + data_parts(ls, i + 1));
                let todo = data_parts(ls, i as int);
                assert(todo[0] == d);
                assert(done.subrange(count as int, done.len() as int)[0] == done[count as int]);
                assert(done[count as int] == d);
                let prev = done.subrange(0, count as int);
                let next = done.subrange(0, count + 1);
                assert(next.drop_last() == prev);
                assert(next.last() == d);
                if count > 0 {
                    assert(join_seq(next, NL()) == join_seq(prev, NL()).push(NL()) + d);
                } else {
                    assert(next == seq![d]);
                }
                assert(done.subrange(count + 1, done.len() as int) == done.subrange(
                    count as int,
                    done.len() as int,
                ).drop_first());
            }
            count = count + 1;
        } else {
            proof {
                if line@.len() > 0 && line@[0] != ':' && seq_starts_with(line@, seq!['d', 'a', 't', 'a', ':']) {
                    assert(line@[0] == line@.subrange(0, 5)[0]);
                    assert(line@[1] == line@.subrange(0, 5)[1]);
                    assert(line@[2] == line@.subrange(0, 5)[2]);
                    assert(line@[3] == line@.subrange(0, 5)[3]);
                    assert(line@[4] == line@.subrange(0, 5)[4]);
                }
                assert(data_line(line@) is None);
            }
        }
        i = i + 1;
    }
    proof {
        let done = data_parts(ls, 0);
        assert(done.subrange(0, count as int) == done);
    }
    if count == 0 {
        None
    } else {
        Some(merged)
    }
}

fn is_done_marker(v: &Vec<char>) -> (r: bool)
    ensures
        r == (v@ == DONE_MARK()),
{
    if v.len() == 6 && v[0] == '[' && v[1] == 'D' && v[2] == 'O' && v[3] == 'N' && v[4] == 'E'
        && v[5] == ']' {
        assert(v@ == DONE_MARK());
        true
    } else {
        false
    }
}

impl SseBuffer {
    /// Pushes a fragment of the stream; returns the complete logical `data`
    /// payloads it finishes, in order. The `[DONE]` marker is left out.
    pub fn push_str(&mut self, s: &str) -> (out: Vec<String>)
        ensures
            ({
                let all = old(self)@ + normalize_crlf(s@);
                &&& final(self)@ == rest_from(all, 0)
                &&& out@.map_values(|x: String| x@) == payloads_of(blocks_from(all, 0))
            }),
    {
        let chars = chars_of(s);
        push_normalized(&mut self.pending, &chars);
        let ghost all = self.pending@;
        let mut out: Vec<String> = Vec::new();
        let mut start: usize = 0;
        loop
            invariant
                0 <= start <= self.pending@.len(),
                self.pending@ == all,
                payloads_of(blocks_from(all, 0)) == out@.map_values(|x: String| x@)
                    + payloads_of(blocks_from(all, start as int)),
                rest_from(all, 0) == rest_from(all, start as int),
            ensures
                0 <= start <= self.pending@.len(),
                self.pending@ == all,
                payloads_of(blocks_from(all, 0)) == out@.map_values(|x: String| x@)
                    + payloads_of(blocks_from(all, start as int)),
                rest_from(all, 0) == rest_from(all, start as int),
                find_blank(all, start as int) == -1,
            decreases self.pending@.len() - start,
        {
            match find_blank_from(&self.pending, start) {
                None => {
                    break;
                },
                Some(k) => {
                    proof {
                        lemma_find_blank_bounds(all, start as int);
                    }
                    let block = sub_vec(&self.pending, start, k);
                    let ghost before = out@.map_values(|x: String| x@);
                    proof {
                        assert(blocks_from(all, start as int) == seq![block@] + blocks_from(all, k + 2));
                        assert((seq![block@] + blocks_from(all, k + 2)).drop_first() == blocks_from(all, k + 2));
                    }
                    match extract_data_payload(&block) {
                        Some(payload) => {
                            if !is_done_marker(&payload) {
                                out.push(string_from_chars(payload.as_slice()));
                                assert(out@.map_values(|x: String| x@) == before.push(payload@));
                            }
                        },
                        None => {},
                    }
                    let n = self.pending.len();
                    assert(k + 2 <= n);
                    start = k + 2;
                },
            }
        }
        let rest = sub_vec(&self.pending, start, self.pending.len());
        assert(blocks_from(all, start as int) == Seq::<Seq<char>>::empty());
        assert(out@.map_values(|x: String| x@) + Seq::<Seq<char>>::empty() == out@.map_values(|x: String| x@));
        self.pending = rest;
        out
    }
}

} // verus!
