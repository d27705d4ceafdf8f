//! One-line and multi-line text inputs (the find bar's fields, the agent
//! panel's prompt): the text, a byte cursor on a character boundary, and
//! the editing keys.

use vstd::prelude::*;
use vstd::string::StringSliceAdditionalSpecFns;
use vstd::utf8::{
    encode_utf8, encode_utf8_first_scalar, encode_utf8_valid_utf8, is_char_boundary,
    is_char_boundary_start_end_of_seq, length_of_first_scalar, pop_first_scalar, valid_utf8,
    valid_utf8_split,
};

use crate::tools::transaction::lemma_encode_concat;

verus! {

/// The end of the encoding of `x` is a character boundary of the encoding
/// of `x + y`.
pub proof fn lemma_boundary_at_prefix(x: Seq<char>, y: Seq<char>)
    ensures
        is_char_boundary(encode_utf8(x + y), encode_utf8(x).len() as int),
    decreases x.len(),
{
    let xy = x + y;
    let b = encode_utf8(xy);
    encode_utf8_valid_utf8(xy);
    if x.len() == 0 {
        assert(encode_utf8(x).len() == 0);
    } else {
        encode_utf8_first_scalar(xy);
        assert(xy[0] == x[0]);
        assert(xy.drop_first() =~= x.drop_first() + y);
        assert(pop_first_scalar(b) =~= encode_utf8(xy.drop_first()));
        lemma_boundary_at_prefix(x.drop_first(), y);
        assert(encode_utf8(x).len() == vstd::utf8::encode_scalar(x[0] as u32).len() + encode_utf8(
            x.drop_first(),
        ).len());
    }
}

/// Right after an ASCII byte that starts a character comes a character
/// boundary.
pub proof fn lemma_boundary_after_ascii(b: Seq<u8>, i: int)
    requires
        valid_utf8(b),
        is_char_boundary(b, i),
        0 <= i < b.len(),
        b[i] < 0x80,
    ensures
        is_char_boundary(b, i + 1),
    decreases b.len(),
{
    let l = length_of_first_scalar(b);
    let rest = pop_first_scalar(b);
    assert(valid_utf8(rest));
    if i == 0 {
        assert(l == 1);
        assert(is_char_boundary(rest, 0));
    } else {
        assert(is_char_boundary(rest, i - l));
        assert(rest[i - l] == b[i]);
        assert(0 <= i - l < rest.len());
        lemma_boundary_after_ascii(rest, i - l);
    }
}

} // verus!

verus! {

/// Scanning down from `k` to the nearest character boundary (or 0).
pub open spec fn scan_down(b: Seq<u8>, k: int) -> int
    decreases k,
{
    if k <= 0 || is_char_boundary(b, k) {
        k
    } else {
        scan_down(b, k - 1)
    }
}

/// Scanning up from `k` to the nearest character boundary (or the end).
pub open spec fn scan_up(b: Seq<u8>, k: int) -> int
    decreases b.len() - k,
{
    if k >= b.len() || is_char_boundary(b, k) {
        k
    } else {
        scan_up(b, k + 1)
    }
}

/// The start of the line holding byte offset `c`: just after the last `\n`
/// before it, or 0.
pub open spec fn line_home(b: Seq<u8>, c: int) -> int
    decreases c,
{
    if c <= 0 {
        0
    } else if b[c - 1] == 10u8 {
        c
    } else {
        line_home(b, c - 1)
    }
}

/// The end of the line holding byte offset `c`: the next `\n`, or the end.
pub open spec fn line_end(b: Seq<u8>, c: int) -> int
    decreases b.len() - c,
{
    if c >= b.len() || b[c] == 10u8 {
        c
    } else {
        line_end(b, c + 1)
    }
}

/// Unicode control characters (category `Cc`).
pub open spec fn is_control_char(c: char) -> bool {
    (c as u32) <= 0x1f || (0x7f <= (c as u32) && (c as u32) <= 0x9f)
}

/// Text that a key press types: non-empty, without control characters.
pub open spec fn typed_text(t: Seq<char>) -> bool {
    t.len() > 0 && forall|i: int| 0 <= i < t.len() ==> !is_control_char(t[i])
}

pub fn is_typed_text(t: &str) -> (r: bool)
    ensures
        r == typed_text(t@),
{
    let cs = crate::text::chars_of(t);
    if cs.len() == 0 {
        return false;
    }
    let mut i: usize = 0;
    while i < cs.len()
        invariant
            0 <= i <= cs@.len(),
            cs@ == t@,
            forall|k: int| 0 <= k < i ==> !is_control_char(cs@[k]),
        decreases cs@.len() - i,
    {
        let u = cs[i] as u32;
        if u <= 0x1f || (0x7f <= u && u <= 0x9f) {
            return false;
        }
        i = i + 1;
    }
    true
}

fn concat2(a: &str, c: &str) -> (r: String)
    ensures
        r@ == a@ + c@,
        encode_utf8(r@) == a.spec_bytes() + c.spec_bytes(),
{
    let mut out = a.to_owned();
    out.append(c);
    proof {
        lemma_encode_concat(a@, c@);
    }
    out
}

/// A text input: its text and a byte cursor on a character boundary.
pub struct TextField {
    text: String,
    cursor: usize,
}

impl TextField {
    pub closed spec fn text_view(&self) -> Seq<char> {
        self.text@
    }

    pub closed spec fn cursor_view(&self) -> int {
        self.cursor as int
    }

    /// The UTF-8 bytes of the text.
    pub open spec fn bytes(&self) -> Seq<u8> {
        encode_utf8(self.text_view())
    }

    /// The cursor lies on a character boundary of the text.
    pub open spec fn wf(&self) -> bool {
        0 <= self.cursor_view() <= self.bytes().len() && is_char_boundary(
            self.bytes(),
            self.cursor_view(),
        )
    }

    pub fn new() -> (r: TextField)
        ensures
            r.wf(),
            r.text_view().len() == 0,
            r.cursor_view() == 0,
    {
        let r = TextField { text: String::new(), cursor: 0 };
        proof {
            encode_utf8_valid_utf8(r.text@);
            is_char_boundary_start_end_of_seq(r.bytes());
        }
        r
    }

    /// A field holding `text`, with the cursor at its end.
    pub fn with_text(text: String) -> (r: TextField)
        ensures
            r.wf(),
            r.text_view() == text@,
            r.cursor_view() == r.bytes().len(),
    {
        let n = text.as_str().as_bytes().len();
        let r = TextField { text, cursor: n };
        proof {
            encode_utf8_valid_utf8(r.text@);
            is_char_boundary_start_end_of_seq(r.bytes());
        }
        r
    }

    pub fn text(&self) -> (r: &str)
        ensures
            r@ == self.text_view(),
    {
        self.text.as_str()
    }

    pub fn cursor(&self) -> (r: usize)
        ensures
            r == self.cursor_view(),
    {
        self.cursor
    }

    /// Empties the field.
    pub fn clear(&mut self)
        ensures
            final(self).wf(),
            final(self).text_view().len() == 0,
            final(self).cursor_view() == 0,
    {
        *self = TextField::new();
    }

    /// Moves the cursor one character left.
    pub fn move_left(&mut self)
        requires
            old(self).wf(),
        ensures
            final(self).wf(),
            final(self).text_view() == old(self).text_view(),
            final(self).cursor_view() == if old(self).cursor_view() > 0 {
                scan_down(old(self).bytes(), old(self).cursor_view() - 1)
            } else {
                0
            },
    {
        proof {
            encode_utf8_valid_utf8(self.text@);
            is_char_boundary_start_end_of_seq(self.bytes());
        }
        if self.cursor > 0 {
            let st = self.text.as_str();
            let mut p = self.cursor - 1;
            while p > 0 && !st.is_char_boundary(p)
                invariant
                    0 <= p < st.spec_bytes().len(),
                    scan_down(st.spec_bytes(), p as int) == scan_down(
                        st.spec_bytes(),
                        old(self).cursor_view() - 1,
                    ),
                decreases p,
            {
                p = p - 1;
            }
            self.cursor = p;
        }
    }

    /// Moves the cursor one character right.
    pub fn move_right(&mut self)
        requires
            old(self).wf(),
        ensures
            final(self).wf(),
            final(self).text_view() == old(self).text_view(),
            final(self).cursor_view() == if old(self).cursor_view() < old(self).bytes().len() {
                scan_up(old(self).bytes(), old(self).cursor_view() + 1)
            } else {
                old(self).cursor_view()
            },
    {
        proof {
            encode_utf8_valid_utf8(self.text@);
            is_char_boundary_start_end_of_seq(self.bytes());
        }
        let st = self.text.as_str();
        let len = st.as_bytes().len();
        if self.cursor < len {
            let mut p = self.cursor + 1;
            while p < len && !st.is_char_boundary(p)
                invariant
                    len == st.spec_bytes().len(),
                    0 < p <= len,
                    scan_up(st.spec_bytes(), p as int) == scan_up(
                        st.spec_bytes(),
                        old(self).cursor_view() + 1,
                    ),
                decreases len - p,
            {
                p = p + 1;
            }
            self.cursor = p;
        }
    }

    /// Moves the cursor to the start of its line.
    pub fn move_home(&mut self)
        requires
            old(self).wf(),
        ensures
            final(self).wf(),
            final(self).text_view() == old(self).text_view(),
            final(self).cursor_view() == line_home(old(self).bytes(), old(self).cursor_view()),
    {
        proof {
            encode_utf8_valid_utf8(self.text@);
            is_char_boundary_start_end_of_seq(self.bytes());
        }
        let b = self.text.as_str().as_bytes();
        let mut p = self.cursor;
        while p > 0 && b[p - 1] != 10u8
            invariant
                b@ == old(self).bytes(),
                0 <= p <= old(self).cursor_view(),
                old(self).cursor_view() <= b@.len(),
                line_home(b@, p as int) == line_home(b@, old(self).cursor_view()),
            decreases p,
        {
            p = p - 1;
        }
        proof {
            if p > 0 {
                vstd::utf8::is_char_boundary_iff_not_is_continuation_byte(b@, p - 1);
                lemma_boundary_after_ascii(b@, p - 1);
            }
        }
        self.cursor = p;
    }

    /// Moves the cursor to the end of its line.
    pub fn move_end(&mut self)
        requires
            old(self).wf(),
        ensures
            final(self).wf(),
            final(self).text_view() == old(self).text_view(),
            final(self).cursor_view() == line_end(old(self).bytes(), old(self).cursor_view()),
    {
        proof {
            encode_utf8_valid_utf8(self.text@);
            is_char_boundary_start_end_of_seq(self.bytes());
        }
        let b = self.text.as_str().as_bytes();
        let len = b.len();
        let mut p = self.cursor;
        while p < len && b[p] != 10u8
            invariant
                b@ == old(self).bytes(),
                len == b@.len(),
                old(self).cursor_view() <= p <= len,
                line_end(b@, p as int) == line_end(b@, old(self).cursor_view()),
            decreases len - p,
        {
            p = p + 1;
        }
        proof {
            if p < len {
                vstd::utf8::is_char_boundary_iff_not_is_continuation_byte(b@, p as int);
            }
        }
        self.cursor = p;
    }

    /// Deletes the character before the cursor.
    pub fn backspace(&mut self)
        requires
            old(self).wf(),
        ensures
            final(self).wf(),
            old(self).cursor_view() == 0 ==> final(self).text_view() == old(self).text_view()
                && final(self).cursor_view() == 0,
            old(self).cursor_view() > 0 ==> {
                let p = scan_down(old(self).bytes(), old(self).cursor_view() - 1);
                &&& final(self).cursor_view() == p
                &&& final(self).bytes() == old(self).bytes().subrange(0, p) + old(self).bytes().subrange(
                    old(self).cursor_view(),
                    old(self).bytes().len() as int,
                )
            },
    {
        if self.cursor == 0 {
            return;
        }
        let old_cursor = self.cursor;
        self.move_left();
        let p = self.cursor;
        let st = self.text.as_str();
        proof {
            encode_utf8_valid_utf8(self.text@);
            lemma_scan_down_boundary(st.spec_bytes(), old_cursor - 1);
        }
        let (a, rest) = st.split_at(p);
        proof {
            crate::tools::transaction::lemma_boundary_in_suffix(st.spec_bytes(), p as int, old_cursor as int);
        }
        let (_gone, c) = rest.split_at(old_cursor - p);
        let out = concat2(a, c);
        proof {
            assert(c.spec_bytes() =~= st.spec_bytes().subrange(
                old_cursor as int,
                st.spec_bytes().len() as int,
            ));
            lemma_boundary_at_prefix(a@, c@);
            lemma_encode_concat(a@, c@);
        }
        self.text = out;
        self.cursor = p;
    }

    /// Deletes the character after the cursor.
    pub fn delete_forward(&mut self)
        requires
            old(self).wf(),
        ensures
            final(self).wf(),
            final(self).cursor_view() == old(self).cursor_view(),
            old(self).cursor_view() == old(self).bytes().len() ==> final(self).text_view() == old(
                self,
            ).text_view(),
            old(self).cursor_view() < old(self).bytes().len() ==> {
                let e = scan_up(old(self).bytes(), old(self).cursor_view() + 1);
                final(self).bytes() == old(self).bytes().subrange(0, old(self).cursor_view())
                    + old(self).bytes().subrange(e, old(self).bytes().len() as int)
            },
    {
        proof {
            encode_utf8_valid_utf8(self.text@);
        }
        let len = self.text.as_str().as_bytes().len();
        if self.cursor >= len {
            return;
        }
        let c0 = self.cursor;
        self.move_right();
        let e = self.cursor;
        let st = self.text.as_str();
        proof {
            encode_utf8_valid_utf8(self.text@);
            lemma_scan_up_bounds(st.spec_bytes(), c0 + 1);
        }
        let (a, rest) = st.split_at(c0);
        proof {
            crate::tools::transaction::lemma_boundary_in_suffix(st.spec_bytes(), c0 as int, e as int);
        }
        let (_gone, c) = rest.split_at(e - c0);
        let out = concat2(a, c);
        proof {
            assert(c.spec_bytes() =~= st.spec_bytes().subrange(e as int, st.spec_bytes().len() as int));
            lemma_boundary_at_prefix(a@, c@);
            lemma_encode_concat(a@, c@);
        }
        self.text = out;
        self.cursor = c0;
    }

    /// Inserts `t` at the cursor and moves the cursor past it.
    pub fn insert_str(&mut self, t: &str)
        requires
            old(self).wf(),
        ensures
            final(self).wf(),
            final(self).bytes() == old(self).bytes().subrange(0, old(self).cursor_view())
                + t.spec_bytes() + old(self).bytes().subrange(
                old(self).cursor_view(),
                old(self).bytes().len() as int,
            ),
            final(self).cursor_view() == old(self).cursor_view() + t.spec_bytes().len(),
    {
        proof {
            encode_utf8_valid_utf8(self.text@);
        }
        let st = self.text.as_str();
        let (a, c) = st.split_at(self.cursor);
        let mut out = a.to_owned();
        out.append(t);
        let tl = t.as_bytes().len();
        let al = a.as_bytes().len();
        let ghost pre = out@;
        out.append(c);
        proof {
            lemma_encode_concat(a@, t@);
            lemma_encode_concat(a@ + t@, c@);
            lemma_boundary_at_prefix(a@ + t@, c@);
            assert(out@ == a@ + t@ + c@);
        }
        let total = out.as_str().as_bytes().len();
        assert(al + tl <= total);
        self.text = out;
        self.cursor = al + tl;
    }
}

proof fn lemma_scan_up_bounds(b: Seq<u8>, k: int)
    requires
        0 <= k <= b.len(),
    ensures
        k <= scan_up(b, k) <= b.len(),
    decreases b.len() - k,
{
    if k < b.len() && !is_char_boundary(b, k) {
        lemma_scan_up_bounds(b, k + 1);
    }
}

proof fn lemma_scan_down_boundary(b: Seq<u8>, k: int)
    requires
        valid_utf8(b),
        0 <= k <= b.len(),
    ensures
        0 <= scan_down(b, k) <= k,
        is_char_boundary(b, scan_down(b, k)),
    decreases k,
{
    is_char_boundary_start_end_of_seq(b);
    if k > 0 && !is_char_boundary(b, k) {
        lemma_scan_down_boundary(b, k - 1);
    }
}

/// Inside the encoding of one character there is no character boundary.
proof fn lemma_no_boundary_inside_char(x: Seq<char>, c: char, y: Seq<char>, d: int)
    requires
        0 < d < encode_utf8(seq![c]).len(),
    ensures
        !is_char_boundary(encode_utf8(x + seq![c] + y), encode_utf8(x).len() + d),
    decreases x.len(),
{
    let t = x + seq![c] + y;
    let b = encode_utf8(t);
    encode_utf8_valid_utf8(t);
    encode_utf8_first_scalar(t);
    assert(valid_utf8(pop_first_scalar(b)));
    reveal_with_fuel(is_char_boundary, 2);
    if x.len() == 0 {
        assert(t[0] == c);
        assert(encode_utf8(seq![c]) =~= vstd::utf8::encode_scalar(c as u32) + encode_utf8(
            seq![c].drop_first(),
        ));
        assert(encode_utf8(seq![c].drop_first()) =~= Seq::<u8>::empty());
        assert(encode_utf8(x) =~= Seq::<u8>::empty());
    } else {
        assert(t[0] == x[0]);
        assert(t.drop_first() =~= x.drop_first() + seq![c] + y);
        assert(pop_first_scalar(b) =~= encode_utf8(t.drop_first()));
        lemma_no_boundary_inside_char(x.drop_first(), c, y, d);
        assert(encode_utf8(x).len() == vstd::utf8::encode_scalar(x[0] as u32).len() + encode_utf8(
            x.drop_first(),
        ).len());
    }
}

/// Scanning down over bytes that are no boundaries ends at the boundary
/// below them.
proof fn lemma_scan_down_over(b: Seq<u8>, k: int, m: int)
    requires
        0 <= k <= m,
        is_char_boundary(b, k),
        forall|j: int| k < j <= m ==> !is_char_boundary(b, j),
    ensures
        scan_down(b, m) == k,
    decreases m,
{
    if m > k {
        lemma_scan_down_over(b, k, m - 1);
    }
}

/// Typing one character and then pressing backspace gives back the text
/// and the cursor: `insert_str` of a character followed by `backspace`
/// undoes it, with the field holding `x + y` and the cursor after `x`.
pub proof fn law_insert_char_then_backspace(x: Seq<char>, y: Seq<char>, c: char)
    ensures
        ({
            let b = encode_utf8(x + y);
            let k = encode_utf8(x).len() as int;
            let nb = b.subrange(0, k) + encode_utf8(seq![c]) + b.subrange(k, b.len() as int);
            let nk = k + encode_utf8(seq![c]).len();
            &&& scan_down(nb, nk - 1) == k
            &&& nb.subrange(0, scan_down(nb, nk - 1)) + nb.subrange(nk, nb.len() as int) == b
        }),
{
    let b = encode_utf8(x + y);
    let k = encode_utf8(x).len() as int;
    let e = encode_utf8(seq![c]);
    lemma_encode_concat(x, y);
    assert(b.subrange(0, k) =~= encode_utf8(x));
    assert(b.subrange(k, b.len() as int) =~= encode_utf8(y));
    let nb = b.subrange(0, k) + e + b.subrange(k, b.len() as int);
    lemma_encode_concat(x, seq![c]);
    lemma_encode_concat(x + seq![c], y);
    assert(nb =~= encode_utf8(x + seq![c] + y));
    encode_utf8_first_scalar(seq![c]);
    assert(e =~= vstd::utf8::encode_scalar(c as u32) + encode_utf8(seq![c].drop_first()));
    assert(encode_utf8(seq![c].drop_first()) =~= Seq::<u8>::empty());
    let nk = k + e.len();
    assert(e.len() >= 1);
    lemma_boundary_at_prefix(x, seq![c] + y);
    assert(x + (seq![c] + y) =~= x + seq![c] + y);
    assert forall|j: int| k < j <= nk - 1 implies !is_char_boundary(nb, j) by {
        lemma_no_boundary_inside_char(x, c, y, j - k);
    }
    lemma_scan_down_over(nb, k, nk - 1);
    assert(nb.subrange(0, k) + nb.subrange(nk, nb.len() as int) =~= b);
}

} // verus!
