//! The text the performance smoke test scrolls through.

use vstd::prelude::*;
use vstd::string::StringSliceAdditionalSpecFns;

verus! {

/// The repeated line: 64 hex digits and a newline.
pub open spec fn corpus_line() -> Seq<char> {
    "0123456789abcdef0123456789abcdef0123456789abcdef0123456789abcdef\n"@
}

/// `k` copies of `s`.
pub open spec fn repeat(s: Seq<char>, k: nat) -> Seq<char>
    decreases k,
{
    if k == 0 { Seq::empty() } else { repeat(s, (k - 1) as nat) + s }
}

/// The least whole number of lines (of 65 bytes) reaching 10 MiB.
pub open spec fn corpus_lines() -> nat {
    161320
}

/// About 10 MiB of text: the line repeated until the text reaches 10 MiB.
pub fn build_10mb_corpus() -> (r: String)
    ensures
        r@ == repeat(corpus_line(), corpus_lines()),
{
    let line = "0123456789abcdef0123456789abcdef0123456789abcdef0123456789abcdef\n";
    proof {
        reveal_strlit("0123456789abcdef0123456789abcdef0123456789abcdef0123456789abcdef\n");
        vstd::string::is_ascii_spec_bytes(line);
    }
    let ll = line.as_bytes().len();
    assert(ll == 65);
    let mut s = String::new();
    let mut len: usize = 0;
    let mut k: usize = 0;
    while len < 10485760
        invariant
            len == 65 * k,
            k <= 161320,
            len < 10485760 ==> k < 161320,
            len >= 10485760 ==> k == 161320,
            s@ == repeat(corpus_line(), k as nat),
            line@ == corpus_line(),
        decreases 161320 - k,
    {
        s.append(line);
        len = len + 65;
        k = k + 1;
    }
    s
}

} // verus!
