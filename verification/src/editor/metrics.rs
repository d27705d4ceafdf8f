//! Rolling frame timings for the developer HUD: the last 120 frames, and
//! when to sample the process's memory. Times are nanoseconds on a
//! monotonic clock that the caller reads; percentiles and the HUD text are
//! the caller's work.

use vstd::prelude::*;
use vstd::multiset::Multiset;

verus! {

/// How many recent frames are kept.
pub const FRAME_WINDOW: usize = 120;

/// How often memory is sampled, in nanoseconds.
pub const HEAP_SAMPLE_INTERVAL_NS: u64 = 1000000000;

/// One memory sample from the OS.
#[derive(Debug, Clone, Copy)]
pub struct HeapSample {
    pub resident_bytes: u64,
}

/// The last `n` entries of `s` (all of them when there are fewer).
pub open spec fn last_n(s: Seq<u64>, n: nat) -> Seq<u64> {
    if s.len() > n {
        s.subrange(s.len() - n, s.len() as int)
    } else {
        s
    }
}

/// Appends `d` and keeps only the last [`FRAME_WINDOW`] entries.
pub fn push_duration(q: &mut Vec<u64>, d: u64)
    requires
        old(q)@.len() <= FRAME_WINDOW,
    ensures
        final(q)@ == last_n(old(q)@.push(d), FRAME_WINDOW as nat),
        final(q)@.len() <= FRAME_WINDOW,
{
    let ghost full = old(q)@.push(d);
    q.push(d);
    while q.len() > FRAME_WINDOW
        invariant
            full.len() <= FRAME_WINDOW + 1,
            q@.len() <= full.len(),
            q@.len() >= FRAME_WINDOW || q@.len() == full.len(),
            q@ == full.subrange(full.len() - q@.len(), full.len() as int),
        decreases q@.len(),
    {
        q.remove(0);
    }
    proof {
        if full.len() <= FRAME_WINDOW {
            assert(q@ =~= full);
        }
    }
}

/// `s` is in ascending order.
pub open spec fn ascending(s: Seq<u64>) -> bool {
    forall|i: int, j: int| 0 <= i < j < s.len() ==> s[i] <= s[j]
}

/// The values of `v` in ascending order.
pub fn sorted_copy(v: &Vec<u64>) -> (r: Vec<u64>)
    ensures
        ascending(r@),
        r@.to_multiset() == v@.to_multiset(),
{
    broadcast use vstd::seq_lib::group_to_multiset_ensures;
    broadcast use vstd::multiset::group_multiset_axioms;

    let mut rem: Vec<u64> = v.clone();
    let mut out: Vec<u64> = Vec::new();
    assert(rem@ =~= v@);
    while rem.len() > 0
        invariant
            ascending(out@),
            forall|i: int, j: int| 0 <= i < out@.len() && 0 <= j < rem@.len() ==> out@[i] <= rem@[j],
            out@.to_multiset().add(rem@.to_multiset()) == v@.to_multiset(),
        decreases rem@.len(),
    {
        let mut best: usize = 0;
        let mut k: usize = 1;
        while k < rem.len()
            invariant
                0 <= best < rem@.len(),
                1 <= k <= rem@.len(),
                forall|j: int| 0 <= j < k ==> rem@[best as int] <= rem@[j],
            decreases rem@.len() - k,
        {
            if rem[k] < rem[best] {
                best = k;
            }
            k = k + 1;
        }
        let ghost old_rem = rem@;
        let ghost old_out = out@;
        let x = rem.remove(best);
        out.push(x);
        proof {
            vstd::seq_lib::to_multiset_build(old_out, x);
            vstd::seq_lib::to_multiset_remove(old_rem, best as int);
            vstd::seq_lib::to_multiset_contains(old_rem, x);
            assert(old_rem[best as int] == x);
            assert(old_rem.to_multiset().count(x) > 0);
            assert(old_out.to_multiset().insert(x).add(old_rem.to_multiset().remove(x)) =~= old_out.to_multiset().add(
                old_rem.to_multiset(),
            ));
            assert forall|i: int, j: int| 0 <= i < j < out@.len() implies out@[i] <= out@[j] by {
                if j == out@.len() - 1 {
                    assert(old_out[i] <= old_rem[best as int]);
                } else {
                    assert(old_out[i] <= old_out[j]);
                }
            }
            assert forall|i: int, j: int| 0 <= i < out@.len() && 0 <= j < rem@.len() implies out@[i]
                <= rem@[j] by {
                let jj = if j < best { j } else { j + 1 };
                assert(rem@[j] == old_rem[jj]);
                if i < out@.len() - 1 {
                    assert(old_out[i] <= old_rem[jj]);
                }
            }
        }
    }
    proof {
        assert(rem@.to_multiset() =~= Multiset::empty());
        assert(out@.to_multiset().add(Multiset::empty()) =~= out@.to_multiset());
    }
    out
}

/// Rolling window of recent frame timings.
pub struct MetricsCollector {
    frame_times: Vec<u64>,
    prepare_times: Vec<u64>,
    submit_times: Vec<u64>,
    last_prepare: u64,
    last_submit: u64,
    last_heap: Option<HeapSample>,
    last_heap_sample_at: u64,
}

impl MetricsCollector {
    pub closed spec fn frames(&self) -> Seq<u64> {
        self.frame_times@
    }

    pub closed spec fn prepares(&self) -> Seq<u64> {
        self.prepare_times@
    }

    pub closed spec fn submits(&self) -> Seq<u64> {
        self.submit_times@
    }

    pub closed spec fn last_sample_at(&self) -> u64 {
        self.last_heap_sample_at
    }

    pub closed spec fn heap(&self) -> Option<HeapSample> {
        self.last_heap
    }

    pub closed spec fn last_times(&self) -> (u64, u64) {
        (self.last_prepare, self.last_submit)
    }

    /// The windows hold at most [`FRAME_WINDOW`] frames.
    pub open spec fn wf(&self) -> bool {
        self.frames().len() <= FRAME_WINDOW && self.prepares().len() <= FRAME_WINDOW
            && self.submits().len() <= FRAME_WINDOW
    }

    /// An empty collector at time `now`, due for a memory sample at the
    /// first frame (the last sample counts as ten seconds ago).
    pub fn new(now: u64) -> (r: MetricsCollector)
        ensures
            r.wf(),
            r.frames().len() == 0 && r.prepares().len() == 0 && r.submits().len() == 0,
            r.last_times() == (0u64, 0u64),
            r.heap() is None,
            r.last_sample_at() == if now >= 10000000000 { (now - 10000000000) as u64 } else { now },
    {
        let at = if now >= 10000000000 {
            now - 10000000000
        } else {
            now
        };
        MetricsCollector {
            frame_times: Vec::new(),
            prepare_times: Vec::new(),
            submit_times: Vec::new(),
            last_prepare: 0,
            last_submit: 0,
            last_heap: None,
            last_heap_sample_at: at,
        }
    }

    /// Records one frame's timings at time `now`; answers whether a memory
    /// sample is due (a second since the last one), in which case `now`
    /// becomes the time of the last sample and the caller reports the sample
    /// with [`Self::set_heap`].
    pub fn record_frame(&mut self, prepare: u64, submit: u64, total: u64, now: u64) -> (r: bool)
        requires
            old(self).wf(),
        ensures
            final(self).wf(),
            final(self).frames() == last_n(old(self).frames().push(total), FRAME_WINDOW as nat),
            final(self).prepares() == last_n(old(self).prepares().push(prepare), FRAME_WINDOW as nat),
            final(self).submits() == last_n(old(self).submits().push(submit), FRAME_WINDOW as nat),
            final(self).last_times() == (prepare, submit),
            final(self).heap() == old(self).heap(),
            r == (now >= old(self).last_sample_at() && now - old(self).last_sample_at()
                >= HEAP_SAMPLE_INTERVAL_NS),
            r ==> final(self).last_sample_at() == now,
            !r ==> final(self).last_sample_at() == old(self).last_sample_at(),
    {
        self.last_prepare = prepare;
        self.last_submit = submit;
        push_duration(&mut self.frame_times, total);
        push_duration(&mut self.prepare_times, prepare);
        push_duration(&mut self.submit_times, submit);
        let elapsed = if now >= self.last_heap_sample_at {
            now - self.last_heap_sample_at
        } else {
            0
        };
        if elapsed >= HEAP_SAMPLE_INTERVAL_NS {
            self.last_heap_sample_at = now;
            return true;
        }
        false
    }

    /// Stores the memory sample taken after [`Self::record_frame`] asked.
    pub fn set_heap(&mut self, sample: HeapSample)
        ensures
            final(self).heap() == Some(sample),
            final(self).frames() == old(self).frames(),
            final(self).prepares() == old(self).prepares(),
            final(self).submits() == old(self).submits(),
            final(self).last_times() == old(self).last_times(),
            final(self).last_sample_at() == old(self).last_sample_at(),
    {
        self.last_heap = Some(sample);
    }

    /// The recorded frame times in ascending order (for percentiles).
    pub fn sorted_frame_times(&self) -> (r: Vec<u64>)
        ensures
            ascending(r@),
            r@.to_multiset() == self.frames().to_multiset(),
    {
        sorted_copy(&self.frame_times)
    }

    /// The recorded frame times, oldest first.
    pub fn frame_times(&self) -> (r: &Vec<u64>)
        ensures
            r@ == self.frames(),
    {
        &self.frame_times
    }

    pub fn last_prepare(&self) -> (r: u64)
        ensures
            r == self.last_times().0,
    {
        self.last_prepare
    }

    pub fn last_submit(&self) -> (r: u64)
        ensures
            r == self.last_times().1,
    {
        self.last_submit
    }

    pub fn last_heap(&self) -> (r: Option<HeapSample>)
        ensures
            r == self.heap(),
    {
        self.last_heap
    }
}

} // verus!
