//! Sliding-window limiter: at most N chat requests per rolling minute.
//!
//! Times are nanoseconds on a monotonic clock that the caller reads; the
//! caller also does the waiting.

use vstd::prelude::*;

verus! {

/// Length of the window, in nanoseconds.
pub const WINDOW_NS: u64 = 60000000000;

/// Shortest wait the limiter asks for, in nanoseconds.
pub const MIN_WAIT_NS: u64 = 1000000;

/// `now - t`, or 0 when `t` lies after `now`.
pub open spec fn elapsed(now: u64, t: u64) -> int {
    if now >= t { now - t } else { 0 }
}

/// Time from `now` until the stamp `e` leaves the window (0 when it has).
pub open spec fn wait_until_free(e: u64, now: u64) -> int {
    if e + WINDOW_NS > now { e + WINDOW_NS - now } else { 0 }
}

/// The stamps of `s` that lie within the window ending at `now`, in order.
pub open spec fn recent(s: Seq<u64>, now: u64) -> Seq<u64>
    decreases s.len(),
{
    if s.len() == 0 {
        Seq::empty()
    } else if elapsed(now, s.last()) < WINDOW_NS {
        recent(s.drop_last(), now).push(s.last())
    } else {
        recent(s.drop_last(), now)
    }
}

/// The smallest stamp of a non-empty `s`.
pub open spec fn earliest(s: Seq<u64>) -> u64
    decreases s.len(),
{
    if s.len() <= 1 {
        s[0]
    } else if s.last() < earliest(s.drop_last()) {
        s.last()
    } else {
        earliest(s.drop_last())
    }
}

proof fn lemma_recent_members(s: Seq<u64>, now: u64)
    ensures
        forall|x: u64| recent(s, now).contains(x) <==> (s.contains(x) && elapsed(now, x) < WINDOW_NS),
        recent(s, now).len() <= s.len(),
    decreases s.len(),
{
    if s.len() > 0 {
        lemma_recent_members(s.drop_last(), now);
        let r = recent(s.drop_last(), now);
        assert forall|x: u64| recent(s, now).contains(x) <==> (s.contains(x) && elapsed(now, x)
            < WINDOW_NS) by {
            if s.contains(x) {
                let k = choose|k: int| 0 <= k < s.len() && s[k] == x;
                if k < s.len() - 1 {
                    assert(s.drop_last()[k] == x);
                }
            }
            if s.drop_last().contains(x) {
                let k = choose|k: int| 0 <= k < s.drop_last().len() && s.drop_last()[k] == x;
                assert(s[k] == x);
            }
            if elapsed(now, s.last()) < WINDOW_NS {
                if r.push(s.last()).contains(x) {
                    let k = choose|k: int| 0 <= k < r.push(s.last()).len() && r.push(s.last())[k] == x;
                    if k < r.len() {
                        assert(r[k] == x);
                    }
                }
                if r.contains(x) {
                    let k = choose|k: int| 0 <= k < r.len() && r[k] == x;
                    assert(r.push(s.last())[k] == x);
                }
                if x == s.last() {
                    assert(r.push(s.last())[r.len() as int] == x);
                }
            }
        }
    }
}

proof fn lemma_earliest(s: Seq<u64>)
    requires
        s.len() > 0,
    ensures
        s.contains(earliest(s)),
        forall|i: int| 0 <= i < s.len() ==> earliest(s) <= s[i],
    decreases s.len(),
{
    if s.len() == 1 {
        assert(s[0] == earliest(s));
    } else {
        lemma_earliest(s.drop_last());
        let e = earliest(s.drop_last());
        let k = choose|k: int| 0 <= k < s.drop_last().len() && s.drop_last()[k] == e;
        assert(s[k] == e);
        assert(s[s.len() - 1] == s.last());
        assert forall|i: int| 0 <= i < s.len() implies earliest(s) <= s[i] by {
            if i < s.len() - 1 {
                assert(s.drop_last()[i] == s[i]);
            }
        }
    }
}

/// At most `max_per_minute` acquisitions per rolling 60-second window.
pub struct MinuteRateLimit {
    max_per_minute: u32,
    stamps: Vec<u64>,
    /// The times of every granted acquisition, in order.
    granted: Ghost<Seq<u64>>,
    /// The time of the latest attempt.
    last: Ghost<u64>,
}

impl MinuteRateLimit {
    pub closed spec fn limit(&self) -> u32 {
        self.max_per_minute
    }

    /// Times of the acquisitions still counted.
    pub closed spec fn stamps_view(&self) -> Seq<u64> {
        self.stamps@
    }

    /// Times of every acquisition granted so far.
    pub closed spec fn granted_view(&self) -> Seq<u64> {
        self.granted@
    }

    /// Time of the latest attempt (0 before the first).
    pub closed spec fn last_attempt(&self) -> u64 {
        self.last@
    }

    /// At least one request is allowed, and no more are counted than
    /// allowed; the counted stamps are the grants of the minute before the
    /// latest attempt, and no 60-second window holds more grants than the
    /// limit.
    pub open spec fn wf(&self) -> bool {
        &&& self.limit() >= 1
        &&& self.stamps_view().len() <= self.limit()
        &&& self.stamps_view() == recent(self.granted_view(), self.last_attempt())
        &&& forall|i: int| 0 <= i < self.granted_view().len() ==> self.granted_view()[i] <= self.last_attempt()
        &&& forall|t: int| #[trigger] count_in_window(self.granted_view(), t) <= self.limit()
    }

    /// A limiter allowing `max_per_minute` requests a minute (at least one).
    pub fn new(max_per_minute: u32) -> (r: MinuteRateLimit)
        ensures
            r.wf(),
            r.limit() == if max_per_minute < 1 { 1 } else { max_per_minute },
            r.stamps_view().len() == 0,
            r.granted_view().len() == 0,
    {
        let m = if max_per_minute < 1 {
            1
        } else {
            max_per_minute
        };
        let r = MinuteRateLimit { max_per_minute: m, stamps: Vec::new(), granted: Ghost(Seq::empty()), last: Ghost(0) };
        assert(recent(Seq::<u64>::empty(), 0) =~= Seq::<u64>::empty());
        r
    }

    /// One attempt to acquire a slot at time `now`: stamps older than the
    /// window are forgotten; then either the slot is granted and recorded
    /// (`None`), or the caller is told how long to wait before trying again.
    pub fn try_acquire(&mut self, now: u64) -> (r: Option<u64>)
        requires
            old(self).wf(),
            old(self).last_attempt() <= now,
            forall|i: int|
                0 <= i < old(self).stamps_view().len() ==> old(self).stamps_view()[i] + WINDOW_NS
                    <= u64::MAX,
        ensures
            final(self).wf(),
            final(self).limit() == old(self).limit(),
            final(self).last_attempt() == now,
            r is None ==> final(self).granted_view() == old(self).granted_view().push(now),
            r is Some ==> final(self).granted_view() == old(self).granted_view(),
            ({
                let kept = recent(old(self).stamps_view(), now);
                if kept.len() < old(self).limit() {
                    r is None && final(self).stamps_view() == kept.push(now)
                } else {
                    &&& final(self).stamps_view() == kept
                    &&& kept.len() > 0
                    &&& r == Some(
                        if wait_until_free(earliest(kept), now) > MIN_WAIT_NS {
                            wait_until_free(earliest(kept), now) as u64
                        } else {
                            MIN_WAIT_NS
                        },
                    )
                }
            }),
    {
        let ghost old_s = self.stamps@;
        let mut kept: Vec<u64> = Vec::new();
        let mut i: usize = 0;
        while i < self.stamps.len()
            invariant
                0 <= i <= self.stamps@.len(),
                self.stamps@ == old_s,
                kept@ == recent(old_s.subrange(0, i as int), now),
            decreases self.stamps@.len() - i,
        {
            let t = self.stamps[i];
            let age = if now >= t {
                now - t
            } else {
                0
            };
            proof {
                assert(old_s.subrange(0, i + 1).drop_last() =~= old_s.subrange(0, i as int));
                assert(old_s.subrange(0, i + 1).last() == t);
            }
            if age < WINDOW_NS {
                kept.push(t);
            }
            i = i + 1;
        }
        proof {
            assert(old_s.subrange(0, old_s.len() as int) =~= old_s);
            lemma_recent_members(old_s, now);
        }
        let ghost g = self.granted@;
        proof {
            lemma_recent_twice(g, self.last@, now);
        }
        if kept.len() < self.max_per_minute as usize {
            proof {
                lemma_grant_keeps_window(g, now, self.max_per_minute as nat);
            }
            kept.push(now);
            self.stamps = kept;
            self.granted = Ghost(g.push(now));
            self.last = Ghost(now);
            return None;
        }
        let mut e = kept[0];
        let mut j: usize = 1;
        proof {
            assert(kept@.subrange(0, 1).drop_last().len() == 0);
        }
        while j < kept.len()
            invariant
                1 <= j <= kept@.len(),
                e == earliest(kept@.subrange(0, j as int)),
            decreases kept@.len() - j,
        {
            proof {
                assert(kept@.subrange(0, j + 1).drop_last() =~= kept@.subrange(0, j as int));
            }
            if kept[j] < e {
                e = kept[j];
            }
            j = j + 1;
        }
        proof {
            assert(kept@.subrange(0, kept@.len() as int) =~= kept@);
            lemma_earliest(kept@);
            let k = choose|k: int| 0 <= k < kept@.len() && kept@[k] == e;
            assert(kept@ == recent(old_s, now));
            assert(kept@[k] == e);
            assert(recent(old_s, now).contains(e));
            assert(old_s.contains(e));
            assert(old_s == old(self).stamps_view());
            let m = choose|m: int| 0 <= m < old_s.len() && old_s[m] == e;
            assert(old(self).stamps_view()[m] + WINDOW_NS <= u64::MAX);
        }
        let end = e + WINDOW_NS;
        let wait = if end > now {
            end - now
        } else {
            0
        };
        self.stamps = kept;
        self.last = Ghost(now);
        Some(if wait > MIN_WAIT_NS { wait } else { MIN_WAIT_NS })
    }
}

/// What the limiter keeps after any attempt: only acquisitions from the
/// last minute, and every one of those.
pub proof fn law_window_keeps_exactly_last_minute(s: Seq<u64>, now: u64, x: u64)
    ensures
        recent(s, now).contains(x) <==> (s.contains(x) && elapsed(now, x) < WINDOW_NS),
{
    lemma_recent_members(s, now);
}


/// The limiter's state and the granted acquisitions after attempts at the
/// times `times`, each step as [`MinuteRateLimit::try_acquire`]'s contract
/// gives it, from a new limiter that allows `limit` a minute: the counted
/// stamps, and the times of the granted attempts in order.
pub open spec fn run_limiter(limit: nat, times: Seq<u64>) -> (Seq<u64>, Seq<u64>)
    decreases times.len(),
{
    if times.len() == 0 {
        (Seq::empty(), Seq::empty())
    } else {
        let (s, g) = run_limiter(limit, times.drop_last());
        let now = times.last();
        let kept = recent(s, now);
        if kept.len() < limit {
            (kept.push(now), g.push(now))
        } else {
            (kept, g)
        }
    }
}

/// How many of the times `s` fall in the window `[t, t + 60 s)`.
pub open spec fn count_in_window(s: Seq<u64>, t: int) -> nat
    decreases s.len(),
{
    if s.len() == 0 {
        0
    } else {
        count_in_window(s.drop_last(), t) + if t <= s.last() < t + WINDOW_NS { 1nat } else { 0nat }
    }
}

pub open spec fn nondecreasing(times: Seq<u64>) -> bool {
    forall|i: int, j: int| 0 <= i <= j < times.len() ==> times[i] <= times[j]
}

/// Filtering twice, first at `a` then at a later `b`, is filtering at `b`,
/// for stamps no later than `a`.
proof fn lemma_recent_twice(s: Seq<u64>, a: u64, b: u64)
    requires
        a <= b,
        forall|i: int| 0 <= i < s.len() ==> s[i] <= a,
    ensures
        recent(recent(s, a), b) == recent(s, b),
    decreases s.len(),
{
    if s.len() > 0 {
        let x = s.last();
        lemma_recent_twice(s.drop_last(), a, b);
        let k = recent(s.drop_last(), a);
        if elapsed(a, x) < WINDOW_NS {
            assert(k.push(x).drop_last() =~= k);
            assert(k.push(x).last() == x);
        } else {
            assert(elapsed(b, x) >= WINDOW_NS);
        }
    }
}

/// Stamps in a window that ends no earlier than `now` are all within a
/// minute of `now`.
proof fn lemma_window_within_recent(s: Seq<u64>, t: int, now: u64)
    requires
        forall|i: int| 0 <= i < s.len() ==> s[i] <= now,
        now < t + WINDOW_NS,
    ensures
        count_in_window(s, t) <= recent(s, now).len(),
    decreases s.len(),
{
    if s.len() > 0 {
        lemma_window_within_recent(s.drop_last(), t, now);
    }
}

/// The invariant of a run: the stamps are the granted times filtered at the
/// last attempt, and no granted time lies after it.
proof fn lemma_run(limit: nat, times: Seq<u64>)
    requires
        nondecreasing(times),
        times.len() > 0,
    ensures
        run_limiter(limit, times).0 == recent(run_limiter(limit, times).1, times.last()),
        forall|i: int|
            0 <= i < run_limiter(limit, times).1.len() ==> (#[trigger] run_limiter(limit, times).1[i])
                <= times.last(),
    decreases times.len(),
{
    let pre = times.drop_last();
    let now = times.last();
    let (s, g) = run_limiter(limit, pre);
    if pre.len() > 0 {
        lemma_run(limit, pre);
        assert(pre.last() <= now) by {
            assert(times[times.len() - 2] == pre.last());
        }
        lemma_recent_twice(g, pre.last(), now);
    } else {
        assert(g.len() == 0);
        assert(recent(g, now) =~= Seq::<u64>::empty());
        assert(s =~= Seq::<u64>::empty());
    }
    assert(recent(s, now) == recent(g, now));
    let kept = recent(s, now);
    if kept.len() < limit {
        assert(g.push(now).drop_last() =~= g);
        assert(g.push(now).last() == now);
        assert(recent(g.push(now), now) == recent(g, now).push(now));
    }
}

/// At most `max(max_per_minute, 1)` acquisitions are granted in any
/// 60-second window, whatever the (non-decreasing) times of the attempts.
pub proof fn law_at_most_limit_per_minute(max_per_minute: u32, times: Seq<u64>, t: int)
    requires
        nondecreasing(times),
    ensures
        count_in_window(
            run_limiter(if max_per_minute < 1 { 1 } else { max_per_minute as nat }, times).1,
            t,
        ) <= if max_per_minute < 1 { 1 } else { max_per_minute as nat },
    decreases times.len(),
{
    let limit: nat = if max_per_minute < 1 { 1 } else { max_per_minute as nat };
    if times.len() > 0 {
        let pre = times.drop_last();
        let now = times.last();
        assert(nondecreasing(pre));
        law_at_most_limit_per_minute(max_per_minute, pre, t);
        let (s, g) = run_limiter(limit, pre);
        let kept = recent(s, now);
        if kept.len() < limit && t <= now < t + WINDOW_NS {
            if pre.len() > 0 {
                lemma_run(limit, pre);
                assert(pre.last() <= now) by {
                    assert(times[times.len() - 2] == pre.last());
                }
                lemma_recent_twice(g, pre.last(), now);
                lemma_window_within_recent(g, t, now);
            }
            assert(g.push(now).drop_last() =~= g);
        } else if kept.len() < limit {
            assert(g.push(now).drop_last() =~= g);
        }
    }
}

/// Granting an attempt at `now` while fewer than `limit` grants lie in the
/// minute before it keeps every 60-second window within the limit.
proof fn lemma_grant_keeps_window(g: Seq<u64>, now: u64, limit: nat)
    requires
        forall|i: int| 0 <= i < g.len() ==> g[i] <= now,
        forall|t: int| #[trigger] count_in_window(g, t) <= limit,
        recent(g, now).len() < limit,
    ensures
        forall|t: int| #[trigger] count_in_window(g.push(now), t) <= limit,
        forall|i: int| 0 <= i < g.push(now).len() ==> g.push(now)[i] <= now,
        recent(g.push(now), now) == recent(g, now).push(now),
{
    assert(g.push(now).drop_last() =~= g);
    assert forall|t: int| #[trigger] count_in_window(g.push(now), t) <= limit by {
        assert(count_in_window(g, t) <= limit);
        if t <= now < t + WINDOW_NS {
            lemma_window_within_recent(g, t, now);
        }
    }
}

/// No 60-second window holds more acquisitions granted by a limiter than
/// its limit, `max(n, 1)` for a limiter made with `new(n)`.
pub proof fn law_limiter_window(l: &MinuteRateLimit, t: int)
    requires
        l.wf(),
    ensures
        count_in_window(l.granted_view(), t) <= l.limit(),
{
}

} // verus!
