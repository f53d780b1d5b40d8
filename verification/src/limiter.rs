use vstd::prelude::*;

verus! {

/// A success time `t` still counts against the budget at time `now` when the
/// window that started at `t` has not yet elapsed.
pub open spec fn in_window(t: u64, now: u64, w: u64) -> bool {
    t + w > now
}

/// Drop from the front of a time-sorted sequence every entry whose window has
/// elapsed at `now`.
pub open spec fn drop_expired(s: Seq<u64>, now: u64, w: u64) -> Seq<u64>
    decreases s.len(),
{
    if s.len() == 0 {
        s
    } else if !in_window(s[0], now, w) {
        drop_expired(s.skip(1), now, w)
    } else {
        s
    }
}

/// Non-decreasing order.
pub open spec fn sorted(s: Seq<u64>) -> bool {
    forall|i: int, j: int| 0 <= i <= j < s.len() ==> s[i] <= s[j]
}

/// The transmit rate limiter: a leaky bucket that permits at most `capacity`
/// successful checks within any window of `window_ms` milliseconds, so that
/// receive windows are never starved by transmission.
///
/// `times` holds the recent success times still inside the window, oldest
/// first; `hist` is the ghost record of every success time ever granted, in
/// order, of which `times` is the live suffix.  The caller's clock must be
/// monotone: each check is made with a `now` no earlier than the last.
pub struct LeakyBucket {
    pub capacity: usize,
    pub window_ms: u64,
    pub times: Vec<u64>,
    pub last_now: u64,
    pub hist: Ghost<Seq<u64>>,
}

impl LeakyBucket {
    /// Everything the limiter maintains between checks, including the central
    /// budget law: successes `capacity` apart in the ghost history are at
    /// least a full window apart in time.
    pub open spec fn wf(self) -> bool {
        &&& self.capacity >= 1
        &&& sorted(self.hist@)
        &&& self.times@.len() <= self.capacity
        &&& self.times@.len() <= self.hist@.len()
        &&& self.times@ == self.hist@.skip(self.hist@.len() - self.times@.len())
        &&& forall|k: int|
            0 <= k < self.hist@.len() ==> self.hist@[k] <= self.last_now
        &&& forall|k: int|
            0 <= k < self.hist@.len() - self.times@.len() ==> !in_window(
                #[trigger] self.hist@[k],
                self.last_now,
                self.window_ms,
            )
        &&& forall|i: int|
            0 <= i && i + self.capacity < self.hist@.len() ==> self.hist@[i] + self.window_ms
                <= #[trigger] self.hist@[i + self.capacity]
    }

    /// Whether a check at time `now` would succeed: fewer than `capacity`
    /// recorded successes still lie inside the window.
    pub open spec fn would_pass(self, now: u64) -> bool {
        drop_expired(self.times@, now, self.window_ms).len() < self.capacity
    }

    /// A fresh bucket with a budget of `capacity` tokens per window of
    /// `window_ms` milliseconds.
    pub fn new(capacity: usize, window_ms: u64) -> (b: LeakyBucket)
        requires
            capacity >= 1,
        ensures
            b.wf(),
            b.capacity == capacity,
            b.window_ms == window_ms,
            b.times@ == Seq::<u64>::empty(),
            b.hist@ == Seq::<u64>::empty(),
            b.last_now == 0,
    {
        let b = LeakyBucket {
            capacity,
            window_ms,
            times: Vec::new(),
            last_now: 0,
            hist: Ghost(Seq::empty()),
        };
        proof {
            assert(b.times@ =~= b.hist@.skip(b.hist@.len() - b.times@.len()));
        }
        b
    }

    /// One rate check at time `now`.  It succeeds, and consumes a token,
    /// exactly when fewer than `capacity` earlier successes still lie inside
    /// the window; it fails without side effect on the budget otherwise.
    pub fn check(&mut self, now: u64) -> (ok: bool)
        requires
            old(self).wf(),
            now >= old(self).last_now,
        ensures
            final(self).wf(),
            final(self).capacity == old(self).capacity,
            final(self).window_ms == old(self).window_ms,
            final(self).last_now == now,
            ok == old(self).would_pass(now),
            ok ==> final(self).times@ == drop_expired(
                old(self).times@,
                now,
                old(self).window_ms,
            ).push(now) && final(self).hist@ == old(self).hist@.push(now),
            !ok ==> final(self).times@ == drop_expired(old(self).times@, now, old(self).window_ms)
                && final(self).hist@ == old(self).hist@ && !final(self).would_pass(now),
    {
        let ghost w = self.window_ms;
        while self.times.len() > 0 && now - self.times[0] >= self.window_ms
            invariant
                w == self.window_ms,
                self.capacity == old(self).capacity,
                self.window_ms == old(self).window_ms,
                self.hist == old(self).hist,
                self.last_now == old(self).last_now,
                now >= self.last_now,
                self.capacity >= 1,
                sorted(self.hist@),
                self.times@.len() <= self.capacity,
                self.times@.len() <= self.hist@.len(),
                self.times@ == self.hist@.skip(self.hist@.len() - self.times@.len()),
                forall|k: int| 0 <= k < self.hist@.len() ==> self.hist@[k] <= self.last_now,
                forall|k: int| 0 <= k < self.times@.len() ==> self.times@[k] <= self.last_now,
                forall|k: int|
                    0 <= k < self.hist@.len() - self.times@.len() ==> !in_window(
                        #[trigger] self.hist@[k],
                        now,
                        self.window_ms,
                    ),
                forall|i: int|
                    0 <= i && i + self.capacity < self.hist@.len() ==> self.hist@[i]
                        + self.window_ms <= #[trigger] self.hist@[i + self.capacity],
                drop_expired(old(self).times@, now, w) == drop_expired(self.times@, now, w),
            decreases self.times@.len(),
        {
            let ghost prev = self.times@;
            proof {
                let m = self.hist@.len() - prev.len();
                assert(prev[0] == self.hist@[m]);
                assert(prev.skip(1) =~= self.hist@.skip(m + 1));
            }
            self.times.remove(0);
            proof {
                assert(self.times@ =~= prev.skip(1));
                assert(!in_window(prev[0], now, w));
                assert(drop_expired(prev, now, w) == drop_expired(self.times@, now, w));
            }
        }
        proof {
            // The loop stopped on an empty vector or a live front entry, so
            // nothing more expires.
            if self.times@.len() > 0 {
                assert(drop_expired(self.times@, now, w) == self.times@);
            }
            assert(drop_expired(old(self).times@, now, w) == self.times@);
        }
        self.last_now = now;
        if self.times.len() < self.capacity {
            proof {
                let h = self.hist@;
                let m = h.len() - self.times@.len();
                // Every success `capacity` back from the new one has expired.
                assert forall|i: int|
                    0 <= i && i + self.capacity < h.push(now).len() implies h.push(now)[i]
                    + self.window_ms <= #[trigger] h.push(now)[i + self.capacity] by {
                    if i + self.capacity < h.len() {
                        assert(h[i] + self.window_ms <= h[i + self.capacity]);
                    } else {
                        assert(i + self.capacity == h.len());
                        assert(i < m);
                        assert(!in_window(h[i], now, self.window_ms));
                    }
                }
                assert(self.times@.push(now) =~= h.push(now).skip(
                    h.push(now).len() - self.times@.push(now).len(),
                ));
            }
            self.times.push(now);
            proof {
                self.hist@ = self.hist@.push(now);
            }
            true
        } else {
            false
        }
    }
}

/// The budget law on the record of granted transmissions: of any two
/// successful checks separated by at least `capacity` grants, the later one
/// happened a full window or more after the earlier one.
pub proof fn lemma_rate_spacing(b: &LeakyBucket, i: int, j: int)
    requires
        b.wf(),
        0 <= i,
        i + b.capacity <= j < b.hist@.len(),
    ensures
        b.hist@[i] + b.window_ms <= b.hist@[j],
{
    assert(b.hist@[i] + b.window_ms <= b.hist@[i + b.capacity]);
    assert(b.hist@[i + b.capacity] <= b.hist@[j]);
}

/// At most `capacity` checks succeed within any window of `window_ms`
/// milliseconds: two grants that both fall inside the half-open window
/// starting at `start` are fewer than `capacity` positions apart, so no such
/// window holds more than `capacity` grants.
pub proof fn lemma_rate_window(b: &LeakyBucket, start: u64, i: int, j: int)
    requires
        b.wf(),
        0 <= i <= j < b.hist@.len(),
        start <= b.hist@[i],
        b.hist@[j] < start + b.window_ms,
    ensures
        j - i < b.capacity,
{
    if j - i >= b.capacity {
        lemma_rate_spacing(b, i, j);
    }
}

} // verus!
