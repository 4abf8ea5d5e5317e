//! Sliding-window deduplication of 64-bit sequence numbers.
//!
//! The filter records recently seen sequence numbers inside a window of width
//! at most [`REPLAY_WINDOW`] ending at the highest number seen so far, and
//! rejects both repeats and numbers that have fallen below the window.
use vstd::prelude::*;

verus! {

use std::collections::HashSet;

/// Width of the dedup window: the highest admitted sequence number minus the
/// lowest one still tracked never exceeds this.
pub const REPLAY_WINDOW: u64 = 10000;

/// Mathematical state of a [`ReplayFilter`].
pub struct ReplayModel {
    /// Highest sequence number admitted so far (or the start value).
    pub top: u64,
    /// Lowest sequence number still tracked; anything below is rejected.
    pub bottom: u64,
    /// The set of sequence numbers admitted and not yet evicted.
    pub seen: Set<u64>,
}

/// A filter for replays: records recently seen seqnos and rejects both
/// repeats and seqnos older than the sliding window.
pub struct ReplayFilter {
    top_seqno: u64,
    bottom_seqno: u64,
    seen_seqno: HashSet<u64>,
}

impl View for ReplayFilter {
    type V = ReplayModel;

    closed spec fn view(&self) -> ReplayModel {
        ReplayModel { top: self.top_seqno, bottom: self.bottom_seqno, seen: self.seen_seqno@ }
    }
}

/// Well-formedness of a replay-filter state: the window is ordered, no wider
/// than [`REPLAY_WINDOW`], and every tracked seqno lies inside it.
pub open spec fn replay_wf(m: ReplayModel) -> bool {
    &&& m.bottom <= m.top
    &&& m.top - m.bottom <= REPLAY_WINDOW
    &&& forall|s: u64| m.seen.contains(s) ==> m.bottom <= s <= m.top
}

/// A seqno is blocked when the filter can never admit it again: it is either
/// below the window or already recorded.
pub open spec fn replay_blocked(m: ReplayModel, seqno: u64) -> bool {
    seqno < m.bottom || m.seen.contains(seqno)
}

/// The top of the window after an add: raised to the new seqno when admitted.
pub open spec fn replay_new_top(m: ReplayModel, seqno: u64) -> u64 {
    if seqno > m.top {
        seqno
    } else {
        m.top
    }
}

/// The bottom of the window after an add: advanced just enough to keep the
/// window at most [`REPLAY_WINDOW`] wide.
pub open spec fn replay_new_bottom(top: u64, bottom: u64) -> u64 {
    if top - bottom > REPLAY_WINDOW {
        (top - REPLAY_WINDOW) as u64
    } else {
        bottom
    }
}

impl ReplayFilter {
    /// Creates a filter whose window starts (empty) at `start`.
    pub fn new(start: u64) -> (r: ReplayFilter)
        ensures
            r@.top == start,
            r@.bottom == start,
            r@.seen == Set::<u64>::empty(),
            replay_wf(r@),
    {
        ReplayFilter { top_seqno: start, bottom_seqno: start, seen_seqno: HashSet::new() }
    }

    /// Admits a seqno if and only if it is inside the window and not seen
    /// before; on admission it records the seqno, raises the top of the
    /// window to it if needed, and evicts seqnos that fall below the window.
    pub fn add(&mut self, seqno: u64) -> (r: bool)
        requires
            replay_wf(old(self)@),
        ensures
            replay_wf(final(self)@),
            r == !replay_blocked(old(self)@, seqno),
            r ==> {
                let t = replay_new_top(old(self)@, seqno);
                let b = replay_new_bottom(t, old(self)@.bottom);
                &&& final(self)@.top == t
                &&& final(self)@.bottom == b
                &&& final(self)@.seen == old(self)@.seen.insert(seqno).filter(
                    |x: u64| x >= b,
                )
            },
            !r ==> final(self)@ == old(self)@,
            replay_blocked(final(self)@, seqno),
    {
        broadcast use vstd::std_specs::hash::group_hash_axioms;

        if seqno < self.bottom_seqno {
            // below the window: a very old frame or an evicted replay
            return false;
        }
        if self.seen_seqno.contains(&seqno) {
            return false;
        }
        self.seen_seqno.insert(seqno);
        if seqno > self.top_seqno {
            self.top_seqno = seqno;
        }
        let ghost mid = self@;
        assert(mid.seen == old(self)@.seen.insert(seqno));
        while self.top_seqno - self.bottom_seqno > REPLAY_WINDOW
            invariant
                self@.top == mid.top,
                mid.bottom <= self@.bottom <= self@.top,
                self@.bottom <= replay_new_bottom(mid.top, mid.bottom),
                self@.seen == mid.seen.filter(|x: u64| x >= self@.bottom),
                forall|s: u64| self@.seen.contains(s) ==> self@.bottom <= s <= self@.top,
            decreases self.top_seqno - self.bottom_seqno,
        {
            let ghost pre = self@;
            self.seen_seqno.remove(&self.bottom_seqno);
            self.bottom_seqno = self.bottom_seqno + 1;
            proof {
                assert(self@.seen =~= mid.seen.filter(|x: u64| x >= self@.bottom));
            }
        }
        proof {
            assert(self@.bottom == replay_new_bottom(mid.top, mid.bottom));
            assert(seqno >= self@.bottom) by {
                if mid.top - mid.bottom > REPLAY_WINDOW {
                    // the window can only have outgrown its width because the
                    // new seqno raised the top
                    assert(mid.top == seqno);
                }
            }
            assert(self@.seen.contains(seqno));
        }
        true
    }
}

/// Replay soundness, first half: the filter never admits a seqno twice. Once
/// an `add` has admitted `seqno`, the resulting state blocks it.
///
/// This is the contract of [`ReplayFilter::add`] restated as a law: admission
/// requires the seqno not to be blocked, and leaves it blocked.
pub proof fn lemma_replay_admit_blocks(pre: ReplayModel, post: ReplayModel, seqno: u64)
    requires
        replay_wf(pre),
        post.top == replay_new_top(pre, seqno),
        post.bottom == replay_new_bottom(replay_new_top(pre, seqno), pre.bottom),
        post.seen == pre.seen.insert(seqno).filter(|x: u64| x >= post.bottom),
    ensures
        replay_blocked(post, seqno),
{
    if seqno >= post.bottom {
        assert(post.seen.contains(seqno));
    }
}

/// Replay soundness, second half: once a seqno is blocked, any further `add`
/// (of any other seqno) leaves it blocked, so `add(s)` returns true at most
/// once for each `s` over any sequence of calls.
pub proof fn lemma_replay_blocked_stable(pre: ReplayModel, post: ReplayModel, s: u64, t: u64)
    requires
        replay_wf(pre),
        replay_blocked(pre, s),
        // `post` is any state that an admitting `add(t)` can produce from `pre`
        post.top == replay_new_top(pre, t),
        post.bottom == replay_new_bottom(replay_new_top(pre, t), pre.bottom),
        post.seen == pre.seen.insert(t).filter(|x: u64| x >= post.bottom),
    ensures
        replay_blocked(post, s),
{
    assert(post.bottom >= pre.bottom);
    if s >= post.bottom {
        assert(pre.seen.contains(s));
        assert(post.seen.contains(s));
    }
}

} // verus!
