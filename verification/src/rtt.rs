//! Round-trip-time baseline estimation.
//!
//! The estimator keeps the lifetime minimum of all delay samples and the
//! minimum over a sliding window of the most recent samples. Once the
//! window is full the two are blended with equal weight into a smoothed
//! estimate; no estimate at all is reported before ten samples have been
//! observed, to avoid noisy early readings.

use vstd::prelude::*;
use crate::fifo::{spec_fifo_push, fifo_push, lemma_fifo_push_len};

verus! {

/// Capacity of the sliding sample window.
pub const RTT_WINDOW_SAMPLES: usize = 60;

/// Number of samples that must be observed before an estimate is reported.
pub const RTT_MIN_SAMPLES: usize = 10;

/// Minimum of a non-empty sequence of samples.
pub open spec fn spec_seq_min(s: Seq<u32>) -> u32
    recommends
        s.len() > 0,
    decreases s.len(),
{
    if s.len() <= 1 {
        s[0]
    } else {
        let m = spec_seq_min(s.drop_last());
        if s.last() < m {
            s.last()
        } else {
            m
        }
    }
}

/// The minimum of a non-empty sequence is a lower bound of every element.
pub proof fn lemma_seq_min_le(s: Seq<u32>)
    requires
        s.len() > 0,
    ensures
        forall|i: int| 0 <= i < s.len() ==> spec_seq_min(s) <= s[i],
    decreases s.len(),
{
    if s.len() > 1 {
        lemma_seq_min_le(s.drop_last());
        assert(forall|i: int| 0 <= i < s.len() - 1 ==> s.drop_last()[i] == s[i]);
    }
}

/// The minimum of a non-empty sequence is one of its elements.
pub proof fn lemma_seq_min_in(s: Seq<u32>)
    requires
        s.len() > 0,
    ensures
        exists|i: int| 0 <= i < s.len() && s[i] == spec_seq_min(s),
    decreases s.len(),
{
    if s.len() <= 1 {
        assert(s[0] == spec_seq_min(s));
    } else {
        lemma_seq_min_in(s.drop_last());
        if s.last() < spec_seq_min(s.drop_last()) {
            assert(s[s.len() - 1] == spec_seq_min(s));
        } else {
            let i = choose|i: int|
                0 <= i < s.drop_last().len() && s.drop_last()[i] == spec_seq_min(s.drop_last());
            assert(s[i] == spec_seq_min(s));
        }
    }
}

/// Blend of the lifetime minimum and the window minimum with equal weight.
pub open spec fn spec_blend(a: u32, b: u32) -> u32 {
    (((a as int + b as int) / 2) as u32)
}

/// Estimates a round-trip-time baseline from a stream of raw delay
/// samples, separating the propagation floor from congestion-induced
/// excess delay by tracking minima.
#[derive(Clone, Debug)]
pub struct RttCalculator {
    /// Smallest sample ever observed.
    pub min_rtt: Option<u32>,
    /// Smallest sample currently in the sliding window.
    pub window_min_rtt: Option<u32>,
    /// Blend of the two minima; only set once the window is full.
    pub smoothed_rtt: Option<u32>,
    /// Sliding window of the most recent samples, oldest first.
    pub samples: Vec<u32>,
}

impl RttCalculator {
    /// Internal consistency: the window is bounded, the lifetime minimum
    /// is a lower bound of everything in the window, the window minimum
    /// is the minimum of the window, and the smoothed estimate (once
    /// set) lies between the two minima.
    pub open spec fn wf(self) -> bool {
        &&& self.samples@.len() <= RTT_WINDOW_SAMPLES
        &&& (self.min_rtt is Some <==> self.samples@.len() > 0)
        &&& (self.min_rtt is Some ==> forall|i: int|
            0 <= i < self.samples@.len() ==> self.min_rtt.unwrap() <= self.samples@[i])
        &&& (self.samples@.len() > 0 ==> self.window_min_rtt == Some(spec_seq_min(self.samples@)))
        &&& (self.samples@.len() == 0 ==> self.window_min_rtt is None && self.smoothed_rtt is None)
        &&& (self.smoothed_rtt is Some ==> {
            &&& self.samples@.len() == RTT_WINDOW_SAMPLES
            &&& self.min_rtt is Some
            &&& self.min_rtt.unwrap() <= self.smoothed_rtt.unwrap() <= spec_seq_min(self.samples@)
        })
    }

    /// A freshly constructed estimator: nothing observed yet.
    pub open spec fn is_init(self) -> bool {
        &&& self.min_rtt is None
        &&& self.window_min_rtt is None
        &&& self.smoothed_rtt is None
        &&& self.samples@.len() == 0
    }

    /// Lifetime minimum after observing `x`.
    pub open spec fn spec_new_min(self, x: u32) -> u32 {
        match self.min_rtt {
            None => x,
            Some(m) => if x < m { x } else { m },
        }
    }

    /// Window contents after observing `x`.
    pub open spec fn spec_samples_after(self, x: u32) -> Seq<u32> {
        spec_fifo_push(self.samples@, x, RTT_WINDOW_SAMPLES as int)
    }

    /// Smoothed estimate after observing `x`: recomputed as the blend of
    /// the two minima whenever the window is full, else unchanged.
    pub open spec fn spec_smoothed_after(self, x: u32) -> Option<u32> {
        if self.spec_samples_after(x).len() >= RTT_WINDOW_SAMPLES {
            Some(spec_blend(self.spec_new_min(x), spec_seq_min(self.spec_samples_after(x))))
        } else {
            self.smoothed_rtt
        }
    }

    /// The reported estimate: the smoothed estimate if available, else
    /// the lifetime minimum, and nothing at all before ten samples.
    pub open spec fn spec_get_rtt(self) -> Option<u32> {
        if self.samples@.len() >= RTT_MIN_SAMPLES {
            match self.smoothed_rtt {
                Some(s) => Some(s),
                None => self.min_rtt,
            }
        } else {
            None
        }
    }

    /// The estimate reported right after observing `x`.
    pub open spec fn spec_report_after(self, x: u32) -> Option<u32> {
        if self.spec_samples_after(x).len() >= RTT_MIN_SAMPLES {
            match self.spec_smoothed_after(x) {
                Some(s) => Some(s),
                None => Some(self.spec_new_min(x)),
            }
        } else {
            None
        }
    }

    /// Relation between the estimator before and after observing `x`.
    pub open spec fn spec_step(pre: Self, post: Self, x: u32) -> bool {
        &&& post.min_rtt == Some(pre.spec_new_min(x))
        &&& post.samples@ == pre.spec_samples_after(x)
        &&& post.window_min_rtt == Some(spec_seq_min(post.samples@))
        &&& post.smoothed_rtt == pre.spec_smoothed_after(x)
    }

    /// A fresh estimator.
    pub fn new() -> (r: Self)
        ensures
            r.is_init(),
            r.wf(),
    {
        RttCalculator {
            min_rtt: None,
            window_min_rtt: None,
            smoothed_rtt: None,
            samples: Vec::new(),
        }
    }

    /// Observes a new delay sample and returns the current estimate:
    /// the lifetime minimum is lowered if the sample undercuts it, the
    /// sample enters the sliding window (evicting the oldest when full),
    /// the window minimum is recomputed, and once the window is full the
    /// two minima are blended with equal weight into the smoothed
    /// estimate.
    pub fn update(&mut self, delay: u32) -> (r: Option<u32>)
        requires
            old(self).wf(),
        ensures
            final(self).wf(),
            Self::spec_step(*old(self), *final(self), delay),
            r == final(self).spec_get_rtt(),
            r == old(self).spec_report_after(delay),
    {
        match self.min_rtt {
            Some(m) => {
                if delay < m {
                    self.min_rtt = Some(delay);
                }
            },
            None => {
                self.min_rtt = Some(delay);
            },
        }

        proof {
            lemma_fifo_push_len(self.samples@, delay, RTT_WINDOW_SAMPLES as int);
        }
        fifo_push(&mut self.samples, delay, RTT_WINDOW_SAMPLES);

        let ghost s = self.samples@;
        let mut m: u32 = self.samples[0];
        let mut i: usize = 1;
        while i < self.samples.len()
            invariant
                1 <= i <= s.len(),
                self.samples@ == s,
                s.len() >= 1,
                m == spec_seq_min(s.take(i as int)),
            decreases s.len() - i,
        {
            let x = self.samples[i];
            proof {
                assert(s.take(i as int + 1).drop_last() =~= s.take(i as int));
                assert(s.take(i as int + 1).last() == s[i as int]);
            }
            if x < m {
                m = x;
            }
            i = i + 1;
        }
        proof {
            assert(s.take(s.len() as int) =~= s);
        }
        self.window_min_rtt = Some(m);

        if self.samples.len() >= RTT_WINDOW_SAMPLES {
            let mn = match self.min_rtt {
                Some(v) => v,
                None => 0,
            };
            proof {
                // the lifetime minimum undercuts everything in the window,
                // in particular its minimum
                assert(forall|j: int| 0 <= j < s.len() ==> mn <= #[trigger] s[j]) by {
                    assert(forall|j: int|
                        0 <= j < old(self).samples@.len() ==> old(self).min_rtt.unwrap()
                            <= #[trigger] old(self).samples@[j]);
                }
                lemma_seq_min_in(s);
            }
            let blend = ((mn as u64 + m as u64) / 2) as u32;
            self.smoothed_rtt = Some(blend);
        }

        proof {
            if self.smoothed_rtt is Some && self.samples@.len() < RTT_WINDOW_SAMPLES {
                // the window never shrinks, so a smoothed estimate from an
                // earlier full window is impossible here
                assert(old(self).samples@.len() < RTT_WINDOW_SAMPLES);
                assert(old(self).smoothed_rtt is None);
            }
        }

        self.get_rtt()
    }

    /// The current estimate: smoothed if available, else the lifetime
    /// minimum; nothing before ten samples have been observed.
    pub fn get_rtt(&self) -> (r: Option<u32>)
        ensures
            r == self.spec_get_rtt(),
    {
        if self.samples.len() >= RTT_MIN_SAMPLES {
            match self.smoothed_rtt {
                Some(s) => Some(s),
                None => self.min_rtt,
            }
        } else {
            None
        }
    }

    /// No estimate is reported before ten samples have been observed;
    /// once one is reported, the lifetime minimum is at most the window
    /// minimum, which is at most every sample currently in the window.
    pub proof fn lemma_rtt_estimate_bounds(c: Self)
        requires
            c.wf(),
        ensures
            c.samples@.len() < RTT_MIN_SAMPLES ==> c.spec_get_rtt() is None,
            c.spec_get_rtt() is Some ==> {
                &&& c.min_rtt is Some
                &&& c.window_min_rtt is Some
                &&& c.min_rtt.unwrap() <= c.window_min_rtt.unwrap()
                &&& forall|i: int|
                    0 <= i < c.samples@.len() ==> c.window_min_rtt.unwrap() <= c.samples@[i]
                &&& c.min_rtt.unwrap() <= c.spec_get_rtt().unwrap()
            },
    {
        if c.spec_get_rtt() is Some {
            lemma_seq_min_in(c.samples@);
            lemma_seq_min_le(c.samples@);
        }
    }
}

} // verus!
