//! Per-viewer delay tracking: transport delay extraction, smoothing,
//! trend detection and health classification.

use vstd::prelude::*;
use crate::fifo::{spec_fifo_push, fifo_push, lemma_fifo_push_len};
use crate::health::{NetworkHealth, DelayTrend};
use crate::rtt::RttCalculator;

verus! {

/// Capacity of the transport-delay history.
pub const DELAY_HISTORY_CAP: usize = 6;

/// Size of the smoothing window: the smoothed delay and the trend are
/// computed from at most this many recent samples.
pub const SMOOTHING_SAMPLES: usize = 5;

/// Trend tolerance in milliseconds: a difference of recent and older
/// averages below this counts as stable.
pub const TREND_TOLERANCE_MS: u32 = 5;

/// Sum of a sequence of samples.
pub open spec fn seq_sum(s: Seq<u32>) -> int
    decreases s.len(),
{
    if s.len() == 0 {
        0
    } else {
        seq_sum(s.drop_last()) + s.last()
    }
}

/// A sum of samples is non-negative and at most the length times the
/// largest sample value.
pub proof fn lemma_seq_sum_bounds(s: Seq<u32>)
    ensures
        0 <= seq_sum(s) <= s.len() * (u32::MAX as int),
    decreases s.len(),
{
    if s.len() > 0 {
        lemma_seq_sum_bounds(s.drop_last());
    }
}

/// The most recent samples of a history: the last five, or all of them
/// when fewer are held.
pub open spec fn spec_recent(h: Seq<u32>) -> Seq<u32> {
    if h.len() <= SMOOTHING_SAMPLES {
        h
    } else {
        h.subrange(h.len() - SMOOTHING_SAMPLES, h.len() as int)
    }
}

/// The samples immediately preceding the recent window.
pub open spec fn spec_older(h: Seq<u32>) -> Seq<u32> {
    if h.len() <= SMOOTHING_SAMPLES {
        Seq::empty()
    } else {
        h.subrange(0, h.len() - SMOOTHING_SAMPLES)
    }
}

/// Arithmetic mean of a non-empty window, rounded to the nearest
/// millisecond (halves round up).
pub open spec fn spec_round_avg(s: Seq<u32>) -> u32
    recommends
        s.len() > 0,
{
    (((2 * seq_sum(s) + s.len()) / (2 * s.len() as int)) as u32)
}

/// Smoothed delay of a history: the rounded mean of the recent window,
/// or nothing while the history is empty.
pub open spec fn spec_smoothed(h: Seq<u32>) -> Option<u32> {
    if h.len() == 0 {
        None
    } else {
        Some(spec_round_avg(spec_recent(h)))
    }
}

/// Trend of a history: stable below two samples or when the recent and
/// older averages differ by less than the tolerance, otherwise the sign
/// of the difference. The averages are compared exactly, by cross
/// multiplication.
pub open spec fn spec_trend(h: Seq<u32>) -> DelayTrend {
    if h.len() < 2 {
        DelayTrend::Stable
    } else {
        let r = spec_recent(h);
        let o = spec_older(h);
        if o.len() == 0 {
            DelayTrend::Stable
        } else {
            let a = seq_sum(r) * o.len();
            let b = seq_sum(o) * r.len();
            let tol = (TREND_TOLERANCE_MS as int) * r.len() * o.len();
            if a >= b {
                if a - b < tol {
                    DelayTrend::Stable
                } else {
                    DelayTrend::Increasing
                }
            } else {
                if b - a < tol {
                    DelayTrend::Stable
                } else {
                    DelayTrend::Decreasing
                }
            }
        }
    }
}

/// Per-viewer delay state: a round-trip-time estimator, a bounded
/// history of transport delays, and what is derived from them.
#[derive(Clone, Debug)]
pub struct UserDelay {
    /// Bounded history of transport delays, oldest first.
    pub delay_history: Vec<u32>,
    /// Round-trip-time baseline estimator fed with the raw samples.
    pub rtt_calculator: RttCalculator,
    /// Last frame-rate suggestion for this viewer; unset means no
    /// decision has been made yet.
    pub fps: Option<u32>,
    /// Rounded mean of the recent transport delays.
    pub smoothed_delay: Option<u32>,
    /// Direction of the transport delay.
    pub delay_trend: DelayTrend,
    /// Set when the viewer's response took too long.
    pub response_delayed: bool,
}

impl UserDelay {
    /// Internal consistency: the history is bounded, the estimator is
    /// consistent, and the smoothed delay and trend are those of the
    /// history.
    pub open spec fn wf(self) -> bool {
        &&& self.delay_history@.len() <= DELAY_HISTORY_CAP
        &&& self.rtt_calculator.wf()
        &&& self.smoothed_delay == spec_smoothed(self.delay_history@)
        &&& self.delay_trend == spec_trend(self.delay_history@)
    }

    /// A freshly constructed tracker: nothing observed, no decision.
    pub open spec fn is_init(self) -> bool {
        &&& self.delay_history@.len() == 0
        &&& self.rtt_calculator.is_init()
        &&& self.fps is None
        &&& self.smoothed_delay is None
        &&& self.delay_trend == DelayTrend::Stable
        &&& !self.response_delayed
    }

    /// Transport delay derived from the raw sample `x`: the sample minus
    /// the estimate the estimator reports right after observing it,
    /// floored at zero.
    pub open spec fn spec_transport(self, x: u32) -> u32 {
        let rv = match self.rtt_calculator.spec_report_after(x) {
            Some(v) => v,
            None => 0u32,
        };
        if x >= rv {
            (x - rv) as u32
        } else {
            0u32
        }
    }

    /// History contents after observing the raw sample `x`.
    pub open spec fn spec_history_after(self, x: u32) -> Seq<u32> {
        spec_fifo_push(self.delay_history@, self.spec_transport(x), DELAY_HISTORY_CAP as int)
    }

    /// Relation between the sampling state (estimator, history, smoothed
    /// delay, trend) before and after observing a raw sample `x`; says
    /// nothing about the decision fields.
    pub open spec fn spec_sampled(pre: Self, post: Self, x: u32) -> bool {
        &&& RttCalculator::spec_step(pre.rtt_calculator, post.rtt_calculator, x)
        &&& post.delay_history@ == pre.spec_history_after(x)
        &&& post.smoothed_delay == spec_smoothed(post.delay_history@)
        &&& post.delay_trend == spec_trend(post.delay_history@)
    }

    /// Relation between the tracker before and after observing a raw
    /// sample `x`.
    pub open spec fn spec_step(pre: Self, post: Self, x: u32) -> bool {
        &&& Self::spec_sampled(pre, post, x)
        &&& post.fps == pre.fps
        &&& post.response_delayed == pre.response_delayed
    }

    /// Health tier of the current smoothed delay; a tracker without data
    /// is optimistically considered fair.
    pub open spec fn spec_network_health(self) -> NetworkHealth {
        match self.smoothed_delay {
            Some(d) => NetworkHealth::spec_from_delay(d),
            None => NetworkHealth::Fair,
        }
    }

    /// A fresh tracker.
    pub fn new() -> (r: Self)
        ensures
            r.is_init(),
            r.wf(),
    {
        UserDelay {
            delay_history: Vec::new(),
            rtt_calculator: RttCalculator::new(),
            fps: None,
            smoothed_delay: None,
            delay_trend: DelayTrend::Stable,
            response_delayed: false,
        }
    }

    /// Observes a raw delay sample: feeds it to the estimator, pushes
    /// the resulting transport delay into the bounded history, and
    /// recomputes the smoothed delay and the trend.
    pub fn add_delay(&mut self, delay: u32)
        requires
            old(self).wf(),
        ensures
            final(self).wf(),
            Self::spec_step(*old(self), *final(self), delay),
            final(self).delay_history@.len() >= 1,
    {
        let rtt = self.rtt_calculator.update(delay);
        let rv = match rtt {
            Some(v) => v,
            None => 0,
        };
        let transport = if delay >= rv { delay - rv } else { 0 };
        proof {
            lemma_fifo_push_len(self.delay_history@, transport, DELAY_HISTORY_CAP as int);
        }
        fifo_push(&mut self.delay_history, transport, DELAY_HISTORY_CAP);
        self.update_trend_and_smooth();
    }

    /// Recomputes the smoothed delay and the trend from the history:
    /// with fewer than two samples the trend is stable and the smoothed
    /// delay is the last sample; otherwise the smoothed delay is the
    /// rounded mean of the recent window and the trend compares that
    /// window's mean against the mean of the samples preceding it.
    fn update_trend_and_smooth(&mut self)
        requires
            1 <= old(self).delay_history@.len() <= DELAY_HISTORY_CAP,
        ensures
            final(self).delay_history == old(self).delay_history,
            final(self).rtt_calculator == old(self).rtt_calculator,
            final(self).fps == old(self).fps,
            final(self).response_delayed == old(self).response_delayed,
            final(self).smoothed_delay == spec_smoothed(final(self).delay_history@),
            final(self).delay_trend == spec_trend(final(self).delay_history@),
    {
        let ghost h = self.delay_history@;
        let len = self.delay_history.len();
        if len < 2 {
            self.delay_trend = DelayTrend::Stable;
            let last = self.delay_history[len - 1];
            self.smoothed_delay = Some(last);
            proof {
                assert(spec_recent(h) =~= h);
                assert(h.drop_last() =~= Seq::<u32>::empty());
                assert(seq_sum(Seq::<u32>::empty()) == 0);
                assert(h.last() == last);
                assert(seq_sum(h) == last);
                assert((2 * (last as int) + 1) / 2 == last as int) by (nonlinear_arith);
                assert(spec_round_avg(h) == last);
            }
            return;
        }

        let start = if len > SMOOTHING_SAMPLES { len - SMOOTHING_SAMPLES } else { 0 };

        let mut rsum: u64 = 0;
        let mut i: usize = start;
        while i < len
            invariant
                start <= i <= len,
                len == h.len(),
                len - start <= SMOOTHING_SAMPLES,
                self.delay_history@ == h,
                *self == *old(self),
                rsum == seq_sum(h.subrange(start as int, i as int)),
            decreases len - i,
        {
            proof {
                lemma_seq_sum_bounds(h.subrange(start as int, i as int));
                assert(h.subrange(start as int, i as int + 1).drop_last() =~= h.subrange(
                    start as int,
                    i as int,
                ));
            }
            rsum = rsum + self.delay_history[i] as u64;
            i = i + 1;
        }

        let mut osum: u64 = 0;
        let mut j: usize = 0;
        while j < start
            invariant
                0 <= j <= start <= len,
                len == h.len(),
                start <= SMOOTHING_SAMPLES,
                self.delay_history@ == h,
                *self == *old(self),
                osum == seq_sum(h.subrange(0, j as int)),
            decreases start - j,
        {
            proof {
                lemma_seq_sum_bounds(h.subrange(0, j as int));
                assert(h.subrange(0, j as int + 1).drop_last() =~= h.subrange(0, j as int));
            }
            osum = osum + self.delay_history[j] as u64;
            j = j + 1;
        }

        let r_len = (len - start) as u64;
        let o_len = start as u64;
        proof {
            assert(spec_recent(h) =~= h.subrange(start as int, len as int));
            assert(spec_older(h) =~= h.subrange(0, start as int));
            lemma_seq_sum_bounds(h.subrange(start as int, len as int));
            lemma_seq_sum_bounds(h.subrange(0, start as int));
        }

        let avg64 = (2 * rsum + r_len) / (2 * r_len);
        proof {
            assert((2 * rsum + r_len) / (2 * r_len) <= u32::MAX as u64) by (nonlinear_arith)
                requires
                    r_len >= 1,
                    rsum <= r_len * (u32::MAX as u64),
            ;
        }
        self.smoothed_delay = Some(avg64 as u32);

        if o_len == 0 {
            self.delay_trend = DelayTrend::Stable;
        } else {
            let a = rsum * o_len;
            let b = osum * r_len;
            let tol = (TREND_TOLERANCE_MS as u64) * r_len * o_len;
            self.delay_trend = if a >= b {
                if a - b < tol {
                    DelayTrend::Stable
                } else {
                    DelayTrend::Increasing
                }
            } else {
                if b - a < tol {
                    DelayTrend::Stable
                } else {
                    DelayTrend::Decreasing
                }
            };
        }
    }

    /// Health tier of the current smoothed delay; fair while no data is
    /// held yet.
    pub fn network_health(&self) -> (r: NetworkHealth)
        ensures
            r == self.spec_network_health(),
    {
        match self.smoothed_delay {
            Some(d) => NetworkHealth::from_delay(d),
            None => NetworkHealth::Fair,
        }
    }
}

} // verus!
