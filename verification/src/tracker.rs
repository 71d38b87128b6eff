//! The sliding window of the conservation tracker: which observations and
//! ratios it keeps, when its baseline is fixed, and which entries a check
//! compares. What the ratios are, and how they compare, is computed by the
//! caller.
use vstd::prelude::*;

verus! {

/// Number of recorded entries after which a baseline is fixed and checks
/// start to compare.
pub const MIN_HISTORY: usize = 3;

/// The last `min(s.len(), n)` elements of `s`.
pub open spec fn keep_last<T>(s: Seq<T>, n: nat) -> Seq<T> {
    if s.len() <= n {
        s
    } else {
        s.subrange(s.len() - n, s.len() as int)
    }
}

/// The baseline after recording an entry into a history of length
/// `prior_len`: fixed to `ratios` only when no baseline was fixed yet and
/// the history, with the new entry, reaches `MIN_HISTORY` entries.
pub open spec fn baseline_after<R>(baseline: Seq<R>, prior_len: nat, ratios: Seq<R>) -> Seq<R> {
    if baseline.len() == 0 && prior_len + 1 >= MIN_HISTORY {
        ratios
    } else {
        baseline
    }
}

/// Real-time conservation tracking over a sliding window: the mean ratio
/// of each observation (`R`), the observations themselves (`O`), the
/// baseline ratios and the alert threshold.
pub struct ConservationTracker<R, O> {
    pub window_size: usize,
    pub history: Vec<R>,
    observations: Vec<O>,
    baseline_ratios: Vec<R>,
    threshold: R,
}

impl<R, O> ConservationTracker<R, O> {
    /// The window size.
    pub closed spec fn window(&self) -> nat {
        self.window_size as nat
    }

    /// The recorded mean ratios, oldest first.
    pub closed spec fn history_seq(&self) -> Seq<R> {
        self.history@
    }

    /// The observations kept, oldest first.
    pub closed spec fn observation_seq(&self) -> Seq<O> {
        self.observations@
    }

    /// The baseline ratios; empty until fixed.
    pub closed spec fn baseline_seq(&self) -> Seq<R> {
        self.baseline_ratios@
    }

    /// The alert threshold.
    pub closed spec fn threshold_value(&self) -> R {
        self.threshold
    }

    /// Each kept observation has its mean ratio in the history.
    pub open spec fn well_formed(&self) -> bool {
        self.history_seq().len() == self.observation_seq().len()
    }

    /// An empty tracker with the given window size and threshold.
    pub fn new(window_size: usize, threshold: R) -> (t: Self)
        ensures
            t.well_formed(),
            t.window() == window_size,
            t.history_seq() == Seq::<R>::empty(),
            t.observation_seq() == Seq::<O>::empty(),
            t.baseline_seq() == Seq::<R>::empty(),
            t.threshold_value() == threshold,
    {
        ConservationTracker {
            window_size,
            history: Vec::with_capacity(window_size),
            observations: Vec::with_capacity(window_size),
            baseline_ratios: Vec::new(),
            threshold,
        }
    }

    /// Records one observation with its mean ratio and its per-mode
    /// ratios: appends both, fixes the baseline to `ratios` when none is
    /// fixed yet and the history (with this entry) holds at least
    /// `MIN_HISTORY` entries, then drops the oldest entries until the
    /// window size is respected.
    pub fn record(&mut self, obs: O, mean_ratio: R, ratios: Vec<R>)
        requires
            old(self).well_formed(),
        ensures
            final(self).well_formed(),
            final(self).window() == old(self).window(),
            final(self).threshold_value() == old(self).threshold_value(),
            final(self).history_seq() == keep_last(
                old(self).history_seq().push(mean_ratio),
                old(self).window(),
            ),
            final(self).observation_seq() == keep_last(
                old(self).observation_seq().push(obs),
                old(self).window(),
            ),
            final(self).baseline_seq() == baseline_after(
                old(self).baseline_seq(),
                old(self).history_seq().len(),
                ratios@,
            ),
    {
        let ghost h = self.history@.push(mean_ratio);
        let ghost o = self.observations@.push(obs);
        self.history.push(mean_ratio);
        self.observations.push(obs);
        if self.baseline_ratios.len() == 0 && self.history.len() >= MIN_HISTORY {
            self.baseline_ratios = ratios;
        }
        let ghost mut start: int = 0;
        while self.history.len() > self.window_size
            invariant
                0 <= start <= h.len(),
                h.len() == o.len(),
                self.history@ == h.subrange(start, h.len() as int),
                self.observations@ == o.subrange(start, o.len() as int),
                start > 0 ==> h.len() - start >= self.window_size,
                self.window_size == old(self).window_size,
                self.threshold == old(self).threshold,
                self.baseline_ratios@ == (if old(self).baseline_ratios@.len() == 0 && h.len()
                    >= MIN_HISTORY {
                    ratios@
                } else {
                    old(self).baseline_ratios@
                }),
            decreases self.history@.len(),
        {
            self.history.remove(0);
            self.observations.remove(0);
            proof {
                start = start + 1;
            }
            assert(self.history@ =~= h.subrange(start, h.len() as int));
            assert(self.observations@ =~= o.subrange(start, o.len() as int));
        }
        assert(self.history@ =~= keep_last(h, self.window_size as nat));
        assert(self.observations@ =~= keep_last(o, self.window_size as nat));
    }

    /// Which entries a check compares: `None` while fewer than
    /// `MIN_HISTORY` entries are recorded; otherwise `(k, r)`, where the
    /// first `k` entries (all but the last two) form the historical mean
    /// and entry `r` (the last one) is the recent value.
    pub fn comparison_window(&self) -> (w: Option<(usize, usize)>)
        ensures
            self.history_seq().len() < MIN_HISTORY ==> w is None,
            self.history_seq().len() >= MIN_HISTORY ==> w == Some(
                (
                    (self.history_seq().len() - 2) as usize,
                    (self.history_seq().len() - 1) as usize,
                ),
            ),
    {
        let n = self.history.len();
        if n < MIN_HISTORY {
            None
        } else {
            Some((n - 2, n - 1))
        }
    }

    /// The baseline ratios (empty until fixed).
    pub fn baseline(&self) -> (b: &[R])
        ensures
            b@ == self.baseline_seq(),
    {
        self.baseline_ratios.as_slice()
    }

    /// The recorded mean ratios, oldest first.
    pub fn current_ratios(&self) -> (h: &[R])
        ensures
            h@ == self.history_seq(),
    {
        self.history.as_slice()
    }

    /// The alert threshold.
    pub fn threshold(&self) -> (t: &R)
        ensures
            *t == self.threshold_value(),
    {
        &self.threshold
    }

    /// Forgets the history, the observations and the baseline; the window
    /// size and the threshold stay.
    pub fn reset(&mut self)
        ensures
            final(self).well_formed(),
            final(self).history_seq() == Seq::<R>::empty(),
            final(self).observation_seq() == Seq::<O>::empty(),
            final(self).baseline_seq() == Seq::<R>::empty(),
            final(self).window() == old(self).window(),
            final(self).threshold_value() == old(self).threshold_value(),
    {
        self.history.clear();
        self.observations.clear();
        self.baseline_ratios.clear();
    }
}

/// The window bound: after recording, the history holds exactly the
/// newest `min(len + 1, window)` entries, in order, ending with the entry
/// just recorded (when the window is not empty), so it never holds more
/// than `window` entries.
pub proof fn law_window_keeps_newest<R>(history: Seq<R>, x: R, window: nat)
    ensures
        keep_last(history.push(x), window).len() == if history.len() + 1 <= window {
            history.len() + 1
        } else {
            window
        },
        keep_last(history.push(x), window).len() <= window,
        window > 0 ==> keep_last(history.push(x), window).last() == x,
        forall|i: int|
            0 <= i < keep_last(history.push(x), window).len() ==> #[trigger] keep_last(
                history.push(x),
                window,
            )[i] == history.push(x)[history.len() + 1 - keep_last(history.push(x), window).len()
                + i],
{
}

/// Once fixed, the baseline never changes while entries are recorded;
/// before that it is fixed exactly by the entry that brings the history
/// to `MIN_HISTORY` entries or more.
pub proof fn law_baseline_fixed_once<R>(baseline: Seq<R>, prior_len: nat, ratios: Seq<R>)
    ensures
        baseline.len() > 0 ==> baseline_after(baseline, prior_len, ratios) == baseline,
        baseline.len() == 0 && prior_len + 1 < MIN_HISTORY ==> baseline_after(
            baseline,
            prior_len,
            ratios,
        ).len() == 0,
        baseline.len() == 0 && prior_len + 1 >= MIN_HISTORY ==> baseline_after(
            baseline,
            prior_len,
            ratios,
        ) == ratios,
{
}

} // verus!
