//! Debouncing of one noisy digital input.
//!
//! A debouncer turns the raw level sampled once per tick into a stable logical
//! level: the stable level changes only once the most recent
//! [`STABILITY_THRESHOLD`] samples unanimously hold the opposite level, and the
//! change is reported as an [`Edge`] exactly once, at the tick that confirms
//! it. Debounce timing therefore depends on the polling period: with the
//! firmware's 10 ms tick the threshold amounts to 160 ms of agreement.

use vstd::prelude::*;

verus! {

/// Number of consecutive agreeing samples needed before the stable level
/// changes.
pub const STABILITY_THRESHOLD: u8 = 16;

/// A transition of the debounced stable level.
#[derive(Clone, Copy, PartialEq, Eq, Structural, Debug)]
pub enum Edge {
    /// The stable level went from de-asserted to asserted.
    Rising,
    /// The stable level went from asserted to de-asserted.
    Falling,
}

/// Mathematical model of a debouncer: the current stable level together with
/// every raw sample it has seen, oldest first.
pub ghost struct DebounceModel {
    pub stable: bool,
    pub samples: Seq<bool>,
}

/// Length of the run of samples at the end of `s` that all equal `level`.
pub open spec fn trailing_run(s: Seq<bool>, level: bool) -> nat
    decreases s.len(),
{
    if s.len() == 0 || s.last() != level {
        0
    } else {
        1 + trailing_run(s.drop_last(), level)
    }
}

/// The incoming sample completes a threshold-long unanimous run against the
/// current stable level.
pub open spec fn confirms(m: DebounceModel, raw: bool) -> bool {
    raw != m.stable && trailing_run(m.samples, !m.stable) == STABILITY_THRESHOLD - 1
}

/// Stable level after feeding `raw` to a debouncer in state `m`.
pub open spec fn step_stable(m: DebounceModel, raw: bool) -> bool {
    if confirms(m, raw) {
        raw
    } else {
        m.stable
    }
}

/// Edge reported when feeding `raw` to a debouncer in state `m`.
pub open spec fn step_edge(m: DebounceModel, raw: bool) -> Option<Edge> {
    if confirms(m, raw) {
        if raw {
            Some(Edge::Rising)
        } else {
            Some(Edge::Falling)
        }
    } else {
        None
    }
}

/// Model after feeding `raw` to a debouncer in state `m`.
pub open spec fn step_model(m: DebounceModel, raw: bool) -> DebounceModel {
    DebounceModel { stable: step_stable(m, raw), samples: m.samples.push(raw) }
}

/// Pushing one sample extends the trailing run when it agrees with `level` and
/// resets it otherwise.
pub proof fn lemma_trailing_run_push(s: Seq<bool>, r: bool, level: bool)
    ensures
        trailing_run(s.push(r), level) == if r == level {
            trailing_run(s, level) + 1
        } else {
            0
        },
{
    assert(s.push(r).last() == r);
    assert(s.push(r).drop_last() =~= s);
}

/// The last [`STABILITY_THRESHOLD`] samples of `s` all hold the level opposite
/// to `stable`, and the sample just before that window, if there is one, does
/// not.
pub open spec fn unanimous_flip_window(s: Seq<bool>, stable: bool) -> bool {
    &&& s.len() >= STABILITY_THRESHOLD
    &&& forall|i: int| s.len() - STABILITY_THRESHOLD <= i < s.len() ==> s[i] == !stable
    &&& (s.len() == STABILITY_THRESHOLD || s[s.len() - STABILITY_THRESHOLD - 1] == stable)
}

/// The trailing run is a maximal unanimous suffix: every sample inside it
/// equals `level`, and the sample just before it, if any, does not.
proof fn lemma_trailing_run_window(s: Seq<bool>, level: bool)
    ensures
        trailing_run(s, level) <= s.len(),
        forall|i: int| s.len() - trailing_run(s, level) <= i < s.len() ==> s[i] == level,
        trailing_run(s, level) < s.len() ==> s[s.len() - trailing_run(s, level) - 1] != level,
    decreases s.len(),
{
    if s.len() > 0 && s.last() == level {
        lemma_trailing_run_window(s.drop_last(), level);
        assert forall|i: int| s.len() - trailing_run(s, level) <= i < s.len() implies s[i]
            == level by {
            if i < s.len() - 1 {
                assert(s.drop_last()[i] == s[i]);
            } else {
                assert(s[i] == s.last());
            }
        }
    }
}

/// Law: a debounced edge is reported exactly when the sample just fed in
/// completes a window of [`STABILITY_THRESHOLD`] consecutive samples that
/// unanimously hold the level opposite to the previous stable level — a
/// shorter or non-unanimous window reports nothing, and a longer unanimous run
/// reported its edge when its first full window closed.
pub proof fn lemma_edge_iff_unanimous_window(m: DebounceModel, raw: bool)
    ensures
        step_edge(m, raw) is Some <==> unanimous_flip_window(m.samples.push(raw), m.stable),
        step_edge(m, raw) is Some ==> step_edge(m, raw) == (if raw {
            Some(Edge::Rising)
        } else {
            Some(Edge::Falling)
        }),
{
    let s = m.samples.push(raw);
    lemma_trailing_run_push(m.samples, raw, !m.stable);
    lemma_trailing_run_window(s, !m.stable);
    if unanimous_flip_window(s, m.stable) {
        let t = trailing_run(s, !m.stable);
        assert(s[s.len() - 1] == !m.stable);
        if t < STABILITY_THRESHOLD {
            assert(s[s.len() - t - 1] != !m.stable);
            assert(false);
        }
        if t > STABILITY_THRESHOLD {
            assert(s[s.len() - STABILITY_THRESHOLD - 1] == !m.stable);
            assert(false);
        }
    }
}

/// One debounced digital input.
pub struct Debouncer {
    stable: bool,
    run: u8,
    samples: Ghost<Seq<bool>>,
}

impl View for Debouncer {
    type V = DebounceModel;

    closed spec fn view(&self) -> DebounceModel {
        DebounceModel { stable: self.stable, samples: self.samples@ }
    }
}

impl Debouncer {
    /// The run counter mirrors the trailing unanimous run against the stable
    /// level and never reaches the threshold.
    pub closed spec fn wf(self) -> bool {
        &&& self.run == trailing_run(self.samples@, !self.stable)
        &&& self.run < STABILITY_THRESHOLD
    }

    /// A fresh debouncer that treats `initial` as the already-stable level.
    pub fn new(initial: bool) -> (d: Debouncer)
        ensures
            d.wf(),
            d@.stable == initial,
            d@.samples == Seq::<bool>::empty(),
    {
        Debouncer { stable: initial, run: 0, samples: Ghost(Seq::empty()) }
    }

    /// The current debounced level.
    pub fn stable_level(&self) -> (level: bool)
        ensures
            level == self@.stable,
    {
        self.stable
    }

    /// Feed one raw sample; report the edge if this sample confirms a new
    /// stable level.
    pub fn update(&mut self, raw: bool) -> (edge: Option<Edge>)
        requires
            old(self).wf(),
        ensures
            final(self).wf(),
            final(self)@ == step_model(old(self)@, raw),
            edge == step_edge(old(self)@, raw),
    {
        let ghost m0 = self@;
        proof {
            lemma_trailing_run_push(m0.samples, raw, !m0.stable);
            lemma_trailing_run_push(m0.samples, raw, !raw);
        }
        self.samples = Ghost(self.samples@.push(raw));
        if raw == self.stable {
            self.run = 0;
            None
        } else if self.run < STABILITY_THRESHOLD - 1 {
            self.run = self.run + 1;
            None
        } else {
            self.stable = raw;
            self.run = 0;
            if raw {
                Some(Edge::Rising)
            } else {
                Some(Edge::Falling)
            }
        }
    }
}

} // verus!
