//! The main loop driver: one verified tick of the firmware loop.
//!
//! Each tick, in order: debounce both raw input samples, build the outbound
//! report for any confirmed falling edges, apply at most one inbound serial
//! byte to the mode, map the updated mode and the current ramp value to the
//! two PWM duty cycles, and finally advance the ramp. The caller owns the
//! fixed 10 ms cadence: it samples the pins, polls the serial link, hands the
//! plain values in, writes the returned duties and bytes out to the hardware,
//! and sleeps out the rest of the tick.

use vstd::prelude::*;
use crate::debounce::{
    Debouncer, DebounceModel, Edge, step_model, step_edge, trailing_run, lemma_trailing_run_push,
    STABILITY_THRESHOLD,
};
use crate::mapper::{duty_pair, map_duties};
use crate::protocol::{
    Mode, next_mode, report_seq, apply_inbound, edge_reports, LINE_END, REPORT_BUTTON1,
    REPORT_BUTTON2,
};
use crate::ramp::{Ramp, Direction, ramp_next};

verus! {

/// Everything one tick hands back to the hardware: the bytes to send over
/// the serial link and the duty cycle for each PWM channel.
pub struct TickOutput {
    pub reports: Vec<u8>,
    pub duty1: u8,
    pub duty2: u8,
}

/// The whole state the loop carries across ticks.
pub struct Controller {
    pub button1: Debouncer,
    pub button2: Debouncer,
    pub ramp: Ramp,
    pub mode: Mode,
}

impl Controller {
    /// Both debouncers are well formed.
    pub open spec fn wf(self) -> bool {
        &&& self.button1.wf()
        &&& self.button2.wf()
    }

    /// Start-up state: both debouncers treat their input as already
    /// asserted, the ramp rests at zero about to rise, and the mode is
    /// `StartOnly`.
    pub fn new() -> (c: Controller)
        ensures
            c.wf(),
            c.button1@.stable == true,
            c.button1@.samples == Seq::<bool>::empty(),
            c.button2@.stable == true,
            c.button2@.samples == Seq::<bool>::empty(),
            c.ramp.value == 0,
            c.ramp.direction == Direction::Decreasing,
            c.mode == Mode::StartOnly,
    {
        Controller {
            button1: Debouncer::new(true),
            button2: Debouncer::new(true),
            ramp: Ramp::new(),
            mode: Mode::StartOnly,
        }
    }

    /// Run one tick of the loop on the sampled input levels and the byte
    /// polled from the serial link, if any. The duties reflect the mode after
    /// the inbound byte and the ramp value before the advance.
    pub fn tick(&mut self, raw1: bool, raw2: bool, inbound: Option<u8>) -> (out: TickOutput)
        requires
            old(self).wf(),
        ensures
            final(self).wf(),
            final(self).button1@ == step_model(old(self).button1@, raw1),
            final(self).button2@ == step_model(old(self).button2@, raw2),
            final(self).mode == next_mode(old(self).mode, inbound),
            final(self).ramp == ramp_next(old(self).ramp),
            out.reports@ == report_seq(
                step_edge(old(self).button1@, raw1),
                step_edge(old(self).button2@, raw2),
                REPORT_BUTTON1,
                REPORT_BUTTON2,
            ),
            out.duty1 == duty_pair(next_mode(old(self).mode, inbound), old(self).ramp.value).0,
            out.duty2 == duty_pair(next_mode(old(self).mode, inbound), old(self).ramp.value).1,
    {
        let edge1 = self.button1.update(raw1);
        let edge2 = self.button2.update(raw2);
        let reports = edge_reports(edge1, edge2, REPORT_BUTTON1, REPORT_BUTTON2);
        self.mode = apply_inbound(self.mode, inbound);
        let duties = map_duties(self.mode, self.ramp.value);
        self.ramp.advance();
        TickOutput { reports, duty1: duties.0, duty2: duties.1 }
    }
}

/// A run of `n` identical raw samples.
pub open spec fn level_run(n: nat, level: bool) -> Seq<bool> {
    Seq::new(n, |i: int| level)
}

/// The bytes a whole run of ticks sends, when the raw levels of button 1 and
/// button 2 follow `raws1` and `raws2` from debouncer states `b1` and `b2`:
/// the reports of each tick, in order.
pub open spec fn run_reports(
    b1: DebounceModel,
    b2: DebounceModel,
    raws1: Seq<bool>,
    raws2: Seq<bool>,
) -> Seq<u8>
    recommends
        raws1.len() == raws2.len(),
    decreases raws1.len(),
{
    if raws1.len() == 0 {
        Seq::<u8>::empty()
    } else {
        report_seq(step_edge(b1, raws1[0]), step_edge(b2, raws2[0]), REPORT_BUTTON1, REPORT_BUTTON2)
            + run_reports(
            step_model(b1, raws1[0]),
            step_model(b2, raws2[0]),
            raws1.drop_first(),
            raws2.drop_first(),
        )
    }
}

/// Debouncer state after feeding a whole run of raw samples.
spec fn debounce_run(m: DebounceModel, raws: Seq<bool>) -> DebounceModel
    decreases raws.len(),
{
    if raws.len() == 0 {
        m
    } else {
        debounce_run(step_model(m, raws[0]), raws.drop_first())
    }
}

/// Button 1's share of a run's reports.
spec fn run_reports1(b: DebounceModel, raws: Seq<bool>) -> Seq<u8>
    decreases raws.len(),
{
    if raws.len() == 0 {
        Seq::<u8>::empty()
    } else {
        (if step_edge(b, raws[0]) == Some(Edge::Falling) {
            seq![REPORT_BUTTON1, LINE_END]
        } else {
            Seq::<u8>::empty()
        }) + run_reports1(step_model(b, raws[0]), raws.drop_first())
    }
}

/// While button 2's raw level agrees with its stable level, the run's bytes
/// are exactly button 1's.
proof fn lemma_run_reports_quiet_second(
    b1: DebounceModel,
    b2: DebounceModel,
    raws1: Seq<bool>,
    raws2: Seq<bool>,
)
    requires
        raws1.len() == raws2.len(),
        forall|i: int| 0 <= i < raws2.len() ==> raws2[i] == b2.stable,
    ensures
        run_reports(b1, b2, raws1, raws2) == run_reports1(b1, raws1),
    decreases raws1.len(),
{
    if raws1.len() > 0 {
        assert(raws2[0] == b2.stable);
        let b2n = step_model(b2, raws2[0]);
        assert(b2n.stable == b2.stable);
        assert forall|i: int| 0 <= i < raws2.drop_first().len() implies raws2.drop_first()[i]
            == b2n.stable by {
            assert(raws2.drop_first()[i] == raws2[i + 1]);
        }
        lemma_run_reports_quiet_second(
            step_model(b1, raws1[0]),
            b2n,
            raws1.drop_first(),
            raws2.drop_first(),
        );
        assert(run_reports(b1, b2, raws1, raws2) =~= run_reports1(b1, raws1));
    }
}

/// Running a concatenated trace runs its two parts in sequence.
proof fn lemma_run1_concat(b: DebounceModel, x: Seq<bool>, y: Seq<bool>)
    ensures
        debounce_run(b, x + y) == debounce_run(debounce_run(b, x), y),
        run_reports1(b, x + y) == run_reports1(b, x) + run_reports1(debounce_run(b, x), y),
    decreases x.len(),
{
    if x.len() == 0 {
        assert(x + y =~= y);
        assert(run_reports1(b, x) + run_reports1(b, y) =~= run_reports1(b, y));
    } else {
        assert((x + y)[0] == x[0]);
        assert((x + y).drop_first() =~= x.drop_first() + y);
        lemma_run1_concat(step_model(b, x[0]), x.drop_first(), y);
        assert(run_reports1(b, x + y) =~= run_reports1(b, x) + run_reports1(
            debounce_run(b, x),
            y,
        ));
    }
}

/// Samples that agree with the stable level confirm nothing and leave the
/// trailing disagreeing run empty.
proof fn lemma_run1_same(b: DebounceModel, n: nat)
    ensures
        run_reports1(b, level_run(n, b.stable)) == Seq::<u8>::empty(),
        debounce_run(b, level_run(n, b.stable)).stable == b.stable,
        n == 0 ==> debounce_run(b, level_run(n, b.stable)) == b,
        n > 0 ==> trailing_run(
            debounce_run(b, level_run(n, b.stable)).samples,
            !b.stable,
        ) == 0,
    decreases n,
{
    let raws = level_run(n, b.stable);
    if n > 0 {
        assert(raws[0] == b.stable);
        lemma_trailing_run_push(b.samples, b.stable, !b.stable);
        let bn = step_model(b, b.stable);
        assert(bn.stable == b.stable);
        assert(trailing_run(bn.samples, !bn.stable) == 0);
        assert(raws.drop_first() =~= level_run((n - 1) as nat, bn.stable));
        lemma_run1_same(bn, (n - 1) as nat);
        if n == 1 {
            assert(trailing_run(debounce_run(b, raws).samples, !b.stable) == 0);
        }
        assert(run_reports1(b, raws) =~= Seq::<u8>::empty());
    }
}

/// Samples that disagree with the stable level, too few to reach the
/// threshold, confirm nothing and just lengthen the trailing run.
proof fn lemma_run1_opposite_short(b: DebounceModel, n: nat)
    requires
        trailing_run(b.samples, !b.stable) + n < STABILITY_THRESHOLD,
    ensures
        run_reports1(b, level_run(n, !b.stable)) == Seq::<u8>::empty(),
        debounce_run(b, level_run(n, !b.stable)).stable == b.stable,
        trailing_run(debounce_run(b, level_run(n, !b.stable)).samples, !b.stable)
            == trailing_run(b.samples, !b.stable) + n,
    decreases n,
{
    let raws = level_run(n, !b.stable);
    if n > 0 {
        assert(raws[0] == !b.stable);
        lemma_trailing_run_push(b.samples, !b.stable, !b.stable);
        let bn = step_model(b, !b.stable);
        assert(bn.stable == b.stable);
        assert(trailing_run(bn.samples, !bn.stable) == trailing_run(b.samples, !b.stable) + 1);
        assert(raws.drop_first() =~= level_run((n - 1) as nat, !bn.stable));
        lemma_run1_opposite_short(bn, (n - 1) as nat);
        assert(run_reports1(b, raws) =~= Seq::<u8>::empty());
    }
}

/// A trace that holds one level for at least the stability threshold and then
/// the other level for any stretch, fed to a debouncer whose stable level is
/// the first level's opposite with no disagreeing run pending: the first
/// level is confirmed once, and the second segment reports at most a rising
/// edge, which sends nothing.
proof fn lemma_run1_single_flip(b: DebounceModel, m: nat, k: nat)
    requires
        b.stable == true,
        trailing_run(b.samples, false) == 0,
        m >= STABILITY_THRESHOLD,
    ensures
        run_reports1(b, level_run(m, false) + level_run(k, true)) == seq![
            REPORT_BUTTON1,
            LINE_END,
        ],
{
    let t = (STABILITY_THRESHOLD - 1) as nat;
    let falses = level_run(m, false);
    let trues = level_run(k, true);

    // The de-asserted segment: threshold minus one silent ticks, the
    // confirming tick, then ticks that agree with the new stable level.
    let s_lead = level_run(t, false);
    let s_confirm = level_run(1, false);
    let s_rest = level_run((m - STABILITY_THRESHOLD) as nat, false);
    assert(falses =~= s_lead + (s_confirm + s_rest));

    lemma_run1_opposite_short(b, t);
    let b_lead = debounce_run(b, s_lead);
    assert(trailing_run(b_lead.samples, false) == t);

    // The confirming tick reports the falling edge.
    assert(s_confirm[0] == false);
    let b_flip = step_model(b_lead, false);
    assert(step_edge(b_lead, false) == Some(Edge::Falling));
    assert(b_flip.stable == false);
    lemma_trailing_run_push(b_lead.samples, false, true);
    assert(trailing_run(b_flip.samples, true) == 0);
    assert(s_confirm.drop_first() =~= Seq::<bool>::empty());
    assert(debounce_run(b_lead, s_confirm) == debounce_run(b_flip, s_confirm.drop_first()));
    assert(debounce_run(b_flip, s_confirm.drop_first()) == b_flip);
    assert(run_reports1(b_lead, s_confirm) == seq![REPORT_BUTTON1, LINE_END] + run_reports1(
        b_flip,
        s_confirm.drop_first(),
    ));
    assert(run_reports1(b_flip, s_confirm.drop_first()) =~= Seq::<u8>::empty());
    assert(run_reports1(b_lead, s_confirm) =~= seq![REPORT_BUTTON1, LINE_END]);

    // The rest of the de-asserted segment agrees with the new stable level.
    lemma_run1_same(b_flip, (m - STABILITY_THRESHOLD) as nat);
    let b_low = debounce_run(b_flip, s_rest);
    assert(b_low.stable == false);
    assert(trailing_run(b_low.samples, true) == 0);

    lemma_run1_concat(b_lead, s_confirm, s_rest);
    lemma_run1_concat(b, s_lead, s_confirm + s_rest);
    assert(debounce_run(b, falses) == b_low);
    assert(run_reports1(b, falses) =~= seq![REPORT_BUTTON1, LINE_END]);

    // The asserted segment sends nothing: it either stays under the
    // threshold or confirms a rising edge, which is not reported.
    if k < STABILITY_THRESHOLD {
        lemma_run1_opposite_short(b_low, k);
    } else {
        let t_lead = level_run(t, true);
        let t_confirm = level_run(1, true);
        let t_rest = level_run((k - STABILITY_THRESHOLD) as nat, true);
        assert(trues =~= t_lead + (t_confirm + t_rest));

        lemma_run1_opposite_short(b_low, t);
        let b_high = debounce_run(b_low, t_lead);
        assert(trailing_run(b_high.samples, true) == t);

        assert(t_confirm[0] == true);
        let b_up = step_model(b_high, true);
        assert(step_edge(b_high, true) == Some(Edge::Rising));
        assert(b_up.stable == true);
        lemma_trailing_run_push(b_high.samples, true, false);
        assert(trailing_run(b_up.samples, false) == 0);
        assert(t_confirm.drop_first() =~= Seq::<bool>::empty());
        assert(debounce_run(b_high, t_confirm) == debounce_run(b_up, t_confirm.drop_first()));
        assert(debounce_run(b_up, t_confirm.drop_first()) == b_up);
        assert(run_reports1(b_high, t_confirm) == Seq::<u8>::empty() + run_reports1(
            b_up,
            t_confirm.drop_first(),
        ));
        assert(run_reports1(b_up, t_confirm.drop_first()) =~= Seq::<u8>::empty());
        assert(run_reports1(b_high, t_confirm) =~= Seq::<u8>::empty());

        lemma_run1_same(b_up, (k - STABILITY_THRESHOLD) as nat);
        lemma_run1_concat(b_high, t_confirm, t_rest);
        lemma_run1_concat(b_low, t_lead, t_confirm + t_rest);
    }
    assert(run_reports1(b_low, trues) =~= Seq::<u8>::empty());

    lemma_run1_concat(b, falses, trues);
    assert(run_reports1(b, falses + trues) =~= seq![REPORT_BUTTON1, LINE_END]);
}

/// Law (end to end): from the start-up state, hold button 2's raw level
/// asserted throughout and feed button 1 a press-shaped trace — de-asserted
/// for at least the stability threshold, then asserted for any stretch. The
/// loop sends exactly one report over the whole run: button 1's falling-edge
/// line, at the tick the de-asserted level is confirmed.
pub proof fn lemma_single_falling_report(m: nat, k: nat)
    requires
        m >= STABILITY_THRESHOLD,
    ensures
        ({
            let b0 = DebounceModel { stable: true, samples: Seq::<bool>::empty() };
            run_reports(b0, b0, level_run(m, false) + level_run(k, true), level_run(m + k, true))
                == seq![REPORT_BUTTON1, LINE_END]
        }),
{
    let b0 = DebounceModel { stable: true, samples: Seq::<bool>::empty() };
    let raws1 = level_run(m, false) + level_run(k, true);
    let raws2 = level_run(m + k, true);
    assert(raws1.len() == raws2.len());
    assert(forall|i: int| 0 <= i < raws2.len() ==> raws2[i] == b0.stable);
    lemma_run_reports_quiet_second(b0, b0, raws1, raws2);
    assert(trailing_run(b0.samples, false) == 0);
    lemma_run1_single_flip(b0, m, k);
}

} // verus!
