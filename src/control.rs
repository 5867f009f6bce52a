use vstd::prelude::*;
use crate::config::LoopConfig;
use crate::debounce::{remembered_after, FailurePolicy, OutputDebouncer};
use crate::watchdog::LinkState;

verus! {

/// `raw` clamped to [min, max].
pub open spec fn clamped(raw: int, min: u8, max: u8) -> u8
    recommends
        min <= max,
{
    if raw < min {
        min
    } else if raw > max {
        max
    } else {
        raw as u8
    }
}

/// Clamps a rounded controller output to the output bounds.
pub fn quantize_output(raw: i64, min: u8, max: u8) -> (r: u8)
    requires
        min <= max,
    ensures
        r == clamped(raw as int, min, max),
        min <= r <= max,
{
    if raw < min as i64 {
        min
    } else if raw > max as i64 {
        max
    } else {
        raw as u8
    }
}

/// What the scheduler asks of the output side on one tick.
#[derive(Clone, Copy, Debug, PartialEq, Eq, Structural)]
pub enum TickAction {
    /// The output changed: publish it, then report the outcome.
    Publish(u8),
    /// The output equals the remembered one: nothing is sent.
    Unchanged(u8),
    /// The link is dead: stop, and publish nothing from now on.
    Halt,
}

/// Whether the scheduler has halted after ticks that saw the link states `links`,
/// having been halted already exactly when `halted` holds.
pub open spec fn halted_after(halted: bool, links: Seq<LinkState>) -> bool {
    links.fold_left(halted, |h: bool, l: LinkState| h || l == LinkState::Dead)
}

/// The per-tick decisions of the control loop: clamp the controller's output,
/// debounce it, and stop for good once the link is dead.
pub struct ControlScheduler {
    min_output: u8,
    max_output: u8,
    debouncer: OutputDebouncer,
    halted: bool,
}

impl ControlScheduler {
    pub closed spec fn min_output(&self) -> u8 {
        self.min_output
    }

    pub closed spec fn max_output(&self) -> u8 {
        self.max_output
    }

    /// The output the debouncer remembers.
    pub closed spec fn remembered(&self) -> Option<u8> {
        self.debouncer.remembered()
    }

    pub closed spec fn policy(&self) -> FailurePolicy {
        self.debouncer.policy()
    }

    pub closed spec fn halted(&self) -> bool {
        self.halted
    }

    pub closed spec fn wf(&self) -> bool {
        self.min_output <= self.max_output
    }

    /// A running scheduler with nothing emitted yet.
    pub fn new(config: &LoopConfig) -> (r: ControlScheduler)
        requires
            config.min_output <= config.max_output,
        ensures
            r.wf(),
            r.min_output() == config.min_output,
            r.max_output() == config.max_output,
            r.policy() == config.failure_policy,
            r.remembered() == None::<u8>,
            !r.halted(),
    {
        ControlScheduler {
            min_output: config.min_output,
            max_output: config.max_output,
            debouncer: OutputDebouncer::new(config.failure_policy),
            halted: false,
        }
    }

    /// One tick: `raw` is the controller's output rounded to an integer, and
    /// `link` what the watchdog reports now.
    pub fn on_tick(&mut self, raw: i64, link: LinkState) -> (r: TickAction)
        requires
            old(self).wf(),
        ensures
            final(self).wf(),
            final(self).min_output() == old(self).min_output(),
            final(self).max_output() == old(self).max_output(),
            final(self).policy() == old(self).policy(),
            final(self).remembered() == old(self).remembered(),
            final(self).halted() == (old(self).halted() || link == LinkState::Dead),
            r == (if final(self).halted() {
                TickAction::Halt
            } else {
                let v = clamped(raw as int, old(self).min_output(), old(self).max_output());
                if old(self).remembered() == Some(v) {
                    TickAction::Unchanged(v)
                } else {
                    TickAction::Publish(v)
                }
            }),
            r matches TickAction::Publish(v) ==> old(self).min_output() <= v <= old(
                self,
            ).max_output(),
            r matches TickAction::Unchanged(v) ==> old(self).min_output() <= v <= old(
                self,
            ).max_output(),
    {
        if self.halted || link == LinkState::Dead {
            self.halted = true;
            return TickAction::Halt;
        }
        let v = quantize_output(raw, self.min_output, self.max_output);
        if self.debouncer.should_publish(v) {
            TickAction::Publish(v)
        } else {
            TickAction::Unchanged(v)
        }
    }

    /// Reports whether publishing `value` succeeded.
    pub fn on_publish_result(&mut self, value: u8, published: bool)
        requires
            old(self).wf(),
        ensures
            final(self).wf(),
            final(self).min_output() == old(self).min_output(),
            final(self).max_output() == old(self).max_output(),
            final(self).policy() == old(self).policy(),
            final(self).halted() == old(self).halted(),
            final(self).remembered() == remembered_after(
                old(self).policy(),
                old(self).remembered(),
                value,
                published,
            ),
    {
        self.debouncer.record_outcome(value, published);
    }

    /// Whether the scheduler has stopped for good.
    pub fn is_halted(&self) -> (r: bool)
        ensures
            r == self.halted(),
    {
        self.halted
    }
}

/// Once any tick has seen a dead link, the scheduler stays halted: every
/// later tick answers `Halt`, so no publish is attempted after that transition.
pub proof fn lemma_dead_link_halts_for_good(halted: bool, links: Seq<LinkState>, i: int)
    requires
        0 <= i < links.len(),
        links[i] == LinkState::Dead,
    ensures
        halted_after(halted, links),
    decreases links.len(),
{
    let prefix = links.drop_last();
    if i < links.len() - 1 {
        lemma_dead_link_halts_for_good(halted, prefix, i);
    }
}

/// Every output the scheduler hands on lies within the bounds, whatever the
/// sequence of controller outputs.
pub proof fn lemma_outputs_within_bounds(raws: Seq<int>, min: u8, max: u8)
    requires
        min <= max,
    ensures
        forall|i: int| 0 <= i < raws.len() ==> min <= #[trigger] clamped(raws[i], min, max) <= max,
{
}

} // verus!
