use vstd::prelude::*;

verus! {

/// What the debouncer remembers after a publish of a changed value fails.
#[derive(Clone, Copy, Debug, PartialEq, Eq, Structural)]
pub enum FailurePolicy {
    /// Keep the old remembered value, so the next tick with the same output
    /// still differs from it and publishes again.
    RetryOnNextTick,
    /// Remember the new value anyway: the failed emission is dropped until the
    /// output changes again.
    DropUntilChange,
}

/// The remembered value after an attempt to publish `value`.
pub open spec fn remembered_after(
    policy: FailurePolicy,
    remembered: Option<u8>,
    value: u8,
    published: bool,
) -> Option<u8> {
    if published || policy == FailurePolicy::DropUntilChange {
        Some(value)
    } else {
        remembered
    }
}

/// Remembers the last emitted output and suppresses redundant emissions.
pub struct OutputDebouncer {
    remembered: Option<u8>,
    policy: FailurePolicy,
}

impl OutputDebouncer {
    /// The output last recorded; `None` before any.
    pub closed spec fn remembered(&self) -> Option<u8> {
        self.remembered
    }

    /// The failure policy this debouncer was made with.
    pub closed spec fn policy(&self) -> FailurePolicy {
        self.policy
    }

    /// A debouncer with nothing remembered, so the first output is always emitted.
    pub fn new(policy: FailurePolicy) -> (r: OutputDebouncer)
        ensures
            r.remembered() == None::<u8>,
            r.policy() == policy,
    {
        OutputDebouncer { remembered: None, policy }
    }

    /// Whether `value` differs from the remembered output and so must be published.
    pub fn should_publish(&self, value: u8) -> (r: bool)
        ensures
            r == (self.remembered() != Some(value)),
    {
        match self.remembered {
            Some(v) => v != value,
            None => true,
        }
    }

    /// Records the outcome of publishing `value`.
    pub fn record_outcome(&mut self, value: u8, published: bool)
        ensures
            final(self).remembered() == remembered_after(
                old(self).policy(),
                old(self).remembered(),
                value,
                published,
            ),
            final(self).policy() == old(self).policy(),
    {
        if published || self.policy == FailurePolicy::DropUntilChange {
            self.remembered = Some(value);
        }
    }

    /// The output last recorded, if any.
    pub fn remembered_value(&self) -> (r: Option<u8>)
        ensures
            r == self.remembered(),
    {
        self.remembered
    }

    /// The policy applied when a publish fails.
    pub fn failure_policy(&self) -> (r: FailurePolicy)
        ensures
            r == self.policy(),
    {
        self.policy
    }
}

/// The publish calls made over a run of computed outputs, starting from the
/// remembered value `remembered`. Each tick is an output and whether its
/// publish would succeed; a tick publishes exactly when `should_publish`
/// says so, and the remembered value then moves as `record_outcome` says.
pub open spec fn publish_calls(
    policy: FailurePolicy,
    remembered: Option<u8>,
    ticks: Seq<(u8, bool)>,
) -> Seq<(u8, bool)>
    decreases ticks.len(),
{
    if ticks.len() == 0 {
        Seq::empty()
    } else {
        let (v, ok) = ticks[0];
        if remembered == Some(v) {
            publish_calls(policy, remembered, ticks.drop_first())
        } else {
            seq![(v, ok)] + publish_calls(
                policy,
                remembered_after(policy, remembered, v, ok),
                ticks.drop_first(),
            )
        }
    }
}

proof fn lemma_first_call_differs(
    policy: FailurePolicy,
    remembered: Option<u8>,
    ticks: Seq<(u8, bool)>,
)
    requires
        publish_calls(policy, remembered, ticks).len() > 0,
    ensures
        remembered != Some(publish_calls(policy, remembered, ticks)[0].0),
    decreases ticks.len(),
{
    let (v, ok) = ticks[0];
    if remembered == Some(v) {
        lemma_first_call_differs(policy, remembered, ticks.drop_first());
    }
}

/// No repeated emission: two consecutive publish calls never carry the same
/// value unless the earlier one failed under `RetryOnNextTick`, the one
/// policy that retries it.
pub proof fn lemma_no_repeated_publish(
    policy: FailurePolicy,
    remembered: Option<u8>,
    ticks: Seq<(u8, bool)>,
    k: int,
)
    requires
        0 <= k,
        k + 1 < publish_calls(policy, remembered, ticks).len(),
        publish_calls(policy, remembered, ticks)[k].1 || policy
            == FailurePolicy::DropUntilChange,
    ensures
        publish_calls(policy, remembered, ticks)[k].0 != publish_calls(
            policy,
            remembered,
            ticks,
        )[k + 1].0,
    decreases ticks.len(),
{
    let (v, ok) = ticks[0];
    let rest = ticks.drop_first();
    if remembered == Some(v) {
        lemma_no_repeated_publish(policy, remembered, rest, k);
    } else {
        let next = remembered_after(policy, remembered, v, ok);
        let tail = publish_calls(policy, next, rest);
        assert(publish_calls(policy, remembered, ticks) == seq![(v, ok)] + tail);
        if k == 0 {
            lemma_first_call_differs(policy, next, rest);
        } else {
            lemma_no_repeated_publish(policy, next, rest, k - 1);
        }
    }
}

} // verus!
