use vstd::prelude::*;

verus! {

/// Health of the transport link as the watchdog sees it.
#[derive(Clone, Copy, Debug, PartialEq, Eq, Structural)]
pub enum LinkState {
    Healthy,
    /// Terminal: the process instance must stop.
    Dead,
}

/// Whether the link has been silent for at least `threshold` at time `now`,
/// the last liveness signal having come at `last_signal` (times in milliseconds).
pub open spec fn silent_too_long(last_signal: u64, threshold: u64, now: u64) -> bool {
    now >= last_signal && now - last_signal >= threshold
}

/// Tracks the time since the last liveness signal and declares the link dead
/// once it exceeds a fixed threshold.
pub struct Watchdog {
    last_signal: u64,
    threshold: u64,
    dead: bool,
}

impl Watchdog {
    /// Time of the most recent liveness signal, in milliseconds.
    pub closed spec fn last_signal(&self) -> u64 {
        self.last_signal
    }

    /// The silence, in milliseconds, after which the link is declared dead.
    pub closed spec fn threshold(&self) -> u64 {
        self.threshold
    }

    /// Whether the watchdog has moved to the terminal `Dead` state.
    pub closed spec fn is_dead(&self) -> bool {
        self.dead
    }

    /// A healthy watchdog whose timer starts at `now`.
    pub fn new(now: u64, threshold: u64) -> (r: Watchdog)
        ensures
            r.last_signal() == now,
            r.threshold() == threshold,
            !r.is_dead(),
    {
        Watchdog { last_signal: now, threshold, dead: false }
    }

    /// A liveness signal observed at `now` restarts the timer of a healthy
    /// watchdog; a dead one stays as it is. Times never move backwards.
    pub fn signal(&mut self, now: u64)
        ensures
            final(self).threshold() == old(self).threshold(),
            final(self).is_dead() == old(self).is_dead(),
            final(self).last_signal() == if old(self).is_dead() || now < old(self).last_signal() {
                old(self).last_signal()
            } else {
                now
            },
    {
        if !self.dead && now >= self.last_signal {
            self.last_signal = now;
        }
    }

    /// The timeout check at time `now`: moves to `Dead` once the silence has
    /// lasted at least the threshold, and reports the state.
    pub fn check(&mut self, now: u64) -> (r: LinkState)
        ensures
            final(self).threshold() == old(self).threshold(),
            final(self).last_signal() == old(self).last_signal(),
            final(self).is_dead() == (old(self).is_dead() || silent_too_long(
                old(self).last_signal(),
                old(self).threshold(),
                now,
            )),
            r == (if final(self).is_dead() {
                LinkState::Dead
            } else {
                LinkState::Healthy
            }),
    {
        if !self.dead && now >= self.last_signal && now - self.last_signal >= self.threshold {
            self.dead = true;
        }
        if self.dead {
            LinkState::Dead
        } else {
            LinkState::Healthy
        }
    }

    /// The state reached so far, without checking the clock.
    pub fn state(&self) -> (r: LinkState)
        ensures
            r == (if self.is_dead() {
                LinkState::Dead
            } else {
                LinkState::Healthy
            }),
    {
        if self.dead {
            LinkState::Dead
        } else {
            LinkState::Healthy
        }
    }
}

/// Whether the watchdog is dead after timeout checks at `times`, with no
/// liveness signal in between: each check moves it as `Watchdog::check` does.
pub open spec fn dead_after_checks(
    last_signal: u64,
    threshold: u64,
    dead: bool,
    times: Seq<u64>,
) -> bool {
    times.fold_left(dead, |d: bool, t: u64| d || silent_too_long(last_signal, threshold, t))
}

/// Silence is detected within one check spacing: when checks come at most
/// `spacing` apart, the first at or before `last_signal + threshold`, and no
/// liveness signal arrives, then some check no later than
/// `last_signal + threshold + spacing` leaves the watchdog dead.
pub proof fn lemma_silence_detected_within(
    last_signal: u64,
    threshold: u64,
    dead: bool,
    times: Seq<u64>,
    spacing: u64,
)
    requires
        times.len() > 0,
        times[0] <= last_signal + threshold,
        forall|i: int|
            0 < i < times.len() ==> times[i - 1] <= #[trigger] times[i] <= times[i - 1] + spacing,
        times.last() >= last_signal + threshold,
    ensures
        exists|i: int|
            0 <= i < times.len() && times[i] <= last_signal + threshold + spacing
                && #[trigger] dead_after_checks(last_signal, threshold, dead, times.take(i + 1)),
    decreases times.len(),
{
    let n = times.len() as int;
    assert(times.take(n) =~= times);
    assert(times.take(n).drop_last() =~= times.drop_last());
    if n >= 2 && times[n - 2] >= last_signal + threshold {
        let prefix = times.drop_last();
        assert forall|i: int| 0 < i < prefix.len() implies prefix[i - 1] <= #[trigger] prefix[i]
            <= prefix[i - 1] + spacing by {
            assert(times[i - 1] <= times[i] <= times[i - 1] + spacing);
        }
        lemma_silence_detected_within(last_signal, threshold, dead, prefix, spacing);
        let i = choose|i: int|
            0 <= i < prefix.len() && prefix[i] <= last_signal + threshold + spacing
                && #[trigger] dead_after_checks(last_signal, threshold, dead, prefix.take(i + 1));
        assert(prefix.take(i + 1) =~= times.take(i + 1));
        assert(dead_after_checks(last_signal, threshold, dead, times.take(i + 1)));
        assert(0 <= i < times.len() && times[i] <= last_signal + threshold + spacing);
    } else {
        if n >= 2 {
            assert(times[n - 2] <= times[n - 1] <= times[n - 2] + spacing);
        }
        assert(silent_too_long(last_signal, threshold, times[n - 1]));
        let i = n - 1;
        assert(times.take(i + 1) =~= times);
        assert(dead_after_checks(last_signal, threshold, dead, times.take(i + 1)));
        assert(times[i] <= last_signal + threshold + spacing);
    }
}

} // verus!
