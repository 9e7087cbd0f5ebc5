//! Hold-time state machines. A monitor, a weather device or a switch only
//! changes its reported state once the new state has been observed for at
//! least the configured hold time; this prevents flapping on borderline
//! conditions. Times are whole seconds since the Unix epoch.

use vstd::prelude::*;

verus! {

/// The seconds elapsed from `since` to `now`, taken as an unsigned 64-bit
/// count the way a signed difference cast to `u64` is: a negative
/// difference wraps around to a huge count.
pub open spec fn elapsed_u64(now: int, since: int) -> int {
    let d = now - since;
    if d >= 0 {
        d
    } else {
        d + 0x1_0000_0000_0000_0000
    }
}

/// At least `hold` seconds have passed from `since` to `now`.
pub open spec fn hold_elapsed(now: int, since: int, hold: int) -> bool {
    elapsed_u64(now, since) >= hold
}

/// Computes `elapsed_u64(now, since)`.
pub fn elapsed_seconds(now: i64, since: i64) -> (e: u64)
    ensures
        e == elapsed_u64(now as int, since as int),
{
    let d: i128 = now as i128 - since as i128;
    if d >= 0 {
        d as u64
    } else {
        (d + 0x1_0000_0000_0000_0000i128) as u64
    }
}

/// A reported boolean state together with a change that is waiting for
/// its hold time to pass.
#[derive(Clone, Copy, Debug, PartialEq, Eq)]
pub struct HoldState {
    pub current: bool,
    pub pending: Option<bool>,
    pub pending_since: Option<i64>,
}

impl HoldState {
    /// A pending change and its start time are present together, and a
    /// pending change always differs from the current state.
    pub open spec fn wf(self) -> bool {
        &&& self.pending.is_some() == self.pending_since.is_some()
        &&& self.pending != Some(self.current)
    }

    /// The state after a reading that computed `computed`, for monitors and
    /// weather devices. A first reading, or a hold time of 0, takes effect
    /// at once; a reading that agrees with the current state clears any
    /// pending change; a disagreeing reading starts a pending change, or
    /// commits the one already pending once the hold time has passed.
    pub open spec fn after_reading(self, computed: bool, now: i64, hold: u64, initial: bool) -> HoldState {
        if hold == 0 || initial {
            HoldState { current: computed, pending: None, pending_since: None }
        } else if computed == self.current {
            HoldState { current: self.current, pending: None, pending_since: None }
        } else if self.pending == Some(computed) {
            match self.pending_since {
                Some(since) => if hold_elapsed(now as int, since as int, hold as int) {
                    HoldState { current: computed, pending: None, pending_since: None }
                } else {
                    self
                },
                None => self,
            }
        } else {
            HoldState { current: self.current, pending: Some(computed), pending_since: Some(now) }
        }
    }

    /// The state after a switch evaluation that computed `computed`. A new
    /// pending change is only started when a hold time is set; without one
    /// the change is taken at once.
    pub open spec fn after_switch_evaluation(self, computed: bool, now: i64, hold: u64) -> HoldState {
        if computed != self.current {
            if self.pending == Some(computed) {
                match self.pending_since {
                    Some(since) => if hold_elapsed(now as int, since as int, hold as int) {
                        HoldState { current: computed, pending: None, pending_since: None }
                    } else {
                        self
                    },
                    None => self,
                }
            } else if hold > 0 {
                HoldState { current: self.current, pending: Some(computed), pending_since: Some(now) }
            } else {
                HoldState { current: computed, pending: self.pending, pending_since: self.pending_since }
            }
        } else {
            HoldState { current: self.current, pending: None, pending_since: None }
        }
    }

    /// The state seen when it is read at `now`: a pending change whose hold
    /// time has passed is committed.
    pub open spec fn after_read(self, now: i64, hold: u64) -> HoldState {
        match (self.pending, self.pending_since) {
            (Some(p), Some(since)) => if hold_elapsed(now as int, since as int, hold as int) {
                HoldState { current: p, pending: None, pending_since: None }
            } else {
                self
            },
            _ => self,
        }
    }

    /// Applies a reading; see `after_reading`.
    pub fn apply_reading(&mut self, computed: bool, now: i64, hold: u64, initial: bool)
        ensures
            *final(self) == old(self).after_reading(computed, now, hold, initial),
    {
        if hold == 0 || initial {
            self.current = computed;
            self.pending = None;
            self.pending_since = None;
        } else if computed == self.current {
            self.pending = None;
            self.pending_since = None;
        } else if self.pending == Some(computed) {
            if let Some(since) = self.pending_since {
                if elapsed_seconds(now, since) >= hold {
                    self.current = computed;
                    self.pending = None;
                    self.pending_since = None;
                }
            }
        } else {
            self.pending = Some(computed);
            self.pending_since = Some(now);
        }
    }

    /// Applies a switch evaluation; see `after_switch_evaluation`.
    pub fn apply_switch_evaluation(&mut self, computed: bool, now: i64, hold: u64)
        ensures
            *final(self) == old(self).after_switch_evaluation(computed, now, hold),
    {
        if computed != self.current {
            if self.pending == Some(computed) {
                if let Some(since) = self.pending_since {
                    if elapsed_seconds(now, since) >= hold {
                        self.current = computed;
                        self.pending = None;
                        self.pending_since = None;
                    }
                }
            } else if hold > 0 {
                self.pending = Some(computed);
                self.pending_since = Some(now);
            } else {
                self.current = computed;
            }
        } else {
            self.pending = None;
            self.pending_since = None;
        }
    }

    /// Commits a pending change whose hold time has passed; see `after_read`.
    pub fn commit_elapsed(&mut self, now: i64, hold: u64)
        ensures
            *final(self) == old(self).after_read(now, hold),
    {
        match (self.pending, self.pending_since) {
            (Some(p), Some(since)) => {
                if elapsed_seconds(now, since) >= hold {
                    self.current = p;
                    self.pending = None;
                    self.pending_since = None;
                }
            },
            _ => {},
        }
    }
}

/// With no hold time, a reading takes effect at once and leaves nothing
/// pending.
pub proof fn lemma_no_hold_is_immediate(s: HoldState, computed: bool, now: i64, initial: bool)
    ensures
        s.after_reading(computed, now, 0, initial).current == computed,
        s.after_reading(computed, now, 0, initial).pending is None,
{
}

/// A reading that agrees with the current state keeps it and cancels any
/// pending change.
pub proof fn lemma_agreeing_reading_clears_pending(s: HoldState, now: i64, hold: u64, initial: bool)
    ensures
        s.after_reading(s.current, now, hold, initial).current == s.current,
        s.after_reading(s.current, now, hold, initial).pending is None,
        s.after_reading(s.current, now, hold, initial).pending_since is None,
{
}

/// The reported state only changes on a first reading, without a hold
/// time, or when the same change was already pending for at least the hold
/// time.
pub proof fn lemma_change_needs_hold(s: HoldState, computed: bool, now: i64, hold: u64, initial: bool)
    ensures
        s.after_reading(computed, now, hold, initial).current != s.current ==> {
            ||| hold == 0
            ||| initial
            ||| {
                &&& s.pending == Some(computed)
                &&& s.pending_since is Some
                &&& hold_elapsed(now as int, s.pending_since->0 as int, hold as int)
            }
        },
{
}

/// A single disagreeing reading under a hold time does not change the
/// reported state: it only starts a pending change.
pub proof fn lemma_single_reading_does_not_flap(s: HoldState, computed: bool, now: i64, hold: u64)
    requires
        s.wf(),
        s.pending is None,
        hold > 0,
        computed != s.current,
    ensures
        s.after_reading(computed, now, hold, false).current == s.current,
        s.after_reading(computed, now, hold, false).pending == Some(computed),
        s.after_reading(computed, now, hold, false).pending_since == Some(now),
{
}

/// From a state with nothing pending, two disagreeing readings at least the
/// hold time apart commit the change.
pub proof fn lemma_held_change_commits(s: HoldState, computed: bool, t0: i64, t1: i64, hold: u64)
    requires
        s.wf(),
        s.pending is None,
        computed != s.current,
        t0 <= t1,
        t1 - t0 >= hold,
    ensures
        s.after_reading(computed, t0, hold, false).after_reading(computed, t1, hold, false).current
            == computed,
{
}

/// Readings, switch evaluations and reads keep the state well formed.
pub proof fn lemma_steps_keep_wf(s: HoldState, computed: bool, now: i64, hold: u64, initial: bool)
    requires
        s.wf(),
    ensures
        s.after_reading(computed, now, hold, initial).wf(),
        s.after_switch_evaluation(computed, now, hold).wf(),
        s.after_read(now, hold).wf(),
{
}

/// With no hold time, a switch evaluation takes its result at once.
pub proof fn lemma_switch_no_hold_is_immediate(s: HoldState, computed: bool, now: i64)
    requires
        s.wf(),
    ensures
        s.after_switch_evaluation(computed, now, 0).current == computed,
{
}

/// A switch evaluation that agrees with the current state keeps it and
/// cancels any pending change.
pub proof fn lemma_agreeing_evaluation_clears_pending(s: HoldState, now: i64, hold: u64)
    ensures
        s.after_switch_evaluation(s.current, now, hold).current == s.current,
        s.after_switch_evaluation(s.current, now, hold).pending is None,
        s.after_switch_evaluation(s.current, now, hold).pending_since is None,
{
}

/// A switch only changes state without a hold time, or when the same change
/// was already pending for at least the hold time.
pub proof fn lemma_switch_change_needs_hold(s: HoldState, computed: bool, now: i64, hold: u64)
    ensures
        s.after_switch_evaluation(computed, now, hold).current != s.current ==> {
            ||| hold == 0
            ||| {
                &&& s.pending == Some(computed)
                &&& s.pending_since is Some
                &&& hold_elapsed(now as int, s.pending_since->0 as int, hold as int)
            }
        },
{
}

/// Under a hold time, a change must be observed without interruption: from
/// a state with nothing pending, a disagreeing evaluation, then an agreeing
/// one, then a disagreeing one again leave the switch as it was, with a change pending only since the
/// last evaluation, however much time has passed.
pub proof fn lemma_interrupted_switch_change_restarts(s: HoldState, computed: bool, t0: i64, t1: i64, t2: i64, hold: u64)
    requires
        s.pending is None,
        hold > 0,
        computed != s.current,
    ensures
        s.after_switch_evaluation(computed, t0, hold).after_switch_evaluation(s.current, t1, hold).after_switch_evaluation(
            computed,
            t2,
            hold,
        ) == (HoldState { current: s.current, pending: Some(computed), pending_since: Some(t2) }),
{
}

/// Under a hold time, readings behave the same way: an agreeing reading in
/// between restarts the wait for a change.
pub proof fn lemma_interrupted_reading_change_restarts(s: HoldState, computed: bool, t0: i64, t1: i64, t2: i64, hold: u64)
    requires
        s.pending is None,
        hold > 0,
        computed != s.current,
    ensures
        s.after_reading(computed, t0, hold, false).after_reading(s.current, t1, hold, false).after_reading(
            computed,
            t2,
            hold,
            false,
        ) == (HoldState { current: s.current, pending: Some(computed), pending_since: Some(t2) }),
{
}

} // verus!
