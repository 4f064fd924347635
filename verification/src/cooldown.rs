//! Per-user fixed-window rate limiting.
//!
//! A [`ShockCooldown`] records one user's firing history inside the current
//! counting window: the second at which the window started and how many
//! firings have been admitted since. Admission is a fixed-window rule: once
//! the window duration has elapsed the window restarts at the current instant
//! with a count of zero; within a window at most a configured number of
//! firings are admitted.
//!
//! Time is a monotonic clock reading in whole seconds, taken once per call
//! and passed in by the caller. A reading earlier than the recorded window
//! start (impossible with a monotonic clock) counts as zero elapsed time.

use std::collections::HashMap;

use vstd::prelude::*;

verus! {

broadcast use vstd::std_specs::hash::group_hash_axioms;

/// One user's firing history within the current counting window.
#[derive(Clone, Copy, Debug, PartialEq, Eq, Structural)]
pub struct ShockCooldown {
    /// Clock reading (in seconds) at which the current window started.
    pub window_start: u64,
    /// Number of firings admitted since the window started.
    pub shock_count: u32,
}

/// Outcome of asking the tracker to admit one firing.
#[derive(Clone, Copy, Debug, PartialEq, Eq, Structural)]
pub enum AdmissionResult {
    /// The firing was admitted and has been counted.
    Allowed,
    /// The firing was refused; the window admits no further firing for
    /// `seconds_remaining` more seconds.
    Denied { seconds_remaining: u64 },
}

/// Seconds elapsed since the window started, by the clock reading `now`.
/// A reading before the window start counts as zero elapsed time.
pub open spec fn spec_elapsed(w: ShockCooldown, now: u64) -> int {
    if now >= w.window_start {
        now - w.window_start
    } else {
        0
    }
}

/// The window after applying the rollover rule at clock reading `now`:
/// once `duration` seconds have elapsed, the window restarts at `now`
/// with a count of zero; otherwise it is unchanged.
pub open spec fn spec_rollover(w: ShockCooldown, now: u64, duration: u64) -> ShockCooldown {
    if spec_elapsed(w, now) >= duration {
        ShockCooldown { window_start: now, shock_count: 0 }
    } else {
        w
    }
}

/// One admission step at clock reading `now`: rollover first, then either
/// admit and count the firing (when the count is below `max`) or refuse it
/// with the seconds left until the window next rolls over.
pub open spec fn spec_admit(w: ShockCooldown, now: u64, duration: u64, max: u32) -> (
    ShockCooldown,
    AdmissionResult,
) {
    let r = spec_rollover(w, now, duration);
    if r.shock_count < max {
        (
            ShockCooldown { window_start: r.window_start, shock_count: (r.shock_count + 1) as u32 },
            AdmissionResult::Allowed,
        )
    } else {
        (r, AdmissionResult::Denied { seconds_remaining: (duration - spec_elapsed(r, now)) as u64 })
    }
}

impl ShockCooldown {
    /// A fresh window starting at clock reading `now` with nothing counted.
    pub fn new(now: u64) -> (w: ShockCooldown)
        ensures
            w == (ShockCooldown { window_start: now, shock_count: 0 }),
    {
        ShockCooldown { window_start: now, shock_count: 0 }
    }

    /// Is there room for one more firing in the current window? Applies the
    /// rollover rule, and on admission counts the firing in the same step,
    /// so that no admitted firing can go unrecorded.
    ///
    /// # Parameters
    /// * `now` - the current clock reading, in seconds.
    /// * `segment_length` - the window duration, in seconds.
    /// * `maximum_shocks` - the number of firings admitted per window.
    pub fn can_shock(&mut self, now: u64, segment_length: u64, maximum_shocks: u32) -> (allowed:
        bool)
        ensures
            *final(self) == spec_admit(*old(self), now, segment_length, maximum_shocks).0,
            allowed == (spec_admit(*old(self), now, segment_length, maximum_shocks).1
                is Allowed),
    {
        let elapsed: u64 = if now >= self.window_start {
            now - self.window_start
        } else {
            0
        };
        if elapsed >= segment_length {
            self.window_start = now;
            self.shock_count = 0;
        }
        if self.shock_count < maximum_shocks {
            self.shock_count = self.shock_count + 1;
            true
        } else {
            false
        }
    }
}

/// The window the tracker evaluates for `user_id` at clock reading `now`: the
/// recorded one, or a fresh window starting at `now` on the user's first fire
/// request.
pub open spec fn spec_entry(m: Map<u64, ShockCooldown>, user_id: u64, now: u64) -> ShockCooldown {
    if m.contains_key(user_id) {
        m[user_id]
    } else {
        ShockCooldown { window_start: now, shock_count: 0 }
    }
}

/// One `try_fire` call on the cooldown table: the table afterwards, and the
/// admission outcome.
pub open spec fn spec_try_fire(
    m: Map<u64, ShockCooldown>,
    user_id: u64,
    now: u64,
    duration: u64,
    max: u32,
) -> (Map<u64, ShockCooldown>, AdmissionResult) {
    let step = spec_admit(spec_entry(m, user_id, now), now, duration, max);
    (m.insert(user_id, step.0), step.1)
}

/// The per-user cooldown gate: one window per user who has ever produced a
/// fire request, created lazily on that user's first request and reset in
/// place on rollover, never destroyed. The window duration and the per-window
/// limit are fixed at construction.
pub struct CooldownTracker {
    windows: HashMap<u64, ShockCooldown>,
    duration_secs: u64,
    max_fires: u32,
}

impl CooldownTracker {
    /// The cooldown table: each tracked user's current window.
    pub closed spec fn cooldowns(&self) -> Map<u64, ShockCooldown> {
        self.windows@
    }

    /// The window duration, in seconds.
    pub closed spec fn duration(&self) -> u64 {
        self.duration_secs
    }

    /// The number of firings admitted per user and window.
    pub closed spec fn max_per_window(&self) -> u32 {
        self.max_fires
    }

    /// The tracker's invariant: the window duration is positive, and after
    /// any completed operation no user's count exceeds the per-window limit.
    pub open spec fn wf(&self) -> bool {
        &&& self.duration() > 0
        &&& forall|u: u64|
            self.cooldowns().contains_key(u) ==> (#[trigger] self.cooldowns()[u]).shock_count
                <= self.max_per_window()
    }

    /// An empty tracker for a positive window duration and a per-window
    /// limit; a limit of zero means "never allow".
    pub fn new(window_duration_seconds: u64, max_fires_per_window: u32) -> (tracker:
        CooldownTracker)
        requires
            window_duration_seconds > 0,
        ensures
            tracker.cooldowns() == Map::<u64, ShockCooldown>::empty(),
            tracker.duration() == window_duration_seconds,
            tracker.max_per_window() == max_fires_per_window,
            tracker.wf(),
    {
        CooldownTracker {
            windows: HashMap::new(),
            duration_secs: window_duration_seconds,
            max_fires: max_fires_per_window,
        }
    }

    /// Ask to fire once for `user_id` at clock reading `now` (seconds from a
    /// monotonic clock, read once per call). Applies the rollover rule, then
    /// either admits and counts the firing in the same atomic step, or denies
    /// it with the seconds left until the window next rolls over — always at
    /// least one and at most the window duration. No other user's window is
    /// read or changed.
    pub fn try_fire(&mut self, user_id: u64, now: u64) -> (result: AdmissionResult)
        requires
            old(self).wf(),
        ensures
            final(self).wf(),
            final(self).duration() == old(self).duration(),
            final(self).max_per_window() == old(self).max_per_window(),
            final(self).cooldowns() == spec_try_fire(
                old(self).cooldowns(),
                user_id,
                now,
                old(self).duration(),
                old(self).max_per_window(),
            ).0,
            result == spec_try_fire(
                old(self).cooldowns(),
                user_id,
                now,
                old(self).duration(),
                old(self).max_per_window(),
            ).1,
            result matches AdmissionResult::Denied { seconds_remaining } ==> 1
                <= seconds_remaining <= old(self).duration(),
    {
        let mut w = match self.windows.get(&user_id) {
            Some(w0) => *w0,
            None => ShockCooldown::new(now),
        };
        let allowed = w.can_shock(now, self.duration_secs, self.max_fires);
        let result = if allowed {
            AdmissionResult::Allowed
        } else {
            let elapsed: u64 = if now >= w.window_start {
                now - w.window_start
            } else {
                0
            };
            AdmissionResult::Denied { seconds_remaining: self.duration_secs - elapsed }
        };
        self.windows.insert(user_id, w);
        result
    }
}

/// One user's admission outcome depends only on that user's own window: two
/// tables that agree on `user_id`'s entry produce the same outcome and the
/// same new entry for it, whatever they hold for anyone else.
pub proof fn lemma_user_independence(
    m1: Map<u64, ShockCooldown>,
    m2: Map<u64, ShockCooldown>,
    user_id: u64,
    now: u64,
    duration: u64,
    max: u32,
)
    requires
        m1.contains_key(user_id) == m2.contains_key(user_id),
        m1.contains_key(user_id) ==> m1[user_id] == m2[user_id],
    ensures
        spec_try_fire(m1, user_id, now, duration, max).1 == spec_try_fire(
            m2,
            user_id,
            now,
            duration,
            max,
        ).1,
        spec_try_fire(m1, user_id, now, duration, max).0[user_id] == spec_try_fire(
            m2,
            user_id,
            now,
            duration,
            max,
        ).0[user_id],
{
}

/// A `try_fire` call for one user leaves every other user's entry — present
/// or absent — exactly as it was.
pub proof fn lemma_other_users_unchanged(
    m: Map<u64, ShockCooldown>,
    user_id: u64,
    other: u64,
    now: u64,
    duration: u64,
    max: u32,
)
    requires
        other != user_id,
    ensures
        spec_try_fire(m, user_id, now, duration, max).0.contains_key(other) == m.contains_key(
            other,
        ),
        m.contains_key(other) ==> spec_try_fire(m, user_id, now, duration, max).0[other]
            == m[other],
{
}

/// With a per-window limit of zero every admission step is denied, and the
/// denial counts down to the next window boundary: it reports the seconds
/// left in the window that the rollover rule selects — never less than one,
/// never more than the window duration.
pub proof fn lemma_zero_limit_always_denied(w: ShockCooldown, now: u64, duration: u64)
    requires
        duration > 0,
    ensures
        spec_admit(w, now, duration, 0).1 == (AdmissionResult::Denied {
            seconds_remaining: (duration - spec_elapsed(spec_rollover(w, now, duration), now)) as u64,
        }),
        spec_admit(w, now, duration, 0).1 matches AdmissionResult::Denied { seconds_remaining }
            && 1 <= seconds_remaining <= duration,
{
}

/// The cooldown table after `n` successive `try_fire` calls for one user at
/// one clock reading, paired with how many of those calls were allowed.
pub open spec fn spec_repeat_try_fire(
    m: Map<u64, ShockCooldown>,
    user_id: u64,
    now: u64,
    duration: u64,
    max: u32,
    n: nat,
) -> (Map<u64, ShockCooldown>, nat)
    decreases n,
{
    if n == 0 {
        (m, 0)
    } else {
        let prev = spec_repeat_try_fire(m, user_id, now, duration, max, (n - 1) as nat);
        let step = spec_try_fire(prev.0, user_id, now, duration, max);
        (step.0, prev.1 + (if step.1 is Allowed {
            1nat
        } else {
            0nat
        }))
    }
}

/// A burst of `n` admission requests for one user sharing a single clock
/// reading — the serialized outcome of `n` concurrent calls — admits exactly
/// `min(n, max)` of them, and the user's window afterwards has counted
/// exactly the admitted ones: none is lost and none is double-counted.
pub proof fn lemma_same_instant_burst(
    m: Map<u64, ShockCooldown>,
    user_id: u64,
    now: u64,
    duration: u64,
    max: u32,
    n: nat,
)
    requires
        duration > 0,
        !m.contains_key(user_id) || m[user_id] == (ShockCooldown {
            window_start: now,
            shock_count: 0,
        }),
    ensures
        spec_repeat_try_fire(m, user_id, now, duration, max, n).1 == if n <= max {
            n
        } else {
            max as nat
        },
        n > 0 ==> {
            let table = spec_repeat_try_fire(m, user_id, now, duration, max, n).0;
            &&& table.contains_key(user_id)
            &&& table[user_id] == (ShockCooldown {
                window_start: now,
                shock_count: (if n <= max {
                    n
                } else {
                    max as nat
                }) as u32,
            })
        },
    decreases n,
{
    if n > 0 {
        lemma_same_instant_burst(m, user_id, now, duration, max, (n - 1) as nat);
    }
}

} // verus!
