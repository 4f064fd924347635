//! The decision pipeline for one inbound message.
//!
//! [`decide_message`] runs the two components in sequence: the stateless
//! trigger evaluator first, and — only when the message qualifies as a fire
//! request — the author's cooldown gate, which records the firing when it
//! admits one. A message that does not qualify leaves the tracker untouched.

use vstd::prelude::*;

use crate::config::EngineConfig;
use crate::cooldown::{spec_try_fire, AdmissionResult, CooldownTracker};
use crate::trigger::{should_fire, spec_should_fire, Message};

verus! {

/// Decide what to do with one inbound message at clock reading `now`:
/// `None` when the message does not qualify as a fire request — the tracker
/// is left untouched — and otherwise the admission outcome for the message's
/// author, counted against that author's window.
pub fn decide_message(
    msg: &Message,
    config: &EngineConfig,
    tracker: &mut CooldownTracker,
    now: u64,
) -> (decision: Option<AdmissionResult>)
    requires
        old(tracker).wf(),
    ensures
        final(tracker).wf(),
        final(tracker).duration() == old(tracker).duration(),
        final(tracker).max_per_window() == old(tracker).max_per_window(),
        decision is None <==> !spec_should_fire(*msg, *config),
        !spec_should_fire(*msg, *config) ==> final(tracker).cooldowns() == old(
            tracker,
        ).cooldowns(),
        spec_should_fire(*msg, *config) ==> {
            let step = spec_try_fire(
                old(tracker).cooldowns(),
                msg.author_id,
                now,
                old(tracker).duration(),
                old(tracker).max_per_window(),
            );
            &&& final(tracker).cooldowns() == step.0
            &&& decision == Some(step.1)
        },
{
    if should_fire(msg, config) {
        Some(tracker.try_fire(msg.author_id, now))
    } else {
        None
    }
}

} // verus!
