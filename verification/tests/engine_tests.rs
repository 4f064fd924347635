use shock_engine::config::EngineConfig;
use shock_engine::cooldown::{AdmissionResult, CooldownTracker};
use shock_engine::engine::decide_message;
use shock_engine::trigger::Message;

fn config() -> EngineConfig {
    EngineConfig::new(vec![42], vec!["shock".to_string()], 60, 1).unwrap()
}

fn message(text: &str, author: u64, mentions: Vec<u64>) -> Message {
    Message {
        text: text.to_string(),
        author_id: author,
        mentioned_user_ids: mentions,
    }
}

#[test]
fn non_matching_message_is_a_no_op() {
    let cfg = config();
    let mut tracker = CooldownTracker::new(60, 1);
    let quiet = message("nothing here", 7, vec![]);
    assert_eq!(decide_message(&quiet, &cfg, &mut tracker, 100), None);
    assert_eq!(decide_message(&quiet, &cfg, &mut tracker, 101), None);
    // The no-ops above left the tracker untouched: the author's first real
    // fire request is still admitted.
    let loud = message("SHOCK me", 7, vec![]);
    assert_eq!(
        decide_message(&loud, &cfg, &mut tracker, 102),
        Some(AdmissionResult::Allowed)
    );
}

#[test]
fn matching_message_is_gated_per_author() {
    let cfg = config();
    let mut tracker = CooldownTracker::new(60, 1);
    let loud = message("shock!", 7, vec![]);
    assert_eq!(
        decide_message(&loud, &cfg, &mut tracker, 100),
        Some(AdmissionResult::Allowed)
    );
    assert_eq!(
        decide_message(&loud, &cfg, &mut tracker, 110),
        Some(AdmissionResult::Denied {
            seconds_remaining: 50
        })
    );
    let other_author = message("shock!", 8, vec![]);
    assert_eq!(
        decide_message(&other_author, &cfg, &mut tracker, 110),
        Some(AdmissionResult::Allowed)
    );
}

#[test]
fn operator_mention_reaches_the_gate_without_a_trigger_word() {
    let cfg = config();
    let mut tracker = CooldownTracker::new(60, 1);
    let mention = message("hello", 7, vec![42]);
    assert_eq!(
        decide_message(&mention, &cfg, &mut tracker, 100),
        Some(AdmissionResult::Allowed)
    );
}
