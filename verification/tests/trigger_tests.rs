use shock_engine::config::{ConfigError, EngineConfig};
use shock_engine::trigger::{should_fire, Message};

fn config(operators: Vec<u64>, words: Vec<&str>) -> EngineConfig {
    EngineConfig::new(
        operators,
        words.into_iter().map(|w| w.to_string()).collect(),
        60,
        2,
    )
    .unwrap()
}

fn message(text: &str, mentions: Vec<u64>) -> Message {
    Message {
        text: text.to_string(),
        author_id: 1,
        mentioned_user_ids: mentions,
    }
}

#[test]
fn trigger_word_fires() {
    let cfg = config(vec![], vec!["cat"]);
    assert!(should_fire(&message("the cat sat", vec![]), &cfg));
}

#[test]
fn trigger_word_fires_case_folded() {
    let cfg = config(vec![], vec!["cat"]);
    assert!(should_fire(&message("The CAT sat", vec![]), &cfg));
    assert!(should_fire(&message("CaT", vec![]), &cfg));
}

#[test]
fn configured_word_is_normalized_at_load() {
    let cfg = config(vec![], vec!["CaT"]);
    assert!(should_fire(&message("cat", vec![]), &cfg));
}

#[test]
fn operator_mention_fires_without_trigger_word() {
    let cfg = config(vec![42], vec!["cat"]);
    assert!(should_fire(&message("nothing of note", vec![7, 42]), &cfg));
    assert!(should_fire(&message("", vec![42]), &cfg));
}

#[test]
fn non_operator_mention_does_not_fire() {
    let cfg = config(vec![42], vec!["cat"]);
    assert!(!should_fire(&message("nothing of note", vec![7, 9]), &cfg));
}

#[test]
fn empty_text_no_mention_does_not_fire() {
    let cfg = config(vec![42], vec!["cat"]);
    assert!(!should_fire(&message("", vec![]), &cfg));
}

#[test]
fn whitespace_only_text_does_not_fire() {
    let cfg = config(vec![], vec!["cat"]);
    assert!(!should_fire(&message("  \t \n ,,!!", vec![]), &cfg));
}

#[test]
fn substring_does_not_match() {
    let cfg = config(vec![], vec!["cat"]);
    assert!(!should_fire(&message("category", vec![]), &cfg));
    assert!(!should_fire(&message("a bobcat", vec![]), &cfg));
    assert!(!should_fire(&message("cat_5", vec![]), &cfg));
}

#[test]
fn punctuation_delimits_tokens() {
    let cfg = config(vec![], vec!["cat"]);
    assert!(should_fire(&message("cat!", vec![]), &cfg));
    assert!(should_fire(&message("(cat)", vec![]), &cfg));
    assert!(should_fire(&message("dog,cat,mouse", vec![]), &cfg));
}

#[test]
fn non_ascii_bytes_delimit_tokens() {
    let cfg = config(vec![], vec!["caf"]);
    assert!(should_fire(&message("café", vec![]), &cfg));
}

#[test]
fn digits_and_underscore_are_word_bytes() {
    let cfg = config(vec![], vec!["b2", "snake_case"]);
    assert!(should_fire(&message("plan b2 today", vec![]), &cfg));
    assert!(should_fire(&message("use snake_case here", vec![]), &cfg));
    assert!(!should_fire(&message("b29", vec![]), &cfg));
}

#[test]
fn zero_window_duration_is_rejected() {
    let result = EngineConfig::new(vec![], vec!["cat".to_string()], 0, 2);
    assert_eq!(result.unwrap_err(), ConfigError::WindowDurationZero);
}

#[test]
fn valid_config_keeps_fields() {
    let cfg = EngineConfig::new(vec![3, 4], vec!["Cat".to_string()], 90, 5).unwrap();
    assert_eq!(cfg.operator_ids, vec![3, 4]);
    assert_eq!(cfg.window_duration_seconds, 90);
    assert_eq!(cfg.max_fires_per_window, 5);
    assert_eq!(cfg.trigger_words, vec![b"cat".to_vec()]);
}
