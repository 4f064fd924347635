//! Validated engine configuration.
//!
//! [`EngineConfig::new`] is the only way configuration enters the engine. It
//! rejects a window duration of zero — a malformed configuration is a
//! startup-time failure, never a silent "always deny" — and normalizes every
//! trigger word to its ASCII lower case once at load time, so that matching
//! against case-folded message tokens is a plain equality.

use vstd::prelude::*;
use vstd::utf8::encode_utf8;

use crate::trigger::{lower_bytes, lower_bytes_vec};

verus! {

/// Why a configuration was rejected.
#[derive(Clone, Copy, Debug, PartialEq, Eq, Structural)]
pub enum ConfigError {
    /// The window duration must be at least one second.
    WindowDurationZero,
}

/// The immutable configuration of the engine: loaded once, shared read-only
/// across all evaluations.
#[derive(Clone, Debug)]
pub struct EngineConfig {
    /// Users whose mention in a message always qualifies it as a fire
    /// request, regardless of content.
    pub operator_ids: Vec<u64>,
    /// Trigger words as lower-cased UTF-8 bytes; a message qualifies if any
    /// of its tokens, case-folded, equals a member.
    pub trigger_words: Vec<Vec<u8>>,
    /// Length of each user's counting window, in seconds; always positive.
    pub window_duration_seconds: u64,
    /// Number of firings admitted per user and window; zero means "never
    /// allow".
    pub max_fires_per_window: u32,
}

impl EngineConfig {
    /// Validate and normalize a configuration. Returns an error exactly when
    /// `window_duration_seconds` is zero; otherwise every trigger word is
    /// stored as its ASCII lower-cased UTF-8 bytes and the remaining fields
    /// are taken as given.
    pub fn new(
        operator_ids: Vec<u64>,
        trigger_words: Vec<String>,
        window_duration_seconds: u64,
        max_fires_per_window: u32,
    ) -> (result: Result<EngineConfig, ConfigError>)
        ensures
            result is Ok <==> window_duration_seconds > 0,
            result matches Ok(c) ==> {
                &&& c.operator_ids == operator_ids
                &&& c.window_duration_seconds == window_duration_seconds
                &&& c.max_fires_per_window == max_fires_per_window
                &&& c.trigger_words@.len() == trigger_words@.len()
                &&& forall|i: int|
                    0 <= i < trigger_words@.len() ==> (#[trigger] c.trigger_words@[i])@
                        == lower_bytes(encode_utf8(trigger_words@[i]@))
            },
            result matches Err(e) ==> e == ConfigError::WindowDurationZero,
    {
        if window_duration_seconds == 0 {
            return Err(ConfigError::WindowDurationZero);
        }
        let mut words: Vec<Vec<u8>> = Vec::new();
        let mut i: usize = 0;
        while i < trigger_words.len()
            invariant
                i <= trigger_words@.len(),
                words@.len() == i,
                forall|k: int|
                    0 <= k < i ==> (#[trigger] words@[k])@ == lower_bytes(
                        encode_utf8(trigger_words@[k]@),
                    ),
            decreases trigger_words@.len() - i,
        {
            let w = lower_bytes_vec(trigger_words[i].as_str().as_bytes());
            words.push(w);
            i = i + 1;
        }
        Ok(
            EngineConfig {
                operator_ids,
                trigger_words: words,
                window_duration_seconds,
                max_fires_per_window,
            },
        )
    }
}

} // verus!
