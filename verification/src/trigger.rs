//! Stateless trigger evaluation.
//!
//! [`should_fire`] decides whether an inbound message qualifies as a fire
//! request: either the message mentions one of the configured operators, or
//! some token of its text, case-folded, equals one of the configured trigger
//! words. Tokens are maximal runs of word bytes (ASCII letters, digits and
//! underscore); matching is whole-token only, so a trigger word that is a
//! proper substring of a longer token does not match. Case folding is ASCII
//! lower-casing of the text's UTF-8 bytes.

use vstd::prelude::*;
use vstd::utf8::encode_utf8;

use crate::config::EngineConfig;

verus! {

/// An inbound message event, as the engine sees it: raw text, the author,
/// and the set of users the message mentions.
#[derive(Clone, Debug)]
pub struct Message {
    /// The raw message text; may be empty or contain no word bytes at all.
    pub text: String,
    /// Identifier of the message's author.
    pub author_id: u64,
    /// Identifiers of the users the message mentions.
    pub mentioned_user_ids: Vec<u64>,
}

/// A word byte: an ASCII letter, digit or underscore. Every other byte,
/// including every byte of a multi-byte UTF-8 sequence, delimits tokens.
pub open spec fn is_word_byte(b: u8) -> bool {
    ||| 0x61 <= b <= 0x7a  // 'a' ..= 'z'
    ||| 0x41 <= b <= 0x5a  // 'A' ..= 'Z'
    ||| 0x30 <= b <= 0x39  // '0' ..= '9'
    ||| b == 0x5f  // '_'
}

/// ASCII lower-casing of one byte.
pub open spec fn lower_byte(b: u8) -> u8 {
    if 0x41 <= b <= 0x5a {
        (b + 0x20) as u8
    } else {
        b
    }
}

/// ASCII lower-casing of a byte sequence.
pub open spec fn lower_bytes(s: Seq<u8>) -> Seq<u8> {
    s.map_values(|b: u8| lower_byte(b))
}

/// The half-open range `[i, j)` holds a token of `text`: a maximal run of
/// word bytes.
pub open spec fn is_token_at(text: Seq<u8>, i: int, j: int) -> bool {
    &&& 0 <= i < j <= text.len()
    &&& forall|k: int| i <= k < j ==> is_word_byte(#[trigger] text[k])
    &&& (i == 0 || !is_word_byte(text[i - 1]))
    &&& (j == text.len() || !is_word_byte(text[j]))
}

/// The token at `[i, j)` of `text`, case-folded, equals one of `words`.
pub open spec fn token_matches(text: Seq<u8>, words: Seq<Seq<u8>>, i: int, j: int) -> bool {
    is_token_at(text, i, j) && words.contains(lower_bytes(text.subrange(i, j)))
}

/// Some token of `text`, case-folded, equals one of `words`.
pub open spec fn text_has_trigger(text: Seq<u8>, words: Seq<Seq<u8>>) -> bool {
    exists|i: int, j: int| token_matches(text, words, i, j)
}

/// The mentioned-user set intersects the operator set.
pub open spec fn mentions_operator(mentioned: Seq<u64>, operators: Seq<u64>) -> bool {
    exists|u: u64| mentioned.contains(u) && operators.contains(u)
}

/// The byte sequences of a list of words.
pub open spec fn words_seq(words: Seq<Vec<u8>>) -> Seq<Seq<u8>> {
    words.map_values(|w: Vec<u8>| w@)
}

/// The UTF-8 bytes of the message text.
pub open spec fn message_bytes(msg: Message) -> Seq<u8> {
    encode_utf8(msg.text@)
}

/// Whether a message qualifies as a fire request: it mentions an operator,
/// or some token of its text, case-folded, equals a configured trigger word.
pub open spec fn spec_should_fire(msg: Message, config: EngineConfig) -> bool {
    ||| mentions_operator(msg.mentioned_user_ids@, config.operator_ids@)
    ||| text_has_trigger(message_bytes(msg), words_seq(config.trigger_words@))
}

/// Does `ids` contain `x`?
fn contains_id(ids: &Vec<u64>, x: u64) -> (r: bool)
    ensures
        r == ids@.contains(x),
{
    let mut k: usize = 0;
    while k < ids.len()
        invariant
            k <= ids@.len(),
            forall|j: int| 0 <= j < k ==> ids@[j] != x,
        decreases ids@.len() - k,
    {
        if ids[k] == x {
            return true;
        }
        k = k + 1;
    }
    false
}

/// Does the mentioned-user set intersect the operator set?
fn mentions_any_operator(mentioned: &Vec<u64>, operators: &Vec<u64>) -> (r: bool)
    ensures
        r == mentions_operator(mentioned@, operators@),
{
    let mut k: usize = 0;
    while k < mentioned.len()
        invariant
            k <= mentioned@.len(),
            forall|j: int| 0 <= j < k ==> !operators@.contains(#[trigger] mentioned@[j]),
        decreases mentioned@.len() - k,
    {
        if contains_id(operators, mentioned[k]) {
            return true;
        }
        k = k + 1;
    }
    proof {
        assert forall|u: u64| !(mentioned@.contains(u) && operators@.contains(u)) by {
            if mentioned@.contains(u) {
                let j = choose|j: int| 0 <= j < mentioned@.len() && mentioned@[j] == u;
                assert(!operators@.contains(mentioned@[j]));
            }
        }
    }
    false
}

/// Is `text[i]` a word byte?
fn is_word_byte_at(text: &[u8], i: usize) -> (r: bool)
    requires
        i < text@.len(),
    ensures
        r == is_word_byte(text@[i as int]),
{
    let b = text[i];
    (0x61 <= b && b <= 0x7a) || (0x41 <= b && b <= 0x5a) || (0x30 <= b && b <= 0x39) || b == 0x5f
}

/// ASCII lower-casing of a byte slice.
pub(crate) fn lower_bytes_vec(s: &[u8]) -> (r: Vec<u8>)
    ensures
        r@ == lower_bytes(s@),
{
    let mut r: Vec<u8> = Vec::new();
    let mut i: usize = 0;
    while i < s.len()
        invariant
            i <= s@.len(),
            r@.len() == i,
            forall|k: int| 0 <= k < i ==> r@[k] == lower_byte(#[trigger] s@[k]),
        decreases s@.len() - i,
    {
        let b = s[i];
        let lb: u8 = if 0x41 <= b && b <= 0x5a {
            b + 0x20
        } else {
            b
        };
        r.push(lb);
        i = i + 1;
    }
    proof {
        assert(r@ =~= lower_bytes(s@));
    }
    r
}

/// Does `word` equal the token `text[start .. end]`, case-folded?
fn word_eq_folded_token(word: &Vec<u8>, text: &[u8], start: usize, end: usize) -> (r: bool)
    requires
        start <= end <= text@.len(),
    ensures
        r == (word@ == lower_bytes(text@.subrange(start as int, end as int))),
{
    let ghost folded = lower_bytes(text@.subrange(start as int, end as int));
    if word.len() != end - start {
        return false;
    }
    let mut k: usize = 0;
    while k < word.len()
        invariant
            k <= word@.len(),
            word@.len() == end - start,
            start <= end <= text@.len(),
            folded == lower_bytes(text@.subrange(start as int, end as int)),
            forall|j: int| 0 <= j < k ==> word@[j] == folded[j],
        decreases word@.len() - k,
    {
        let b = text[start + k];
        let lb: u8 = if 0x41 <= b && b <= 0x5a {
            b + 0x20
        } else {
            b
        };
        if word[k] != lb {
            proof {
                assert(folded[k as int] == lower_byte(text@.subrange(start as int, end as int)[k as int]));
            }
            return false;
        }
        k = k + 1;
    }
    proof {
        assert(word@ =~= folded);
    }
    true
}

/// Does any of `words` equal the token `text[start .. end]`, case-folded?
fn any_word_matches(words: &Vec<Vec<u8>>, text: &[u8], start: usize, end: usize) -> (r: bool)
    requires
        start <= end <= text@.len(),
    ensures
        r == words_seq(words@).contains(lower_bytes(text@.subrange(start as int, end as int))),
{
    let ghost folded = lower_bytes(text@.subrange(start as int, end as int));
    let mut k: usize = 0;
    while k < words.len()
        invariant
            k <= words@.len(),
            start <= end <= text@.len(),
            folded == lower_bytes(text@.subrange(start as int, end as int)),
            forall|j: int| 0 <= j < k ==> words_seq(words@)[j] != folded,
        decreases words@.len() - k,
    {
        if word_eq_folded_token(&words[k], text, start, end) {
            proof {
                assert(words_seq(words@)[k as int] == folded);
            }
            return true;
        }
        k = k + 1;
    }
    proof {
        if words_seq(words@).contains(folded) {
            let j = choose|j: int| 0 <= j < words_seq(words@).len() && words_seq(words@)[j]
                == folded;
            assert(words_seq(words@)[j] != folded);
        }
    }
    false
}

/// Does some token of `text`, case-folded, equal one of `words`?
fn has_trigger_token(text: &[u8], words: &Vec<Vec<u8>>) -> (r: bool)
    ensures
        r == text_has_trigger(text@, words_seq(words@)),
{
    let n = text.len();
    let mut i: usize = 0;
    while i < n
        invariant
            i <= n,
            n == text@.len(),
            forall|a: int, b: int| token_matches(text@, words_seq(words@), a, b) ==> a >= i,
            i < n ==> i == 0 || !is_word_byte(text@[i - 1]) || !is_word_byte(text@[i as int]),
        decreases n - i,
    {
        if is_word_byte_at(text, i) {
            let start = i;
            while i < n && is_word_byte_at(text, i)
                invariant
                    start < n,
                    start <= i <= n,
                    n == text@.len(),
                    is_word_byte(text@[start as int]),
                    forall|k: int| start <= k < i ==> is_word_byte(#[trigger] text@[k]),
                    start == 0 || !is_word_byte(text@[start - 1]),
                    forall|a: int, b: int|
                        token_matches(text@, words_seq(words@), a, b) ==> a >= start,
                decreases n - i,
            {
                i = i + 1;
            }
            proof {
                assert(is_token_at(text@, start as int, i as int));
            }
            if any_word_matches(words, text, start, i) {
                proof {
                    assert(token_matches(text@, words_seq(words@), start as int, i as int));
                }
                return true;
            }
            proof {
                assert forall|a: int, b: int|
                    token_matches(text@, words_seq(words@), a, b) implies a >= i by {
                    if a < i {
                        // A token cannot start strictly inside the word run
                        // [start, i), and the token starting at `start` must
                        // end exactly at `i`, where it was found not to match.
                        assert(a >= start);
                        if a > start {
                            assert(is_word_byte(text@[a - 1]));
                        } else {
                            if b < i as int {
                                assert(is_word_byte(text@[b]));
                            }
                            if b > i as int {
                                assert(is_word_byte(text@[i as int]));
                            }
                            assert(b == i as int);
                        }
                    }
                }
            }
        } else {
            i = i + 1;
        }
    }
    proof {
        if text_has_trigger(text@, words_seq(words@)) {
            let (a, b) = choose|a: int, b: int| token_matches(text@, words_seq(words@), a, b);
            assert(a >= n);
            assert(b <= n);
        }
    }
    false
}

/// Decide whether `msg` qualifies as a fire request under `config`: true
/// exactly when the message mentions a configured operator, or some token of
/// its text, case-folded, equals a configured trigger word. Stateless; reads
/// only the immutable configuration.
pub fn should_fire(msg: &Message, config: &EngineConfig) -> (fire: bool)
    ensures
        fire == spec_should_fire(*msg, *config),
{
    if mentions_any_operator(&msg.mentioned_user_ids, &config.operator_ids) {
        return true;
    }
    let bytes: &[u8] = msg.text.as_str().as_bytes();
    has_trigger_token(bytes, &config.trigger_words)
}

/// If some token of the message text, case-folded, equals a configured
/// trigger word, the message qualifies as a fire request.
pub proof fn lemma_trigger_word_fires(msg: Message, config: EngineConfig)
    requires
        exists|i: int, j: int|
            token_matches(message_bytes(msg), words_seq(config.trigger_words@), i, j),
    ensures
        spec_should_fire(msg, config),
{
}

/// If the message mentions a configured operator, it qualifies as a fire
/// request, whatever its text holds.
pub proof fn lemma_operator_mention_fires(msg: Message, config: EngineConfig)
    requires
        mentions_operator(msg.mentioned_user_ids@, config.operator_ids@),
    ensures
        spec_should_fire(msg, config),
{
}

/// A message with empty text and no operator mention never qualifies as a
/// fire request.
pub proof fn lemma_empty_message_never_fires(msg: Message, config: EngineConfig)
    requires
        msg.text@.len() == 0,
        !mentions_operator(msg.mentioned_user_ids@, config.operator_ids@),
    ensures
        !spec_should_fire(msg, config),
{
    assert(message_bytes(msg).len() == 0);
    assert forall|i: int, j: int|
        !token_matches(message_bytes(msg), words_seq(config.trigger_words@), i, j) by {
        assert(!(0 <= i < j <= 0));
    }
}

} // verus!
