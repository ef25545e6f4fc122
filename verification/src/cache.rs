//! The entries of the answer cache and what is read back of them.

use vstd::prelude::*;

use crate::constants::{PROMPT_KEY, RESPONSE_KEY};
use crate::text::text_view;

verus! {

/// The payload that goes into the vector database with a vector.
#[verifier::external_type_specification]
#[verifier::external_body]
pub struct ExPayload(qdrant_client::Payload);

/// A hit of a search in the vector database.
#[verifier::external_type_specification]
#[verifier::external_body]
pub struct ExScoredPoint(qdrant_client::qdrant::ScoredPoint);

/// What a payload holds under each of its keys: a text, or something else (`None`).
pub uninterp spec fn payload_texts(payload: qdrant_client::Payload) -> Map<
    Seq<char>,
    Option<Seq<char>>,
>;

/// What the payload of a hit holds under each of its keys: a text, or something else (`None`).
pub uninterp spec fn hit_texts(hit: qdrant_client::qdrant::ScoredPoint) -> Map<
    Seq<char>,
    Option<Seq<char>>,
>;

/// A payload that holds nothing.
pub open spec fn no_texts() -> Map<Seq<char>, Option<Seq<char>>> {
    Map::empty()
}

/// The text that stands under `key`, if there is one.
pub open spec fn text_under(texts: Map<Seq<char>, Option<Seq<char>>>, key: Seq<char>) -> Option<
    Seq<char>,
> {
    if texts.contains_key(key) {
        texts[key]
    } else {
        None
    }
}

/// `Payload::new`: a payload without any key.
#[verifier::external_body]
fn empty_payload() -> (payload: qdrant_client::Payload)
    ensures
        payload_texts(payload) == no_texts(),
{
    qdrant_client::Payload::new()
}

/// `Payload::insert` with a text: the key then holds that text, and all other keys what they held.
#[verifier::external_body]
fn insert_text(payload: &mut qdrant_client::Payload, key: &str, text: String)
    ensures
        payload_texts(*final(payload)) == payload_texts(*old(payload)).insert(key@, Some(text@)),
{
    payload.insert(key, text)
}

/// `ScoredPoint::try_get` and `Value::as_str`: the text under `key` in the hit's payload; none
/// where the key is missing or holds something other than a text.
#[verifier::external_body]
fn read_text(hit: &qdrant_client::qdrant::ScoredPoint, key: &str) -> (text: Option<String>)
    ensures
        text_view(text) == text_under(hit_texts(*hit), key@),
{
    hit.try_get(key).and_then(|value| value.as_str()).cloned()
}

/// What the cache entry for an answer holds: the prompt and the answer.
pub open spec fn entry_texts(prompt: Seq<char>, answer: Seq<char>) -> Map<
    Seq<char>,
    Option<Seq<char>>,
> {
    no_texts().insert(PROMPT_KEY@, Some(prompt)).insert(RESPONSE_KEY@, Some(answer))
}

/// The cached answer that a hit carries, if it carries one.
pub open spec fn cached_answer(hit: qdrant_client::qdrant::ScoredPoint) -> Option<Seq<char>> {
    text_under(hit_texts(hit), RESPONSE_KEY@)
}

/// Makes the cache entry for an answer.
pub fn cache_entry(prompt: String, answer: String) -> (payload: qdrant_client::Payload)
    ensures
        payload_texts(payload) == entry_texts(prompt@, answer@),
        payload_texts(payload).dom() =~= set!["prompt"@, "response"@],
        payload_texts(payload)["prompt"@] == Some(prompt@),
        payload_texts(payload)["response"@] == Some(answer@),
{
    proof {
        reveal_strlit("prompt");
        reveal_strlit("response");
        assert("prompt"@.len() != "response"@.len());
    }
    let mut payload = empty_payload();
    insert_text(&mut payload, PROMPT_KEY, prompt);
    insert_text(&mut payload, RESPONSE_KEY, answer);
    payload
}

/// Reads the cached answer of a hit.
pub fn read_answer(hit: &qdrant_client::qdrant::ScoredPoint) -> (answer: Option<String>)
    ensures
        text_view(answer) == cached_answer(*hit),
        answer matches Some(text) ==> hit_texts(*hit).contains_key("response"@) && hit_texts(
            *hit,
        )["response"@] == Some(text@),
        answer is None ==> !hit_texts(*hit).contains_key("response"@) || hit_texts(
            *hit,
        )["response"@] is None,
{
    read_text(hit, RESPONSE_KEY)
}

/// A hit that carries the payload of a cache entry gives back the answer the entry was made for.
pub proof fn law_a_hit_gives_back_the_stored_answer(
    payload: qdrant_client::Payload,
    hit: qdrant_client::qdrant::ScoredPoint,
    prompt: Seq<char>,
    answer: Seq<char>,
)
    requires
        payload_texts(payload) == entry_texts(prompt, answer),
        hit_texts(hit) == payload_texts(payload),
    ensures
        cached_answer(hit) == Some(answer),
{
}

/// A cache entry holds the whole prompt under "prompt" and the whole answer under "response", and
/// nothing else.
pub proof fn law_an_entry_holds_prompt_and_answer(
    prompt: String,
    answer: String,
    payload: qdrant_client::Payload,
)
    requires
        call_ensures(cache_entry, (prompt, answer), payload),
    ensures
        payload_texts(payload).dom() =~= set!["prompt"@, "response"@],
        payload_texts(payload)["prompt"@] == Some(prompt@),
        payload_texts(payload)["response"@] == Some(answer@),
{
}

/// What is read of a hit is the whole text under "response"; nothing is read where there is none,
/// whatever else the hit holds.
pub proof fn law_the_answer_stands_under_response(
    hit: qdrant_client::qdrant::ScoredPoint,
    answer: Option<String>,
)
    requires
        call_ensures(read_answer, (&hit,), answer),
    ensures
        answer matches Some(text) ==> hit_texts(hit).contains_key("response"@) && hit_texts(
            hit,
        )["response"@] == Some(text@),
        answer is None ==> !hit_texts(hit).contains_key("response"@) || hit_texts(
            hit,
        )["response"@] is None,
{
}

/// The answer that is read of a hit does not depend on anything but the text under "response".
pub proof fn law_other_texts_of_a_hit_are_ignored(
    hit: qdrant_client::qdrant::ScoredPoint,
    other: qdrant_client::qdrant::ScoredPoint,
)
    requires
        hit_texts(hit).contains_key("response"@) == hit_texts(other).contains_key("response"@),
        hit_texts(hit)["response"@] == hit_texts(other)["response"@],
    ensures
        cached_answer(hit) == cached_answer(other),
{
}

/// The texts of an entry are the whole prompt and the whole answer, so entries for different
/// prompts or answers differ.
pub proof fn law_entries_are_told_apart(
    prompt: Seq<char>,
    answer: Seq<char>,
    other_prompt: Seq<char>,
    other_answer: Seq<char>,
)
    ensures
        entry_texts(prompt, answer).dom() =~= set!["prompt"@, "response"@],
        entry_texts(prompt, answer)["prompt"@] == Some(prompt),
        entry_texts(prompt, answer)["response"@] == Some(answer),
        entry_texts(prompt, answer) == entry_texts(other_prompt, other_answer) <==> prompt
            == other_prompt && answer == other_answer,
{
    reveal_strlit("prompt");
    reveal_strlit("response");
    assert("prompt"@.len() != "response"@.len());
    let entry = entry_texts(prompt, answer);
    let other = entry_texts(other_prompt, other_answer);
    assert(entry["prompt"@] == Some(prompt) && entry["response"@] == Some(answer));
    assert(other["prompt"@] == Some(other_prompt) && other["response"@] == Some(other_answer));
}

/// What stands under a key is what the texts hold there, and nothing where the key is missing.
pub proof fn law_texts_stand_under_their_key(
    texts: Map<Seq<char>, Option<Seq<char>>>,
    key: Seq<char>,
    text: Option<Seq<char>>,
)
    ensures
        text_under(texts.insert(key, text), key) == text,
        text_under(texts.remove(key), key) is None,
        no_texts() == Map::<Seq<char>, Option<Seq<char>>>::empty(),
{
}

/// The cached answer of a hit is the text under "response", and none without one.
pub proof fn law_cached_answers_stand_under_response(hit: qdrant_client::qdrant::ScoredPoint)
    ensures
        cached_answer(hit) == (if hit_texts(hit).contains_key("response"@) {
            hit_texts(hit)["response"@]
        } else {
            None
        }),
{
}

} // verus!
