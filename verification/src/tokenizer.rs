//! Turning a prompt into tokens.

use vstd::prelude::*;

use crate::settings::{encodes_safely, normalizes_safely, same_settings, test_settings};

verus! {

/// The tokens of a text.
#[derive(Debug)]
pub struct Encoding {
    pub ids: Vec<u32>,
    pub attention_mask: Vec<u32>,
    pub type_ids: Vec<u32>,
}

/// What an `Encoding` holds: the ids, the attention mask and the type ids.
pub type EncodingView = (Seq<u32>, Seq<u32>, Seq<u32>);

impl View for Encoding {
    type V = EncodingView;

    open spec fn view(&self) -> EncodingView {
        (self.ids@, self.attention_mask@, self.type_ids@)
    }
}

/// The outcome of an encoding, taken by its view.
pub open spec fn encoding_outcome(outcome: Result<Encoding, String>) -> Result<
    EncodingView,
    Seq<char>,
> {
    match outcome {
        Ok(encoding) => Ok(encoding@),
        Err(message) => Err(message@),
    }
}

/// `outcome` is one of those that a tokenizer can have on `text`, special tokens added. A
/// tokenizer set up with dropout has several on one text.
pub uninterp spec fn may_encode(
    tokenizer: tokenizers::Tokenizer,
    text: Seq<char>,
    outcome: Result<(Seq<u32>, Seq<u32>, Seq<u32>), Seq<char>>,
) -> bool;

/// A tokenizer after its added tokens were prepared for the search with its present normalizer.
pub uninterp spec fn refreshed(tokenizer: tokenizers::Tokenizer) -> tokenizers::Tokenizer;

/// The added tokens are searched for in the form that the present normalizer gives them.
pub open spec fn is_refreshed(tokenizer: tokenizers::Tokenizer) -> bool {
    exists|origin: tokenizers::Tokenizer| tokenizer == #[trigger] refreshed(origin)
}

/// `Tokenizer::add_tokens` on no token at all: the tokens that were added before are normalized
/// anew for the search, and the settings stay as they are. The normalizer must not panic.
#[verifier::external_body]
fn refresh_added_tokens(tokenizer: &mut tokenizers::Tokenizer)
    requires
        normalizes_safely(*old(tokenizer)),
    ensures
        *final(tokenizer) == refreshed(*old(tokenizer)),
        same_settings(*final(tokenizer), *old(tokenizer)),
{
    tokenizer.add_tokens(&[]);
}

/// `Tokenizer::encode` on a single text, special tokens added. Nothing more is claimed of its
/// outcome than that it is one which this tokenizer can have on this text. The tokenizer must be
/// set up so that `encode` panics on no text, and its added tokens be searched for as its
/// normalizer gives them.
#[verifier::external_body]
fn encode_text(tokenizer: &tokenizers::Tokenizer, text: &str) -> (outcome: Result<Encoding, String>)
    requires
        encodes_safely(*tokenizer),
        is_refreshed(*tokenizer),
    ensures
        may_encode(*tokenizer, text@, encoding_outcome(outcome)),
{
    match tokenizer.encode(text.to_string(), true) {
        Ok(encoding) => Ok(
            Encoding {
                ids: encoding.get_ids().to_vec(),
                attention_mask: encoding.get_attention_mask().to_vec(),
                type_ids: encoding.get_type_ids().to_vec(),
            },
        ),
        Err(error) => Err(error.to_string()),
    }
}

/// A tokenizer that encodes every text without panicking.
pub struct PromptTokenizer {
    inner: tokenizers::Tokenizer,
}

impl View for PromptTokenizer {
    type V = tokenizers::Tokenizer;

    closed spec fn view(&self) -> tokenizers::Tokenizer {
        self.inner
    }
}

impl PromptTokenizer {
    #[verifier::type_invariant]
    spec fn well_formed(self) -> bool {
        encodes_safely(self.inner) && is_refreshed(self.inner)
    }

    /// Takes a tokenizer over if it is set up so that it encodes every text without panicking.
    /// One whose normalizer was exchanged after tokens were added searches for those tokens with
    /// its present normalizer from then on.
    pub fn new(tokenizer: tokenizers::Tokenizer) -> (checked: Option<PromptTokenizer>)
        ensures
            checked is Some <==> encodes_safely(tokenizer),
            checked matches Some(kept) ==> kept@ == refreshed(tokenizer),
    {
        if test_settings(&tokenizer) {
            let mut inner = tokenizer;
            refresh_added_tokens(&mut inner);
            Some(PromptTokenizer { inner })
        } else {
            None
        }
    }

    /// Encodes `text`, special tokens added.
    pub fn encode(&self, text: &str) -> (outcome: Result<Encoding, String>)
        ensures
            may_encode(self@, text@, encoding_outcome(outcome)),
    {
        proof {
            use_type_invariant(self);
        }
        encode_text(&self.inner, text)
    }
}

/// An encoding is viewed whole: its ids, its attention mask and its type ids, each in its place.
pub proof fn law_encodings_are_viewed_whole(encoding: Encoding, reason: String)
    ensures
        encoding@.0 == encoding.ids@,
        encoding@.1 == encoding.attention_mask@,
        encoding@.2 == encoding.type_ids@,
        encoding_outcome(Ok(encoding)) == Ok::<EncodingView, Seq<char>>(
            (encoding.ids@, encoding.attention_mask@, encoding.type_ids@),
        ),
        encoding_outcome(Err(reason)) == Err::<EncodingView, Seq<char>>(reason@),
{
}

} // verus!
