//! What a tokenizer is set up with, and whether it can encode every text.
//!
//! `Tokenizer::encode` panics with some settings that a tokenizer can be read with. The settings
//! are read as plain values here and tested before a tokenizer is used.

use vstd::prelude::*;

use tokenizers::normalizers::replace::ReplacePattern;
use tokenizers::normalizers::NormalizerWrapper;
use tokenizers::pre_tokenizers::split::{Split, SplitPattern};
use tokenizers::pre_tokenizers::PreTokenizerWrapper;
use tokenizers::processors::template::{Piece, Sequence, Template, TemplateProcessing};
use tokenizers::processors::PostProcessorWrapper;
use tokenizers::utils::padding::PaddingStrategy;
use tokenizers::utils::truncation::TruncationStrategy;
use tokenizers::NormalizedString;
use tokenizers::Normalizer;
use tokenizers::PostProcessor;

use crate::text::{is_white_space, same_text, text_view};

verus! {

/// The tokenizer, which the library hands texts to and never looks into.
#[verifier::external_type_specification]
#[verifier::external_body]
pub struct ExTokenizer(tokenizers::Tokenizer);

/// A step that rewrites a text before it is split.
#[verifier::external_type_specification]
#[verifier::external_body]
pub struct ExNormalizerWrapper(tokenizers::normalizers::NormalizerWrapper);

/// A step that splits a text before it is tokenized.
#[verifier::external_type_specification]
#[verifier::external_body]
pub struct ExPreTokenizerWrapper(tokenizers::pre_tokenizers::PreTokenizerWrapper);

/// A step that splits a text at a pattern.
#[verifier::external_type_specification]
#[verifier::external_body]
pub struct ExSplit(tokenizers::pre_tokenizers::split::Split);

/// A step that completes the tokens of a text.
#[verifier::external_type_specification]
#[verifier::external_body]
pub struct ExPostProcessorWrapper(tokenizers::processors::PostProcessorWrapper);

/// A step that completes the tokens of a text after a template.
#[verifier::external_type_specification]
#[verifier::external_body]
pub struct ExTemplateProcessing(tokenizers::processors::template::TemplateProcessing);

/// The places that tokens are put into.
#[verifier::external_type_specification]
#[verifier::external_body]
pub struct ExTemplate(tokenizers::processors::template::Template);

/// How deep a sequence may lie within others. No file holds deeper ones, since JSON is read to as
/// many levels and a sequence takes two of them.
pub const MAX_NESTING: usize = 128;

// Normalizers.

/// The kinds of normalizers. The four Unicode normalization forms are one kind.
#[derive(Clone, Copy, Debug, PartialEq, Eq, Structural)]
pub enum NormalizerKind {
    Bert,
    Strip,
    StripAccents,
    UnicodeForm,
    Sequence,
    Lowercase,
    Nmt,
    Precompiled,
    Replace,
    Prepend,
    ByteLevel,
}

/// The normalizer of a tokenizer, if it has one.
pub uninterp spec fn normalizer_of(tokenizer: tokenizers::Tokenizer) -> Option<NormalizerWrapper>;

/// The kind of a normalizer.
pub uninterp spec fn normalizer_kind_of(normalizer: NormalizerWrapper) -> NormalizerKind;

/// The members of a normalizer that is a sequence, in order; none of any other.
pub uninterp spec fn normalizer_members_of(normalizer: NormalizerWrapper) -> Seq<
    NormalizerWrapper,
>;

/// The text that a normalizer replaces, if it replaces one that is given literally.
pub uninterp spec fn replaced_text_of(normalizer: NormalizerWrapper) -> Option<Seq<char>>;

/// The text that a normalizer puts in front, if it is one that does so.
pub uninterp spec fn prepended_text_of(normalizer: NormalizerWrapper) -> Option<Seq<char>>;

/// What a normalizer makes of a text.
pub uninterp spec fn normalized_by(normalizer: NormalizerWrapper, text: Seq<char>) -> Seq<char>;

/// The normalizer keeps track of where each character comes from, which `encode` relies on.
///
/// A replacement of nothing and an empty text put in front lose that track at the start of a text.
/// A regular expression to replace can match nothing there, and the table of a `Precompiled` can
/// lead out of itself: neither shows whether it does, and both are refused.
pub open spec fn is_safe_normalizer(normalizer: NormalizerWrapper, depth: nat) -> bool
    decreases depth,
{
    match normalizer_kind_of(normalizer) {
        NormalizerKind::Sequence => depth > 0 && forall|i: int|
            0 <= i < normalizer_members_of(normalizer).len() ==> is_safe_normalizer(
                #[trigger] normalizer_members_of(normalizer)[i],
                (depth - 1) as nat,
            ),
        NormalizerKind::Precompiled => false,
        NormalizerKind::Replace => replaced_text_of(normalizer) matches Some(text) && text.len()
            > 0,
        NormalizerKind::Prepend => prepended_text_of(normalizer) matches Some(text) && text.len()
            > 0,
        _ => true,
    }
}

/// `Tokenizer::get_normalizer`.
#[verifier::external_body]
fn read_normalizer(tokenizer: &tokenizers::Tokenizer) -> (normalizer: Option<&NormalizerWrapper>)
    ensures
        normalizer is Some <==> normalizer_of(*tokenizer) is Some,
        normalizer matches Some(part) ==> normalizer_of(*tokenizer) == Some(*part),
{
    tokenizer.get_normalizer()
}

/// The variant of a `NormalizerWrapper`.
#[verifier::external_body]
fn normalizer_kind(normalizer: &NormalizerWrapper) -> (kind: NormalizerKind)
    ensures
        kind == normalizer_kind_of(*normalizer),
{
    match normalizer {
        NormalizerWrapper::BertNormalizer(_) => NormalizerKind::Bert,
        NormalizerWrapper::StripNormalizer(_) => NormalizerKind::Strip,
        NormalizerWrapper::StripAccents(_) => NormalizerKind::StripAccents,
        NormalizerWrapper::NFC(_) | NormalizerWrapper::NFD(_) => NormalizerKind::UnicodeForm,
        NormalizerWrapper::NFKC(_) | NormalizerWrapper::NFKD(_) => NormalizerKind::UnicodeForm,
        NormalizerWrapper::Sequence(_) => NormalizerKind::Sequence,
        NormalizerWrapper::Lowercase(_) => NormalizerKind::Lowercase,
        NormalizerWrapper::Nmt(_) => NormalizerKind::Nmt,
        NormalizerWrapper::Precompiled(_) => NormalizerKind::Precompiled,
        NormalizerWrapper::Replace(_) => NormalizerKind::Replace,
        NormalizerWrapper::Prepend(_) => NormalizerKind::Prepend,
        NormalizerWrapper::ByteLevel(_) => NormalizerKind::ByteLevel,
    }
}

/// `Sequence::as_ref` of `NormalizerWrapper::Sequence`; nothing of any other variant.
#[verifier::external_body]
fn read_normalizer_members(normalizer: &NormalizerWrapper) -> (members: Vec<&NormalizerWrapper>)
    ensures
        members@.len() == normalizer_members_of(*normalizer).len(),
        forall|i: int|
            0 <= i < members@.len() ==> *(#[trigger] members@[i]) == normalizer_members_of(
                *normalizer,
            )[i],
{
    match normalizer {
        NormalizerWrapper::Sequence(sequence) => sequence.as_ref().iter().collect(),
        _ => vec![],
    }
}

/// The pattern of `NormalizerWrapper::Replace`, which its serialized form shows, where it is a
/// `ReplacePattern::String`.
#[verifier::external_body]
fn read_replaced_text(normalizer: &NormalizerWrapper) -> (text: Option<String>)
    ensures
        text_view(text) == replaced_text_of(*normalizer),
{
    match normalizer {
        NormalizerWrapper::Replace(part) => {
            let value = serde_json::to_value(part).unwrap();
            match serde_json::from_value(value["pattern"].clone()).unwrap() {
                ReplacePattern::String(text) => Some(text),
                ReplacePattern::Regex(_) => None,
            }
        },
        _ => None,
    }
}

/// `Prepend::prepend` of `NormalizerWrapper::Prepend`; nothing of any other variant.
#[verifier::external_body]
fn read_prepended_text(normalizer: &NormalizerWrapper) -> (text: Option<String>)
    ensures
        text_view(text) == prepended_text_of(*normalizer),
{
    match normalizer {
        NormalizerWrapper::Prepend(part) => Some(part.prepend.clone()),
        _ => None,
    }
}

/// `Normalizer::normalize` on a text of its own. The normalizers that are safe do not fail.
#[verifier::external_body]
fn normalize_text(normalizer: &NormalizerWrapper, text: &str) -> (normalized: String)
    requires
        is_safe_normalizer(*normalizer, MAX_NESTING as nat),
    ensures
        normalized@ == normalized_by(*normalizer, text@),
{
    let mut normalized = NormalizedString::from(text);
    normalizer.normalize(&mut normalized).unwrap();
    normalized.get().to_string()
}

/// The tokenizer has no normalizer or a safe one.
pub open spec fn normalizes_safely(tokenizer: tokenizers::Tokenizer) -> bool {
    normalizer_of(tokenizer) matches Some(normalizer) ==> is_safe_normalizer(
        normalizer,
        MAX_NESTING as nat,
    )
}

fn has_characters(text: &Option<String>) -> (found: bool)
    ensures
        found == (text_view(*text) matches Some(text) && text.len() > 0),
{
    match text {
        Some(text) => {
            let len: usize = text.as_str().unicode_len();
            len > 0
        },
        None => false,
    }
}

fn test_normalizer(normalizer: &NormalizerWrapper, depth: usize) -> (safe: bool)
    ensures
        safe == is_safe_normalizer(*normalizer, depth as nat),
    decreases depth,
{
    match normalizer_kind(normalizer) {
        NormalizerKind::Sequence => {
            if depth == 0 {
                return false;
            }
            let members = read_normalizer_members(normalizer);
            let ghost parts = normalizer_members_of(*normalizer);
            for i in 0..members.len()
                invariant
                    depth > 0,
                    parts == normalizer_members_of(*normalizer),
                    normalizer_kind_of(*normalizer) == NormalizerKind::Sequence,
                    members@.len() == parts.len(),
                    forall|j: int|
                        0 <= j < members@.len() ==> *(#[trigger] members@[j]) == parts[j],
                    forall|j: int|
                        0 <= j < i ==> is_safe_normalizer(
                            #[trigger] parts[j],
                            (depth - 1) as nat,
                        ),
            {
                assert(*members@[i as int] == parts[i as int]);
                if !test_normalizer(members[i], depth - 1) {
                    return false;
                }
            }
            true
        },
        NormalizerKind::Precompiled => false,
        NormalizerKind::Replace => has_characters(&read_replaced_text(normalizer)),
        NormalizerKind::Prepend => has_characters(&read_prepended_text(normalizer)),
        _ => true,
    }
}

fn test_normalizers(tokenizer: &tokenizers::Tokenizer) -> (safe: bool)
    ensures
        safe == normalizes_safely(*tokenizer),
{
    match read_normalizer(tokenizer) {
        Some(normalizer) => test_normalizer(normalizer, MAX_NESTING),
        None => true,
    }
}

// Added tokens.

/// The texts of the tokens that were added to a tokenizer's vocabulary.
pub uninterp spec fn added_texts_of(tokenizer: tokenizers::Tokenizer) -> Set<Seq<char>>;

/// Whether white space is taken away before and behind added tokens: the pairs of both answers
/// that occur among them.
pub uninterp spec fn added_strips_of(tokenizer: tokenizers::Tokenizer) -> Set<(bool, bool)>;

/// `texts` are the members of `set`, in any order.
pub open spec fn lists(texts: Seq<String>, set: Set<Seq<char>>) -> bool {
    &&& forall|i: int| 0 <= i < texts.len() ==> set.contains((#[trigger] texts[i])@)
    &&& forall|text: Seq<char>| #[trigger]
        set.contains(text) ==> exists|i: int| 0 <= i < texts.len() && texts[i]@ == text
}

/// White space is taken away before some added token and behind some added token.
pub open spec fn strips_both_sides(strips: Set<(bool, bool)>) -> bool {
    &&& strips.contains((true, false)) || strips.contains((true, true))
    &&& strips.contains((false, true)) || strips.contains((true, true))
}

/// What the tokenizer's normalizer makes of a text.
pub open spec fn normalized_text(tokenizer: tokenizers::Tokenizer, text: Seq<char>) -> Seq<char> {
    match normalizer_of(tokenizer) {
        Some(normalizer) => normalized_by(normalizer, text),
        None => text,
    }
}

/// The text has a character other than white space.
pub open spec fn is_visible(text: Seq<char>) -> bool {
    exists|i: int| 0 <= i < text.len() && !is_white_space(#[trigger] text[i])
}

/// An added token is searched for as it is or in the form that the normalizer gives it. That form
/// must not be empty, since it would then be found within characters. Where white space is taken
/// away on both sides, neither form may lie within the white space around another token.
pub open spec fn can_be_searched(tokenizer: tokenizers::Tokenizer, text: Seq<char>) -> bool {
    &&& normalized_text(tokenizer, text).len() > 0
    &&& strips_both_sides(added_strips_of(tokenizer)) ==> is_visible(text) && is_visible(
        normalized_text(tokenizer, text),
    )
}

/// Every added token can be searched for.
pub open spec fn searches_safely(tokenizer: tokenizers::Tokenizer) -> bool {
    forall|text: Seq<char>| #[trigger]
        added_texts_of(tokenizer).contains(text) ==> can_be_searched(tokenizer, text)
}

/// The keys of `AddedVocabulary::get_vocab` of `Tokenizer::get_added_vocabulary`, in no particular
/// order.
#[verifier::external_body]
fn read_added_texts(tokenizer: &tokenizers::Tokenizer) -> (texts: Vec<String>)
    ensures
        lists(texts@, added_texts_of(*tokenizer)),
{
    tokenizer.get_added_vocabulary().get_vocab().keys().cloned().collect()
}

/// `AddedToken::lstrip` and `AddedToken::rstrip` of the tokens in
/// `Tokenizer::get_added_tokens_decoder`, in no particular order.
#[verifier::external_body]
fn read_added_strips(tokenizer: &tokenizers::Tokenizer) -> (strips: Vec<(bool, bool)>)
    ensures
        strips@.to_set() == added_strips_of(*tokenizer),
{
    let tokens = tokenizer.get_added_tokens_decoder();
    tokens.values().map(|token| (token.lstrip, token.rstrip)).collect()
}

fn is_space(c: char) -> (space: bool)
    ensures
        space == is_white_space(c),
{
    let n: u32 = c as u32;
    (0x09 <= n && n <= 0x0d) || n == 0x20 || n == 0x85 || n == 0xa0 || n == 0x1680 || (0x2000 <= n
        && n <= 0x200a) || (0x2028 <= n && n <= 0x2029) || n == 0x202f || n == 0x205f || n == 0x3000
}

fn test_visible(text: &str) -> (found: bool)
    ensures
        found == is_visible(text@),
{
    let len: usize = text.unicode_len();
    for i in 0..len
        invariant
            len == text@.len(),
            forall|j: int| 0 <= j < i ==> is_white_space(#[trigger] text@[j]),
    {
        if !is_space(text.get_char(i)) {
            assert(!is_white_space(text@[i as int]));
            return true;
        }
    }
    false
}

fn test_strips(tokenizer: &tokenizers::Tokenizer) -> (both: bool)
    ensures
        both == strips_both_sides(added_strips_of(*tokenizer)),
{
    let strips = read_added_strips(tokenizer);
    let ghost seen = strips@.to_set();
    let mut before = false;
    let mut behind = false;
    for i in 0..strips.len()
        invariant
            seen == strips@.to_set(),
            before ==> seen.contains((true, false)) || seen.contains((true, true)),
            behind ==> seen.contains((false, true)) || seen.contains((true, true)),
            forall|j: int| 0 <= j < i ==> ((#[trigger] strips@[j]).0 ==> before),
            forall|j: int| 0 <= j < i ==> ((#[trigger] strips@[j]).1 ==> behind),
    {
        assert(seen.contains(strips@[i as int]));
        if strips[i].0 {
            before = true;
        }
        if strips[i].1 {
            behind = true;
        }
    }
    before && behind
}

fn test_added_texts(tokenizer: &tokenizers::Tokenizer) -> (safe: bool)
    requires
        normalizes_safely(*tokenizer),
    ensures
        safe == searches_safely(*tokenizer),
{
    let both = test_strips(tokenizer);
    let texts = read_added_texts(tokenizer);
    for i in 0..texts.len()
        invariant
            normalizes_safely(*tokenizer),
            both == strips_both_sides(added_strips_of(*tokenizer)),
            lists(texts@, added_texts_of(*tokenizer)),
            forall|j: int| 0 <= j < i ==> can_be_searched(*tokenizer, (#[trigger] texts@[j])@),
    {
        let normalized = match read_normalizer(tokenizer) {
            Some(normalizer) => normalize_text(normalizer, texts[i].as_str()),
            None => texts[i].clone(),
        };
        let len: usize = normalized.as_str().unicode_len();
        if len == 0 || (both && !(test_visible(texts[i].as_str()) && test_visible(
            normalized.as_str(),
        ))) {
            assert(added_texts_of(*tokenizer).contains(texts@[i as int]@));
            return false;
        }
    }
    true
}

// Pre-tokenizers.

/// The kinds of pre-tokenizers, and the length of the pieces that those of a fixed length make.
#[derive(Clone, Copy, Debug, PartialEq, Eq, Structural)]
pub enum PreTokenizerKind {
    Bert,
    ByteLevel,
    Delimiter,
    Metaspace,
    Whitespace,
    Sequence,
    Split,
    Punctuation,
    WhitespaceSplit,
    Digits,
    UnicodeScripts,
    FixedLength(usize),
}

/// The pre-tokenizer of a tokenizer, if it has one.
pub uninterp spec fn pre_tokenizer_of(tokenizer: tokenizers::Tokenizer) -> Option<
    PreTokenizerWrapper,
>;

/// The kind of a pre-tokenizer.
pub uninterp spec fn pre_tokenizer_kind_of(pre_tokenizer: PreTokenizerWrapper) -> PreTokenizerKind;

/// The members of a pre-tokenizer that is a sequence, in order; none of any other.
pub uninterp spec fn pre_tokenizer_members_of(pre_tokenizer: PreTokenizerWrapper) -> Seq<
    PreTokenizerWrapper,
>;

/// The contents of a pre-tokenizer that splits at a pattern; none of any other.
pub uninterp spec fn split_of(pre_tokenizer: PreTokenizerWrapper) -> Option<Split>;

/// The text that is split at, if it is given literally.
pub uninterp spec fn split_text_of(split: Split) -> Option<Seq<char>>;

/// The regular expression that is split at, as it is written.
pub uninterp spec fn split_regex_of(split: Split) -> Seq<char>;

/// The same step made anew from its pattern, if that can be done.
pub uninterp spec fn rebuilt_split(split: Split) -> Option<Split>;

/// The step splits at a text, and the regular expression that it searches with is the one for
/// that text. A regular expression of its own can match backwards, on which `encode` panics, and
/// does not show whether it does.
pub open spec fn is_safe_split(split: Split) -> bool {
    &&& split_text_of(split) is Some
    &&& rebuilt_split(split) matches Some(rebuilt) && split_regex_of(rebuilt) == split_regex_of(
        split,
    )
}

/// The pre-tokenizer cuts a text into pieces between its characters.
pub open spec fn is_safe_pre_tokenizer(pre_tokenizer: PreTokenizerWrapper, depth: nat) -> bool
    decreases depth,
{
    match pre_tokenizer_kind_of(pre_tokenizer) {
        PreTokenizerKind::Sequence => depth > 0 && forall|i: int|
            0 <= i < pre_tokenizer_members_of(pre_tokenizer).len() ==> is_safe_pre_tokenizer(
                #[trigger] pre_tokenizer_members_of(pre_tokenizer)[i],
                (depth - 1) as nat,
            ),
        PreTokenizerKind::FixedLength(length) => length > 0,
        PreTokenizerKind::Split => split_of(pre_tokenizer) matches Some(split) && is_safe_split(
            split,
        ),
        _ => true,
    }
}

/// `Tokenizer::get_pre_tokenizer`.
#[verifier::external_body]
fn read_pre_tokenizer(tokenizer: &tokenizers::Tokenizer) -> (pre_tokenizer: Option<
    &PreTokenizerWrapper,
>)
    ensures
        pre_tokenizer is Some <==> pre_tokenizer_of(*tokenizer) is Some,
        pre_tokenizer matches Some(part) ==> pre_tokenizer_of(*tokenizer) == Some(*part),
{
    tokenizer.get_pre_tokenizer()
}

/// The variant of a `PreTokenizerWrapper`, with `FixedLength::length`.
#[verifier::external_body]
fn pre_tokenizer_kind(pre_tokenizer: &PreTokenizerWrapper) -> (kind: PreTokenizerKind)
    ensures
        kind == pre_tokenizer_kind_of(*pre_tokenizer),
{
    match pre_tokenizer {
        PreTokenizerWrapper::BertPreTokenizer(_) => PreTokenizerKind::Bert,
        PreTokenizerWrapper::ByteLevel(_) => PreTokenizerKind::ByteLevel,
        PreTokenizerWrapper::Delimiter(_) => PreTokenizerKind::Delimiter,
        PreTokenizerWrapper::Metaspace(_) => PreTokenizerKind::Metaspace,
        PreTokenizerWrapper::Whitespace(_) => PreTokenizerKind::Whitespace,
        PreTokenizerWrapper::Sequence(_) => PreTokenizerKind::Sequence,
        PreTokenizerWrapper::Split(_) => PreTokenizerKind::Split,
        PreTokenizerWrapper::Punctuation(_) => PreTokenizerKind::Punctuation,
        PreTokenizerWrapper::WhitespaceSplit(_) => PreTokenizerKind::WhitespaceSplit,
        PreTokenizerWrapper::Digits(_) => PreTokenizerKind::Digits,
        PreTokenizerWrapper::UnicodeScripts(_) => PreTokenizerKind::UnicodeScripts,
        PreTokenizerWrapper::FixedLength(part) => PreTokenizerKind::FixedLength(part.length),
    }
}

/// `Sequence::as_ref` of `PreTokenizerWrapper::Sequence`; nothing of any other variant.
#[verifier::external_body]
fn read_pre_tokenizer_members(pre_tokenizer: &PreTokenizerWrapper) -> (members: Vec<
    &PreTokenizerWrapper,
>)
    ensures
        members@.len() == pre_tokenizer_members_of(*pre_tokenizer).len(),
        forall|i: int|
            0 <= i < members@.len() ==> *(#[trigger] members@[i]) == pre_tokenizer_members_of(
                *pre_tokenizer,
            )[i],
{
    match pre_tokenizer {
        PreTokenizerWrapper::Sequence(sequence) => sequence.as_ref().iter().collect(),
        _ => vec![],
    }
}

/// The contents of `PreTokenizerWrapper::Split`; nothing of any other variant.
#[verifier::external_body]
fn read_split(pre_tokenizer: &PreTokenizerWrapper) -> (split: Option<&Split>)
    ensures
        split is Some <==> split_of(*pre_tokenizer) is Some,
        split matches Some(part) ==> split_of(*pre_tokenizer) == Some(*part),
{
    match pre_tokenizer {
        PreTokenizerWrapper::Split(split) => Some(split),
        _ => None,
    }
}

/// `Split::pattern`, where it is a `SplitPattern::String`.
#[verifier::external_body]
fn read_split_text(split: &Split) -> (text: Option<String>)
    ensures
        text_view(text) == split_text_of(*split),
{
    match &split.pattern {
        SplitPattern::String(text) => Some(text.clone()),
        SplitPattern::Regex(_) => None,
    }
}

/// `Split::regex`, written with `Debug`, which shows the regular expression.
#[verifier::external_body]
fn read_split_regex(split: &Split) -> (regex: String)
    ensures
        regex@ == split_regex_of(*split),
{
    format!("{:?}", split.regex)
}

/// `Split::new` from the pattern and the options of a `Split`. The pattern must be a text.
#[verifier::external_body]
fn rebuild_split(split: &Split) -> (rebuilt: Option<Split>)
    requires
        split_text_of(*split) is Some,
    ensures
        rebuilt == rebuilt_split(*split),
{
    Split::new(split.pattern.clone(), split.behavior, split.invert).ok()
}

/// The tokenizer has no pre-tokenizer or a safe one.
pub open spec fn splits_safely(tokenizer: tokenizers::Tokenizer) -> bool {
    pre_tokenizer_of(tokenizer) matches Some(pre_tokenizer) ==> is_safe_pre_tokenizer(
        pre_tokenizer,
        MAX_NESTING as nat,
    )
}

fn test_split(split: &Split) -> (safe: bool)
    ensures
        safe == is_safe_split(*split),
{
    if read_split_text(split).is_none() {
        return false;
    }
    match rebuild_split(split) {
        Some(rebuilt) => same_text(
            read_split_regex(&rebuilt).as_str(),
            read_split_regex(split).as_str(),
        ),
        None => false,
    }
}

fn test_pre_tokenizer(pre_tokenizer: &PreTokenizerWrapper, depth: usize) -> (safe: bool)
    ensures
        safe == is_safe_pre_tokenizer(*pre_tokenizer, depth as nat),
    decreases depth,
{
    match pre_tokenizer_kind(pre_tokenizer) {
        PreTokenizerKind::Sequence => {
            if depth == 0 {
                return false;
            }
            let members = read_pre_tokenizer_members(pre_tokenizer);
            let ghost parts = pre_tokenizer_members_of(*pre_tokenizer);
            for i in 0..members.len()
                invariant
                    depth > 0,
                    parts == pre_tokenizer_members_of(*pre_tokenizer),
                    pre_tokenizer_kind_of(*pre_tokenizer) == PreTokenizerKind::Sequence,
                    members@.len() == parts.len(),
                    forall|j: int|
                        0 <= j < members@.len() ==> *(#[trigger] members@[j]) == parts[j],
                    forall|j: int|
                        0 <= j < i ==> is_safe_pre_tokenizer(
                            #[trigger] parts[j],
                            (depth - 1) as nat,
                        ),
            {
                assert(*members@[i as int] == parts[i as int]);
                if !test_pre_tokenizer(members[i], depth - 1) {
                    return false;
                }
            }
            true
        },
        PreTokenizerKind::FixedLength(length) => length > 0,
        PreTokenizerKind::Split => match read_split(pre_tokenizer) {
            Some(split) => test_split(split),
            None => false,
        },
        _ => true,
    }
}

fn test_pre_tokenizers(tokenizer: &tokenizers::Tokenizer) -> (safe: bool)
    ensures
        safe == splits_safely(*tokenizer),
{
    match read_pre_tokenizer(tokenizer) {
        Some(pre_tokenizer) => test_pre_tokenizer(pre_tokenizer, MAX_NESTING),
        None => true,
    }
}

// Post-processors.

/// The kinds of post-processors.
#[derive(Clone, Copy, Debug, PartialEq, Eq, Structural)]
pub enum ProcessorKind {
    Roberta,
    Bert,
    ByteLevel,
    Template,
    Sequence,
}

/// A place of a template: the text, a second text that it is paired with, or a special token.
#[derive(Debug)]
pub enum TemplatePiece {
    First,
    Second,
    Special(String),
}

/// What a `TemplatePiece` stands for.
pub enum TemplatePieceView {
    First,
    Second,
    Special(Seq<char>),
}

impl View for TemplatePiece {
    type V = TemplatePieceView;

    open spec fn view(&self) -> TemplatePieceView {
        match self {
            TemplatePiece::First => TemplatePieceView::First,
            TemplatePiece::Second => TemplatePieceView::Second,
            TemplatePiece::Special(id) => TemplatePieceView::Special(id@),
        }
    }
}

/// The post-processor of a tokenizer, if it has one.
pub uninterp spec fn processor_of(tokenizer: tokenizers::Tokenizer) -> Option<
    PostProcessorWrapper,
>;

/// The kind of a post-processor.
pub uninterp spec fn processor_kind_of(processor: PostProcessorWrapper) -> ProcessorKind;

/// The members of a post-processor that is a sequence, in order; none of any other.
pub uninterp spec fn processor_members_of(processor: PostProcessorWrapper) -> Seq<
    PostProcessorWrapper,
>;

/// The contents of a post-processor that has a template; none of any other.
pub uninterp spec fn template_of(processor: PostProcessorWrapper) -> Option<TemplateProcessing>;

/// The template for one part.
pub uninterp spec fn single_template_of(template: TemplateProcessing) -> Template;

/// The template for two parts.
pub uninterp spec fn pair_template_of(template: TemplateProcessing) -> Template;

/// The places of a template.
pub uninterp spec fn template_pieces_of(template: Template) -> Seq<TemplatePieceView>;

/// The special tokens that a template knows.
pub uninterp spec fn template_tokens_of(template: TemplateProcessing) -> Set<Seq<char>>;

/// The number of tokens that a template is said to add to a single text.
pub uninterp spec fn template_added_of(template: TemplateProcessing) -> usize;

/// `Tokenizer::get_post_processor`.
#[verifier::external_body]
fn read_processor(tokenizer: &tokenizers::Tokenizer) -> (processor: Option<&PostProcessorWrapper>)
    ensures
        processor is Some <==> processor_of(*tokenizer) is Some,
        processor matches Some(part) ==> processor_of(*tokenizer) == Some(*part),
{
    tokenizer.get_post_processor()
}

/// The variant of a `PostProcessorWrapper`.
#[verifier::external_body]
fn processor_kind(processor: &PostProcessorWrapper) -> (kind: ProcessorKind)
    ensures
        kind == processor_kind_of(*processor),
{
    match processor {
        PostProcessorWrapper::Roberta(_) => ProcessorKind::Roberta,
        PostProcessorWrapper::Bert(_) => ProcessorKind::Bert,
        PostProcessorWrapper::ByteLevel(_) => ProcessorKind::ByteLevel,
        PostProcessorWrapper::Template(_) => ProcessorKind::Template,
        PostProcessorWrapper::Sequence(_) => ProcessorKind::Sequence,
    }
}

/// `Sequence::as_ref` of `PostProcessorWrapper::Sequence`; nothing of any other variant.
#[verifier::external_body]
fn read_processor_members(processor: &PostProcessorWrapper) -> (members: Vec<&PostProcessorWrapper>)
    ensures
        members@.len() == processor_members_of(*processor).len(),
        forall|i: int|
            0 <= i < members@.len() ==> *(#[trigger] members@[i]) == processor_members_of(
                *processor,
            )[i],
{
    match processor {
        PostProcessorWrapper::Sequence(sequence) => sequence.as_ref().iter().collect(),
        _ => vec![],
    }
}

/// The contents of `PostProcessorWrapper::Template`; nothing of any other variant.
#[verifier::external_body]
fn read_template(processor: &PostProcessorWrapper) -> (template: Option<&TemplateProcessing>)
    ensures
        template is Some <==> template_of(*processor) is Some,
        template matches Some(part) ==> template_of(*processor) == Some(*part),
{
    match processor {
        PostProcessorWrapper::Template(template) => Some(template),
        _ => None,
    }
}

/// `TemplateProcessing::single`.
#[verifier::external_body]
fn read_single_template(template: &TemplateProcessing) -> (single: &Template)
    ensures
        *single == single_template_of(*template),
{
    &template.single
}

/// `TemplateProcessing::get_pair`.
#[verifier::external_body]
fn read_pair_template(template: &TemplateProcessing) -> (pair: &Template)
    ensures
        *pair == pair_template_of(*template),
{
    template.get_pair()
}

/// The pieces of a `Template`, which its serialized form lists, in order.
#[verifier::external_body]
fn read_pieces(template: &Template) -> (pieces: Vec<TemplatePiece>)
    ensures
        pieces@.len() == template_pieces_of(*template).len(),
        forall|i: int|
            0 <= i < pieces@.len() ==> (#[trigger] pieces@[i])@ == template_pieces_of(*template)[i],
{
    let value = serde_json::to_value(template).unwrap();
    let pieces: Vec<Piece> = serde_json::from_value(value).unwrap();
    pieces.into_iter().map(
        |piece|
            match piece {
                Piece::Sequence { id: Sequence::A, .. } => TemplatePiece::First,
                Piece::Sequence { id: Sequence::B, .. } => TemplatePiece::Second,
                Piece::SpecialToken { id, .. } => TemplatePiece::Special(id),
            },
    ).collect()
}

/// The keys of `TemplateProcessing::get_special_tokens`, in no particular order.
#[verifier::external_body]
fn read_template_tokens(template: &TemplateProcessing) -> (ids: Vec<String>)
    ensures
        lists(ids@, template_tokens_of(*template)),
{
    template.get_special_tokens().0.keys().cloned().collect()
}

/// `TemplateProcessing::get_added_single`.
#[verifier::external_body]
fn read_template_added(template: &TemplateProcessing) -> (count: usize)
    ensures
        count == template_added_of(*template),
{
    template.get_added_single()
}

/// A place of a template that can be filled when there are `parts` parts.
pub open spec fn can_be_filled(
    piece: TemplatePieceView,
    parts: nat,
    known: Set<Seq<char>>,
) -> bool {
    match piece {
        TemplatePieceView::First => parts > 0,
        TemplatePieceView::Second => parts > 1,
        TemplatePieceView::Special(id) => known.contains(id),
    }
}

/// Every place can be filled when there are `parts` parts.
pub open spec fn can_all_be_filled(
    pieces: Seq<TemplatePieceView>,
    parts: nat,
    known: Set<Seq<char>>,
) -> bool {
    forall|i: int| 0 <= i < pieces.len() ==> can_be_filled(#[trigger] pieces[i], parts, known)
}

/// How many parts a template makes of `parts` parts: one for each of its places. There are
/// templates for one and for two parts only.
pub open spec fn after_template(template: TemplateProcessing, parts: nat) -> Option<nat> {
    let known = template_tokens_of(template);
    let single = template_pieces_of(single_template_of(template));
    let pair = template_pieces_of(pair_template_of(template));
    if parts == 1 && can_all_be_filled(single, parts, known) {
        Some(single.len())
    } else if parts == 2 && can_all_be_filled(pair, parts, known) {
        Some(pair.len())
    } else {
        None
    }
}

/// The number of parts that there are once a post-processor was applied to `state.0` parts, and
/// the number of tokens that it and those before it are said to add, `state.1` without it; none
/// where it panics.
pub open spec fn after_processor(
    processor: PostProcessorWrapper,
    state: (nat, nat),
    depth: nat,
) -> Option<(nat, nat)>
    decreases depth, 0nat,
{
    match processor_kind_of(processor) {
        ProcessorKind::Roberta => Some((state.0, state.1 + 2)),
        ProcessorKind::Bert => Some((state.0, state.1 + 2)),
        ProcessorKind::ByteLevel => Some(state),
        ProcessorKind::Template => match template_of(processor) {
            Some(template) => match after_template(template, state.0) {
                Some(parts) => Some((parts, state.1 + template_added_of(template) as nat)),
                None => None,
            },
            None => None,
        },
        ProcessorKind::Sequence => if depth > 0 {
            after_processors(processor_members_of(processor), state, (depth - 1) as nat)
        } else {
            None
        },
    }
}

/// The same once all `processors` were applied in turn.
pub open spec fn after_processors(
    processors: Seq<PostProcessorWrapper>,
    state: (nat, nat),
    depth: nat,
) -> Option<(nat, nat)>
    decreases depth, processors.len(),
{
    if processors.len() == 0 {
        Some(state)
    } else {
        match after_processor(processors.first(), state, depth) {
            Some(next) => after_processors(processors.drop_first(), next, depth),
            None => None,
        }
    }
}

/// What the tokenizer's post-processor comes to on one text, if it does not panic.
pub open spec fn after_processing(tokenizer: tokenizers::Tokenizer) -> Option<(nat, nat)> {
    match processor_of(tokenizer) {
        Some(processor) => after_processor(processor, (1, 0), MAX_NESTING as nat),
        None => Some((1, 0)),
    }
}

/// The tokenizer has no post-processor or one that can be applied to one text.
pub open spec fn processes_safely(tokenizer: tokenizers::Tokenizer) -> bool {
    after_processing(tokenizer) is Some
}

/// The number of tokens that the post-processor is said to add can be added up.
pub open spec fn counts_safely(tokenizer: tokenizers::Tokenizer) -> bool {
    after_processing(tokenizer) matches Some((_, added)) && added <= usize::MAX
}

/// `sum` is `total`, or nothing where that is too large.
spec fn is_total(sum: Option<usize>, total: nat) -> bool {
    match sum {
        Some(sum) => sum == total,
        None => total > usize::MAX,
    }
}

/// `state` is what `expected` says.
spec fn is_state(state: Option<(usize, Option<usize>)>, expected: Option<(nat, nat)>) -> bool {
    match (state, expected) {
        (Some((parts, added)), Some((count, total))) => parts == count && is_total(added, total),
        (None, None) => true,
        _ => false,
    }
}

fn contains_text(texts: &Vec<String>, text: &str) -> (found: bool)
    ensures
        found <==> exists|i: int| 0 <= i < texts@.len() && texts@[i]@ == text@,
{
    for i in 0..texts.len()
        invariant
            forall|j: int| 0 <= j < i ==> (#[trigger] texts@[j])@ != text@,
    {
        if same_text(texts[i].as_str(), text) {
            assert(texts@[i as int]@ == text@);
            return true;
        }
    }
    false
}

fn fill_template(
    template: &Template,
    parts: usize,
    known: &Vec<String>,
    ids: Ghost<Set<Seq<char>>>,
) -> (filled: Option<usize>)
    requires
        lists(known@, ids@),
    ensures
        filled is Some <==> can_all_be_filled(template_pieces_of(*template), parts as nat, ids@),
        filled matches Some(count) ==> count == template_pieces_of(*template).len(),
{
    let pieces = read_pieces(template);
    let ghost places = template_pieces_of(*template);
    for i in 0..pieces.len()
        invariant
            places == template_pieces_of(*template),
            pieces@.len() == places.len(),
            forall|j: int| 0 <= j < pieces@.len() ==> (#[trigger] pieces@[j])@ == places[j],
            lists(known@, ids@),
            forall|j: int| 0 <= j < i ==> can_be_filled(#[trigger] places[j], parts as nat, ids@),
    {
        assert(pieces@[i as int]@ == places[i as int]);
        let filled = match &pieces[i] {
            TemplatePiece::First => parts > 0,
            TemplatePiece::Second => parts > 1,
            TemplatePiece::Special(id) => contains_text(known, id.as_str()),
        };
        if !filled {
            assert(!can_be_filled(places[i as int], parts as nat, ids@));
            return None;
        }
    }
    Some(pieces.len())
}

fn apply_template(template: &TemplateProcessing, parts: usize) -> (made: Option<usize>)
    ensures
        match made {
            Some(count) => after_template(*template, parts as nat) == Some(count as nat),
            None => after_template(*template, parts as nat) is None,
        },
{
    let known = read_template_tokens(template);
    let ids = Ghost(template_tokens_of(*template));
    if parts == 1 {
        fill_template(read_single_template(template), parts, &known, ids)
    } else if parts == 2 {
        fill_template(read_pair_template(template), parts, &known, ids)
    } else {
        None
    }
}

fn add_to(sum: Option<usize>, count: usize, total: Ghost<nat>) -> (next: Option<usize>)
    requires
        is_total(sum, total@),
    ensures
        is_total(next, total@ + count as nat),
{
    match sum {
        Some(sum) => sum.checked_add(count),
        None => None,
    }
}

fn apply_processor(
    processor: &PostProcessorWrapper,
    parts: usize,
    added: Option<usize>,
    total: Ghost<nat>,
    depth: usize,
) -> (state: Option<(usize, Option<usize>)>)
    requires
        is_total(added, total@),
    ensures
        is_state(state, after_processor(*processor, (parts as nat, total@), depth as nat)),
    decreases depth,
{
    match processor_kind(processor) {
        ProcessorKind::Roberta => Some((parts, add_to(added, 2, total))),
        ProcessorKind::Bert => Some((parts, add_to(added, 2, total))),
        ProcessorKind::ByteLevel => Some((parts, added)),
        ProcessorKind::Template => match read_template(processor) {
            Some(template) => match apply_template(template, parts) {
                Some(made) => Some((made, add_to(added, read_template_added(template), total))),
                None => None,
            },
            None => None,
        },
        ProcessorKind::Sequence => {
            if depth == 0 {
                return None;
            }
            let members = read_processor_members(processor);
            let ghost steps = processor_members_of(*processor);
            let ghost level: nat = (depth - 1) as nat;
            let ghost whole = after_processors(steps, (parts as nat, total@), level);
            let mut current: usize = parts;
            let mut sum: Option<usize> = added;
            let ghost mut reached: nat = total@;
            assert(steps.skip(0) =~= steps);
            for i in 0..members.len()
                invariant
                    depth > 0,
                    level == depth - 1,
                    members@.len() == steps.len(),
                    forall|j: int|
                        0 <= j < members@.len() ==> *(#[trigger] members@[j]) == steps[j],
                    is_total(sum, reached),
                    whole == after_processors(steps.skip(i as int), (current as nat, reached), level),
                    processor_kind_of(*processor) == ProcessorKind::Sequence,
                    steps == processor_members_of(*processor),
                    whole == after_processors(steps, (parts as nat, total@), level),
            {
                let ghost rest = steps.skip(i as int);
                assert(rest.first() == *members@[i as int]);
                assert(rest.drop_first() =~= steps.skip(i + 1));
                match apply_processor(members[i], current, sum, Ghost(reached), depth - 1) {
                    Some((next_parts, next_sum)) => {
                        proof {
                            let next = after_processor(
                                rest.first(),
                                (current as nat, reached),
                                level,
                            );
                            reached = next.unwrap().1;
                        }
                        current = next_parts;
                        sum = next_sum;
                    },
                    None => {
                        return None;
                    },
                }
            }
            assert(steps.skip(members@.len() as int).len() == 0);
            Some((current, sum))
        },
    }
}

fn apply_processors(tokenizer: &tokenizers::Tokenizer) -> (state: Option<(usize, Option<usize>)>)
    ensures
        is_state(state, after_processing(*tokenizer)),
{
    match read_processor(tokenizer) {
        Some(processor) => apply_processor(processor, 1, Some(0), Ghost(0), MAX_NESTING),
        None => Some((1, Some(0))),
    }
}

// Truncation and padding.

/// The longest encoding that a tokenizer may be set up to pad to. A few times more could not be
/// held by a vector.
pub const MAX_PADDING: usize = usize::MAX / 256;

/// Which of two texts is truncated.
#[derive(Clone, Copy, Debug, PartialEq, Eq, Structural)]
pub enum TruncatedText {
    Longest,
    First,
    Second,
}

/// The maximal length, the stride and the truncated text of the truncation that a tokenizer is set
/// up with.
pub uninterp spec fn truncation_params(tokenizer: tokenizers::Tokenizer) -> Option<
    (usize, usize, TruncatedText),
>;

/// The number of special tokens that a tokenizer adds to a single text.
pub uninterp spec fn added_token_count(tokenizer: tokenizers::Tokenizer) -> usize;

/// The fixed length, if there is one, and the multiple that a tokenizer is set up to pad to.
pub uninterp spec fn padding_params(tokenizer: tokenizers::Tokenizer) -> Option<
    (Option<usize>, Option<usize>),
>;

/// The truncation leaves room for the special tokens and moves on from each part to the next. One
/// that is for a second text fails without a panic.
pub open spec fn truncates_safely(tokenizer: tokenizers::Tokenizer) -> bool {
    match truncation_params(tokenizer) {
        Some((max_length, stride, truncated)) => {
            let room = max_length - added_token_count(tokenizer);
            &&& counts_safely(tokenizer)
            &&& room == 0 || (room > 0 && (stride < room || truncated == TruncatedText::Second))
        },
        None => true,
    }
}

/// No padding, or one to a length that a vector can hold.
pub open spec fn pads_safely(tokenizer: tokenizers::Tokenizer) -> bool {
    match padding_params(tokenizer) {
        Some((length, multiple)) => {
            &&& length matches Some(length) ==> length <= MAX_PADDING
            &&& multiple matches Some(multiple) ==> multiple <= MAX_PADDING
        },
        None => true,
    }
}

/// `Tokenizer::get_truncation`: the parameters of the truncation, where there is one.
#[verifier::external_body]
fn read_truncation(tokenizer: &tokenizers::Tokenizer) -> (params: Option<
    (usize, usize, TruncatedText),
>)
    ensures
        params == truncation_params(*tokenizer),
{
    tokenizer.get_truncation().map(
        |params|
            match params.strategy {
                TruncationStrategy::LongestFirst =>
                    (params.max_length, params.stride, TruncatedText::Longest),
                TruncationStrategy::OnlyFirst =>
                    (params.max_length, params.stride, TruncatedText::First),
                TruncationStrategy::OnlySecond =>
                    (params.max_length, params.stride, TruncatedText::Second),
            },
    )
}

/// `PostProcessor::added_tokens` of the tokenizer's post-processor: how many special tokens it
/// adds to a single text. A tokenizer without a post-processor adds none. A sequence adds up what
/// its members say, which must not overflow.
#[verifier::external_body]
fn read_added_tokens(tokenizer: &tokenizers::Tokenizer) -> (count: usize)
    requires
        counts_safely(*tokenizer),
    ensures
        count == added_token_count(*tokenizer),
{
    tokenizer.get_post_processor().map_or(0, |processor| processor.added_tokens(false))
}

/// `Tokenizer::get_padding`: the length of `PaddingStrategy::Fixed` and the multiple, where there
/// is a padding.
#[verifier::external_body]
fn read_padding(tokenizer: &tokenizers::Tokenizer) -> (params: Option<
    (Option<usize>, Option<usize>),
>)
    ensures
        params == padding_params(*tokenizer),
{
    tokenizer.get_padding().map(
        |params|
            match params.strategy {
                PaddingStrategy::Fixed(length) => (Some(length), params.pad_to_multiple_of),
                PaddingStrategy::BatchLongest => (None, params.pad_to_multiple_of),
            },
    )
}

fn test_processing(tokenizer: &tokenizers::Tokenizer) -> (safe: bool)
    ensures
        safe == (processes_safely(*tokenizer) && truncates_safely(*tokenizer)),
{
    let countable = match apply_processors(tokenizer) {
        Some((_, added)) => added.is_some(),
        None => {
            return false;
        },
    };
    match read_truncation(tokenizer) {
        Some((max_length, stride, truncated)) => {
            if !countable {
                return false;
            }
            let added: usize = read_added_tokens(tokenizer);
            added == max_length || (added < max_length && (stride < max_length - added || matches!(
                truncated,
                TruncatedText::Second
            )))
        },
        None => true,
    }
}

fn test_padding(tokenizer: &tokenizers::Tokenizer) -> (safe: bool)
    ensures
        safe == pads_safely(*tokenizer),
{
    match read_padding(tokenizer) {
        Some((length, multiple)) => {
            let length_fits = match length {
                Some(length) => length <= MAX_PADDING,
                None => true,
            };
            let multiple_fits = match multiple {
                Some(multiple) => multiple <= MAX_PADDING,
                None => true,
            };
            length_fits && multiple_fits
        },
        None => true,
    }
}

// All settings.

/// The tokenizer is set up so that it encodes every single text without panicking.
pub open spec fn encodes_safely(tokenizer: tokenizers::Tokenizer) -> bool {
    &&& normalizes_safely(tokenizer)
    &&& searches_safely(tokenizer)
    &&& splits_safely(tokenizer)
    &&& processes_safely(tokenizer)
    &&& truncates_safely(tokenizer)
    &&& pads_safely(tokenizer)
}

/// Both tokenizers are set up alike.
pub open spec fn same_settings(
    tokenizer: tokenizers::Tokenizer,
    other: tokenizers::Tokenizer,
) -> bool {
    &&& normalizer_of(tokenizer) == normalizer_of(other)
    &&& added_texts_of(tokenizer) == added_texts_of(other)
    &&& added_strips_of(tokenizer) == added_strips_of(other)
    &&& pre_tokenizer_of(tokenizer) == pre_tokenizer_of(other)
    &&& processor_of(tokenizer) == processor_of(other)
    &&& truncation_params(tokenizer) == truncation_params(other)
    &&& added_token_count(tokenizer) == added_token_count(other)
    &&& padding_params(tokenizer) == padding_params(other)
}

/// Tells whether the tokenizer is set up so that it encodes every single text without panicking.
pub(crate) fn test_settings(tokenizer: &tokenizers::Tokenizer) -> (safe: bool)
    ensures
        safe == encodes_safely(*tokenizer),
{
    test_normalizers(tokenizer) && test_added_texts(tokenizer) && test_pre_tokenizers(tokenizer)
        && test_processing(tokenizer) && test_padding(tokenizer)
}

// Laws.

/// A tokenizer with nothing but a model encodes every text.
pub proof fn law_a_plain_tokenizer_is_safe(tokenizer: tokenizers::Tokenizer)
    requires
        normalizer_of(tokenizer) is None,
        pre_tokenizer_of(tokenizer) is None,
        processor_of(tokenizer) is None,
        truncation_params(tokenizer) is None,
        padding_params(tokenizer) is None,
        forall|text: Seq<char>| #[trigger]
            added_texts_of(tokenizer).contains(text) ==> is_visible(text),
    ensures
        encodes_safely(tokenizer),
{
}

/// A tokenizer is safe exactly when each of its settings is, whatever the others are.
pub proof fn law_every_setting_counts(tokenizer: tokenizers::Tokenizer, other: tokenizers::Tokenizer)
    requires
        encodes_safely(tokenizer),
    ensures
        same_settings(tokenizer, other) ==> encodes_safely(other),
        !normalizes_safely(other) || !searches_safely(other) || !splits_safely(other)
            || !processes_safely(other) || !truncates_safely(other) || !pads_safely(other)
            ==> !encodes_safely(other),
{
}

/// A normalizer that works character by character is safe at any depth; one that is safe at some
/// depth is safe where more depth is allowed; and a sequence is safe exactly when its members are.
pub proof fn law_normalizers_are_safe_by_kind(normalizer: NormalizerWrapper, depth: nat)
    ensures
        normalizer_kind_of(normalizer) != NormalizerKind::Sequence && normalizer_kind_of(normalizer)
            != NormalizerKind::Precompiled && normalizer_kind_of(normalizer)
            != NormalizerKind::Replace && normalizer_kind_of(normalizer)
            != NormalizerKind::Prepend ==> is_safe_normalizer(normalizer, depth),
        normalizer_kind_of(normalizer) == NormalizerKind::Precompiled ==> !is_safe_normalizer(
            normalizer,
            depth,
        ),
        normalizer_kind_of(normalizer) == NormalizerKind::Replace ==> (is_safe_normalizer(
            normalizer,
            depth,
        ) <==> (replaced_text_of(normalizer) is Some && replaced_text_of(normalizer)->Some_0
            != Seq::<char>::empty())),
        normalizer_kind_of(normalizer) == NormalizerKind::Prepend ==> (is_safe_normalizer(
            normalizer,
            depth,
        ) <==> (prepended_text_of(normalizer) is Some && prepended_text_of(normalizer)->Some_0
            != Seq::<char>::empty())),
        normalizer_kind_of(normalizer) == NormalizerKind::Sequence ==> (is_safe_normalizer(
            normalizer,
            depth + 1,
        ) <==> forall|i: int|
            0 <= i < normalizer_members_of(normalizer).len() ==> is_safe_normalizer(
                #[trigger] normalizer_members_of(normalizer)[i],
                depth,
            )),
        is_safe_normalizer(normalizer, depth) ==> is_safe_normalizer(normalizer, depth + 1),
    decreases depth,
{
    if normalizer_kind_of(normalizer) == NormalizerKind::Replace {
        if let Some(text) = replaced_text_of(normalizer) {
            assert(text.len() == 0 <==> text =~= Seq::<char>::empty());
        }
    }
    if normalizer_kind_of(normalizer) == NormalizerKind::Prepend {
        if let Some(text) = prepended_text_of(normalizer) {
            assert(text.len() == 0 <==> text =~= Seq::<char>::empty());
        }
    }
    if normalizer_kind_of(normalizer) == NormalizerKind::Sequence && is_safe_normalizer(
        normalizer,
        depth,
    ) {
        let members = normalizer_members_of(normalizer);
        let less = (depth - 1) as nat;
        assert forall|i: int| 0 <= i < members.len() implies is_safe_normalizer(
            #[trigger] members[i],
            depth,
        ) by {
            law_normalizers_are_safe_by_kind(members[i], less);
        }
    }
}

/// A pre-tokenizer that neither splits at a pattern nor into pieces of no length is safe at any
/// depth; one that is safe at some depth is safe where more depth is allowed; and a sequence is
/// safe exactly when its members are.
pub proof fn law_pre_tokenizers_are_safe_by_kind(pre_tokenizer: PreTokenizerWrapper, depth: nat)
    ensures
        match pre_tokenizer_kind_of(pre_tokenizer) {
            PreTokenizerKind::FixedLength(length) => is_safe_pre_tokenizer(pre_tokenizer, depth)
                <==> length != 0,
            PreTokenizerKind::Split => is_safe_pre_tokenizer(pre_tokenizer, depth) <==> {
                &&& split_of(pre_tokenizer) matches Some(split)
                &&& split_text_of(split) is Some
                &&& rebuilt_split(split) is Some
                &&& split_regex_of(rebuilt_split(split)->Some_0) == split_regex_of(split)
            },
            PreTokenizerKind::Sequence => is_safe_pre_tokenizer(pre_tokenizer, depth + 1)
                <==> forall|i: int|
                0 <= i < pre_tokenizer_members_of(pre_tokenizer).len() ==> is_safe_pre_tokenizer(
                    #[trigger] pre_tokenizer_members_of(pre_tokenizer)[i],
                    depth,
                ),
            _ => is_safe_pre_tokenizer(pre_tokenizer, depth),
        },
        is_safe_pre_tokenizer(pre_tokenizer, depth) ==> is_safe_pre_tokenizer(
            pre_tokenizer,
            depth + 1,
        ),
    decreases depth,
{
    if pre_tokenizer_kind_of(pre_tokenizer) == PreTokenizerKind::Sequence && is_safe_pre_tokenizer(
        pre_tokenizer,
        depth,
    ) {
        let members = pre_tokenizer_members_of(pre_tokenizer);
        let less = (depth - 1) as nat;
        assert forall|i: int| 0 <= i < members.len() implies is_safe_pre_tokenizer(
            #[trigger] members[i],
            depth,
        ) by {
            law_pre_tokenizers_are_safe_by_kind(members[i], less);
        }
    }
}

/// A template takes one part if each of its places is for the text or for a special token that it
/// knows, and makes as many parts as it has places; it takes three or more parts, or none, never.
pub proof fn law_templates_take_one_or_two_parts(template: TemplateProcessing, parts: nat)
    ensures
        after_template(template, 1) is Some <==> forall|i: int|
            0 <= i < template_pieces_of(single_template_of(template)).len() ==> (
            match #[trigger] template_pieces_of(single_template_of(template))[i] {
                TemplatePieceView::First => true,
                TemplatePieceView::Second => false,
                TemplatePieceView::Special(id) => template_tokens_of(template).contains(id),
            }),
        after_template(template, 2) is Some <==> forall|i: int|
            0 <= i < template_pieces_of(pair_template_of(template)).len() ==> (
            #[trigger] template_pieces_of(pair_template_of(template))[i] matches
                TemplatePieceView::Special(id) ==> template_tokens_of(template).contains(id)),
        after_template(template, 1) matches Some(made) ==> made == template_pieces_of(
            single_template_of(template),
        ).len(),
        after_template(template, 2) matches Some(made) ==> made == template_pieces_of(
            pair_template_of(template),
        ).len(),
        parts != 1 && parts != 2 ==> after_template(template, parts) is None,
{
    let known = template_tokens_of(template);
    let single = template_pieces_of(single_template_of(template));
    let pair = template_pieces_of(pair_template_of(template));
    if after_template(template, 1) is Some {
        assert forall|i: int| 0 <= i < single.len() implies (match #[trigger] single[i] {
            TemplatePieceView::First => true,
            TemplatePieceView::Second => false,
            TemplatePieceView::Special(id) => known.contains(id),
        }) by {
            assert(can_be_filled(single[i], 1, known));
        }
    }
    if after_template(template, 2) is Some {
        assert forall|i: int| 0 <= i < pair.len() implies (#[trigger] pair[i] matches
            TemplatePieceView::Special(id) ==> known.contains(id)) by {
            assert(can_be_filled(pair[i], 2, known));
        }
    }
}

/// Post-processors other than templates keep the number of parts; those of BERT and RoBERTa add
/// two tokens each.
pub proof fn law_post_processors_keep_the_parts(
    processor: PostProcessorWrapper,
    state: (nat, nat),
    depth: nat,
)
    ensures
        processor_kind_of(processor) == ProcessorKind::Bert || processor_kind_of(processor)
            == ProcessorKind::Roberta ==> after_processor(processor, state, depth) == Some(
            (state.0, state.1 + 2),
        ),
        processor_kind_of(processor) == ProcessorKind::ByteLevel ==> after_processor(
            processor,
            state,
            depth,
        ) == Some(state),
        processor_kind_of(processor) == ProcessorKind::Template && template_of(processor) is Some
            ==> (after_processor(processor, state, depth) is Some <==> after_template(
            template_of(processor)->Some_0,
            state.0,
        ) is Some),
        processor_kind_of(processor) == ProcessorKind::Sequence && processor_members_of(
            processor,
        ).len() == 0 ==> after_processor(processor, state, depth + 1) == Some(state),
{
}

/// Post-processors work in turn: applying some and then others comes to applying all of them.
pub proof fn law_post_processors_work_in_turn(
    first: Seq<PostProcessorWrapper>,
    second: Seq<PostProcessorWrapper>,
    state: (nat, nat),
    depth: nat,
)
    ensures
        after_processors(first + second, state, depth) == (match after_processors(
            first,
            state,
            depth,
        ) {
            Some(next) => after_processors(second, next, depth),
            None => None,
        }),
    decreases first.len(),
{
    if first.len() == 0 {
        assert(first + second =~= second);
    } else {
        assert((first + second).first() == first.first());
        assert((first + second).drop_first() =~= first.drop_first() + second);
        if let Some(next) = after_processor(first.first(), state, depth) {
            law_post_processors_work_in_turn(first.drop_first(), second, next, depth);
        }
    }
}

/// A truncation is safe exactly when the special tokens fit into its length, and it leaves no room
/// beside them or more than its stride; a second text's may have any stride.
pub proof fn law_truncations_need_room(
    tokenizer: tokenizers::Tokenizer,
    max_length: usize,
    stride: usize,
    truncated: TruncatedText,
)
    requires
        truncation_params(tokenizer) == Some((max_length, stride, truncated)),
        counts_safely(tokenizer),
    ensures
        truncates_safely(tokenizer) <==> {
            ||| max_length == added_token_count(tokenizer)
            ||| max_length > added_token_count(tokenizer) + stride
            ||| max_length > added_token_count(tokenizer) && truncated == TruncatedText::Second
        },
{
}

/// A tokenizer without a truncation needs no room, and one without a padding no length.
pub proof fn law_nothing_to_truncate_or_to_pad(tokenizer: tokenizers::Tokenizer)
    ensures
        truncation_params(tokenizer) is None ==> truncates_safely(tokenizer),
        padding_params(tokenizer) is None ==> pads_safely(tokenizer),
{
}

/// What is padded to no more than a safe padding is safe, and a padding is safe up to a 256th of
/// what a `usize` holds.
pub proof fn law_shorter_paddings_are_safe(
    tokenizer: tokenizers::Tokenizer,
    length: Option<usize>,
    multiple: Option<usize>,
)
    requires
        padding_params(tokenizer) == Some((length, multiple)),
    ensures
        pads_safely(tokenizer) <==> {
            &&& length is Some ==> length->Some_0 <= usize::MAX / 256
            &&& multiple is Some ==> multiple->Some_0 <= usize::MAX / 256
        },
{
}

/// An added token can be searched for if the normalizer leaves something of it and both of its
/// forms are visible; without white space taken away on both sides, the first is enough.
pub proof fn law_visible_tokens_can_be_searched(
    tokenizer: tokenizers::Tokenizer,
    text: Seq<char>,
)
    ensures
        is_visible(text) && is_visible(normalized_text(tokenizer, text)) ==> can_be_searched(
            tokenizer,
            text,
        ),
        normalized_text(tokenizer, text).len() == 0 ==> !can_be_searched(tokenizer, text),
        normalized_text(tokenizer, text).len() > 0 && !strips_both_sides(
            added_strips_of(tokenizer),
        ) ==> can_be_searched(tokenizer, text),
        normalizer_of(tokenizer) is None ==> normalized_text(tokenizer, text) == text,
        normalizer_of(tokenizer) matches Some(normalizer) ==> normalized_text(tokenizer, text)
            == normalized_by(normalizer, text),
{
}

} // verus!
