use semantic_cache_gateway::settings::{MAX_NESTING, MAX_PADDING};
use semantic_cache_gateway::tokenizer::PromptTokenizer;
use tokenizers::normalizers::Lowercase;
use tokenizers::pre_tokenizers::byte_level::ByteLevel;
use tokenizers::pre_tokenizers::split::{Split, SplitPattern};
use tokenizers::processors::bert::BertProcessing;
use tokenizers::processors::sequence::Sequence;
use tokenizers::processors::template::TemplateProcessing;
use tokenizers::processors::PostProcessorWrapper;
use tokenizers::utils::SysRegex;
use tokenizers::{AddedToken, NormalizerWrapper, SplitDelimiterBehavior, Tokenizer};

const WORD_PIECE: &str = r###"{"type":"WordPiece","unk_token":"[UNK]",
    "continuing_subword_prefix":"##","max_input_chars_per_word":100,
    "vocab":{"[PAD]":0,"[UNK]":1,"[CLS]":2,"[SEP]":3,"rust":4,"is":5,"fun":6,"!":7,"##s":8}}"###;
const BERT_NORMALIZER: &str = r#"{"type":"BertNormalizer","clean_text":true,
    "handle_chinese_chars":true,"strip_accents":null,"lowercase":true}"#;
const LOWERCASE: &str = r#"{"type":"Lowercase"}"#;
const WHITESPACE: &str = r#"{"type":"Whitespace"}"#;
const BYTE_LEVEL: &str =
    r#"{"type":"ByteLevel","add_prefix_space":true,"trim_offsets":true,"use_regex":true}"#;
const CLS: &str = r#"{"SpecialToken":{"id":"[CLS]","type_id":0}}"#;
const SEP: &str = r#"{"SpecialToken":{"id":"[SEP]","type_id":0}}"#;
const FIRST: &str = r#"{"Sequence":{"id":"A","type_id":0}}"#;
const SECOND: &str = r#"{"Sequence":{"id":"B","type_id":1}}"#;

fn template(single: &[&str]) -> String {
    format!(
        r#"{{"type":"TemplateProcessing","single":[{}],"pair":[{FIRST},{SECOND}],
        "special_tokens":{{"[CLS]":{{"id":"[CLS]","ids":[2],"tokens":["[CLS]"]}},
        "[SEP]":{{"id":"[SEP]","ids":[3],"tokens":["[SEP]"]}}}}}}"#,
        single.join(",")
    )
}

fn padding(length: usize, multiple: &str) -> String {
    format!(
        r#"{{"strategy":{{"Fixed":{length}}},"direction":"Right","pad_to_multiple_of":{multiple},
        "pad_id":0,"pad_type_id":0,"pad_token":"[PAD]"}}"#
    )
}

fn added(id: u32, content: &str, strips: bool, normalized: bool) -> String {
    format!(
        r#"{{"id":{id},"content":"{content}","single_word":false,"lstrip":{strips},
        "rstrip":{strips},"normalized":{normalized},"special":true}}"#
    )
}

/// The settings of a tokenizer; each is the JSON of a part.
struct Parts {
    normalizer: String,
    pre_tokenizer: String,
    processor: String,
    padding: String,
    truncation: String,
    added_tokens: String,
    model: String,
}

impl Parts {
    fn new() -> Parts {
        Parts {
            normalizer: "null".to_string(),
            pre_tokenizer: WHITESPACE.to_string(),
            processor: "null".to_string(),
            padding: "null".to_string(),
            truncation: "null".to_string(),
            added_tokens: "[]".to_string(),
            model: WORD_PIECE.to_string(),
        }
    }

    fn tokenizer(&self) -> Tokenizer {
        let json = format!(
            r#"{{"version":"1.0","truncation":{},"padding":{},"added_tokens":{},"normalizer":{},
            "pre_tokenizer":{},"post_processor":{},"decoder":null,"model":{}}}"#,
            self.truncation,
            self.padding,
            self.added_tokens,
            self.normalizer,
            self.pre_tokenizer,
            self.processor,
            self.model
        );
        Tokenizer::from_bytes(json.as_bytes()).unwrap()
    }

    fn checked(&self) -> Option<PromptTokenizer> {
        PromptTokenizer::new(self.tokenizer())
    }

    fn ids(&self, text: &str) -> Vec<u32> {
        self.checked().unwrap().encode(text).unwrap().ids
    }
}

fn with_normalizer(normalizer: &str) -> Parts {
    Parts { normalizer: normalizer.to_string(), ..Parts::new() }
}

fn with_pre_tokenizer(pre_tokenizer: &str) -> Parts {
    Parts { pre_tokenizer: pre_tokenizer.to_string(), ..Parts::new() }
}

fn with_processor(processor: &str) -> Parts {
    Parts { processor: processor.to_string(), ..Parts::new() }
}

fn with_padding(padding: &str) -> Parts {
    Parts { padding: padding.to_string(), ..Parts::new() }
}

#[test]
fn sentence_tokenizer_is_accepted() {
    let parts = Parts {
        normalizer: BERT_NORMALIZER.to_string(),
        pre_tokenizer: r#"{"type":"BertPreTokenizer"}"#.to_string(),
        processor: template(&[CLS, FIRST, SEP]),
        padding: padding(9, "null"),
        truncation: r#"{"direction":"Right","max_length":6,"strategy":"LongestFirst","stride":0}"#
            .to_string(),
        added_tokens: format!(
            "[{},{},{},{}]",
            added(0, "[PAD]", false, false),
            added(1, "[UNK]", false, false),
            added(2, "[CLS]", false, false),
            added(3, "[SEP]", false, false)
        ),
        model: WORD_PIECE.to_string(),
    };
    let tokenizer = parts.checked().unwrap();
    let encoding = tokenizer.encode("Rusts is fün! Rust").unwrap();
    assert_eq!(encoding.ids, vec![2, 4, 8, 5, 6, 3, 0, 0, 0]);
    assert_eq!(encoding.attention_mask, vec![1, 1, 1, 1, 1, 1, 0, 0, 0]);
    assert_eq!(encoding.type_ids, vec![0; 9]);
    let encoding = tokenizer.encode("\u{301}\u{0}的[SEP]").unwrap();
    assert_eq!(encoding.ids, vec![2, 1, 3, 3, 0, 0, 0, 0, 0]);
}

#[test]
fn template_places_must_be_filled() {
    assert_eq!(with_processor(&template(&[FIRST, SEP])).ids("rust"), vec![4, 3]);
    assert_eq!(with_processor(&template(&[CLS])).ids("rust"), vec![2]);
    assert_eq!(with_processor(&template(&[FIRST, SEP, FIRST])).ids("rust is"), vec![4, 5, 3, 4, 5]);
    assert!(with_processor(&template(&[])).ids("rust").is_empty());

    let unknown = r#"{"SpecialToken":{"id":"[MASK]","type_id":0}}"#;
    assert!(with_processor(&template(&[CLS, FIRST, unknown])).checked().is_none());
    assert!(with_processor(&template(&[FIRST, SEP, SECOND])).checked().is_none());
}

#[test]
fn templates_take_one_or_two_parts() {
    let complete = template(&[CLS, FIRST, SEP]);
    let sequence = |processors: &[&str]| {
        format!(r#"{{"type":"Sequence","processors":[{}]}}"#, processors.join(","))
    };
    let bert = r#"{"type":"BertProcessing","sep":["[SEP]",3],"cls":["[CLS]",2]}"#;

    assert_eq!(with_processor(&sequence(&[])).ids("rust"), vec![4]);
    let chained = with_processor(&sequence(&[BYTE_LEVEL, &complete]));
    assert_eq!(chained.ids("rust"), vec![2, 4, 3]);
    let chained = with_processor(&sequence(&[bert, &complete]));
    assert_eq!(chained.ids("rust"), vec![2, 2, 4, 3, 3]);
    let chained = with_processor(&sequence(&[&template(&[FIRST]), &complete]));
    assert_eq!(chained.ids("rust"), vec![2, 4, 3]);
    let chained = with_processor(&sequence(&[&template(&[FIRST, SEP]), &complete]));
    assert_eq!(chained.ids("rust"), vec![4, 3]);
    let nested = sequence(&[&sequence(&[BYTE_LEVEL, &sequence(&[&complete])]), bert]);
    assert_eq!(with_processor(&nested).ids("rust"), vec![2, 2, 3, 4, 3, 3, 3]);

    assert!(with_processor(&sequence(&[&complete, &complete])).checked().is_none());
    assert!(with_processor(&sequence(&[&sequence(&[&complete]), &complete])).checked().is_none());
    assert!(with_processor(&sequence(&[&template(&[]), &complete])).checked().is_none());
}

#[test]
fn nesting_is_bounded() {
    let nested = |levels: usize| {
        let mut processor = PostProcessorWrapper::Bert(BertProcessing::default());
        for _ in 0..levels {
            processor = PostProcessorWrapper::Sequence(Sequence::new(vec![processor]));
        }
        let mut tokenizer = Parts::new().tokenizer();
        tokenizer.with_post_processor(Some(processor));
        PromptTokenizer::new(tokenizer)
    };
    let tokenizer = nested(MAX_NESTING).unwrap();
    assert_eq!(tokenizer.encode("rust").unwrap().ids, vec![101, 4, 102]);
    assert!(nested(MAX_NESTING + 1).is_none());
}

#[test]
fn added_tokens_must_be_countable() {
    let counted = |added: usize, truncation: &str| {
        let mut template = TemplateProcessing::default();
        template.set_added_single(added);
        let parts = Parts { truncation: truncation.to_string(), ..Parts::new() };
        let mut tokenizer = parts.tokenizer();
        tokenizer.with_post_processor(Some(PostProcessorWrapper::Sequence(Sequence::new(vec![
            PostProcessorWrapper::Bert(BertProcessing::default()),
            PostProcessorWrapper::ByteLevel(ByteLevel::default()),
            PostProcessorWrapper::Template(template),
        ]))));
        PromptTokenizer::new(tokenizer)
    };
    let longest = format!(
        r#"{{"direction":"Right","max_length":{},"strategy":"LongestFirst","stride":0}}"#,
        usize::MAX
    );
    assert!(counted(usize::MAX - 2, &longest).is_some());
    assert!(counted(usize::MAX - 1, &longest).is_none());
    assert!(counted(usize::MAX, "null").is_some());
}

#[test]
fn truncation_of_a_second_text_is_reported() {
    let truncation = |strategy: &str| {
        let truncation = format!(
            r#"{{"direction":"Right","max_length":2,"strategy":"{strategy}","stride":2}}"#
        );
        Parts { truncation, ..Parts::new() }
    };
    let tokenizer = truncation("OnlySecond").checked().unwrap();
    assert_eq!(tokenizer.encode("rust is").unwrap().ids, vec![4, 5]);
    let error = tokenizer.encode("rust is fun").unwrap_err();
    assert_eq!(error, "Truncation error: Second sequence not provided");
    assert!(truncation("OnlyFirst").checked().is_none());
    assert!(truncation("LongestFirst").checked().is_none());
}

#[test]
fn fixed_pieces_have_a_length() {
    let pieces = |length: usize| {
        with_pre_tokenizer(&format!(r#"{{"type":"FixedLength","length":{length}}}"#))
    };
    assert_eq!(pieces(2).ids("isisé"), vec![5, 5, 1]);
    assert!(pieces(0).checked().is_none());
    let nested = |length: usize| {
        with_pre_tokenizer(&format!(
            r#"{{"type":"Sequence","pretokenizers":[{WHITESPACE},
            {{"type":"FixedLength","length":{length}}}]}}"#
        ))
    };
    assert_eq!(nested(2).ids("is isis"), vec![5, 5, 5]);
    assert!(nested(0).checked().is_none());
}

#[test]
fn pre_tokenizers_that_cut_between_characters_are_accepted() {
    let text = " Rust-is 1é的 fun!  ";
    for part in [
        "null",
        WHITESPACE,
        BYTE_LEVEL,
        r#"{"type":"BertPreTokenizer"}"#,
        r#"{"type":"CharDelimiterSplit","delimiter":"-"}"#,
        r#"{"type":"Metaspace","replacement":"_","prepend_scheme":"always","split":true}"#,
        r#"{"type":"Punctuation","behavior":"MergedWithNext"}"#,
        r#"{"type":"WhitespaceSplit"}"#,
        r#"{"type":"Digits","individual_digits":true}"#,
        r#"{"type":"UnicodeScripts"}"#,
    ] {
        let tokenizer = with_pre_tokenizer(part).checked().unwrap();
        assert!(!tokenizer.encode(text).unwrap().ids.is_empty());
        assert!(tokenizer.encode("").unwrap().ids.is_empty());
    }
    let nested = format!(
        r#"{{"type":"Sequence","pretokenizers":[{{"type":"Sequence","pretokenizers":[{WHITESPACE}]}}]}}"#
    );
    assert_eq!(with_pre_tokenizer(&nested).ids("rust is"), vec![4, 5]);
}

#[test]
fn texts_to_split_at_are_accepted() {
    let split = |pattern: &str, behavior: &str, invert: bool| {
        with_pre_tokenizer(&format!(
            r#"{{"type":"Split","pattern":{pattern},"behavior":"{behavior}","invert":{invert}}}"#
        ))
    };
    assert_eq!(split(r#"{"String":"-"}"#, "Removed", false).ids("rust-is"), vec![4, 5]);
    assert_eq!(split(r#"{"String":"is"}"#, "Removed", true).ids("rustis"), vec![5]);
    assert_eq!(split(r#"{"String":".*"}"#, "Removed", false).ids("rust.*is"), vec![4, 5]);
    for behavior in ["Removed", "Isolated", "Contiguous", "MergedWithPrevious", "MergedWithNext"] {
        let tokenizer = split(r#"{"String":""}"#, behavior, false).checked().unwrap();
        assert!(tokenizer.encode("é!的").is_ok());
    }
    assert!(split(r#"{"Regex":"-"}"#, "Removed", false).checked().is_none());

    let forged = |regex: &str| {
        let mut tokenizer = Parts::new().tokenizer();
        tokenizer.with_pre_tokenizer(Some(Split {
            pattern: SplitPattern::String("-".to_string()),
            regex: SysRegex::new(regex).unwrap(),
            behavior: SplitDelimiterBehavior::Removed,
            invert: false,
        }));
        PromptTokenizer::new(tokenizer)
    };
    assert!(forged(r"\-").is_some());
    assert!(forged(r"(?=-\K)").is_none());
}

#[test]
fn normalizers_are_accepted() {
    let text = "\u{301}e\u{323}\u{301} \u{1e9b}\u{323} ﬁ İ 한국 \u{0}\t\u{200b} ";
    for part in [
        BERT_NORMALIZER,
        LOWERCASE,
        r#"{"type":"Strip","strip_left":true,"strip_right":true}"#,
        r#"{"type":"StripAccents"}"#,
        r#"{"type":"NFC"}"#,
        r#"{"type":"NFD"}"#,
        r#"{"type":"NFKC"}"#,
        r#"{"type":"NFKD"}"#,
        r#"{"type":"Nmt"}"#,
        r#"{"type":"ByteLevel"}"#,
        r#"{"type":"Sequence","normalizers":[{"type":"NFKC"},{"type":"NFD"},{"type":"StripAccents"},{"type":"Lowercase"}]}"#,
    ] {
        let tokenizer = with_normalizer(part).checked().unwrap();
        assert!(!tokenizer.encode(text).unwrap().ids.is_empty());
        assert!(tokenizer.encode("").unwrap().ids.is_empty());
    }
    assert_eq!(with_normalizer(LOWERCASE).ids("RUST"), vec![4]);
    assert_eq!(with_normalizer("null").ids("RUST"), vec![1]);

    let nested = format!(
        r#"{{"type":"Sequence","normalizers":[{{"type":"Sequence","normalizers":[{LOWERCASE}]}}]}}"#
    );
    assert_eq!(with_normalizer(&nested).ids("RUST"), vec![4]);
}

#[test]
fn replaced_and_prepended_texts_must_not_be_empty() {
    let replace = |pattern: &str, content: &str| {
        format!(r#"{{"type":"Replace","pattern":{pattern},"content":"{content}"}}"#)
    };
    let literal = |pattern: &str, content: &str| {
        with_normalizer(&replace(&format!(r#"{{"String":"{pattern}"}}"#), content))
    };
    assert_eq!(literal("go", "rust").ids("go is"), vec![4, 5]);
    assert_eq!(literal("é", "").ids("éisé"), vec![5]);
    assert!(literal("", "x").checked().is_none());
    let regex = replace(r#"{"Regex":"a"}"#, "b");
    assert!(with_normalizer(&regex).checked().is_none());
    let inside = format!(r#"{{"type":"Sequence","normalizers":[{LOWERCASE},{regex}]}}"#);
    assert!(with_normalizer(&inside).checked().is_none());

    let prepend = |text: &str| with_normalizer(&format!(r#"{{"type":"Prepend","prepend":"{text}"}}"#));
    assert_eq!(prepend("rust ").ids("is"), vec![4, 5]);
    assert!(prepend("").checked().is_none());

    let chained = format!(
        r#"{{"type":"Sequence","normalizers":[{{"type":"Prepend","prepend":"的"}},{},{LOWERCASE},{{"type":"NFC"}}]}}"#,
        replace(r#"{"String":" "}"#, "的")
    );
    assert_eq!(with_normalizer(&chained).ids("é İ"), vec![1]);

    let precompiled = r#"{"type":"Precompiled","precompiled_charsmap":"AAAAAA=="}"#;
    assert!(with_normalizer(precompiled).checked().is_none());
}

#[test]
fn added_tokens_must_be_found_between_characters() {
    let parts = |normalizer: &str, tokens: &[String]| Parts {
        normalizer: normalizer.to_string(),
        added_tokens: format!("[{}]", tokens.join(",")),
        ..Parts::new()
    };
    let stripped =
        parts("null", &[added(9, "<a>", true, false), added(10, "é", true, true)]);
    assert_eq!(stripped.ids("rust  <a>   <a> é  é is"), vec![4, 9, 9, 10, 10, 5]);
    let blank = parts("null", &[added(9, "  ", false, false)]);
    assert_eq!(blank.ids("rust  is"), vec![4, 9, 5]);
    assert!(parts("null", &[added(9, "<a>", true, false), added(10, "  ", false, false)])
        .checked()
        .is_none());

    let accent = [added(9, "\u{301}", false, true)];
    assert_eq!(parts("null", &accent).ids("e\u{301}"), vec![1, 9]);
    assert!(parts(r#"{"type":"StripAccents"}"#, &accent).checked().is_none());
    let erased = r#"{"type":"Replace","pattern":{"String":"<a>"},"content":""}"#;
    assert!(parts(erased, &[added(9, "<a>", false, true)]).checked().is_none());
    assert!(parts(erased, &[added(9, "<b>", false, true)]).checked().is_some());
    let blanked = r#"{"type":"Replace","pattern":{"String":"<a>"},"content":" "}"#;
    assert!(parts(blanked, &[added(9, "<a>", false, true)]).checked().is_some());
    assert!(parts(blanked, &[added(9, "<a>", true, true)]).checked().is_none());
}

#[test]
fn added_tokens_are_searched_with_the_present_normalizer() {
    let mut tokenizer = with_normalizer(LOWERCASE).tokenizer();
    tokenizer.add_tokens(&[AddedToken::from("Gateway", false).normalized(true)]);
    let lowered = PromptTokenizer::new(tokenizer.clone()).unwrap();
    assert_eq!(lowered.encode("rust Gateway").unwrap().ids, vec![4, 9]);
    assert_eq!(lowered.encode("rust gateway").unwrap().ids, vec![4, 9]);

    tokenizer.with_normalizer(None::<NormalizerWrapper>);
    let plain = PromptTokenizer::new(tokenizer.clone()).unwrap();
    assert_eq!(plain.encode("rust Gateway").unwrap().ids, vec![4, 9]);
    assert_eq!(plain.encode("rust gateway").unwrap().ids, vec![4, 1]);

    tokenizer.with_normalizer(Some(Lowercase));
    assert_eq!(tokenizer.encode("rust gateway", true).unwrap().get_ids().len(), 2);
}

#[test]
fn padding_is_bounded() {
    assert_eq!(with_padding(&padding(3, "null")).ids("rust"), vec![4, 0, 0]);
    assert_eq!(with_padding(&padding(3, "4")).ids("rust"), vec![4, 0, 0, 0]);
    assert_eq!(with_padding(&padding(3, "0")).ids("rust"), vec![4, 0, 0]);
    assert!(with_padding(&padding(MAX_PADDING, "null")).checked().is_some());
    assert!(with_padding(&padding(MAX_PADDING + 1, "null")).checked().is_none());
    assert!(with_padding(&padding(usize::MAX, "null")).checked().is_none());
    assert!(with_padding(&padding(3, &usize::MAX.to_string())).checked().is_none());
    let longest = r#"{"strategy":"BatchLongest","direction":"Left","pad_to_multiple_of":2,
        "pad_id":0,"pad_type_id":0,"pad_token":"[PAD]"}"#;
    assert_eq!(with_padding(longest).ids("rust"), vec![0, 4]);
}

#[test]
fn every_model_is_accepted() {
    let with_model = |model: &str| Parts { model: model.to_string(), ..Parts::new() };
    let pairs = r#"{"type":"BPE","dropout":null,"unk_token":"?","continuing_subword_prefix":null,
        "end_of_word_suffix":null,"fuse_unk":true,"byte_fallback":false,
        "vocab":{"a":0,"b":1,"ab":2,"?":3},"merges":["a b"]}"#;
    assert_eq!(with_model(pairs).ids("abéa"), vec![2, 3, 0]);
    let unigram = r#"{"type":"Unigram","unk_id":0,"byte_fallback":false,
        "vocab":[["?",0.0],["a",-1.0],["ab",-1.5],["b",-1.0]]}"#;
    assert_eq!(with_model(unigram).ids("aba"), vec![2, 1]);
    assert_eq!(with_model(unigram).ids("é"), vec![0]);
}
