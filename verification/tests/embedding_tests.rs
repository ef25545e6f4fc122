use semantic_cache_gateway::embedding::{
    embed_encoding, embed_prompt, inference_error, input_name, l2_normalize, model_inputs,
    pool_hidden_states, HiddenStates, InferenceError, InputName, ModelInputs,
};
use semantic_cache_gateway::error::{AppError, ErrorKind};
use semantic_cache_gateway::number::{Component, Number};
use semantic_cache_gateway::routes::{AcceptedChat, EmbeddedChat};
use semantic_cache_gateway::tokenizer::{Encoding, PromptTokenizer};
use tokenizers::Tokenizer;

const DIM: usize = 384;

#[derive(Clone, Copy, Debug, PartialEq)]
struct Single(f32);

#[derive(Clone, Copy, Debug, PartialEq)]
struct Double(f64);

impl Number for Single {
    fn from_count(n: u64) -> Self {
        Single(n as f32)
    }
    fn plus(self, other: Self) -> Self {
        Single(self.0 + other.0)
    }
    fn times(self, other: Self) -> Self {
        Single(self.0 * other.0)
    }
    fn over(self, other: Self) -> Self {
        Single(self.0 / other.0)
    }
    fn square_root(self) -> Self {
        Single(self.0.sqrt())
    }
    fn is_positive(self) -> bool {
        self.0 > 0.0
    }
    fn to_fixed(self, places: usize) -> String {
        format!("{:.*}", places, self.0)
    }
}

impl Number for Double {
    fn from_count(n: u64) -> Self {
        Double(n as f64)
    }
    fn plus(self, other: Self) -> Self {
        Double(self.0 + other.0)
    }
    fn times(self, other: Self) -> Self {
        Double(self.0 * other.0)
    }
    fn over(self, other: Self) -> Self {
        Double(self.0 / other.0)
    }
    fn square_root(self) -> Self {
        Double(self.0.sqrt())
    }
    fn is_positive(self) -> bool {
        self.0 > 0.0
    }
    fn to_fixed(self, places: usize) -> String {
        format!("{:.*}", places, self.0)
    }
}

impl Component for Single {
    type Wide = Double;
    fn widen(self) -> Double {
        Double(self.0 as f64)
    }
    fn narrow(wide: Double) -> Self {
        Single(wide.0 as f32)
    }
}

/// A word level tokenizer with the given truncation, padding and post processor.
fn tokenizer(truncation: &str, padding: &str, post_processor: &str) -> Tokenizer {
    let json = format!(
        r#"{{"version":"1.0","truncation":{truncation},"padding":{padding},"added_tokens":[],
        "normalizer":null,"pre_tokenizer":{{"type":"Whitespace"}},
        "post_processor":{post_processor},"decoder":null,
        "model":{{"type":"WordLevel","vocab":{{"[UNK]":0,"what":1,"is":2,"rust":3}},
        "unk_token":"[UNK]"}}}}"#
    );
    Tokenizer::from_bytes(json.as_bytes()).unwrap()
}

const BERT: &str = r#"{"type":"BertProcessing","sep":["[SEP]",102],"cls":["[CLS]",101]}"#;
const PAD_TO_FIVE: &str = r#"{"strategy":{"Fixed":5},"direction":"Right",
    "pad_to_multiple_of":null,"pad_id":9,"pad_type_id":0,"pad_token":"[PAD]"}"#;

fn plain() -> PromptTokenizer {
    PromptTokenizer::new(tokenizer("null", "null", "null")).unwrap()
}

fn truncated(max_length: usize, stride: usize) -> Option<PromptTokenizer> {
    let truncation = format!(
        r#"{{"direction":"Right","max_length":{max_length},"strategy":"LongestFirst","stride":{stride}}}"#
    );
    PromptTokenizer::new(tokenizer(&truncation, "null", BERT))
}

/// Hidden states in which token `t` has `first(t)` in dimension 0 and `second(t)` in dimension 1.
fn hidden(tokens: usize, values: &[(f32, f32)]) -> HiddenStates<Single> {
    let mut data = vec![Single(0.0); tokens * DIM];
    for (t, (a, b)) in values.iter().enumerate() {
        data[t * DIM] = Single(*a);
        data[t * DIM + 1] = Single(*b);
    }
    HiddenStates { shape: vec![1, tokens as i64, DIM as i64], data }
}

fn message(error: AppError) -> (ErrorKind, String) {
    (error.kind, error.message)
}

#[test]
fn prompt_is_tokenized_pooled_and_normalized() {
    let mut seen = Vec::new();
    let embedding = embed_prompt(&plain(), "what is", |inputs: ModelInputs| {
        seen.push((inputs.input_ids, inputs.attention_mask, inputs.token_type_ids));
        Ok(hidden(2, &[(2.0, 6.0), (4.0, 2.0)]))
    })
    .unwrap();
    assert_eq!(seen, vec![(vec![1, 2], vec![1, 1], vec![0, 0])]);
    // The mean is (3, 4), its length 5.
    assert_eq!(embedding.len(), DIM);
    assert_eq!(embedding[0], Single(0.6));
    assert_eq!(embedding[1], Single(0.8));
    assert!(embedding[2..].iter().all(|value| *value == Single(0.0)));
}

#[test]
fn special_tokens_and_padding_reach_the_model() {
    let tokenizer = PromptTokenizer::new(tokenizer("null", PAD_TO_FIVE, BERT)).unwrap();
    let mut seen = Vec::new();
    let embedding = embed_prompt(&tokenizer, "rust unknown", |inputs: ModelInputs| {
        seen.push((inputs.input_ids, inputs.attention_mask));
        Ok(hidden(5, &[(1.0, 0.0), (1.0, 0.0), (1.0, 0.0), (1.0, 0.0), (-100.0, 7.0)]))
    })
    .unwrap();
    assert_eq!(seen, vec![(vec![101, 3, 0, 102, 9], vec![1, 1, 1, 1, 0])]);
    assert_eq!(embedding[0], Single(1.0));
    assert_eq!(embedding[1], Single(0.0));
}

#[test]
fn accepted_chat_carries_its_embedding() {
    let chat = AcceptedChat { model: "m".to_string(), prompt: "is".to_string() };
    let next: EmbeddedChat<Single> = chat
        .embed(&plain(), |inputs: ModelInputs| {
            assert_eq!(inputs.input_ids, vec![2]);
            Ok(hidden(1, &[(0.0, 2.0)]))
        })
        .unwrap();
    assert_eq!(next.model, "m");
    assert_eq!(next.prompt, "is");
    assert_eq!(next.vector[1], Single(1.0));

    let chat = AcceptedChat { model: "m".to_string(), prompt: "is".to_string() };
    let failed = chat.embed::<Single, _>(&plain(), |_: ModelInputs| {
        Err(InferenceError::Run { reason: "no memory".to_string() })
    });
    assert_eq!(
        message(failed.unwrap_err()),
        (ErrorKind::Internal, "ONNX inference failed: no memory".to_string())
    );
}

#[test]
fn prompt_without_tokens_is_refused() {
    let outcome = embed_prompt::<Single, _>(&plain(), "", |_: ModelInputs| {
        panic!("the model must not be run")
    });
    assert_eq!(
        message(outcome.unwrap_err()),
        (ErrorKind::BadRequest, "prompt produced zero tokens".to_string())
    );
}

#[test]
fn tokenizer_failure_is_reported() {
    let json = br#"{"version":"1.0","truncation":null,"padding":null,"added_tokens":[],
        "normalizer":null,"pre_tokenizer":null,"post_processor":null,"decoder":null,
        "model":{"type":"WordLevel","vocab":{"what":1},"unk_token":"[UNK]"}}"#;
    let tokenizer = PromptTokenizer::new(Tokenizer::from_bytes(json).unwrap()).unwrap();
    let outcome = embed_prompt::<Single, _>(&tokenizer, "else", |_: ModelInputs| {
        panic!("the model must not be run")
    });
    let (kind, text) = message(outcome.unwrap_err());
    assert_eq!(kind, ErrorKind::Internal);
    assert!(text.starts_with("Tokenizer failed: "), "{text}");
    assert!(text.len() > "Tokenizer failed: ".len());
}

#[test]
fn truncation_must_leave_room() {
    // Two special tokens are added.
    assert!(truncated(1, 0).is_none());
    assert!(truncated(3, 1).is_none());
    assert!(truncated(4, 3).is_none());
    assert!(truncated(2, 5).is_some());
    let kept = truncated(3, 0).unwrap().encode("what is rust").unwrap();
    assert_eq!(kept.ids, vec![101, 1, 102]);
    let none = truncated(2, 5).unwrap().encode("what is rust").unwrap();
    assert_eq!(none.ids, vec![101, 102]);
    let all = truncated(10, 2).unwrap().encode("what is rust").unwrap();
    assert_eq!(all.ids, vec![101, 1, 2, 3, 102]);
    assert_eq!(all.attention_mask, vec![1, 1, 1, 1, 1]);
    assert_eq!(all.type_ids, vec![0, 0, 0, 0, 0]);
}

#[test]
fn rows_must_be_parallel() {
    let encoding = |mask: Vec<u32>, types: Vec<u32>| Encoding {
        ids: vec![7, 8, 4294967295],
        attention_mask: mask,
        type_ids: types,
    };
    let rows = model_inputs(&encoding(vec![1, 1, 0], vec![0, 0, 1])).unwrap();
    assert_eq!(rows.input_ids, vec![7, 8, 4294967295]);
    assert_eq!(rows.attention_mask, vec![1, 1, 0]);
    assert_eq!(rows.token_type_ids, vec![0, 0, 1]);

    assert_eq!(
        message(model_inputs(&encoding(vec![1, 1], vec![0, 0, 0])).unwrap_err()),
        (
            ErrorKind::Internal,
            "attention_mask tensor shape error: ShapeError/OutOfBounds: out of bounds indexing"
                .to_string()
        )
    );
    assert_eq!(
        message(model_inputs(&encoding(vec![1, 1, 1], vec![0, 0, 0, 0])).unwrap_err()),
        (
            ErrorKind::Internal,
            "token_type_ids tensor shape error: ShapeError/IncompatibleShape: incompatible shapes"
                .to_string()
        )
    );
}

#[test]
fn dimension_mismatch_is_reported() {
    let mut states = hidden(1, &[(1.0, 0.0)]);
    states.shape = vec![1, 1, 768];
    assert_eq!(
        message(pool_hidden_states(&vec![1], &states).unwrap_err()),
        (
            ErrorKind::Internal,
            "Embedding dimension mismatch: model produced 768, Qdrant collection expects 384"
                .to_string()
        )
    );
    states.shape = vec![-1];
    assert_eq!(
        pool_hidden_states(&vec![1], &states).unwrap_err().message,
        format!(
            "Embedding dimension mismatch: model produced {}, Qdrant collection expects 384",
            usize::MAX
        )
    );
    // A tensor without a shape is taken to have the right dimension.
    states.shape = vec![];
    assert_eq!(pool_hidden_states(&vec![1], &states).unwrap()[0], Single(1.0));
}

#[test]
fn short_output_is_reported() {
    let states = hidden(2, &[(1.0, 0.0)]);
    assert_eq!(
        message(pool_hidden_states(&vec![1, 1, 1], &states).unwrap_err()),
        (
            ErrorKind::Internal,
            "ONNX output too small: got 768 values, expected at least 1152".to_string()
        )
    );
}

#[test]
fn masked_out_prompt_is_refused() {
    let states = hidden(2, &[(1.0, 0.0), (1.0, 0.0)]);
    assert_eq!(
        message(pool_hidden_states(&vec![0, 2], &states).unwrap_err()),
        (
            ErrorKind::BadRequest,
            "prompt contained no real tokens after masking".to_string()
        )
    );
}

#[test]
fn padding_has_no_influence() {
    let mask = vec![0, 1, 0, 1];
    let one = hidden(4, &[(9.0, 9.0), (1.0, 2.0), (5.0, 5.0), (3.0, 2.0)]);
    let other = hidden(4, &[(-1.0, 0.5), (1.0, 2.0), (f32::NAN, 0.0), (3.0, 2.0)]);
    assert_eq!(
        pool_hidden_states(&mask, &one).unwrap(),
        pool_hidden_states(&mask, &other).unwrap()
    );
    // Surplus values behind the last token are not read.
    let mut longer = hidden(5, &[(9.0, 9.0), (1.0, 2.0), (5.0, 5.0), (3.0, 2.0), (7.0, 7.0)]);
    longer.shape = vec![1, 4, 384];
    assert_eq!(
        pool_hidden_states(&mask, &one).unwrap(),
        pool_hidden_states(&mask, &longer).unwrap()
    );
}

#[test]
fn normalizing_scales_to_length_one() {
    let mut vector = vec![Single(3.0), Single(-4.0)];
    l2_normalize(&mut vector);
    assert_eq!(vector, vec![Single(0.6), Single(-0.8)]);

    let mut zero = vec![Single(0.0), Single(-0.0)];
    l2_normalize(&mut zero);
    assert_eq!(zero, vec![Single(0.0), Single(0.0)]);

    let mut empty: Vec<Single> = vec![];
    l2_normalize(&mut empty);
    assert!(empty.is_empty());
}

#[test]
fn failures_of_the_model_are_told_apart() {
    let reason = || "why".to_string();
    let cases = [
        (
            InferenceError::TensorCreation { input: InputName::InputIds, reason: reason() },
            "input_ids tensor creation failed: why",
        ),
        (
            InferenceError::TensorCreation { input: InputName::AttentionMask, reason: reason() },
            "attention_mask tensor creation failed: why",
        ),
        (
            InferenceError::TensorCreation { input: InputName::TokenTypeIds, reason: reason() },
            "token_type_ids tensor creation failed: why",
        ),
        (InferenceError::LockPoisoned { reason: reason() }, "Session lock poisoned: why"),
        (InferenceError::Run { reason: reason() }, "ONNX inference failed: why"),
        (
            InferenceError::Extraction { reason: reason() },
            "Failed to extract last_hidden_state tensor: why",
        ),
    ];
    for (error, expected) in cases {
        assert_eq!(message(inference_error(error)), (ErrorKind::Internal, expected.to_string()));
    }
    assert_eq!(input_name(InputName::TokenTypeIds), "token_type_ids");
}

#[test]
fn encoding_is_embedded_without_a_tokenizer() {
    let encoding = Encoding { ids: vec![5], attention_mask: vec![1], type_ids: vec![0] };
    let embedding =
        embed_encoding(Ok(encoding), |_: ModelInputs| Ok(hidden(1, &[(0.0, -3.0)]))).unwrap();
    assert_eq!(embedding[1], Single(-1.0));
    let failed = embed_encoding::<Single, _>(Err("odd".to_string()), |_: ModelInputs| {
        panic!("the model must not be run")
    });
    assert_eq!(failed.unwrap_err().message, "Tokenizer failed: odd");
}

#[test]
fn surplus_output_has_no_influence() {
    let mask = vec![1, 1];
    let exact = hidden(2, &[(3.0, 0.0), (0.0, 4.0)]);
    let mut longer = hidden(2, &[(3.0, 0.0), (0.0, 4.0)]);
    longer.data.extend(vec![Single(7.0); DIM + 1]);
    let expected = pool_hidden_states(&mask, &exact).unwrap();
    assert_eq!(pool_hidden_states(&mask, &longer).unwrap(), expected);
    assert_eq!((expected[0], expected[1]), (Single(0.6), Single(0.8)));
}

#[test]
fn padding_may_stand_on_either_side() {
    let before = hidden(3, &[(9.0, 9.0), (3.0, 0.0), (0.0, 4.0)]);
    let behind = hidden(4, &[(3.0, 0.0), (0.0, 4.0), (5.0, 5.0), (6.0, 6.0)]);
    let expected = pool_hidden_states(&vec![0, 1, 1], &before).unwrap();
    assert_eq!(pool_hidden_states(&vec![1, 1, 0, 0], &behind).unwrap(), expected);
    assert_eq!((expected[0], expected[1]), (Single(0.6), Single(0.8)));
}

#[test]
fn same_prompt_has_the_same_embedding() {
    let tokenizer = plain();
    let run = |_: ModelInputs| -> Result<HiddenStates<Single>, InferenceError> {
        Ok(hidden(2, &[(3.0, 0.0), (0.0, 4.0)]))
    };
    let first = embed_prompt(&tokenizer, "what is", run).unwrap();
    let second = embed_prompt(&tokenizer, "what is", run).unwrap();
    assert_eq!(first, second);
    assert_eq!((first[0], first[1]), (Single(0.6), Single(0.8)));
}

#[test]
fn model_is_not_run_without_inputs() {
    let run = |_: ModelInputs| -> Result<HiddenStates<Single>, InferenceError> {
        panic!("nothing to run the model on")
    };
    assert!(embed_prompt(&plain(), "", run).is_err());
    assert!(embed_encoding(Err("no".to_string()), run).is_err());
    let uneven = Encoding { ids: vec![1, 2], attention_mask: vec![1], type_ids: vec![0, 0] };
    assert!(embed_encoding(Ok(uneven), run).is_err());
}
