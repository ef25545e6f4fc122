//! The embedding of a prompt: its tokens, the model's inputs, mean pooling and normalisation.

use vstd::prelude::*;

use crate::constants::EMBEDDING_DIM;
use crate::error::{bad_request, internal, viewed, AppError, AppErrorView, ErrorKind};
use crate::number::{
    accumulates, are_exact, computes_deterministically, is_count, is_deterministic, is_exact,
    is_narrowed, is_product, is_quotient, is_square_root, is_sum, is_widened,
    law_accumulating_sums_up, lemma_accumulates_once, lemma_accumulates_push, tells_positive,
    total, Component, Number,
};
use crate::text::{decimal, decimal_text, joined};
use crate::tokenizer::{encoding_outcome, may_encode, Encoding, EncodingView, PromptTokenizer};

verus! {

// The inputs of the model.

/// The rows that the model is run on: one token per column.
#[derive(Debug)]
pub struct ModelInputs {
    pub input_ids: Vec<i64>,
    pub attention_mask: Vec<i64>,
    pub token_type_ids: Vec<i64>,
}

/// What `ModelInputs` hold: the input ids, the attention mask and the token type ids.
pub type ModelInputsView = (Seq<i64>, Seq<i64>, Seq<i64>);

impl View for ModelInputs {
    type V = ModelInputsView;

    open spec fn view(&self) -> ModelInputsView {
        (self.input_ids@, self.attention_mask@, self.token_type_ids@)
    }
}

/// `values` as signed numbers.
pub open spec fn signed(values: Seq<u32>) -> Seq<i64> {
    values.map_values(|value: u32| value as i64)
}

/// What comes of laying `values` out as one row of the given number of columns.
pub open spec fn as_row(values: Seq<i64>, columns: usize) -> Result<Seq<i64>, Seq<char>> {
    if columns > isize::MAX {
        Err("ShapeError/Overflow: arithmetic overflow"@)
    } else if columns > values.len() {
        Err("ShapeError/OutOfBounds: out of bounds indexing"@)
    } else if columns < values.len() {
        Err("ShapeError/IncompatibleShape: incompatible shapes"@)
    } else {
        Ok(values)
    }
}

/// A row or the reason why there is none, taken by its view.
pub open spec fn row_outcome(row: Result<Vec<i64>, String>) -> Result<Seq<i64>, Seq<char>> {
    match row {
        Ok(values) => Ok(values@),
        Err(message) => Err(message@),
    }
}

/// `Array2::from_shape_vec` with the shape of one row, and the row taken out again. It gives the
/// values back unchanged where there is one for each column, and otherwise says what is wrong
/// with the shape.
#[verifier::external_body]
fn shape_row(values: Vec<i64>, columns: usize) -> (row: Result<Vec<i64>, String>)
    ensures
        row_outcome(row) == as_row(values@, columns),
{
    match ndarray::Array2::from_shape_vec((1, columns), values) {
        Ok(array) => Ok(array.into_raw_vec_and_offset().0),
        Err(error) => Err(error.to_string()),
    }
}

fn to_signed(values: &Vec<u32>) -> (converted: Vec<i64>)
    ensures
        converted@ == signed(values@),
{
    let mut converted: Vec<i64> = Vec::new();
    for i in 0..values.len()
        invariant
            converted@ == signed(values@).take(i as int),
    {
        converted.push(values[i] as i64);
    }
    converted
}

/// The inputs that the model is run on for an encoded prompt, or why it cannot be run.
pub open spec fn inputs_for(encoding: EncodingView) -> Result<ModelInputsView, AppErrorView> {
    let (ids, attention_mask, type_ids) = encoding;
    let columns = ids.len() as usize;
    if ids.len() == 0 {
        Err(bad_request("prompt produced zero tokens"@))
    } else {
        match as_row(signed(ids), columns) {
            Err(reason) => Err(internal("input_ids tensor shape error: "@ + reason)),
            Ok(id_row) => match as_row(signed(attention_mask), columns) {
                Err(reason) => Err(internal("attention_mask tensor shape error: "@ + reason)),
                Ok(mask_row) => match as_row(signed(type_ids), columns) {
                    Err(reason) => Err(internal("token_type_ids tensor shape error: "@ + reason)),
                    Ok(type_row) => Ok((id_row, mask_row, type_row)),
                },
            },
        }
    }
}

/// The outcome of preparing the inputs, taken by its view.
pub open spec fn inputs_outcome(inputs: Result<ModelInputs, AppError>) -> Result<
    ModelInputsView,
    AppErrorView,
> {
    match inputs {
        Ok(rows) => Ok(rows@),
        Err(error) => Err(error@),
    }
}

/// Lays the tokens of a prompt out as the rows that the model is run on.
pub fn model_inputs(encoding: &Encoding) -> (inputs: Result<ModelInputs, AppError>)
    ensures
        inputs_outcome(inputs) == inputs_for(encoding@),
        inputs matches Ok(rows) ==> {
            &&& rows.input_ids@.len() == encoding.ids@.len()
            &&& rows.attention_mask@.len() == encoding.attention_mask@.len()
            &&& rows.token_type_ids@.len() == encoding.type_ids@.len()
            &&& forall|i: int|
                0 <= i < encoding.ids@.len() ==> #[trigger] rows.input_ids@[i] == encoding.ids@[i]
            &&& forall|i: int|
                0 <= i < encoding.attention_mask@.len() ==> #[trigger] rows.attention_mask@[i]
                    == encoding.attention_mask@[i]
            &&& forall|i: int|
                0 <= i < encoding.type_ids@.len() ==> #[trigger] rows.token_type_ids@[i]
                    == encoding.type_ids@[i]
        },
{
    let columns: usize = encoding.ids.len();
    if columns == 0 {
        return Err(AppError::bad_request("prompt produced zero tokens".to_string()));
    }
    let input_ids = match shape_row(to_signed(&encoding.ids), columns) {
        Ok(row) => row,
        Err(reason) => {
            return Err(AppError::internal(joined("input_ids tensor shape error: ", &reason)));
        },
    };
    let attention_mask = match shape_row(to_signed(&encoding.attention_mask), columns) {
        Ok(row) => row,
        Err(reason) => {
            return Err(AppError::internal(joined("attention_mask tensor shape error: ", &reason)));
        },
    };
    let token_type_ids = match shape_row(to_signed(&encoding.type_ids), columns) {
        Ok(row) => row,
        Err(reason) => {
            return Err(AppError::internal(joined("token_type_ids tensor shape error: ", &reason)));
        },
    };
    Ok(ModelInputs { input_ids, attention_mask, token_type_ids })
}

// What the model produces.

/// The hidden states that the model produces: a tensor's shape and its values, token by token.
#[derive(Debug)]
pub struct HiddenStates<E> {
    pub shape: Vec<i64>,
    pub data: Vec<E>,
}

/// One of the model's inputs.
#[derive(Clone, Copy, Debug, PartialEq, Eq, Structural)]
pub enum InputName {
    InputIds,
    AttentionMask,
    TokenTypeIds,
}

/// Why the model produced nothing, with what the model's runtime says about it.
#[derive(Debug)]
pub enum InferenceError {
    /// One of the inputs could not be handed over.
    TensorCreation { input: InputName, reason: String },
    /// Another run left the model unusable.
    LockPoisoned { reason: String },
    /// The run itself failed.
    Run { reason: String },
    /// What the run produced could not be read.
    Extraction { reason: String },
}

/// The error with which a failed run of the model ends a request.
pub open spec fn inference_failure(error: InferenceError) -> AppErrorView {
    match error {
        InferenceError::TensorCreation { input, reason } => {
            let name = match input {
                InputName::InputIds => "input_ids"@,
                InputName::AttentionMask => "attention_mask"@,
                InputName::TokenTypeIds => "token_type_ids"@,
            };
            internal(name + " tensor creation failed: "@ + reason@)
        },
        InferenceError::LockPoisoned { reason } => internal("Session lock poisoned: "@ + reason@),
        InferenceError::Run { reason } => internal("ONNX inference failed: "@ + reason@),
        InferenceError::Extraction { reason } => internal(
            "Failed to extract last_hidden_state tensor: "@ + reason@,
        ),
    }
}

/// The name that the model gives to one of its inputs.
pub fn input_name(input: InputName) -> (name: &'static str)
    ensures
        name@ == (match input {
            InputName::InputIds => "input_ids"@,
            InputName::AttentionMask => "attention_mask"@,
            InputName::TokenTypeIds => "token_type_ids"@,
        }),
{
    match input {
        InputName::InputIds => "input_ids",
        InputName::AttentionMask => "attention_mask",
        InputName::TokenTypeIds => "token_type_ids",
    }
}

/// Turns a failed run of the model into the error that ends the request.
pub fn inference_error(error: InferenceError) -> (reported: AppError)
    ensures
        reported@ == inference_failure(error),
        reported.kind == ErrorKind::Internal,
        match error {
            InferenceError::TensorCreation { input, reason } => reported.message@ == (match input {
                InputName::InputIds => "input_ids"@,
                InputName::AttentionMask => "attention_mask"@,
                InputName::TokenTypeIds => "token_type_ids"@,
            }) + " tensor creation failed: "@ + reason@,
            InferenceError::LockPoisoned { reason } => reported.message@
                == "Session lock poisoned: "@ + reason@,
            InferenceError::Run { reason } => reported.message@ == "ONNX inference failed: "@
                + reason@,
            InferenceError::Extraction { reason } => reported.message@
                == "Failed to extract last_hidden_state tensor: "@ + reason@,
        },
{
    let message = match error {
        InferenceError::TensorCreation { input, reason } => {
            let mut text = joined(input_name(input), " tensor creation failed: ");
            text.append(&reason);
            text
        },
        InferenceError::LockPoisoned { reason } => joined("Session lock poisoned: ", &reason),
        InferenceError::Run { reason } => joined("ONNX inference failed: ", &reason),
        InferenceError::Extraction { reason } => joined(
            "Failed to extract last_hidden_state tensor: ",
            &reason,
        ),
    };
    AppError::internal(message)
}

// Mean pooling.

/// The positions of the tokens that the mask marks as real, in order.
pub open spec fn real_tokens(mask: Seq<u32>) -> Seq<int>
    decreases mask.len(),
{
    if mask.len() == 0 {
        Seq::empty()
    } else {
        let before = real_tokens(mask.drop_last());
        if mask.last() == 1 {
            before.push(mask.len() - 1)
        } else {
            before
        }
    }
}

/// The values that the real tokens have in one dimension, in order.
pub open spec fn real_values<E>(mask: Seq<u32>, data: Seq<E>, dimension: int) -> Seq<E> {
    real_tokens(mask).map_values(|token: int| data[token * EMBEDDING_DIM + dimension])
}

/// Why the hidden states cannot be pooled, if they cannot.
pub open spec fn pooling_failure(mask: Seq<u32>, shape: Seq<i64>, data_len: nat) -> Option<
    AppErrorView,
> {
    let hidden_dim = if shape.len() == 0 {
        EMBEDDING_DIM
    } else {
        shape.last() as usize
    };
    let expected_len = mask.len() * EMBEDDING_DIM as nat;
    if hidden_dim != EMBEDDING_DIM {
        Some(
            internal(
                "Embedding dimension mismatch: model produced "@ + decimal(hidden_dim as nat)
                    + ", Qdrant collection expects "@ + decimal(EMBEDDING_DIM as nat),
            ),
        )
    } else if data_len < expected_len {
        Some(
            internal(
                "ONNX output too small: got "@ + decimal(data_len)
                    + " values, expected at least "@ + decimal(expected_len),
            ),
        )
    } else if real_tokens(mask).len() == 0 {
        Some(bad_request("prompt contained no real tokens after masking"@))
    } else {
        None
    }
}

/// `item`, `times` times.
pub open spec fn repeated<E>(item: E, times: nat) -> Seq<E> {
    Seq::new(times, |i: int| item)
}

/// `mean` can be the mean of the real tokens' hidden states: in each dimension their values,
/// added up from zero, over their number, counted up from zero.
pub open spec fn is_mean<E: Number>(mask: Seq<u32>, data: Seq<E>, mean: Seq<E>) -> bool {
    &&& mean.len() == EMBEDDING_DIM
    &&& exists|zero: E, one: E, count: E|
        {
            &&& #[trigger] is_count(0, zero)
            &&& #[trigger] is_count(1, one)
            &&& #[trigger] accumulates(zero, repeated(one, real_tokens(mask).len()), count)
            &&& forall|dimension: int|
                0 <= dimension < EMBEDDING_DIM ==> is_mean_value(
                    zero,
                    real_values(mask, data, dimension),
                    count,
                    #[trigger] mean[dimension],
                )
        }
}

/// `value` can be the sum of `values`, added up from `zero`, over `count`.
pub open spec fn is_mean_value<E: Number>(zero: E, values: Seq<E>, count: E, value: E) -> bool {
    exists|sum: E| accumulates(zero, values, sum) && #[trigger] is_quotient(sum, count, value)
}

/// Adds the row that starts at `start` to `sums`.
fn add_row<E: Number>(sums: &mut Vec<E>, data: &Vec<E>, start: usize)
    requires
        start + old(sums)@.len() <= data@.len(),
    ensures
        final(sums)@.len() == old(sums)@.len(),
        forall|i: int|
            0 <= i < old(sums)@.len() ==> is_sum(
                old(sums)@[i],
                data@[start + i],
                #[trigger] final(sums)@[i],
            ),
{
    let len: usize = sums.len();
    let available: usize = data.len();
    for i in 0..len
        invariant
            len == old(sums)@.len(),
            available == data@.len(),
            sums@.len() == len,
            start + len <= data@.len(),
            forall|j: int|
                0 <= j < i ==> is_sum(old(sums)@[j], data@[start + j], #[trigger] sums@[j]),
            forall|j: int| i <= j < len ==> #[trigger] sums@[j] == old(sums)@[j],
    {
        let sum = sums[i].plus(data[start + i]);
        sums.set(i, sum);
    }
}

/// The real tokens of the first `len + 1` places of a mask.
proof fn lemma_real_tokens_next(mask: Seq<u32>, len: int)
    requires
        0 <= len < mask.len(),
    ensures
        real_tokens(mask.take(len + 1)) == (if mask[len] == 1 {
            real_tokens(mask.take(len)).push(len)
        } else {
            real_tokens(mask.take(len))
        }),
{
    assert(mask.take(len + 1).drop_last() =~= mask.take(len));
}

/// Averages the hidden states of the tokens that the mask marks as real.
fn mean_pool<E: Number>(mask: &Vec<u32>, data: &Vec<E>) -> (mean: Vec<E>)
    requires
        data@.len() >= mask@.len() * EMBEDDING_DIM,
    ensures
        is_mean(mask@, data@, mean@),
{
    let zero = E::from_count(0);
    let one = E::from_count(1);
    let mut sums: Vec<E> = Vec::new();
    for i in 0..EMBEDDING_DIM
        invariant
            sums@ == repeated(zero, i as nat),
    {
        sums.push(zero);
        assert(sums@ =~= repeated(zero, (i + 1) as nat));
    }
    let mut count = zero;
    let available: usize = data.len();
    assert(mask@.take(0) =~= Seq::empty());
    for token in 0..mask.len()
        invariant
            available == data@.len(),
            available >= mask@.len() * EMBEDDING_DIM,
            sums@.len() == EMBEDDING_DIM,
            accumulates(zero, repeated(one, real_tokens(mask@.take(token as int)).len()), count),
            forall|dimension: int|
                0 <= dimension < EMBEDDING_DIM ==> accumulates(
                    zero,
                    real_values(mask@.take(token as int), data@, dimension),
                    #[trigger] sums@[dimension],
                ),
    {
        let ghost before = mask@.take(token as int);
        let ghost after = mask@.take(token + 1);
        proof {
            lemma_real_tokens_next(mask@, token as int);
        }
        if mask[token] == 1 {
            assert((token + 1) * EMBEDDING_DIM <= mask@.len() * EMBEDDING_DIM) by (nonlinear_arith)
                requires
                    token + 1 <= mask@.len(),
            ;
            let ghost old_sums = sums@;
            let ghost old_count = count;
            count = count.plus(one);
            add_row(&mut sums, data, token * EMBEDDING_DIM);
            proof {
                let n = real_tokens(before).len();
                lemma_accumulates_push(zero, repeated(one, n), old_count, one, count);
                assert(repeated(one, n).push(one) =~= repeated(one, n + 1));
                assert forall|dimension: int| 0 <= dimension < EMBEDDING_DIM implies accumulates(
                    zero,
                    real_values(after, data@, dimension),
                    #[trigger] sums@[dimension],
                ) by {
                    let value = data@[token * EMBEDDING_DIM + dimension];
                    lemma_accumulates_push(
                        zero,
                        real_values(before, data@, dimension),
                        old_sums[dimension],
                        value,
                        sums@[dimension],
                    );
                    assert(real_values(after, data@, dimension) =~= real_values(
                        before,
                        data@,
                        dimension,
                    ).push(value));
                }
            }
        }
    }
    assert(mask@.take(mask@.len() as int) =~= mask@);
    let ghost totals = sums@;
    for i in 0..EMBEDDING_DIM
        invariant
            totals.len() == EMBEDDING_DIM,
            sums@.len() == EMBEDDING_DIM,
            forall|j: int| 0 <= j < i ==> is_quotient(totals[j], count, #[trigger] sums@[j]),
            forall|j: int| i <= j < EMBEDDING_DIM ==> #[trigger] sums@[j] == totals[j],
    {
        let quotient = sums[i].over(count);
        sums.set(i, quotient);
    }
    proof {
        assert forall|dimension: int| 0 <= dimension < EMBEDDING_DIM implies is_mean_value(
            zero,
            real_values(mask@, data@, dimension),
            count,
            #[trigger] sums@[dimension],
        ) by {
            assert(accumulates(zero, real_values(mask@, data@, dimension), totals[dimension]));
            assert(is_quotient(totals[dimension], count, sums@[dimension]));
        }
        assert(is_count(0, zero) && is_count(1, one));
    }
    sums
}

// Normalisation.

/// `square` can be the square of `value`, computed in the wider kind of number.
pub open spec fn is_square<E: Component>(value: E, square: E::Wide) -> bool {
    exists|wide: E::Wide|
        #[trigger] is_widened(value, wide) && is_product(wide, wide, square)
}

/// `norm` can be the length of `vector`: the root of the sum of the squares, added up from zero.
pub open spec fn is_norm<E: Component>(vector: Seq<E>, norm: E::Wide) -> bool {
    exists|zero: E::Wide, squares: Seq<E::Wide>, sum: E::Wide|
        {
            &&& #[trigger] is_count(0, zero)
            &&& squares.len() == vector.len()
            &&& forall|i: int| 0 <= i < vector.len() ==> is_square(vector[i], #[trigger] squares[i])
            &&& #[trigger] accumulates(zero, squares, sum)
            &&& is_square_root(sum, norm)
        }
}

/// `scaled` can be `value` over `norm`, computed in the wider kind of number.
pub open spec fn is_scaled<E: Component>(value: E, norm: E::Wide, scaled: E) -> bool {
    exists|wide: E::Wide, quotient: E::Wide|
        {
            &&& is_widened(value, wide)
            &&& #[trigger] is_quotient(wide, norm, quotient)
            &&& is_narrowed(quotient, scaled)
        }
}

/// `unit` can be `vector` scaled to length one. A vector without a positive length stays as it is.
pub open spec fn is_normalized<E: Component>(vector: Seq<E>, unit: Seq<E>) -> bool {
    exists|norm: E::Wide, positive: bool|
        {
            &&& is_norm(vector, norm)
            &&& #[trigger] tells_positive(norm, positive)
            &&& if positive {
                &&& unit.len() == vector.len()
                &&& forall|i: int|
                    0 <= i < vector.len() ==> is_scaled(vector[i], norm, #[trigger] unit[i])
            } else {
                unit == vector
            }
        }
}

/// Scales a vector to length one, unless its length is not above zero.
pub fn l2_normalize<E: Component>(vector: &mut Vec<E>)
    ensures
        is_normalized(old(vector)@, final(vector)@),
{
    let len: usize = vector.len();
    let zero = <E::Wide as Number>::from_count(0);
    let mut sum = zero;
    let ghost mut squares: Seq<E::Wide> = Seq::empty();
    for i in 0..len
        invariant
            vector@ == old(vector)@,
            len == vector@.len(),
            squares.len() == i,
            forall|j: int| 0 <= j < i ==> is_square(vector@[j], #[trigger] squares[j]),
            accumulates(zero, squares, sum),
    {
        let wide = vector[i].widen();
        let square = wide.times(wide);
        let ghost partial = sum;
        sum = sum.plus(square);
        proof {
            assert(is_widened(vector@[i as int], wide));
            lemma_accumulates_push(zero, squares, partial, square, sum);
            squares = squares.push(square);
        }
    }
    let norm = sum.square_root();
    assert(is_count(0, zero));
    assert(is_norm(old(vector)@, norm));
    let positive = norm.is_positive();
    assert(tells_positive(norm, positive));
    if positive {
        for i in 0..len
            invariant
                len == old(vector)@.len(),
                vector@.len() == len,
                forall|j: int|
                    0 <= j < i ==> is_scaled(old(vector)@[j], norm, #[trigger] vector@[j]),
                forall|j: int| i <= j < len ==> #[trigger] vector@[j] == old(vector)@[j],
        {
            let wide = vector[i].widen();
            let quotient = wide.over(norm);
            let scaled = E::narrow(quotient);
            assert(is_scaled(old(vector)@[i as int], norm, scaled)) by {
                assert(is_quotient(wide, norm, quotient));
            }
            vector.set(i, scaled);
        }
    }
}

// The embedding of a prompt.

/// `outcome` can be what comes of pooling the hidden states of the tokens that the mask marks as
/// real: their mean scaled to length one, or the error that pooling them ends in.
pub open spec fn is_pooled<E: Component>(
    mask: Seq<u32>,
    shape: Seq<i64>,
    data: Seq<E>,
    outcome: Result<Vec<E>, AppErrorView>,
) -> bool {
    match pooling_failure(mask, shape, data.len()) {
        Some(error) => outcome == Err::<Vec<E>, AppErrorView>(error),
        None => outcome matches Ok(embedding) && exists|mean: Seq<E>|
            #[trigger] is_mean(mask, data, mean) && is_normalized(mean, embedding@),
    }
}

/// Averages the hidden states of the tokens that the mask marks as real and scales the average to
/// length one.
pub fn pool_hidden_states<E: Component>(mask: &Vec<u32>, hidden: &HiddenStates<E>) -> (outcome:
    Result<Vec<E>, AppError>)
    ensures
        is_pooled(mask@, hidden.shape@, hidden.data@, viewed(outcome)),
{
    let hidden_dim: usize = if hidden.shape.len() == 0 {
        EMBEDDING_DIM
    } else {
        hidden.shape[hidden.shape.len() - 1] as usize
    };
    if hidden_dim != EMBEDDING_DIM {
        let mut message = joined(
            "Embedding dimension mismatch: model produced ",
            &decimal_text(hidden_dim as u128),
        );
        message.append(", Qdrant collection expects ");
        message.append(&decimal_text(EMBEDDING_DIM as u128));
        return Err(AppError::internal(message));
    }
    let expected_len: u128 = mask.len() as u128 * EMBEDDING_DIM as u128;
    if (hidden.data.len() as u128) < expected_len {
        let mut message = joined(
            "ONNX output too small: got ",
            &decimal_text(hidden.data.len() as u128),
        );
        message.append(" values, expected at least ");
        message.append(&decimal_text(expected_len));
        return Err(AppError::internal(message));
    }
    if !has_real_token(mask) {
        return Err(
            AppError::bad_request("prompt contained no real tokens after masking".to_string()),
        );
    }
    let mut embedding = mean_pool(mask, &hidden.data);
    l2_normalize(&mut embedding);
    Ok(embedding)
}

/// Tells whether the mask marks any token as real.
fn has_real_token(mask: &Vec<u32>) -> (found: bool)
    ensures
        found == (real_tokens(mask@).len() > 0),
{
    let mut found = false;
    assert(mask@.take(0) =~= Seq::empty());
    for i in 0..mask.len()
        invariant
            found == (real_tokens(mask@.take(i as int)).len() > 0),
    {
        proof {
            lemma_real_tokens_next(mask@, i as int);
        }
        if mask[i] == 1 {
            found = true;
        }
    }
    assert(mask@.take(mask@.len() as int) =~= mask@);
    found
}

/// `outcome` can be what comes of embedding a prompt that was encoded as `encoding`, where the
/// model is run by `infer`.
pub open spec fn is_embedded<E: Component, F: FnOnce(ModelInputs) -> Result<
    HiddenStates<E>,
    InferenceError,
>>(
    encoding: Result<EncodingView, Seq<char>>,
    infer: F,
    outcome: Result<Vec<E>, AppErrorView>,
) -> bool {
    match encoding {
        Err(reason) => outcome == Err::<Vec<E>, AppErrorView>(
            internal("Tokenizer failed: "@ + reason),
        ),
        Ok(tokens) => match inputs_for(tokens) {
            Err(error) => outcome == Err::<Vec<E>, AppErrorView>(error),
            Ok(rows) => exists|inputs: ModelInputs, produced: Result<HiddenStates<E>, InferenceError>|
                {
                    &&& inputs@ == rows
                    &&& #[trigger] call_ensures(infer, (inputs,), produced)
                    &&& is_inferred(tokens.1, produced, outcome)
                },
        },
    }
}

/// `outcome` can be what comes of embedding a prompt with the given attention mask once the model
/// has produced `produced`.
pub open spec fn is_inferred<E: Component>(
    mask: Seq<u32>,
    produced: Result<HiddenStates<E>, InferenceError>,
    outcome: Result<Vec<E>, AppErrorView>,
) -> bool {
    match produced {
        Err(error) => outcome == Err::<Vec<E>, AppErrorView>(inference_failure(error)),
        Ok(hidden) => is_pooled(mask, hidden.shape@, hidden.data@, outcome),
    }
}

/// The model is run on `inputs` for a prompt that was encoded as `encoding`.
pub open spec fn is_run_on(encoding: Result<EncodingView, Seq<char>>, inputs: ModelInputs) -> bool {
    encoding matches Ok(tokens) && inputs_for(tokens) == Ok::<ModelInputsView, AppErrorView>(
        inputs@,
    )
}

/// Embeds an encoded prompt; `infer` runs the model, where there is something to run it on.
pub fn embed_encoding<E: Component, F: FnOnce(ModelInputs) -> Result<
    HiddenStates<E>,
    InferenceError,
>>(encoding: Result<Encoding, String>, infer: F) -> (outcome: Result<Vec<E>, AppError>)
    requires
        forall|inputs: ModelInputs|
            is_run_on(encoding_outcome(encoding), inputs) ==> #[trigger] call_requires(
                infer,
                (inputs,),
            ),
    ensures
        is_embedded(encoding_outcome(encoding), infer, viewed(outcome)),
{
    let encoding = match encoding {
        Ok(encoding) => encoding,
        Err(reason) => {
            return Err(AppError::internal(joined("Tokenizer failed: ", &reason)));
        },
    };
    let inputs = model_inputs(&encoding)?;
    match infer(inputs) {
        Ok(hidden) => pool_hidden_states(&encoding.attention_mask, &hidden),
        Err(error) => Err(inference_error(error)),
    }
}

/// `infer` can be called on whatever the model is run on for a prompt.
pub open spec fn can_be_run<E: Component, F: FnOnce(ModelInputs) -> Result<
    HiddenStates<E>,
    InferenceError,
>>(tokenizer: tokenizers::Tokenizer, prompt: Seq<char>, infer: F) -> bool {
    forall|encoding: Result<EncodingView, Seq<char>>, inputs: ModelInputs|
        #![trigger may_encode(tokenizer, prompt, encoding), call_requires(infer, (inputs,))]
        may_encode(tokenizer, prompt, encoding) && is_run_on(encoding, inputs) ==> call_requires(
            infer,
            (inputs,),
        )
}

/// `outcome` can be what comes of embedding a prompt, where the model is run by `infer`.
pub open spec fn is_prompt_embedded<E: Component, F: FnOnce(ModelInputs) -> Result<
    HiddenStates<E>,
    InferenceError,
>>(
    tokenizer: tokenizers::Tokenizer,
    prompt: Seq<char>,
    infer: F,
    outcome: Result<Vec<E>, AppErrorView>,
) -> bool {
    exists|encoding: Result<EncodingView, Seq<char>>| #[trigger]
        may_encode(tokenizer, prompt, encoding) && is_embedded(encoding, infer, outcome)
}

/// Embeds a prompt; `infer` runs the model, where there is something to run it on.
pub fn embed_prompt<E: Component, F: FnOnce(ModelInputs) -> Result<
    HiddenStates<E>,
    InferenceError,
>>(tokenizer: &PromptTokenizer, user_prompt: &str, infer: F) -> (outcome: Result<Vec<E>, AppError>)
    requires
        can_be_run(tokenizer@, user_prompt@, infer),
    ensures
        is_prompt_embedded(tokenizer@, user_prompt@, infer, viewed(outcome)),
{
    let encoding = tokenizer.encode(user_prompt);
    embed_encoding(encoding, infer)
}

// Laws.

/// The real tokens are exactly the places where the mask holds a one, each once and in order.
pub proof fn law_real_tokens_are_those_marked_one(mask: Seq<u32>)
    ensures
        forall|i: int|
            0 <= i < real_tokens(mask).len() ==> 0 <= #[trigger] real_tokens(mask)[i] < mask.len()
                && mask[real_tokens(mask)[i]] == 1,
        forall|token: int|
            0 <= token < mask.len() && #[trigger] mask[token] == 1 ==> real_tokens(mask).contains(
                token,
            ),
        forall|i: int, j: int|
            0 <= i < j < real_tokens(mask).len() ==> real_tokens(mask)[i] < real_tokens(mask)[j],
    decreases mask.len(),
{
    if mask.len() > 0 {
        let rest = mask.drop_last();
        let before = real_tokens(rest);
        let after = real_tokens(mask);
        law_real_tokens_are_those_marked_one(rest);
        assert forall|i: int| 0 <= i < after.len() implies 0 <= #[trigger] after[i] < mask.len()
            && mask[after[i]] == 1 by {
            if i < before.len() {
                assert(after[i] == before[i]);
            }
        }
        assert forall|token: int|
            0 <= token < mask.len() && #[trigger] mask[token] == 1 implies after.contains(token) by {
            if token < rest.len() {
                assert(rest[token] == 1);
                let k = choose|k: int| 0 <= k < before.len() && before[k] == token;
                assert(after[k] == token);
            } else {
                assert(after[before.len() as int] == token);
            }
        }
    }
}

/// The hidden states of padding tokens have no influence: two outputs of the model that agree on
/// the real tokens are pooled alike.
pub proof fn law_padding_is_ignored<E: Component>(
    mask: Seq<u32>,
    shape: Seq<i64>,
    data: Seq<E>,
    other: Seq<E>,
    outcome: Result<Vec<E>, AppErrorView>,
)
    requires
        data.len() == other.len(),
        forall|token: int, dimension: int|
            0 <= token < mask.len() && mask[token] == 1 && 0 <= dimension < EMBEDDING_DIM
                ==> #[trigger] data[token * EMBEDDING_DIM + dimension] == other[token
                * EMBEDDING_DIM + dimension],
    ensures
        is_pooled(mask, shape, data, outcome) == is_pooled(mask, shape, other, outcome),
{
    lemma_same_rows_same_values(mask, data, other);
    assert forall|mean: Seq<E>| is_mean(mask, data, mean) == is_mean(mask, other, mean) by {
        lemma_same_values_same_mean(mask, data, mask, other, mean);
        lemma_same_values_same_mean(mask, other, mask, data, mean);
    }
}

proof fn lemma_same_rows_same_values<E>(mask: Seq<u32>, data: Seq<E>, other: Seq<E>)
    requires
        forall|token: int, dimension: int|
            0 <= token < mask.len() && mask[token] == 1 && 0 <= dimension < EMBEDDING_DIM
                ==> #[trigger] data[token * EMBEDDING_DIM + dimension] == other[token
                * EMBEDDING_DIM + dimension],
    ensures
        forall|dimension: int|
            0 <= dimension < EMBEDDING_DIM ==> #[trigger] real_values(mask, data, dimension)
                == real_values(mask, other, dimension),
{
    law_real_tokens_are_those_marked_one(mask);
    assert forall|dimension: int| 0 <= dimension < EMBEDDING_DIM implies #[trigger] real_values(
        mask,
        data,
        dimension,
    ) == real_values(mask, other, dimension) by {
        let tokens = real_tokens(mask);
        assert forall|i: int| 0 <= i < tokens.len() implies real_values(mask, data, dimension)[i]
            == real_values(mask, other, dimension)[i] by {
            assert(mask[tokens[i]] == 1);
        }
        assert(real_values(mask, data, dimension) =~= real_values(mask, other, dimension));
    }
}

proof fn lemma_same_values_same_mean<E: Number>(
    mask: Seq<u32>,
    data: Seq<E>,
    other_mask: Seq<u32>,
    other: Seq<E>,
    mean: Seq<E>,
)
    requires
        forall|dimension: int|
            0 <= dimension < EMBEDDING_DIM ==> #[trigger] real_values(mask, data, dimension)
                == real_values(other_mask, other, dimension),
    ensures
        is_mean(mask, data, mean) ==> is_mean(other_mask, other, mean),
{
    if is_mean(mask, data, mean) {
        assert(real_values(mask, data, 0).len() == real_values(other_mask, other, 0).len());
        let (zero, one, count) = choose|zero: E, one: E, count: E|
            {
                &&& #[trigger] is_count(0, zero)
                &&& #[trigger] is_count(1, one)
                &&& #[trigger] accumulates(zero, repeated(one, real_tokens(mask).len()), count)
                &&& forall|dimension: int|
                    0 <= dimension < EMBEDDING_DIM ==> is_mean_value(
                        zero,
                        real_values(mask, data, dimension),
                        count,
                        #[trigger] mean[dimension],
                    )
            };
        assert forall|dimension: int| 0 <= dimension < EMBEDDING_DIM implies is_mean_value(
            zero,
            real_values(other_mask, other, dimension),
            count,
            #[trigger] mean[dimension],
        ) by {
            assert(real_values(mask, data, dimension) == real_values(other_mask, other, dimension));
        }
        assert(is_count(0, zero) && is_count(1, one));
    }
}

/// Only the real tokens count: where two prompts have the same hidden states for them, in the same
/// order, they are pooled alike, whatever padding stands before, between and behind them.
pub proof fn law_only_the_real_tokens_count<E: Component>(
    mask: Seq<u32>,
    data: Seq<E>,
    other_mask: Seq<u32>,
    other: Seq<E>,
    shape: Seq<i64>,
    outcome: Result<Vec<E>, AppErrorView>,
)
    requires
        data.len() >= mask.len() * EMBEDDING_DIM,
        other.len() >= other_mask.len() * EMBEDDING_DIM,
        forall|dimension: int|
            0 <= dimension < EMBEDDING_DIM ==> #[trigger] real_values(mask, data, dimension)
                == real_values(other_mask, other, dimension),
    ensures
        is_pooled(mask, shape, data, outcome) == is_pooled(other_mask, shape, other, outcome),
{
    assert(real_values(mask, data, 0).len() == real_values(other_mask, other, 0).len());
    assert forall|dimension: int| 0 <= dimension < EMBEDDING_DIM implies #[trigger] real_values(
        other_mask,
        other,
        dimension,
    ) == real_values(mask, data, dimension) by {
        assert(real_values(mask, data, dimension) == real_values(other_mask, other, dimension));
    }
    assert forall|mean: Seq<E>| is_mean(mask, data, mean) == is_mean(other_mask, other, mean) by {
        lemma_same_values_same_mean(mask, data, other_mask, other, mean);
        lemma_same_values_same_mean(other_mask, other, mask, data, mean);
    }
}

/// What the model puts out beyond one row for each token has no influence.
pub proof fn law_surplus_output_is_ignored<E: Component>(
    mask: Seq<u32>,
    shape: Seq<i64>,
    data: Seq<E>,
    longer: Seq<E>,
    outcome: Result<Vec<E>, AppErrorView>,
)
    requires
        data.len() >= mask.len() * EMBEDDING_DIM,
        data.len() <= longer.len(),
        longer.take(data.len() as int) == data,
    ensures
        is_pooled(mask, shape, data, outcome) == is_pooled(mask, shape, longer, outcome),
{
    law_real_tokens_are_those_marked_one(mask);
    assert forall|dimension: int| 0 <= dimension < EMBEDDING_DIM implies #[trigger] real_values(
        mask,
        data,
        dimension,
    ) == real_values(mask, longer, dimension) by {
        let tokens = real_tokens(mask);
        assert forall|i: int| 0 <= i < tokens.len() implies real_values(mask, data, dimension)[i]
            == real_values(mask, longer, dimension)[i] by {
            let place = tokens[i] * EMBEDDING_DIM + dimension;
            assert(0 <= place < mask.len() * EMBEDDING_DIM) by (nonlinear_arith)
                requires
                    0 <= tokens[i] < mask.len(),
                    0 <= dimension < EMBEDDING_DIM,
                    place == tokens[i] * EMBEDDING_DIM + dimension,
            ;
            assert(longer.take(data.len() as int)[place] == longer[place]);
        }
        assert(real_values(mask, data, dimension) =~= real_values(mask, longer, dimension));
    }
    assert forall|mean: Seq<E>| is_mean(mask, data, mean) == is_mean(mask, longer, mean) by {
        lemma_same_values_same_mean(mask, data, mask, longer, mean);
        lemma_same_values_same_mean(mask, longer, mask, data, mean);
    }
}

proof fn lemma_one_mean<E: Number>(
    mask: Seq<u32>,
    data: Seq<E>,
    mean: Seq<E>,
    other: Seq<E>,
)
    requires
        is_deterministic::<E>(),
        is_mean(mask, data, mean),
        is_mean(mask, data, other),
    ensures
        mean == other,
{
    let tokens = real_tokens(mask).len();
    let (zero, one, count) = choose|zero: E, one: E, count: E|
        {
            &&& #[trigger] is_count(0, zero)
            &&& #[trigger] is_count(1, one)
            &&& #[trigger] accumulates(zero, repeated(one, tokens), count)
            &&& forall|dimension: int|
                0 <= dimension < EMBEDDING_DIM ==> is_mean_value(
                    zero,
                    real_values(mask, data, dimension),
                    count,
                    #[trigger] mean[dimension],
                )
        };
    let (other_zero, other_one, other_count) = choose|zero: E, one: E, count: E|
        {
            &&& #[trigger] is_count(0, zero)
            &&& #[trigger] is_count(1, one)
            &&& #[trigger] accumulates(zero, repeated(one, tokens), count)
            &&& forall|dimension: int|
                0 <= dimension < EMBEDDING_DIM ==> is_mean_value(
                    zero,
                    real_values(mask, data, dimension),
                    count,
                    #[trigger] other[dimension],
                )
        };
    assert(zero == other_zero && one == other_one);
    lemma_accumulates_once(zero, repeated(one, tokens), count, other_count);
    assert forall|dimension: int| 0 <= dimension < EMBEDDING_DIM implies #[trigger] mean[dimension]
        == other[dimension] by {
        let values = real_values(mask, data, dimension);
        assert(is_mean_value(zero, values, count, mean[dimension]));
        assert(is_mean_value(zero, values, count, other[dimension]));
        let sum = choose|sum: E|
            accumulates(zero, values, sum) && #[trigger] is_quotient(sum, count, mean[dimension]);
        let other_sum = choose|sum: E|
            accumulates(zero, values, sum) && #[trigger] is_quotient(sum, count, other[dimension]);
        lemma_accumulates_once(zero, values, sum, other_sum);
    }
    assert(mean =~= other);
}

proof fn lemma_one_norm<E: Component>(vector: Seq<E>, norm: E::Wide, other: E::Wide)
    requires
        computes_deterministically::<E>(),
        is_norm(vector, norm),
        is_norm(vector, other),
    ensures
        norm == other,
{
    let (zero, squares, sum) = choose|zero: E::Wide, squares: Seq<E::Wide>, sum: E::Wide|
        {
            &&& #[trigger] is_count(0, zero)
            &&& squares.len() == vector.len()
            &&& forall|i: int| 0 <= i < vector.len() ==> is_square(vector[i], #[trigger] squares[i])
            &&& #[trigger] accumulates(zero, squares, sum)
            &&& is_square_root(sum, norm)
        };
    let (other_zero, other_squares, other_sum) = choose|
        zero: E::Wide,
        squares: Seq<E::Wide>,
        sum: E::Wide,
    |
        {
            &&& #[trigger] is_count(0, zero)
            &&& squares.len() == vector.len()
            &&& forall|i: int| 0 <= i < vector.len() ==> is_square(vector[i], #[trigger] squares[i])
            &&& #[trigger] accumulates(zero, squares, sum)
            &&& is_square_root(sum, other)
        };
    assert(zero == other_zero);
    assert forall|i: int| 0 <= i < vector.len() implies squares[i] == other_squares[i] by {
        assert(is_square(vector[i], squares[i]) && is_square(vector[i], other_squares[i]));
    }
    assert(squares =~= other_squares);
    lemma_accumulates_once(zero, squares, sum, other_sum);
}

proof fn lemma_one_normalized<E: Component>(vector: Seq<E>, unit: Seq<E>, other: Seq<E>)
    requires
        computes_deterministically::<E>(),
        is_normalized(vector, unit),
        is_normalized(vector, other),
    ensures
        unit == other,
{
    let (norm, positive) = choose|norm: E::Wide, positive: bool|
        {
            &&& is_norm(vector, norm)
            &&& #[trigger] tells_positive(norm, positive)
            &&& if positive {
                &&& unit.len() == vector.len()
                &&& forall|i: int|
                    0 <= i < vector.len() ==> is_scaled(vector[i], norm, #[trigger] unit[i])
            } else {
                unit == vector
            }
        };
    let (other_norm, other_positive) = choose|norm: E::Wide, positive: bool|
        {
            &&& is_norm(vector, norm)
            &&& #[trigger] tells_positive(norm, positive)
            &&& if positive {
                &&& other.len() == vector.len()
                &&& forall|i: int|
                    0 <= i < vector.len() ==> is_scaled(vector[i], norm, #[trigger] other[i])
            } else {
                other == vector
            }
        };
    lemma_one_norm(vector, norm, other_norm);
    if positive {
        assert forall|i: int| 0 <= i < vector.len() implies unit[i] == other[i] by {
            assert(is_scaled(vector[i], norm, unit[i]) && is_scaled(vector[i], norm, other[i]));
        }
        assert(unit =~= other);
    }
}

/// The components of an embedding, or the error in its place.
pub open spec fn components<E>(outcome: Result<Vec<E>, AppErrorView>) -> Result<
    Seq<E>,
    AppErrorView,
> {
    match outcome {
        Ok(embedding) => Ok(embedding@),
        Err(error) => Err(error),
    }
}

/// With deterministic arithmetic, the same hidden states are pooled to the same embedding.
pub proof fn law_pooling_has_one_outcome<E: Component>(
    mask: Seq<u32>,
    shape: Seq<i64>,
    data: Seq<E>,
    first: Result<Vec<E>, AppErrorView>,
    second: Result<Vec<E>, AppErrorView>,
)
    requires
        computes_deterministically::<E>(),
        is_pooled(mask, shape, data, first),
        is_pooled(mask, shape, data, second),
    ensures
        components(first) == components(second),
{
    if pooling_failure(mask, shape, data.len()) is None {
        let embedding = first->Ok_0@;
        let other = second->Ok_0@;
        let mean = choose|mean: Seq<E>| #[trigger]
            is_mean(mask, data, mean) && is_normalized(mean, embedding);
        let other_mean = choose|mean: Seq<E>| #[trigger]
            is_mean(mask, data, mean) && is_normalized(mean, other);
        lemma_one_mean(mask, data, mean, other_mean);
        lemma_one_normalized(mean, embedding, other);
    }
}

/// With deterministic arithmetic, a prompt has the same embedding whatever the model puts out for
/// its padding.
pub proof fn law_padding_never_changes_the_embedding<E: Component>(
    mask: Seq<u32>,
    shape: Seq<i64>,
    data: Seq<E>,
    other: Seq<E>,
    first: Result<Vec<E>, AppErrorView>,
    second: Result<Vec<E>, AppErrorView>,
)
    requires
        computes_deterministically::<E>(),
        data.len() == other.len(),
        forall|token: int, dimension: int|
            0 <= token < mask.len() && mask[token] == 1 && 0 <= dimension < EMBEDDING_DIM
                ==> #[trigger] data[token * EMBEDDING_DIM + dimension] == other[token
                * EMBEDDING_DIM + dimension],
        is_pooled(mask, shape, data, first),
        is_pooled(mask, shape, other, second),
    ensures
        components(first) == components(second),
{
    law_padding_is_ignored(mask, shape, data, other, second);
    law_pooling_has_one_outcome(mask, shape, data, first, second);
}

/// With deterministic arithmetic, a prompt has the same embedding whatever the model puts out
/// beyond one row for each token.
pub proof fn law_surplus_output_never_changes_the_embedding<E: Component>(
    mask: Seq<u32>,
    shape: Seq<i64>,
    data: Seq<E>,
    longer: Seq<E>,
    first: Result<Vec<E>, AppErrorView>,
    second: Result<Vec<E>, AppErrorView>,
)
    requires
        computes_deterministically::<E>(),
        data.len() >= mask.len() * EMBEDDING_DIM,
        data.len() <= longer.len(),
        longer.take(data.len() as int) == data,
        is_pooled(mask, shape, data, first),
        is_pooled(mask, shape, longer, second),
    ensures
        components(first) == components(second),
{
    law_surplus_output_is_ignored(mask, shape, data, longer, second);
    law_pooling_has_one_outcome(mask, shape, data, first, second);
}

/// The tokenizer has one outcome on a text.
pub open spec fn encodes_one_way(tokenizer: tokenizers::Tokenizer, text: Seq<char>) -> bool {
    forall|
        outcome: Result<EncodingView, Seq<char>>,
        other: Result<EncodingView, Seq<char>>,
    | #[trigger]
        may_encode(tokenizer, text, outcome) && #[trigger] may_encode(tokenizer, text, other)
            ==> outcome == other
}

/// The shape and the values that a run of the model put out, or the error it ends the request
/// with.
pub open spec fn output_of<E>(produced: Result<HiddenStates<E>, InferenceError>) -> Result<
    (Seq<i64>, Seq<E>),
    AppErrorView,
> {
    match produced {
        Ok(hidden) => Ok((hidden.shape@, hidden.data@)),
        Err(error) => Err(inference_failure(error)),
    }
}

/// Two ways of running the model put out the same on the same inputs.
pub open spec fn runs_repeatably<
    E,
    F: FnOnce(ModelInputs) -> Result<HiddenStates<E>, InferenceError>,
    G: FnOnce(ModelInputs) -> Result<HiddenStates<E>, InferenceError>,
>(infer: F, again: G) -> bool {
    forall|
        inputs: ModelInputs,
        same: ModelInputs,
        produced: Result<HiddenStates<E>, InferenceError>,
        output: Result<HiddenStates<E>, InferenceError>,
    |
        {
            &&& inputs@ == same@
            &&& #[trigger] call_ensures(infer, (inputs,), produced)
            &&& #[trigger] call_ensures(again, (same,), output)
        } ==> output_of(produced) == output_of(output)
}

/// Two runs of the model failed alike, or put out the same for the real tokens: in outputs of the
/// same shape and length, or each with a row for every token.
pub open spec fn agree<E>(
    mask: Seq<u32>,
    produced: Result<HiddenStates<E>, InferenceError>,
    other: Result<HiddenStates<E>, InferenceError>,
) -> bool {
    match (produced, other) {
        (Ok(hidden), Ok(output)) => {
            &&& hidden.shape@ == output.shape@
            &&& hidden.data@.len() == output.data@.len() || (hidden.data@.len() >= mask.len()
                * EMBEDDING_DIM && output.data@.len() >= mask.len() * EMBEDDING_DIM)
            &&& forall|token: int, dimension: int|
                0 <= token < mask.len() && mask[token] == 1 && 0 <= dimension < EMBEDDING_DIM
                    ==> #[trigger] hidden.data@[token * EMBEDDING_DIM + dimension]
                    == output.data@[token * EMBEDDING_DIM + dimension]
        },
        (Err(error), Err(failure)) => inference_failure(error) == inference_failure(failure),
        _ => false,
    }
}

/// Two ways of running the model agree on whatever it is run on for an encoded prompt.
pub open spec fn runs_agree<
    E: Component,
    F: FnOnce(ModelInputs) -> Result<HiddenStates<E>, InferenceError>,
    G: FnOnce(ModelInputs) -> Result<HiddenStates<E>, InferenceError>,
>(tokens: EncodingView, infer: F, other: G) -> bool {
    forall|
        inputs: ModelInputs,
        same: ModelInputs,
        produced: Result<HiddenStates<E>, InferenceError>,
        output: Result<HiddenStates<E>, InferenceError>,
    |
        {
            &&& inputs@ == same@
            &&& #[trigger] call_ensures(infer, (inputs,), produced)
            &&& #[trigger] call_ensures(other, (same,), output)
        } ==> agree(tokens.1, produced, output)
}

/// With deterministic arithmetic, a prompt that was encoded once has the same embedding by two
/// runs of the model that agree: neither the rows of its padding nor surplus output count.
pub proof fn law_agreeing_runs_embed_alike<
    E: Component,
    F: FnOnce(ModelInputs) -> Result<HiddenStates<E>, InferenceError>,
    G: FnOnce(ModelInputs) -> Result<HiddenStates<E>, InferenceError>,
>(
    encoding: Result<EncodingView, Seq<char>>,
    infer: F,
    other: G,
    first: Result<Vec<E>, AppErrorView>,
    second: Result<Vec<E>, AppErrorView>,
)
    requires
        computes_deterministically::<E>(),
        encoding matches Ok(tokens) ==> runs_agree::<E, F, G>(tokens, infer, other),
        is_embedded(encoding, infer, first),
        is_embedded(encoding, other, second),
    ensures
        components(first) == components(second),
{
    if let Ok(tokens) = encoding {
        if let Ok(rows) = inputs_for(tokens) {
            let (inputs, produced) = choose|
                inputs: ModelInputs,
                produced: Result<HiddenStates<E>, InferenceError>,
            |
                {
                    &&& inputs@ == rows
                    &&& #[trigger] call_ensures(infer, (inputs,), produced)
                    &&& is_inferred(tokens.1, produced, first)
                };
            let (same, output) = choose|
                inputs: ModelInputs,
                produced: Result<HiddenStates<E>, InferenceError>,
            |
                {
                    &&& inputs@ == rows
                    &&& #[trigger] call_ensures(other, (inputs,), produced)
                    &&& is_inferred(tokens.1, produced, second)
                };
            assert(agree(tokens.1, produced, output));
            if produced is Ok {
                let mask = tokens.1;
                let hidden = produced->Ok_0;
                let data = hidden.data@;
                let values = output->Ok_0.data@;
                if data.len() == values.len() {
                    law_padding_is_ignored(mask, hidden.shape@, data, values, second);
                } else {
                    lemma_same_rows_same_values(mask, data, values);
                    law_only_the_real_tokens_count(
                        mask,
                        data,
                        mask,
                        values,
                        hidden.shape@,
                        second,
                    );
                }
                law_pooling_has_one_outcome(mask, hidden.shape@, data, first, second);
            }
        }
    }
}

/// One prompt has one embedding: where the tokenizer has one outcome on it, the model one output
/// on the same inputs and arithmetic one result, a prompt that is embedded again comes to the same
/// embedding or the same error.
pub proof fn law_the_same_prompt_has_one_embedding<
    E: Component,
    F: FnOnce(ModelInputs) -> Result<HiddenStates<E>, InferenceError>,
    G: FnOnce(ModelInputs) -> Result<HiddenStates<E>, InferenceError>,
>(
    tokenizer: tokenizers::Tokenizer,
    prompt: Seq<char>,
    infer: F,
    again: G,
    first: Result<Vec<E>, AppErrorView>,
    second: Result<Vec<E>, AppErrorView>,
)
    requires
        computes_deterministically::<E>(),
        encodes_one_way(tokenizer, prompt),
        runs_repeatably::<E, F, G>(infer, again),
        is_prompt_embedded(tokenizer, prompt, infer, first),
        is_prompt_embedded(tokenizer, prompt, again, second),
    ensures
        components(first) == components(second),
{
    let encoding = choose|encoding: Result<EncodingView, Seq<char>>| #[trigger]
        may_encode(tokenizer, prompt, encoding) && is_embedded(encoding, infer, first);
    let other = choose|encoding: Result<EncodingView, Seq<char>>| #[trigger]
        may_encode(tokenizer, prompt, encoding) && is_embedded(encoding, again, second);
    assert(encoding == other);
    if let Ok(tokens) = encoding {
        assert forall|
            inputs: ModelInputs,
            same: ModelInputs,
            produced: Result<HiddenStates<E>, InferenceError>,
            output: Result<HiddenStates<E>, InferenceError>,
        |
            {
                &&& inputs@ == same@
                &&& #[trigger] call_ensures(infer, (inputs,), produced)
                &&& #[trigger] call_ensures(again, (same,), output)
            } implies agree(tokens.1, produced, output) by {
            assert(output_of(produced) == output_of(output));
        }
    }
    law_agreeing_runs_embed_alike(encoding, infer, again, first, second);
}

/// An embedding has the dimension that the collection is made for.
pub proof fn law_embedding_has_the_collection_dimension<E: Component>(
    mask: Seq<u32>,
    shape: Seq<i64>,
    data: Seq<E>,
    embedding: Vec<E>,
)
    requires
        is_pooled(mask, shape, data, Ok(embedding)),
    ensures
        embedding@.len() == EMBEDDING_DIM,
{
}

/// The model is run exactly when there is a token and each token has its mask and its type, and
/// then on rows that hold the encoding's numbers in order.
pub proof fn law_model_runs_on_parallel_rows(encoding: EncodingView)
    requires
        encoding.0.len() <= isize::MAX,
    ensures
        inputs_for(encoding) is Ok <==> encoding.0.len() > 0 && encoding.1.len() == encoding.0.len()
            && encoding.2.len() == encoding.0.len(),
        inputs_for(encoding) matches Ok(rows) ==> rows == (
            signed(encoding.0),
            signed(encoding.1),
            signed(encoding.2),
        ),
{
}

/// The model is run on the encoding's own numbers, token by token: the ids, the mask and the types
/// each in their row. There are such rows exactly when there is a token and each one has its mask
/// and its type.
pub proof fn law_the_model_sees_every_token(
    encoding: Encoding,
    outcome: Result<ModelInputs, AppError>,
)
    requires
        call_ensures(model_inputs, (&encoding,), outcome),
        encoding.ids@.len() <= isize::MAX,
    ensures
        outcome is Ok <==> encoding.ids@.len() > 0 && encoding.attention_mask@.len()
            == encoding.ids@.len() && encoding.type_ids@.len() == encoding.ids@.len(),
        outcome matches Ok(rows) ==> {
            &&& rows.input_ids@.len() == encoding.ids@.len()
            &&& rows.attention_mask@.len() == encoding.ids@.len()
            &&& rows.token_type_ids@.len() == encoding.ids@.len()
            &&& forall|i: int|
                0 <= i < encoding.ids@.len() ==> {
                    &&& #[trigger] rows.input_ids@[i] == encoding.ids@[i]
                    &&& rows.attention_mask@[i] == encoding.attention_mask@[i]
                    &&& rows.token_type_ids@[i] == encoding.type_ids@[i]
                }
        },
        encoding.ids@.len() == 0 ==> (outcome matches Err(error) && error.kind
            == ErrorKind::BadRequest && error.message@ == "prompt produced zero tokens"@),
        encoding.ids@.len() > 0 ==> (outcome matches Err(error) ==> error.kind
            == ErrorKind::Internal),
{
    lemma_signed_keeps_values(encoding.ids@);
    lemma_signed_keeps_values(encoding.attention_mask@);
    lemma_signed_keeps_values(encoding.type_ids@);
}

/// A row that is longer or shorter than the ids is reported by its name: that of the mask first.
pub proof fn law_uneven_rows_are_named(
    encoding: Encoding,
    outcome: Result<ModelInputs, AppError>,
)
    requires
        call_ensures(model_inputs, (&encoding,), outcome),
        0 < encoding.ids@.len() <= isize::MAX,
    ensures
        encoding.attention_mask@.len() < encoding.ids@.len() ==> (outcome matches Err(error)
            && error.message@ == "attention_mask tensor shape error: "@
            + "ShapeError/OutOfBounds: out of bounds indexing"@),
        encoding.attention_mask@.len() > encoding.ids@.len() ==> (outcome matches Err(error)
            && error.message@ == "attention_mask tensor shape error: "@
            + "ShapeError/IncompatibleShape: incompatible shapes"@),
        encoding.attention_mask@.len() == encoding.ids@.len() && encoding.type_ids@.len()
            < encoding.ids@.len() ==> (outcome matches Err(error) && error.message@
            == "token_type_ids tensor shape error: "@
            + "ShapeError/OutOfBounds: out of bounds indexing"@),
        encoding.attention_mask@.len() == encoding.ids@.len() && encoding.type_ids@.len()
            > encoding.ids@.len() ==> (outcome matches Err(error) && error.message@
            == "token_type_ids tensor shape error: "@
            + "ShapeError/IncompatibleShape: incompatible shapes"@),
{
}

proof fn lemma_signed_keeps_values(values: Seq<u32>)
    ensures
        signed(values).len() == values.len(),
        forall|i: int| 0 <= i < values.len() ==> #[trigger] signed(values)[i] == values[i],
{
}

/// Inputs and their views hold the same.
pub proof fn law_inputs_are_viewed_whole(inputs: ModelInputs, error: AppError)
    ensures
        inputs@.0 == inputs.input_ids@,
        inputs@.1 == inputs.attention_mask@,
        inputs@.2 == inputs.token_type_ids@,
        inputs_outcome(Ok(inputs)) == Ok::<ModelInputsView, AppErrorView>(
            (inputs.input_ids@, inputs.attention_mask@, inputs.token_type_ids@),
        ),
        inputs_outcome(Err(error)) matches Err(view) && view.kind == error.kind && view.message
            == error.message@,
{
}

/// A failed run of the model is an error of the gateway, which tells what failed and the whole
/// reason.
pub proof fn law_failed_runs_are_told(error: InferenceError)
    ensures
        inference_failure(error).kind == ErrorKind::Internal,
        match error {
            InferenceError::TensorCreation { input, reason } => inference_failure(error).message
                == (match input {
                InputName::InputIds => "input_ids"@,
                InputName::AttentionMask => "attention_mask"@,
                InputName::TokenTypeIds => "token_type_ids"@,
            }) + " tensor creation failed: "@ + reason@,
            InferenceError::LockPoisoned { reason } => inference_failure(error).message
                == "Session lock poisoned: "@ + reason@,
            InferenceError::Run { reason } => inference_failure(error).message
                == "ONNX inference failed: "@ + reason@,
            InferenceError::Extraction { reason } => inference_failure(error).message
                == "Failed to extract last_hidden_state tensor: "@ + reason@,
        },
{
}

/// What the model puts out is pooled exactly when it is of the collection's dimension, has a row
/// for each token and some token is marked as real.
pub proof fn law_pooling_succeeds_on_complete_output<E: Component>(
    mask: Vec<u32>,
    hidden: HiddenStates<E>,
    outcome: Result<Vec<E>, AppError>,
)
    requires
        call_ensures(pool_hidden_states::<E>, (&mask, &hidden), outcome),
    ensures
        outcome is Ok <==> {
            &&& hidden.shape@.len() == 0 || hidden.shape@.last() as usize == 384
            &&& hidden.data@.len() >= mask@.len() * 384
            &&& exists|token: int| 0 <= token < mask@.len() && #[trigger] mask@[token] == 1
        },
        outcome matches Ok(embedding) ==> embedding@.len() == 384,
        hidden.shape@.len() > 0 && hidden.shape@.last() as usize != 384 ==> (outcome matches Err(
            error,
        ) && error.kind == ErrorKind::Internal && error.message@
            == "Embedding dimension mismatch: model produced "@ + decimal(
            hidden.shape@.last() as usize as nat,
        ) + ", Qdrant collection expects "@ + decimal(384)),
        (hidden.shape@.len() == 0 || hidden.shape@.last() as usize == 384) && hidden.data@.len()
            < mask@.len() * 384 ==> (outcome matches Err(error) && error.kind
            == ErrorKind::Internal && error.message@ == "ONNX output too small: got "@ + decimal(
            hidden.data@.len(),
        ) + " values, expected at least "@ + decimal(mask@.len() * 384)),
        (hidden.shape@.len() == 0 || hidden.shape@.last() as usize == 384) && hidden.data@.len()
            >= mask@.len() * 384 && !(exists|token: int|
            0 <= token < mask@.len() && #[trigger] mask@[token] == 1) ==> (outcome matches Err(
            error,
        ) && error.kind == ErrorKind::BadRequest && error.message@
            == "prompt contained no real tokens after masking"@),
{
    law_real_tokens_are_those_marked_one(mask@);
    let tokens = real_tokens(mask@);
    if tokens.len() > 0 {
        assert(mask@[tokens[0]] == 1);
    }
    if let Ok(embedding) = outcome {
        law_embedding_has_the_collection_dimension(
            mask@,
            hidden.shape@,
            hidden.data@,
            embedding,
        );
    }
}

/// The values that are averaged are those of the marked tokens, each once and in order.
pub proof fn law_the_marked_values_are_averaged<E>(mask: Seq<u32>, data: Seq<E>, dimension: int)
    ensures
        real_values(mask, data, dimension).len() == marked(mask),
        forall|token: int|
            0 <= token < mask.len() && #[trigger] mask[token] == 1 ==> real_values(
                mask,
                data,
                dimension,
            )[marked(mask.take(token)) as int] == data[token * 384 + dimension],
    decreases mask.len(),
{
    if mask.len() > 0 {
        let rest = mask.drop_last();
        let n = mask.len() - 1;
        law_the_marked_values_are_averaged(rest, data, dimension);
        assert forall|token: int| 0 <= token < mask.len() && #[trigger] mask[token] == 1 implies
            real_values(mask, data, dimension)[marked(mask.take(token)) as int] == data[token * 384
            + dimension] by {
            if token < n {
                assert(rest[token] == 1);
                assert(rest.take(token) =~= mask.take(token));
                lemma_marked_before(rest, token);
                assert(real_values(mask, data, dimension)[marked(mask.take(token)) as int]
                    == real_values(rest, data, dimension)[marked(mask.take(token)) as int]);
            } else {
                assert(mask.take(token) =~= rest);
            }
        }
    }
}

/// How many places of a mask hold a one.
pub open spec fn marked(mask: Seq<u32>) -> nat
    decreases mask.len(),
{
    if mask.len() == 0 {
        0
    } else {
        marked(mask.drop_last()) + if mask.last() == 1 {
            1nat
        } else {
            0nat
        }
    }
}

proof fn lemma_marked_before(mask: Seq<u32>, token: int)
    requires
        0 <= token < mask.len(),
        mask[token] == 1,
    ensures
        marked(mask.take(token)) < marked(mask),
    decreases mask.len(),
{
    let rest = mask.drop_last();
    if token < rest.len() {
        assert(rest.take(token) =~= mask.take(token));
        lemma_marked_before(rest, token);
    } else {
        assert(mask.take(token) =~= rest);
    }
}

/// What the marked tokens have in one dimension, added up.
pub open spec fn marked_total<E>(
    value: spec_fn(E) -> real,
    mask: Seq<u32>,
    data: Seq<E>,
    dimension: int,
) -> real
    decreases mask.len(),
{
    if mask.len() == 0 {
        0 as real
    } else {
        marked_total(value, mask.drop_last(), data, dimension) + if mask.last() == 1 {
            value(data[(mask.len() - 1) * 384 + dimension])
        } else {
            0 as real
        }
    }
}

proof fn lemma_real_total<E>(
    value: spec_fn(E) -> real,
    mask: Seq<u32>,
    data: Seq<E>,
    dimension: int,
)
    ensures
        total(real_values(mask, data, dimension).map_values(value)) == marked_total(
            value,
            mask,
            data,
            dimension,
        ),
        real_tokens(mask).len() == marked(mask),
    decreases mask.len(),
{
    let values = real_values(mask, data, dimension).map_values(value);
    if mask.len() > 0 {
        let rest = mask.drop_last();
        lemma_real_total(value, rest, data, dimension);
        let before = real_values(rest, data, dimension).map_values(value);
        if mask.last() == 1 {
            assert(values.drop_last() =~= before);
        } else {
            assert(values =~= before);
        }
    }
}

proof fn lemma_repeated_total<E>(value: spec_fn(E) -> real, item: E, times: nat)
    requires
        value(item) == 1 as real,
    ensures
        total(repeated(item, times).map_values(value)) == times as int as real,
    decreases times,
{
    let values = repeated(item, times).map_values(value);
    if times > 0 {
        let before = (times - 1) as nat;
        lemma_repeated_total(value, item, before);
        assert(values.drop_last() =~= repeated(item, before).map_values(value));
    }
}

/// With exact arithmetic, the mean times the number of the marked tokens is what they have
/// together, in each dimension.
pub proof fn law_the_mean_adds_up_again<E: Number>(
    value: spec_fn(E) -> real,
    mask: Seq<u32>,
    data: Seq<E>,
    mean: Seq<E>,
)
    requires
        is_exact(value),
        is_mean(mask, data, mean),
        marked(mask) > 0,
    ensures
        mean.len() == 384,
        forall|dimension: int|
            0 <= dimension < 384 ==> value(#[trigger] mean[dimension]) * (marked(
                mask,
            ) as int as real) == marked_total(value, mask, data, dimension),
{
    let (zero, one, count) = choose|zero: E, one: E, count: E|
        {
            &&& #[trigger] is_count(0, zero)
            &&& #[trigger] is_count(1, one)
            &&& #[trigger] accumulates(zero, repeated(one, real_tokens(mask).len()), count)
            &&& forall|dimension: int|
                0 <= dimension < EMBEDDING_DIM ==> is_mean_value(
                    zero,
                    real_values(mask, data, dimension),
                    count,
                    #[trigger] mean[dimension],
                )
        };
    lemma_real_total(value, mask, data, 0);
    assert(value(zero) == 0 as real && value(one) == 1 as real);
    law_accumulating_sums_up(value, zero, repeated(one, real_tokens(mask).len()), count);
    lemma_repeated_total(value, one, real_tokens(mask).len());
    let c = value(count);
    assert(c == marked(mask) as int as real);
    assert forall|dimension: int| 0 <= dimension < 384 implies value(#[trigger] mean[dimension])
        * c == marked_total(value, mask, data, dimension) by {
        let values = real_values(mask, data, dimension);
        assert(is_mean_value(zero, values, count, mean[dimension]));
        let sum = choose|sum: E|
            accumulates(zero, values, sum) && #[trigger] is_quotient(sum, count, mean[dimension]);
        law_accumulating_sums_up(value, zero, values, sum);
        lemma_real_total(value, mask, data, dimension);
        let m = value(mean[dimension]);
        let s = value(sum);
        assert(m * c == s) by (nonlinear_arith)
            requires
                c > 0 as real,
                m == s / c,
        ;
    }
}

/// The squares of what a vector's components stand for.
pub open spec fn squares_of<E>(value: spec_fn(E) -> real, vector: Seq<E>) -> Seq<real> {
    vector.map_values(|component: E| value(component) * value(component))
}

proof fn lemma_squares_are_not_negative<E>(value: spec_fn(E) -> real, vector: Seq<E>)
    ensures
        total(squares_of(value, vector)) >= 0 as real,
        total(squares_of(value, vector)) == 0 as real ==> forall|i: int|
            0 <= i < vector.len() ==> value(#[trigger] vector[i]) == 0 as real,
    decreases vector.len(),
{
    if vector.len() > 0 {
        let rest = vector.drop_last();
        lemma_squares_are_not_negative(value, rest);
        assert(squares_of(value, vector).drop_last() =~= squares_of(value, rest));
        let v = value(vector.last());
        assert(v * v >= 0 as real) by (nonlinear_arith);
        if total(squares_of(value, vector)) == 0 as real {
            assert(v == 0 as real) by (nonlinear_arith)
                requires
                    v * v == 0 as real,
            ;
            assert forall|i: int| 0 <= i < vector.len() implies value(#[trigger] vector[i])
                == 0 as real by {
                if i < rest.len() {
                    assert(vector[i] == rest[i]);
                }
            }
        }
    }
}

proof fn lemma_scaled_squares<E>(
    value: spec_fn(E) -> real,
    vector: Seq<E>,
    unit: Seq<E>,
    k: real,
)
    requires
        unit.len() == vector.len(),
        forall|i: int|
            0 <= i < vector.len() ==> value(#[trigger] unit[i]) * k == value(vector[i]),
    ensures
        total(squares_of(value, unit)) * (k * k) == total(squares_of(value, vector)),
    decreases vector.len(),
{
    if vector.len() > 0 {
        let rest = vector.drop_last();
        let unit_rest = unit.drop_last();
        assert forall|i: int| 0 <= i < rest.len() implies value(#[trigger] unit_rest[i]) * k
            == value(rest[i]) by {
            assert(unit_rest[i] == unit[i]);
        }
        lemma_scaled_squares(value, rest, unit_rest, k);
        assert(squares_of(value, vector).drop_last() =~= squares_of(value, rest));
        assert(squares_of(value, unit).drop_last() =~= squares_of(value, unit_rest));
        let t = total(squares_of(value, unit_rest));
        let w = total(squares_of(value, rest));
        let u = value(unit.last());
        let v = value(vector.last());
        assert(unit[unit.len() - 1] == unit.last());
        assert((t + u * u) * (k * k) == w + v * v) by (nonlinear_arith)
            requires
                t * (k * k) == w,
                u * k == v,
        ;
    } else {
        let t = total(squares_of(value, unit));
        assert(t == 0 as real);
        assert(t * (k * k) == 0 as real) by (nonlinear_arith)
            requires
                t == 0 as real,
        ;
    }
}

/// `vector`, each component taken `k` times for a positive `k`, is what `sums` holds.
pub open spec fn points_along<E>(
    value: spec_fn(E) -> real,
    vector: Seq<E>,
    k: real,
    sums: Seq<real>,
) -> bool {
    &&& k > 0 as real
    &&& vector.len() == sums.len()
    &&& forall|i: int| 0 <= i < vector.len() ==> value(#[trigger] vector[i]) * k == sums[i]
}

/// With exact arithmetic, normalizing gives a vector of length one in the same direction; only a
/// vector of length zero stays as it is.
pub proof fn law_normalizing_keeps_the_direction<E: Component>(
    value: spec_fn(E) -> real,
    wide: spec_fn(E::Wide) -> real,
    vector: Seq<E>,
    unit: Seq<E>,
)
    requires
        are_exact::<E>(value, wide),
        is_normalized(vector, unit),
    ensures
        unit.len() == vector.len(),
        total(squares_of(value, vector)) == 0 as real ==> unit == vector,
        total(squares_of(value, vector)) > 0 as real ==> {
            &&& total(squares_of(value, unit)) == 1 as real
            &&& exists|k: real| #[trigger] points_along(value, unit, k, vector.map_values(value))
        },
{
    let (norm, positive) = choose|norm: E::Wide, positive: bool|
        {
            &&& is_norm(vector, norm)
            &&& #[trigger] tells_positive(norm, positive)
            &&& if positive {
                &&& unit.len() == vector.len()
                &&& forall|i: int|
                    0 <= i < vector.len() ==> is_scaled(vector[i], norm, #[trigger] unit[i])
            } else {
                unit == vector
            }
        };
    let (zero, squares, sum) = choose|zero: E::Wide, squares: Seq<E::Wide>, sum: E::Wide|
        {
            &&& #[trigger] is_count(0, zero)
            &&& squares.len() == vector.len()
            &&& forall|i: int| 0 <= i < vector.len() ==> is_square(vector[i], #[trigger] squares[i])
            &&& #[trigger] accumulates(zero, squares, sum)
            &&& is_square_root(sum, norm)
        };
    law_accumulating_sums_up(wide, zero, squares, sum);
    assert(squares.map_values(wide) =~= squares_of(value, vector)) by {
        assert forall|i: int| 0 <= i < vector.len() implies wide(#[trigger] squares[i]) == value(
            vector[i],
        ) * value(vector[i]) by {
            assert(is_square(vector[i], squares[i]));
        }
    }
    lemma_squares_are_not_negative(value, vector);
    let s = total(squares_of(value, vector));
    let k = wide(norm);
    assert(wide(sum) == s);
    assert(k >= 0 as real && k * k == s);
    if s > 0 as real {
        assert(k > 0 as real) by (nonlinear_arith)
            requires
                k >= 0 as real,
                k * k == s,
                s > 0 as real,
        ;
        assert forall|i: int| 0 <= i < vector.len() implies value(#[trigger] unit[i]) * k == value(
            vector[i],
        ) by {
            assert(is_scaled(vector[i], norm, unit[i]));
            let u = value(unit[i]);
            let v = value(vector[i]);
            assert(u == v / k);
            assert(u * k == v) by (nonlinear_arith)
                requires
                    k > 0 as real,
                    u == v / k,
            ;
        }
        lemma_scaled_squares(value, vector, unit, k);
        let t = total(squares_of(value, unit));
        assert(t == 1 as real) by (nonlinear_arith)
            requires
                t * (k * k) == s,
                k * k == s,
                s > 0 as real,
        ;
        assert(points_along(value, unit, k, vector.map_values(value)));
    } else {
        assert(k == 0 as real) by (nonlinear_arith)
            requires
                k * k == 0 as real,
        ;
    }
}

/// What the marked tokens have together, dimension by dimension.
pub open spec fn marked_totals<E>(
    value: spec_fn(E) -> real,
    mask: Seq<u32>,
    data: Seq<E>,
) -> Seq<real> {
    Seq::new(384, |dimension: int| marked_total(value, mask, data, dimension))
}

/// With exact arithmetic, an embedding points where the hidden states of the marked tokens point
/// together, and has length one, unless they cancel out in every dimension.
pub proof fn law_the_embedding_points_with_the_marked_tokens<E: Component>(
    value: spec_fn(E) -> real,
    wide: spec_fn(E::Wide) -> real,
    mask: Vec<u32>,
    hidden: HiddenStates<E>,
    embedding: Vec<E>,
)
    requires
        are_exact::<E>(value, wide),
        call_ensures(
            pool_hidden_states::<E>,
            (&mask, &hidden),
            Ok::<Vec<E>, AppError>(embedding),
        ),
    ensures
        exists|k: real| #[trigger]
            points_along(value, embedding@, k, marked_totals(value, mask@, hidden.data@)),
        (exists|dimension: int|
            0 <= dimension < 384 && #[trigger] marked_total(value, mask@, hidden.data@, dimension)
                != 0 as real) ==> total(squares_of(value, embedding@)) == 1 as real,
{
    let data = hidden.data@;
    let mean = choose|mean: Seq<E>| #[trigger]
        is_mean(mask@, data, mean) && is_normalized(mean, embedding@);
    lemma_real_total(value, mask@, data, 0);
    law_the_mean_adds_up_again(value, mask@, data, mean);
    law_normalizing_keeps_the_direction(value, wide, mean, embedding@);
    lemma_squares_are_not_negative(value, mean);
    let c = marked(mask@) as int as real;
    assert(c > 0 as real);
    let s = total(squares_of(value, mean));
    let sums = marked_totals(value, mask@, data);
    if s > 0 as real {
        let norm = choose|k: real| #[trigger]
            points_along(value, embedding@, k, mean.map_values(value));
        let k = norm * c;
        assert(k > 0 as real) by (nonlinear_arith)
            requires
                norm > 0 as real,
                c > 0 as real,
                k == norm * c,
        ;
        assert forall|i: int| 0 <= i < embedding@.len() implies value(#[trigger] embedding@[i]) * k
            == sums[i] by {
            let e = value(embedding@[i]);
            let m = value(mean[i]);
            assert(e * norm == mean.map_values(value)[i]);
            assert(e * k == m * c) by (nonlinear_arith)
                requires
                    e * norm == m,
                    k == norm * c,
            ;
        }
        assert(points_along(value, embedding@, k, sums));
    } else {
        assert forall|i: int| 0 <= i < embedding@.len() implies value(#[trigger] embedding@[i]) * c
            == sums[i] by {
            assert(value(mean[i]) * c == marked_total(value, mask@, data, i));
        }
        assert(points_along(value, embedding@, c, sums));
        assert forall|dimension: int| 0 <= dimension < 384 implies #[trigger] marked_total(
            value,
            mask@,
            data,
            dimension,
        ) == 0 as real by {
            let m = value(mean[dimension]);
            assert(m == 0 as real);
            assert(m * c == 0 as real) by (nonlinear_arith)
                requires
                    m == 0 as real,
            ;
        }
    }
}

/// `mean` comes of adding `values` up from `zero`, the first one first, and dividing by `count`.
pub open spec fn is_divided_sum<E: Number>(zero: E, values: Seq<E>, count: E, mean: E) -> bool {
    exists|sum: E|
        {
            &&& accumulates(zero, values, sum)
            &&& #[trigger] call_ensures(E::over, (sum, count), mean)
        }
}

/// The mean is computed by adding the marked values up from zero in the order of the tokens, and
/// dividing by their number, itself added up one by one.
pub proof fn law_the_mean_is_a_divided_sum<E: Number>(mask: Seq<u32>, data: Seq<E>, mean: Seq<E>)
    requires
        is_mean(mask, data, mean),
    ensures
        mean.len() == 384,
        exists|zero: E, one: E, ones: Seq<E>, count: E|
            {
                &&& #[trigger] call_ensures(E::from_count, (0u64,), zero)
                &&& #[trigger] call_ensures(E::from_count, (1u64,), one)
                &&& ones.len() == marked(mask)
                &&& forall|i: int| 0 <= i < ones.len() ==> #[trigger] ones[i] == one
                &&& #[trigger] accumulates(zero, ones, count)
                &&& forall|dimension: int|
                    0 <= dimension < 384 ==> is_divided_sum(
                        zero,
                        real_values(mask, data, dimension),
                        count,
                        #[trigger] mean[dimension],
                    )
            },
{
    let (zero, one, count) = choose|zero: E, one: E, count: E|
        {
            &&& #[trigger] is_count(0, zero)
            &&& #[trigger] is_count(1, one)
            &&& #[trigger] accumulates(zero, repeated(one, real_tokens(mask).len()), count)
            &&& forall|dimension: int|
                0 <= dimension < EMBEDDING_DIM ==> is_mean_value(
                    zero,
                    real_values(mask, data, dimension),
                    count,
                    #[trigger] mean[dimension],
                )
        };
    law_the_marked_values_are_averaged(mask, data, 0);
    assert(real_tokens(mask).len() == marked(mask));
    let ones = repeated(one, marked(mask));
    assert(accumulates(zero, ones, count));
    assert(call_ensures(E::from_count, (0u64,), zero));
    assert(call_ensures(E::from_count, (1u64,), one));
    assert forall|dimension: int| 0 <= dimension < 384 implies is_divided_sum(
        zero,
        real_values(mask, data, dimension),
        count,
        #[trigger] mean[dimension],
    ) by {
        let values = real_values(mask, data, dimension);
        assert(is_mean_value(zero, values, count, mean[dimension]));
        let sum = choose|sum: E|
            accumulates(zero, values, sum) && #[trigger] is_quotient(sum, count, mean[dimension]);
        assert(call_ensures(E::over, (sum, count), mean[dimension]));
    }
}

/// `square` comes of widening `component` and multiplying it with itself.
pub open spec fn is_widened_square<E: Component>(component: E, square: E::Wide) -> bool {
    exists|wide: E::Wide|
        {
            &&& #[trigger] call_ensures(E::widen, (component,), wide)
            &&& call_ensures(E::Wide::times, (wide, wide), square)
        }
}

/// `scaled` comes of widening `component`, dividing it by `norm` and narrowing it again.
pub open spec fn is_narrowed_quotient<E: Component>(
    component: E,
    norm: E::Wide,
    scaled: E,
) -> bool {
    exists|wide: E::Wide, quotient: E::Wide|
        {
            &&& #[trigger] call_ensures(E::widen, (component,), wide)
            &&& #[trigger] call_ensures(E::Wide::over, (wide, norm), quotient)
            &&& call_ensures(E::narrow, (quotient,), scaled)
        }
}

/// A vector is normalized by the root of the sum of its squares, computed in the wider kind of
/// number in the order of its components; where that root is above zero, every component is
/// divided by it, and otherwise none.
pub proof fn law_normalizing_divides_by_the_root_of_the_squares<E: Component>(
    vector: Seq<E>,
    unit: Seq<E>,
)
    requires
        is_normalized(vector, unit),
    ensures
        exists|
            zero: E::Wide,
            squares: Seq<E::Wide>,
            sum: E::Wide,
            norm: E::Wide,
            positive: bool,
        |
            {
                &&& call_ensures(E::Wide::from_count, (0u64,), zero)
                &&& squares.len() == vector.len()
                &&& forall|i: int|
                    0 <= i < vector.len() ==> is_widened_square(vector[i], #[trigger] squares[i])
                &&& #[trigger] accumulates(zero, squares, sum)
                &&& #[trigger] call_ensures(E::Wide::square_root, (sum,), norm)
                &&& #[trigger] call_ensures(E::Wide::is_positive, (norm,), positive)
                &&& unit.len() == vector.len()
                &&& positive ==> forall|i: int|
                    0 <= i < vector.len() ==> is_narrowed_quotient(
                        vector[i],
                        norm,
                        #[trigger] unit[i],
                    )
                &&& !positive ==> unit == vector
            },
{
    let (norm, positive) = choose|norm: E::Wide, positive: bool|
        {
            &&& is_norm(vector, norm)
            &&& #[trigger] tells_positive(norm, positive)
            &&& if positive {
                &&& unit.len() == vector.len()
                &&& forall|i: int|
                    0 <= i < vector.len() ==> is_scaled(vector[i], norm, #[trigger] unit[i])
            } else {
                unit == vector
            }
        };
    let (zero, squares, sum) = choose|zero: E::Wide, squares: Seq<E::Wide>, sum: E::Wide|
        {
            &&& #[trigger] is_count(0, zero)
            &&& squares.len() == vector.len()
            &&& forall|i: int| 0 <= i < vector.len() ==> is_square(vector[i], #[trigger] squares[i])
            &&& #[trigger] accumulates(zero, squares, sum)
            &&& is_square_root(sum, norm)
        };
    assert forall|i: int| 0 <= i < vector.len() implies is_widened_square(
        vector[i],
        #[trigger] squares[i],
    ) by {
        assert(is_square(vector[i], squares[i]));
        let wide = choose|wide: E::Wide|
            #[trigger] is_widened(vector[i], wide) && is_product(wide, wide, squares[i]);
        assert(call_ensures(E::widen, (vector[i],), wide));
    }
    if positive {
        assert forall|i: int| 0 <= i < vector.len() implies is_narrowed_quotient(
            vector[i],
            norm,
            #[trigger] unit[i],
        ) by {
            assert(is_scaled(vector[i], norm, unit[i]));
            let (wide, quotient) = choose|wide: E::Wide, quotient: E::Wide|
                {
                    &&& is_widened(vector[i], wide)
                    &&& #[trigger] is_quotient(wide, norm, quotient)
                    &&& is_narrowed(quotient, unit[i])
                };
            assert(call_ensures(E::widen, (vector[i],), wide));
            assert(call_ensures(E::Wide::over, (wide, norm), quotient));
        }
    }
    assert(call_ensures(E::Wide::square_root, (sum,), norm));
    assert(call_ensures(E::Wide::is_positive, (norm,), positive));
}

/// A prompt that could not be encoded ends in an error that tells the whole reason; one with rows
/// to run the model on is run on exactly these, and comes to what its output is pooled to under
/// the prompt's own mask, or to the error of the run.
pub proof fn law_a_prompt_is_embedded_by_one_run<
    E: Component,
    F: FnOnce(ModelInputs) -> Result<HiddenStates<E>, InferenceError>,
>(
    encoding: Result<Encoding, String>,
    infer: F,
    outcome: Result<Vec<E>, AppError>,
)
    requires
        call_ensures(embed_encoding::<E, F>, (encoding, infer), outcome),
        encoding matches Ok(tokens) ==> tokens.ids@.len() <= isize::MAX,
    ensures
        encoding matches Err(reason) ==> (outcome matches Err(error) && error.kind
            == ErrorKind::Internal && error.message@ == "Tokenizer failed: "@ + reason@),
        encoding matches Ok(tokens) ==> tokens.ids@.len() == 0 ==> (outcome matches Err(error)
            && error.kind == ErrorKind::BadRequest && error.message@
            == "prompt produced zero tokens"@),
        encoding matches Ok(tokens) ==> (outcome is Ok ==> tokens.ids@.len() > 0
            && tokens.attention_mask@.len() == tokens.ids@.len() && tokens.type_ids@.len()
            == tokens.ids@.len()),
        encoding matches Ok(tokens) ==> (tokens.ids@.len() > 0 && tokens.attention_mask@.len()
            == tokens.ids@.len() && tokens.type_ids@.len() == tokens.ids@.len() ==> exists|
            inputs: ModelInputs,
            produced: Result<HiddenStates<E>, InferenceError>,
        |
            {
                &&& #[trigger] call_ensures(infer, (inputs,), produced)
                &&& inputs.input_ids@.len() == tokens.ids@.len()
                &&& inputs.attention_mask@.len() == tokens.ids@.len()
                &&& inputs.token_type_ids@.len() == tokens.ids@.len()
                &&& forall|i: int|
                    0 <= i < tokens.ids@.len() ==> {
                        &&& #[trigger] inputs.input_ids@[i] == tokens.ids@[i]
                        &&& inputs.attention_mask@[i] == tokens.attention_mask@[i]
                        &&& inputs.token_type_ids@[i] == tokens.type_ids@[i]
                    }
                &&& produced matches Err(error) ==> (outcome matches Err(reported)
                    && reported.kind == inference_failure(error).kind && reported.message@
                    == inference_failure(error).message)
                &&& produced matches Ok(hidden) ==> is_pooled(
                    tokens.attention_mask@,
                    hidden.shape@,
                    hidden.data@,
                    viewed(outcome),
                )
            }),
{
    if let Ok(tokens) = encoding {
        lemma_signed_keeps_values(tokens.ids@);
        lemma_signed_keeps_values(tokens.attention_mask@);
        lemma_signed_keeps_values(tokens.type_ids@);
        if tokens.ids@.len() > 0 && tokens.attention_mask@.len() == tokens.ids@.len()
            && tokens.type_ids@.len() == tokens.ids@.len() {
            let (inputs, produced) = choose|
                inputs: ModelInputs,
                produced: Result<HiddenStates<E>, InferenceError>,
            |
                {
                    &&& inputs@ == inputs_for(tokens@)->Ok_0
                    &&& #[trigger] call_ensures(infer, (inputs,), produced)
                    &&& is_inferred(tokens@.1, produced, viewed(outcome))
                };
            assert(inputs.input_ids@ == signed(tokens.ids@));
            assert(inputs.attention_mask@ == signed(tokens.attention_mask@));
            assert(inputs.token_type_ids@ == signed(tokens.type_ids@));
            assert(call_ensures(infer, (inputs,), produced));
        }
    }
}

/// Hidden states are pooled under the mask they belong to: the outcome that is stated of pooling
/// is that of the pooling function.
pub proof fn law_pooled_outcomes_are_complete<E: Component>(
    mask: Seq<u32>,
    shape: Seq<i64>,
    data: Seq<E>,
    outcome: Result<Vec<E>, AppErrorView>,
)
    requires
        is_pooled(mask, shape, data, outcome),
    ensures
        outcome is Ok <==> {
            &&& shape.len() == 0 || shape.last() as usize == 384
            &&& data.len() >= mask.len() * 384
            &&& marked(mask) > 0
        },
        outcome matches Ok(embedding) ==> exists|mean: Seq<E>|
            {
                &&& #[trigger] is_mean(mask, data, mean)
                &&& is_normalized(mean, embedding@)
            },
        outcome matches Err(error) ==> (error.kind == ErrorKind::BadRequest <==> (shape.len() == 0
            || shape.last() as usize == 384) && data.len() >= mask.len() * 384),
{
    law_the_marked_values_are_averaged(mask, data, 0);
}

/// A prompt is embedded through some encoding that its tokenizer gives.
pub proof fn law_a_prompt_is_embedded_as_it_is_encoded<
    E: Component,
    F: FnOnce(ModelInputs) -> Result<HiddenStates<E>, InferenceError>,
>(
    tokenizer: tokenizers::Tokenizer,
    prompt: Seq<char>,
    infer: F,
    outcome: Result<Vec<E>, AppErrorView>,
)
    requires
        is_prompt_embedded(tokenizer, prompt, infer, outcome),
        forall|encoding: Result<EncodingView, Seq<char>>| #[trigger]
            may_encode(tokenizer, prompt, encoding) ==> encoding is Err,
    ensures
        exists|reason: Seq<char>|
            {
                &&& #[trigger] may_encode(tokenizer, prompt, Err(reason))
                &&& outcome matches Err(error)
                &&& error.message == "Tokenizer failed: "@ + reason
            },
{
    let encoding = choose|encoding: Result<EncodingView, Seq<char>>| #[trigger]
        may_encode(tokenizer, prompt, encoding) && is_embedded(encoding, infer, outcome);
    assert(may_encode(tokenizer, prompt, Err(encoding->Err_0)));
}

/// The rows that the model is run on hold the encoding's own numbers in their places.
pub proof fn law_rows_hold_the_encoding(encoding: EncodingView)
    requires
        encoding.0.len() <= isize::MAX,
    ensures
        inputs_for(encoding) is Ok <==> encoding.0.len() > 0 && encoding.1.len() == encoding.0.len()
            && encoding.2.len() == encoding.0.len(),
        inputs_for(encoding) matches Ok(rows) ==> {
            &&& rows.0.len() == encoding.0.len()
            &&& rows.1.len() == encoding.0.len()
            &&& rows.2.len() == encoding.0.len()
            &&& forall|i: int|
                0 <= i < encoding.0.len() ==> {
                    &&& #[trigger] rows.0[i] == encoding.0[i]
                    &&& rows.1[i] == encoding.1[i]
                    &&& rows.2[i] == encoding.2[i]
                }
        },
        inputs_for(encoding) matches Err(error) ==> (error.kind == ErrorKind::BadRequest
            <==> encoding.0.len() == 0),
{
    lemma_signed_keeps_values(encoding.0);
    lemma_signed_keeps_values(encoding.1);
    lemma_signed_keeps_values(encoding.2);
}

/// Where the model is run, the outcome is that of its output under the prompt's own mask, and
/// where it is not, the outcome tells why.
pub proof fn law_embeddings_come_of_the_run<
    E: Component,
    F: FnOnce(ModelInputs) -> Result<HiddenStates<E>, InferenceError>,
>(
    encoding: Result<EncodingView, Seq<char>>,
    infer: F,
    outcome: Result<Vec<E>, AppErrorView>,
)
    requires
        is_embedded(encoding, infer, outcome),
    ensures
        encoding matches Err(reason) ==> (outcome matches Err(error) && error.kind
            == ErrorKind::Internal && error.message == "Tokenizer failed: "@ + reason),
        encoding matches Ok(tokens) ==> (inputs_for(tokens) matches Err(error) ==> outcome
            == Err::<Vec<E>, AppErrorView>(error)),
        encoding matches Ok(tokens) ==> (inputs_for(tokens) matches Ok(rows) ==> exists|
            inputs: ModelInputs,
            produced: Result<HiddenStates<E>, InferenceError>,
        |
            {
                &&& #[trigger] call_ensures(infer, (inputs,), produced)
                &&& inputs.input_ids@ == rows.0 && inputs.attention_mask@ == rows.1
                    && inputs.token_type_ids@ == rows.2
                &&& produced matches Err(error) ==> outcome == Err::<Vec<E>, AppErrorView>(
                    inference_failure(error),
                )
                &&& produced matches Ok(hidden) ==> is_pooled(
                    tokens.1,
                    hidden.shape@,
                    hidden.data@,
                    outcome,
                )
            }),
{
    if let Ok(tokens) = encoding {
        if let Ok(rows) = inputs_for(tokens) {
            let (inputs, produced) = choose|
                inputs: ModelInputs,
                produced: Result<HiddenStates<E>, InferenceError>,
            |
                {
                    &&& inputs@ == rows
                    &&& #[trigger] call_ensures(infer, (inputs,), produced)
                    &&& is_inferred(tokens.1, produced, outcome)
                };
            assert(call_ensures(infer, (inputs,), produced));
        }
    }
}

/// An output that cannot be pooled is refused in words that tell the dimension or the lengths.
pub proof fn law_unpoolable_output_is_told(mask: Seq<u32>, shape: Seq<i64>, data_len: nat)
    ensures
        shape.len() > 0 && shape.last() as usize != 384 ==> (pooling_failure(
            mask,
            shape,
            data_len,
        ) matches Some(error) && error.kind == ErrorKind::Internal && error.message
            == "Embedding dimension mismatch: model produced "@ + decimal(
            shape.last() as usize as nat,
        ) + ", Qdrant collection expects "@ + decimal(384)),
        (shape.len() == 0 || shape.last() as usize == 384) && data_len < mask.len() * 384 ==> (
        pooling_failure(mask, shape, data_len) matches Some(error) && error.kind
            == ErrorKind::Internal && error.message == "ONNX output too small: got "@ + decimal(
            data_len,
        ) + " values, expected at least "@ + decimal(mask.len() * 384)),
        (shape.len() == 0 || shape.last() as usize == 384) && data_len >= mask.len() * 384
            && marked(mask) == 0 ==> (pooling_failure(mask, shape, data_len) matches Some(error)
            && error.kind == ErrorKind::BadRequest && error.message
            == "prompt contained no real tokens after masking"@),
        (shape.len() == 0 || shape.last() as usize == 384) && data_len >= mask.len() * 384
            && marked(mask) > 0 ==> pooling_failure(mask, shape, data_len) is None,
{
    let none: Seq<u32> = Seq::empty();
    law_the_marked_values_are_averaged::<u32>(mask, none, 0);
}

} // verus!
