//! The arithmetic that latencies, scores and embeddings are computed in.
//!
//! Nothing is asked of the operations: what is computed with them is stated as the operations
//! that lead from the inputs to the result. A law that needs each operation to have one result for
//! the same numbers says so.

use vstd::prelude::*;

verus! {

/// A kind of number, such as a floating point type.
pub trait Number: Copy + Sized {
    /// The number that stands for the count `n`.
    fn from_count(n: u64) -> Self;

    /// The sum of two numbers.
    fn plus(self, other: Self) -> Self;

    /// The product of two numbers.
    fn times(self, other: Self) -> Self;

    /// The quotient of two numbers.
    fn over(self, other: Self) -> Self;

    /// The square root of a number.
    fn square_root(self) -> Self;

    /// Whether the number is above zero.
    fn is_positive(self) -> bool;

    /// The number as text with the given count of decimal places.
    fn to_fixed(self, places: usize) -> String;
}

/// The components of a vector, whose length is computed in a wider kind of number.
pub trait Component: Number {
    type Wide: Number;

    /// The same number in the wider kind.
    fn widen(self) -> Self::Wide;

    /// The number of the narrower kind that stands for `wide`.
    fn narrow(wide: Self::Wide) -> Self;
}

/// `r` can stand for the count `n`.
pub open spec fn is_count<N: Number>(n: u64, r: N) -> bool {
    call_ensures(N::from_count, (n,), r)
}

/// `r` can be the sum of `a` and `b`.
pub open spec fn is_sum<N: Number>(a: N, b: N, r: N) -> bool {
    call_ensures(N::plus, (a, b), r)
}

/// `r` can be the product of `a` and `b`.
pub open spec fn is_product<N: Number>(a: N, b: N, r: N) -> bool {
    call_ensures(N::times, (a, b), r)
}

/// `r` can be the quotient of `a` and `b`.
pub open spec fn is_quotient<N: Number>(a: N, b: N, r: N) -> bool {
    call_ensures(N::over, (a, b), r)
}

/// `r` can be the square root of `a`.
pub open spec fn is_square_root<N: Number>(a: N, r: N) -> bool {
    call_ensures(N::square_root, (a,), r)
}

/// `r` can be the answer to whether `a` is above zero.
pub open spec fn tells_positive<N: Number>(a: N, r: bool) -> bool {
    call_ensures(N::is_positive, (a,), r)
}

/// `text` can be `a` written with `places` decimal places.
pub open spec fn is_fixed<N: Number>(a: N, places: usize, text: Seq<char>) -> bool {
    exists|r: String| call_ensures(N::to_fixed, (a, places), r) && r@ == text
}

/// `r` can be `a` in the wider kind.
pub open spec fn is_widened<E: Component>(a: E, r: E::Wide) -> bool {
    call_ensures(E::widen, (a,), r)
}

/// `r` can be `a` in the narrower kind.
pub open spec fn is_narrowed<E: Component>(a: E::Wide, r: E) -> bool {
    call_ensures(E::narrow, (a,), r)
}

/// `total` can be reached from `start` by adding `items`, the first one first.
pub open spec fn accumulates<N: Number>(start: N, items: Seq<N>, total: N) -> bool
    decreases items.len(),
{
    if items.len() == 0 {
        total == start
    } else {
        exists|partial: N|
            accumulates(start, items.drop_last(), partial) && #[trigger] is_sum(
                partial,
                items.last(),
                total,
            )
    }
}

/// One more item takes an accumulated total one addition further.
pub(crate) proof fn lemma_accumulates_push<N: Number>(
    start: N,
    items: Seq<N>,
    partial: N,
    item: N,
    total: N,
)
    requires
        accumulates(start, items, partial),
        is_sum(partial, item, total),
    ensures
        accumulates(start, items.push(item), total),
{
    assert(items.push(item).drop_last() =~= items);
    assert(is_sum(partial, items.push(item).last(), total));
}

/// Each operation has one result for the same numbers.
pub open spec fn is_deterministic<N: Number>() -> bool {
    &&& forall|n: u64, r: N, t: N| #[trigger] is_count(n, r) && #[trigger] is_count(n, t) ==> r == t
    &&& forall|a: N, b: N, r: N, t: N| #[trigger]
        is_sum(a, b, r) && #[trigger] is_sum(a, b, t) ==> r == t
    &&& forall|a: N, b: N, r: N, t: N| #[trigger]
        is_product(a, b, r) && #[trigger] is_product(a, b, t) ==> r == t
    &&& forall|a: N, b: N, r: N, t: N| #[trigger]
        is_quotient(a, b, r) && #[trigger] is_quotient(a, b, t) ==> r == t
    &&& forall|a: N, r: N, t: N| #[trigger]
        is_square_root(a, r) && #[trigger] is_square_root(a, t) ==> r == t
    &&& forall|a: N, r: bool, t: bool| #[trigger]
        tells_positive(a, r) && #[trigger] tells_positive(a, t) ==> r == t
    &&& forall|a: N, places: usize, r: Seq<char>, t: Seq<char>| #[trigger]
        is_fixed(a, places, r) && #[trigger] is_fixed(a, places, t) ==> r == t
}

/// Each operation on components, and on the wider kind, has one result for the same numbers.
pub open spec fn computes_deterministically<E: Component>() -> bool {
    &&& is_deterministic::<E>()
    &&& is_deterministic::<E::Wide>()
    &&& forall|a: E, r: E::Wide, t: E::Wide| #[trigger]
        is_widened(a, r) && #[trigger] is_widened(a, t) ==> r == t
    &&& forall|a: E::Wide, r: E, t: E| #[trigger]
        is_narrowed(a, r) && #[trigger] is_narrowed(a, t) ==> r == t
}

/// With deterministic additions, the same items lead to the same total.
pub(crate) proof fn lemma_accumulates_once<N: Number>(
    start: N,
    items: Seq<N>,
    total: N,
    other: N,
)
    requires
        is_deterministic::<N>(),
        accumulates(start, items, total),
        accumulates(start, items, other),
    ensures
        total == other,
    decreases items.len(),
{
    if items.len() > 0 {
        let first = choose|partial: N|
            accumulates(start, items.drop_last(), partial) && #[trigger] is_sum(
                partial,
                items.last(),
                total,
            );
        let second = choose|partial: N|
            accumulates(start, items.drop_last(), partial) && #[trigger] is_sum(
                partial,
                items.last(),
                other,
            );
        lemma_accumulates_once(start, items.drop_last(), first, second);
    }
}

/// `value` tells what each number stands for, and every operation is exact.
pub open spec fn is_exact<N: Number>(value: spec_fn(N) -> real) -> bool {
    &&& forall|n: u64, r: N| #[trigger]
        call_ensures(N::from_count, (n,), r) ==> value(r) == n as int as real
    &&& forall|a: N, b: N, r: N| #[trigger]
        call_ensures(N::plus, (a, b), r) ==> value(r) == value(a) + value(b)
    &&& forall|a: N, b: N, r: N| #[trigger]
        call_ensures(N::times, (a, b), r) ==> value(r) == value(a) * value(b)
    &&& forall|a: N, b: N, r: N| #[trigger]
        call_ensures(N::over, (a, b), r) && value(b) != 0 as real ==> value(r) == value(a)
            / value(b)
    &&& forall|a: N, r: N| #[trigger]
        call_ensures(N::square_root, (a,), r) && value(a) >= 0 as real ==> value(r) >= 0 as real
            && value(r) * value(r) == value(a)
    &&& forall|a: N, r: bool| #[trigger]
        call_ensures(N::is_positive, (a,), r) ==> r == (value(a) > 0 as real)
}

/// The components and the numbers of the wider kind are exact, and keep their value when they are
/// turned into each other.
pub open spec fn are_exact<E: Component>(
    value: spec_fn(E) -> real,
    wide: spec_fn(E::Wide) -> real,
) -> bool {
    &&& is_exact::<E>(value)
    &&& is_exact::<E::Wide>(wide)
    &&& forall|a: E, r: E::Wide| #[trigger] call_ensures(E::widen, (a,), r) ==> wide(r) == value(a)
    &&& forall|a: E::Wide, r: E| #[trigger] call_ensures(E::narrow, (a,), r) ==> value(r) == wide(a)
}

/// The sum of `values`.
pub open spec fn total(values: Seq<real>) -> real
    decreases values.len(),
{
    if values.len() == 0 {
        0 as real
    } else {
        total(values.drop_last()) + values.last()
    }
}

/// Accumulating adds the items to the start one by one, the first one first.
pub proof fn law_accumulating_adds_one_by_one<N: Number>(start: N, items: Seq<N>, sum: N)
    requires
        accumulates(start, items, sum),
    ensures
        exists|partials: Seq<N>|
            {
                &&& partials.len() == items.len() + 1
                &&& partials[0] == start
                &&& #[trigger] partials[items.len() as int] == sum
                &&& forall|i: int|
                    #![trigger items[i]]
                    0 <= i < items.len() ==> call_ensures(
                        N::plus,
                        (partials[i], items[i]),
                        partials[i + 1],
                    )
            },
    decreases items.len(),
{
    if items.len() == 0 {
        assert(seq![start][items.len() as int] == sum);
    } else {
        let rest = items.drop_last();
        let partial = choose|partial: N|
            accumulates(start, rest, partial) && #[trigger] is_sum(partial, items.last(), sum);
        law_accumulating_adds_one_by_one(start, rest, partial);
        let before = choose|partials: Seq<N>|
            {
                &&& partials.len() == rest.len() + 1
                &&& partials[0] == start
                &&& #[trigger] partials[rest.len() as int] == partial
                &&& forall|i: int|
                    #![trigger rest[i]]
                    0 <= i < rest.len() ==> call_ensures(
                        N::plus,
                        (partials[i], rest[i]),
                        partials[i + 1],
                    )
            };
        let partials = before.push(sum);
        assert forall|i: int| #![trigger items[i]] 0 <= i < items.len() implies call_ensures(
            N::plus,
            (partials[i], items[i]),
            partials[i + 1],
        ) by {
            if i < rest.len() {
                assert(rest[i] == items[i]);
            }
        }
        assert(partials[items.len() as int] == sum);
    }
}

/// With exact additions, what is accumulated is the start and the sum of the items.
pub proof fn law_accumulating_sums_up<N: Number>(
    value: spec_fn(N) -> real,
    start: N,
    items: Seq<N>,
    sum: N,
)
    requires
        is_exact(value),
        accumulates(start, items, sum),
    ensures
        value(sum) == value(start) + total(items.map_values(value)),
    decreases items.len(),
{
    let values = items.map_values(value);
    if items.len() > 0 {
        let rest = items.drop_last();
        let partial = choose|partial: N|
            accumulates(start, rest, partial) && #[trigger] is_sum(partial, items.last(), sum);
        law_accumulating_sums_up(value, start, rest, partial);
        assert(values.drop_last() =~= rest.map_values(value));
    }
}

} // verus!
