//! Text: trimming, decimal numerals and concatenation, each stated over the characters of a string.

use vstd::prelude::*;

verus! {

/// The characters with the Unicode property `White_Space`.
pub open spec fn is_white_space(c: char) -> bool {
    let n = c as u32;
    ||| 0x09 <= n <= 0x0d
    ||| n == 0x20
    ||| n == 0x85
    ||| n == 0xa0
    ||| n == 0x1680
    ||| 0x2000 <= n <= 0x200a
    ||| 0x2028 <= n <= 0x2029
    ||| n == 0x202f
    ||| n == 0x205f
    ||| n == 0x3000
}

/// `text` without the white space at its start.
pub open spec fn trimmed_start(text: Seq<char>) -> Seq<char>
    decreases text.len(),
{
    if text.len() > 0 && is_white_space(text.first()) {
        trimmed_start(text.drop_first())
    } else {
        text
    }
}

/// `text` without the white space at its end.
pub open spec fn trimmed_end(text: Seq<char>) -> Seq<char>
    decreases text.len(),
{
    if text.len() > 0 && is_white_space(text.last()) {
        trimmed_end(text.drop_last())
    } else {
        text
    }
}

/// `text` without the white space at its start and its end.
pub open spec fn trimmed(text: Seq<char>) -> Seq<char> {
    trimmed_end(trimmed_start(text))
}

/// `str::trim` takes the leading and the trailing characters with the Unicode property
/// `White_Space` away and keeps everything between them.
pub assume_specification[ str::trim ](text: &str) -> (rest: &str)
    ensures
        rest@ == trimmed(text@),
;

proof fn lemma_trimmed_end_parts(text: Seq<char>)
    ensures
        trimmed_end(text).len() <= text.len(),
        trimmed_end(text) == text.take(trimmed_end(text).len() as int),
        trimmed_end(text).len() > 0 ==> !is_white_space(trimmed_end(text).last()),
    decreases text.len(),
{
    if text.len() > 0 && is_white_space(text.last()) {
        lemma_trimmed_end_parts(text.drop_last());
        let n = trimmed_end(text).len() as int;
        assert(text.drop_last().take(n) =~= text.take(n));
    } else {
        assert(text.take(text.len() as int) =~= text);
    }
}

proof fn lemma_trimmed_start_head(text: Seq<char>)
    ensures
        trimmed_start(text).len() > 0 ==> !is_white_space(trimmed_start(text).first()),
    decreases text.len(),
{
    if text.len() > 0 && is_white_space(text.first()) {
        lemma_trimmed_start_head(text.drop_first());
    }
}

/// What is left after trimming neither starts nor ends with white space, and trimming it again
/// changes nothing.
pub proof fn law_trimming_is_final(text: Seq<char>)
    ensures
        trimmed(text).len() > 0 ==> !is_white_space(trimmed(text).first()) && !is_white_space(
            trimmed(text).last(),
        ),
        trimmed(trimmed(text)) == trimmed(text),
{
    let start = trimmed_start(text);
    lemma_trimmed_start_head(text);
    lemma_trimmed_end_parts(start);
    let rest = trimmed_end(start);
    if rest.len() > 0 {
        assert(rest.first() == start.first());
    }
}

/// White space put in front of a text or behind it does not change what trimming leaves.
pub proof fn law_surrounding_white_space_is_dropped(text: Seq<char>, c: char)
    requires
        is_white_space(c),
    ensures
        trimmed(seq![c] + text) == trimmed(text),
        trimmed(text.push(c)) == trimmed(text),
    decreases text.len(),
{
    assert((seq![c] + text).drop_first() =~= text);
    if text.len() > 0 && is_white_space(text.first()) {
        law_surrounding_white_space_is_dropped(text.drop_first(), c);
        assert(text.push(c).drop_first() =~= text.drop_first().push(c));
    } else if text.len() == 0 {
        assert(text.push(c).drop_first() =~= text);
    } else {
        assert(text.push(c).drop_last() =~= text);
    }
}

/// The decimal digit of a value below ten.
pub open spec fn digit(value: int) -> char {
    (value + '0' as int) as char
}

/// The decimal numeral of `value`, without leading zeros.
pub open spec fn decimal(value: nat) -> Seq<char>
    decreases value,
{
    if value < 10 {
        seq![digit(value as int)]
    } else {
        decimal(value / 10).push(digit((value % 10) as int))
    }
}

/// Writes `value` as a decimal numeral.
pub fn decimal_text(value: u128) -> (text: String)
    ensures
        text@ == decimal(value as nat),
    decreases value,
{
    let last: &str = match value % 10 {
        0 => "0",
        1 => "1",
        2 => "2",
        3 => "3",
        4 => "4",
        5 => "5",
        6 => "6",
        7 => "7",
        8 => "8",
        _ => "9",
    };
    proof {
        reveal_strlit("0");
        reveal_strlit("1");
        reveal_strlit("2");
        reveal_strlit("3");
        reveal_strlit("4");
        reveal_strlit("5");
        reveal_strlit("6");
        reveal_strlit("7");
        reveal_strlit("8");
        reveal_strlit("9");
        assert(last@ =~= seq![digit((value % 10) as int)]);
    }
    if value < 10 {
        last.to_string()
    } else {
        let mut text = decimal_text(value / 10);
        text.append(last);
        proof {
            assert(text@ =~= decimal((value / 10) as nat).push(digit((value % 10) as int)));
        }
        text
    }
}

/// Puts two texts one behind the other.
pub fn joined(first: &str, second: &str) -> (text: String)
    ensures
        text@ == first@ + second@,
{
    let mut text = first.to_string();
    text.append(second);
    text
}

/// An optional text, taken by its view.
pub open spec fn text_view(text: Option<String>) -> Option<Seq<char>> {
    match text {
        Some(text) => Some(text@),
        None => None,
    }
}

/// Tells whether two texts have the same characters.
pub fn same_text(first: &str, second: &str) -> (same: bool)
    ensures
        same == (first@ == second@),
{
    first.to_string() == second.to_string()
}

/// Only white space.
pub open spec fn is_blank(text: Seq<char>) -> bool {
    forall|i: int| 0 <= i < text.len() ==> is_white_space(#[trigger] text[i])
}

/// Trimming takes white space away on both sides and keeps everything between: whatever text
/// without white space at its ends is surrounded by white space is what is left.
pub proof fn law_trimming_keeps_what_is_surrounded(
    before: Seq<char>,
    core: Seq<char>,
    behind: Seq<char>,
)
    requires
        is_blank(before),
        is_blank(behind),
        core.len() > 0 ==> !is_white_space(core.first()) && !is_white_space(core.last()),
    ensures
        trimmed(before + core + behind) == core,
    decreases before.len() + behind.len(),
{
    let text = before + core + behind;
    if behind.len() > 0 {
        let rest = behind.drop_last();
        law_trimming_keeps_what_is_surrounded(before, core, rest);
        law_surrounding_white_space_is_dropped(before + core + rest, behind.last());
        assert(text =~= (before + core + rest).push(behind.last()));
    } else if before.len() > 0 {
        let rest = before.drop_first();
        assert forall|i: int| 0 <= i < rest.len() implies is_white_space(#[trigger] rest[i]) by {
            assert(rest[i] == before[i + 1]);
        }
        law_trimming_keeps_what_is_surrounded(rest, core, behind);
        law_surrounding_white_space_is_dropped(rest + core + behind, before.first());
        assert(text =~= seq![before.first()] + (rest + core + behind));
    } else {
        assert(text =~= core);
    }
}

/// What trimming takes away is white space: a text is what is left of it between two texts of
/// white space only.
pub proof fn law_trimming_takes_only_white_space(text: Seq<char>)
    ensures
        exists|before: Seq<char>, behind: Seq<char>|
            {
                &&& #[trigger] is_blank(before)
                &&& #[trigger] is_blank(behind)
                &&& text == before + trimmed(text) + behind
            },
    decreases text.len(),
{
    let none: Seq<char> = Seq::empty();
    assert(is_blank(none));
    if text.len() > 0 && is_white_space(text.first()) {
        let rest = text.drop_first();
        law_trimming_takes_only_white_space(rest);
        let (before, behind) = choose|before: Seq<char>, behind: Seq<char>|
            {
                &&& #[trigger] is_blank(before)
                &&& #[trigger] is_blank(behind)
                &&& rest == before + trimmed(rest) + behind
            };
        assert(trimmed(text) == trimmed(rest));
        assert(is_blank(seq![text.first()] + before));
        assert(text =~= seq![text.first()] + rest);
        assert(seq![text.first()] + (before + trimmed(text) + behind) =~= (seq![text.first()]
            + before) + trimmed(text) + behind);
    } else if text.len() > 0 && is_white_space(text.last()) {
        let rest = text.drop_last();
        law_trimming_takes_only_white_space(rest);
        let (before, behind) = choose|before: Seq<char>, behind: Seq<char>|
            {
                &&& #[trigger] is_blank(before)
                &&& #[trigger] is_blank(behind)
                &&& rest == before + trimmed(rest) + behind
            };
        law_surrounding_white_space_is_dropped(rest, text.last());
        assert(rest.push(text.last()) =~= text);
        assert(is_blank(behind.push(text.last())));
        assert(text =~= before + trimmed(text) + behind.push(text.last()));
    } else {
        assert(text =~= none + text + none);
    }
}

/// White space are the tabulators, line ends and spaces of Unicode, and nothing visible.
pub proof fn law_white_space_is_that_of_unicode(c: char)
    ensures
        is_white_space(c) <==> {
            ||| c == ' ' || c == '\t' || c == '\n' || c == '\r' || c == '\u{b}' || c == '\u{c}'
            ||| c == '\u{85}' || c == '\u{a0}' || c == '\u{1680}'
            ||| c == '\u{2000}' || c == '\u{2001}' || c == '\u{2002}' || c == '\u{2003}'
            ||| c == '\u{2004}' || c == '\u{2005}' || c == '\u{2006}' || c == '\u{2007}'
            ||| c == '\u{2008}' || c == '\u{2009}' || c == '\u{200a}'
            ||| c == '\u{2028}' || c == '\u{2029}' || c == '\u{202f}' || c == '\u{205f}'
            ||| c == '\u{3000}'
        },
{
}

/// The number that a decimal numeral stands for.
pub open spec fn numeral_value(numeral: Seq<char>) -> nat
    decreases numeral.len(),
{
    if numeral.len() == 0 {
        0
    } else {
        (10 * numeral_value(numeral.drop_last()) + (numeral.last() as int - '0' as int)) as nat
    }
}

/// The numeral of a value is made of digits, stands for that value, and does not start with a zero
/// unless it is one.
pub proof fn law_numerals_stand_for_their_value(value: nat)
    ensures
        decimal(value).len() > 0,
        forall|i: int| 0 <= i < decimal(value).len() ==> '0' <= #[trigger] decimal(value)[i] <= '9',
        numeral_value(decimal(value)) == value,
        decimal(value).first() == '0' <==> value == 0,
        value < 10 <==> decimal(value).len() == 1,
    decreases value,
{
    if value < 10 {
        assert(decimal(value) =~= seq![digit(value as int)]);
        assert(decimal(value).drop_last() =~= Seq::empty());
        assert(numeral_value(Seq::empty()) == 0);
        assert(numeral_value(decimal(value)) == value) by {
            reveal_with_fuel(numeral_value, 2);
        }
    } else {
        let rest = decimal(value / 10);
        let last = digit((value % 10) as int);
        law_numerals_stand_for_their_value(value / 10);
        assert(decimal(value) == rest.push(last));
        assert(rest.push(last).drop_last() =~= rest);
        assert(rest.push(last).first() == rest.first());
        assert forall|i: int| 0 <= i < decimal(value).len() implies '0' <= #[trigger] decimal(
            value,
        )[i] <= '9' by {
            if i < rest.len() {
                assert(decimal(value)[i] == rest[i]);
            }
        }
    }
}

/// Two texts put one behind the other keep every character of both, and texts are the same only
/// if they have the same characters.
pub proof fn law_texts_are_joined_and_compared_whole(
    first: &str,
    second: &str,
    text: String,
    same: bool,
)
    requires
        call_ensures(joined, (first, second), text),
        call_ensures(same_text, (first, second), same),
    ensures
        text@.len() == first@.len() + second@.len(),
        text@.take(first@.len() as int) == first@,
        text@.skip(first@.len() as int) == second@,
        same <==> first@ == second@,
{
    assert(text@.take(first@.len() as int) =~= first@);
    assert(text@.skip(first@.len() as int) =~= second@);
}

/// An optional text is viewed whole.
pub proof fn law_optional_texts_are_viewed_whole(text: String)
    ensures
        text_view(Some(text)) == Some(text@),
        text_view(None) is None,
{
}

} // verus!
