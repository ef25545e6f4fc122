//! Random identifiers.

use vstd::prelude::*;

verus! {

/// A digit of a lower case hexadecimal numeral.
pub open spec fn is_hex_digit(c: char) -> bool {
    '0' <= c <= '9' || 'a' <= c <= 'f'
}

/// The text of a random UUID: version four, lower case and hyphenated.
pub open spec fn is_random_uuid(text: Seq<char>) -> bool {
    &&& text.len() == 36
    &&& forall|i: int|
        0 <= i < 36 ==> if i == 8 || i == 13 || i == 18 || i == 23 {
            #[trigger] text[i] == '-'
        } else {
            is_hex_digit(text[i])
        }
    &&& text[14] == '4'
    &&& text[19] == '8' || text[19] == '9' || text[19] == 'a' || text[19] == 'b'
}

/// `Uuid::new_v4`, written as text. Which identifier comes is left to chance; its form is not.
#[verifier::external_body]
pub(crate) fn random_uuid() -> (text: String)
    ensures
        is_random_uuid(text@),
{
    uuid::Uuid::new_v4().to_string()
}

/// A random identifier is of version four and of the variant that goes with it, in five groups of
/// lower case hexadecimal digits between hyphens.
pub proof fn law_random_identifiers_have_five_groups(text: Seq<char>, i: int)
    requires
        is_random_uuid(text),
    ensures
        text.len() == 36,
        text[8] == '-' && text[13] == '-' && text[18] == '-' && text[23] == '-',
        text[14] == '4',
        text[19] == '8' || text[19] == '9' || text[19] == 'a' || text[19] == 'b',
        0 <= i < 36 && i != 8 && i != 13 && i != 18 && i != 23 ==> '0' <= text[i] <= '9' || 'a'
            <= text[i] <= 'f',
{
    assert(text[8] == '-' && text[13] == '-' && text[18] == '-' && text[23] == '-');
    if 0 <= i < 36 && i != 8 && i != 13 && i != 18 && i != 23 {
        assert(is_hex_digit(text[i]));
    }
}

} // verus!
