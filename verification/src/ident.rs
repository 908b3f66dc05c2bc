use vstd::prelude::*;

use crate::text::{find_char, is_digit_char, lemma_find_at, substring_copy};

verus! {

/// Lowercase hexadecimal digit.
pub open spec fn is_hex_char(c: char) -> bool {
    is_digit_char(c) || c == 'a' || c == 'b' || c == 'c' || c == 'd' || c == 'e' || c == 'f'
}

/// Relies on `uuid::Uuid::new_v4` and the `Display` (hyphenated) rendering:
/// thirty-six characters of lowercase hexadecimal in five groups, the first
/// hyphen standing after the eighth character. Which token comes back is not
/// assumed: every ensures clause holds of any drawn token.
#[verifier::external_body]
fn fresh_uuid_text() -> (r: String)
    ensures
        r@.len() == 36,
        r@[8] == '-',
        forall|i: int| 0 <= i < 8 ==> is_hex_char(#[trigger] r@[i]),
{
    uuid::Uuid::new_v4().to_string()
}

/// Generates the short opaque identifier of a new case: the first
/// hyphen-separated segment of a fresh unique token, eight lowercase
/// hexadecimal characters.
pub fn fresh_case_id() -> (r: String)
    ensures
        r@.len() == 8,
        forall|i: int| 0 <= i < 8 ==> is_hex_char(#[trigger] r@[i]),
{
    let token = fresh_uuid_text();
    let cut = find_char(token.as_str(), '-');
    proof {
        lemma_find_at(token@, '-', 8);
    }
    substring_copy(token.as_str(), 0, cut)
}

} // verus!
