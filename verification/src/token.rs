use vstd::prelude::*;

verus! {

use crate::rng::rand_range_u64;

/// A character from the token alphabet: lower case, upper case, or digit.
pub open spec fn is_token_char(ch: char) -> bool {
    ||| 97 <= ch as int <= 122
    ||| 65 <= ch as int <= 90
    ||| 48 <= ch as int <= 57
}

/// Maps an index in `[0, 62)` to the token alphabet
/// `a..z`, `A..Z`, `0..9`, in that order.
fn alphabet_byte(i: u64) -> (b: u8)
    requires
        i < 62,
    ensures
        b < 128,
        is_token_char(b as char),
{
    if i < 26 {
        97 + (i as u8)
    } else if i < 52 {
        65 + ((i - 26) as u8)
    } else {
        48 + ((i - 52) as u8)
    }
}

/// Relies on `String::from_utf8`: ASCII bytes decode to exactly one char per
/// byte, each char being the byte's code point.
#[verifier::external_body]
fn ascii_to_string(bytes: Vec<u8>) -> (r: String)
    requires
        forall|i: int| 0 <= i < bytes@.len() ==> bytes@[i] < 128,
    ensures
        r@.len() == bytes@.len(),
        forall|i: int| 0 <= i < bytes@.len() ==> r@[i] == bytes@[i] as char,
{
    String::from_utf8(bytes).unwrap_or_default()
}

/// A random string of the given length over the alphanumeric alphabet.
pub fn generate_random_string(length: usize) -> (r: String)
    ensures
        r@.len() == length,
        forall|i: int| 0 <= i < r@.len() ==> is_token_char(#[trigger] r@[i]),
{
    let mut bytes: Vec<u8> = Vec::new();
    let mut n: usize = 0;
    while n < length
        invariant
            n <= length,
            bytes@.len() == n,
            forall|i: int|
                0 <= i < bytes@.len() ==> bytes@[i] < 128 && is_token_char(
                    #[trigger] bytes@[i] as char,
                ),
        decreases length - n,
    {
        let idx = rand_range_u64(0, 62);
        bytes.push(alphabet_byte(idx));
        n = n + 1;
    }
    ascii_to_string(bytes)
}

} // verus!
