//! Hex encoding used by the account server, with error messages.
use vstd::prelude::*;
use vstd::string::*;
use crate::text::owned;
use crate::auth::hex::{hex_text, hex_pairs, hex_value, decode_bytes, lemma_all_hex_decodes};

verus! {

broadcast use vstd::string::group_string_axioms;

/// Lowercase hex encoding of `bytes`, two digits per byte.
pub fn encode(bytes: &[u8]) -> (r: String)
    ensures
        r@ == hex_text(bytes@),
{
    crate::auth::hex::encode(bytes)
}

/// The message for hex text of odd length.
pub open spec fn odd_length_message() -> Seq<char> {
    "Hex string must have an even number of characters"@
}

/// The message for hex text holding a non-hex character.
pub open spec fn non_hex_message() -> Seq<char> {
    "Hex string contains non-hex characters"@
}

/// What decoding hex text (as bytes) gives: an error for odd length, then
/// an error when any byte is not a hex digit, otherwise the bytes.
pub open spec fn decoded(t: Seq<u8>) -> Result<Seq<u8>, Seq<char>> {
    if t.len() % 2 != 0 {
        Err(odd_length_message())
    } else if exists|i: int| 0 <= i < t.len() && hex_value(#[trigger] t[i]) is None {
        Err(non_hex_message())
    } else {
        Ok(hex_pairs(t)->0)
    }
}

/// Decodes hex text: `Err` with a message for odd length or a non-hex
/// character, otherwise the bytes.
pub fn decode(s: &str) -> (r: Result<Vec<u8>, String>)
    ensures
        match r {
            Ok(v) => decoded(s.spec_bytes()) == Ok::<Seq<u8>, Seq<char>>(v@),
            Err(m) => decoded(s.spec_bytes()) == Err::<Seq<u8>, Seq<char>>(m@),
        },
{
    let t = s.as_bytes();
    if t.len() % 2 != 0 {
        return Err(owned("Hex string must have an even number of characters"));
    }
    let mut i: usize = 0;
    while i < t.len()
        invariant
            i <= t@.len(),
            t@.len() % 2 == 0,
            t@ == s.spec_bytes(),
            forall|j: int| 0 <= j < i ==> hex_value(#[trigger] t@[j]) is Some,
        decreases t@.len() - i,
    {
        let c = t[i];
        let ok = (48 <= c && c <= 57) || (97 <= c && c <= 102) || (65 <= c && c <= 70);
        if !ok {
            assert(hex_value(t@[i as int]) is None);
            let m = owned("Hex string contains non-hex characters");
            assert(decoded(t@) == Err::<Seq<u8>, Seq<char>>(m@));
            return Err(m);
        }
        i = i + 1;
    }
    proof {
        lemma_all_hex_decodes(t@);
    }
    match decode_bytes(t) {
        Ok(v) => Ok(v),
        Err(_) => Err(owned("Hex string contains non-hex characters")),
    }
}

} // verus!
