//! Rendering raw bytes as text for display: each byte becomes the character
//! with the same scalar value, so a 32-byte digest or a payload prefix can
//! be shown without choosing an encoding.

use vstd::prelude::*;
use vstd::slice::slice_index_get;

verus! {

/// Relies on std's ToString for char (via its Display impl): the returned
/// string holds exactly the one given character.
#[verifier::external_body]
fn char_to_string(c: char) -> (s: String)
    ensures
        s@ == seq![c],
{
    c.to_string()
}

/// The characters of `bytes`, one per byte, each the character with that
/// byte's scalar value.
pub open spec fn chars_of_bytes(bytes: Seq<u8>) -> Seq<char> {
    Seq::new(bytes.len(), |i: int| bytes[i] as char)
}

/// Renders `bytes` as a string of exactly their characters.
pub fn string_of_bytes(bytes: &[u8]) -> (s: String)
    ensures
        s@ == chars_of_bytes(bytes@),
{
    let n = bytes.len();
    let mut s = String::new();
    let mut idx: usize = 0;
    while idx < n
        invariant
            idx <= n,
            n == bytes@.len(),
            s@ == chars_of_bytes(bytes@.subrange(0, idx as int)),
        decreases n - idx,
    {
        let c: char = *slice_index_get(bytes, idx) as char;
        let piece = char_to_string(c);
        s.append(piece.as_str());
        idx = idx + 1;
        proof {
            assert(s@ =~= chars_of_bytes(bytes@.subrange(0, idx as int)));
        }
    }
    proof {
        assert(bytes@.subrange(0, n as int) =~= bytes@);
    }
    s
}

} // verus!
