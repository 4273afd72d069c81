//! Hexadecimal data columns, decoded with the `hex` crate.
use vstd::prelude::*;

verus! {

/// The value of a hexadecimal digit (either case), or nothing for any other
/// character.
pub open spec fn hex_digit(c: char) -> Option<nat> {
    if '0' <= c && c <= '9' {
        Some((c as nat - '0' as nat) as nat)
    } else if 'a' <= c && c <= 'f' {
        Some((c as nat - 'a' as nat + 10) as nat)
    } else if 'A' <= c && c <= 'F' {
        Some((c as nat - 'A' as nat + 10) as nat)
    } else {
        None
    }
}

/// The bytes that a hexadecimal string encodes, two digits per byte with the
/// high nibble first; nothing when the length is odd or a character is not a
/// hexadecimal digit.
pub open spec fn hex_decode_spec(s: Seq<char>) -> Option<Seq<u8>> {
    if s.len() % 2 == 0 && forall|i: int| 0 <= i < s.len() ==> (#[trigger] hex_digit(s[i])) is Some {
        Some(
            Seq::new(
                s.len() / 2,
                |i: int| (hex_digit(s[2 * i]).unwrap() * 16 + hex_digit(s[2 * i + 1]).unwrap()) as u8,
            ),
        )
    } else {
        None
    }
}

/// The decoded bytes, or nothing when the text is not valid hexadecimal.
pub open spec fn hex_or_empty(s: Seq<char>) -> Seq<u8> {
    match hex_decode_spec(s) {
        Some(b) => b,
        None => Seq::<u8>::empty(),
    }
}

/// `hex::decode`: the bytes of a hexadecimal string, `None` where the crate
/// returns an error. The crate rejects an odd length and any byte that is not
/// an ASCII hexadecimal digit; since every such digit is one byte, this is the
/// same as `hex_decode_spec` on the characters.
#[verifier::external_body]
fn hex_decode(s: &str) -> (r: Option<Vec<u8>>)
    ensures
        match r {
            Some(v) => hex_decode_spec(s@) == Some(v@),
            None => hex_decode_spec(s@) is None,
        },
{
    hex::decode(s).ok()
}

/// Decodes a hexadecimal data column; invalid text gives no bytes.
pub fn decode_or_empty(s: &str) -> (r: Vec<u8>)
    ensures
        r@ == hex_or_empty(s@),
{
    match hex_decode(s) {
        Some(v) => v,
        None => Vec::new(),
    }
}

} // verus!
