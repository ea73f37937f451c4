use vstd::prelude::*;
use vstd::utf8::encode_utf8;

verus! {

/// The value of a hexadecimal digit (either case), if `c` is one.
pub open spec fn hex_digit_value(c: u8) -> Option<u8> {
    if 0x30 <= c <= 0x39 {
        Some((c - 0x30) as u8)
    } else if 0x41 <= c <= 0x46 {
        Some((c - 0x41 + 10) as u8)
    } else if 0x61 <= c <= 0x66 {
        Some((c - 0x61 + 10) as u8)
    } else {
        None
    }
}

/// Hex decoding: an even number of hex digits, two per byte, high digit first.
pub open spec fn hex_decoded(text: Seq<u8>) -> Option<Seq<u8>> {
    if text.len() % 2 != 0 {
        None
    } else if exists|i: int| 0 <= i < text.len() && (#[trigger] hex_digit_value(text[i])) is None {
        None
    } else {
        Some(Seq::new(
            text.len() / 2,
            |i: int| (hex_digit_value(text[2 * i]).unwrap() * 16 + hex_digit_value(text[2 * i + 1]).unwrap()) as u8,
        ))
    }
}

#[verifier::external_type_specification]
#[verifier::external_body]
pub struct ExFromHexError(hex::FromHexError);

/// Calls `hex::decode` on the bytes of `text`: hex 0.4 refuses an odd length
/// or any byte that is not a hex digit, and otherwise turns each pair of
/// digits into one byte, high digit first.
#[verifier::external_body]
fn hex_decode(text: &str) -> (res: Result<Vec<u8>, hex::FromHexError>)
    ensures
        match res {
            Ok(bytes) => hex_decoded(encode_utf8(text@)) == Some(bytes@),
            Err(_) => hex_decoded(encode_utf8(text@)) is None,
        },
{
    hex::decode(text)
}

/// Why a hex key was refused.
#[derive(Debug)]
pub enum KeyDecodeError {
    /// The text was empty where a value was required.
    Empty,
    /// The text is not hex.
    InvalidHex(hex::FromHexError),
    /// The text decodes to this many bytes rather than 32.
    WrongLength(usize),
}

/// Decodes a 256-bit key written in hex (64 digits). Empty text is refused as
/// such when `reject_empty` is set.
pub fn decode_key_hex(key_hex: &str, reject_empty: bool) -> (res: Result<[u8; 32], KeyDecodeError>)
    ensures
        reject_empty && key_hex@.len() == 0 ==> res matches Err(KeyDecodeError::Empty),
        !(reject_empty && key_hex@.len() == 0) ==> match hex_decoded(encode_utf8(key_hex@)) {
            None => res matches Err(KeyDecodeError::InvalidHex(_)),
            Some(b) => if b.len() == 32 {
                res matches Ok(k) && k@ == b
            } else {
                res matches Err(KeyDecodeError::WrongLength(n)) && n == b.len()
            },
        },
{
    if reject_empty && key_hex.is_empty() {
        return Err(KeyDecodeError::Empty);
    }
    let bytes = match hex_decode(key_hex) {
        Ok(b) => b,
        Err(e) => return Err(KeyDecodeError::InvalidHex(e)),
    };
    if bytes.len() != 32 {
        return Err(KeyDecodeError::WrongLength(bytes.len()));
    }
    let mut key = [0u8; 32];
    let mut i: usize = 0;
    while i < 32
        invariant
            i <= 32,
            bytes@.len() == 32,
            forall|j: int| 0 <= j < i ==> key@[j] == bytes@[j],
        decreases 32 - i,
    {
        key[i] = bytes[i];
        i = i + 1;
    }
    assert(key@ =~= bytes@);
    Ok(key)
}

} // verus!
