use vstd::prelude::*;
use hmac::Mac;
use sha2::Digest;

verus! {

/// Name for the HMAC-SHA256 tag of `msg` under `key`.
pub uninterp spec fn hmac_sha256_tag(key: Seq<u8>, msg: Seq<u8>) -> Seq<u8>;

/// Name for the SHA-256 digest of `data`.
pub uninterp spec fn sha256_of(data: Seq<u8>) -> Seq<u8>;

#[verifier::external_type_specification]
#[verifier::external_body]
pub struct ExInvalidLength(hmac::digest::InvalidLength);

/// Calls `Hmac::<Sha256>::new_from_slice`, then `update` with `msg` and
/// `finalize`. In hmac 0.12 the key setup accepts a key of any length (a long
/// key is hashed first), so the call never fails; the tag is the named HMAC of
/// the bytes and has 32 bytes.
#[verifier::external_body]
pub(crate) fn hmac_sha256(key: &[u8], msg: &[u8]) -> (res: Result<Vec<u8>, hmac::digest::InvalidLength>)
    ensures
        res is Ok,
        res matches Ok(t) ==> t@ == hmac_sha256_tag(key@, msg@) && t@.len() == 32,
{
    let mut m = <hmac::Hmac<sha2::Sha256> as Mac>::new_from_slice(key)?;
    m.update(msg);
    Ok(m.finalize().into_bytes().to_vec())
}

/// Calls `Sha256::digest`: the named digest of `data`, 32 bytes long.
#[verifier::external_body]
pub(crate) fn sha256(data: &[u8]) -> (res: [u8; 32])
    ensures
        res@ == sha256_of(data@),
{
    sha2::Sha256::digest(data).into()
}

/// The decimal digit character for `d < 10`.
pub open spec fn digit_char(d: nat) -> char {
    ((d + 48) as u8) as char
}

/// Decimal notation of `n`, without leading zeros.
pub open spec fn decimal_text(n: nat) -> Seq<char>
    decreases n,
{
    if n < 10 {
        seq![digit_char(n)]
    } else {
        decimal_text(n / 10).push(digit_char(n % 10))
    }
}

/// The one-character text of the decimal digit `d`.
fn digit_text(d: usize) -> (res: &'static str)
    requires
        d < 10,
    ensures
        res@ == seq![digit_char(d as nat)],
{
    proof {
        reveal_strlit("0");
        reveal_strlit("1");
        reveal_strlit("2");
        reveal_strlit("3");
        reveal_strlit("4");
        reveal_strlit("5");
        reveal_strlit("6");
        reveal_strlit("7");
        reveal_strlit("8");
        reveal_strlit("9");
    }
    if d == 0 {
        "0"
    } else if d == 1 {
        "1"
    } else if d == 2 {
        "2"
    } else if d == 3 {
        "3"
    } else if d == 4 {
        "4"
    } else if d == 5 {
        "5"
    } else if d == 6 {
        "6"
    } else if d == 7 {
        "7"
    } else if d == 8 {
        "8"
    } else {
        "9"
    }
}

/// The decimal notation of `n`, as `Display` writes an integer.
pub(crate) fn usize_text(n: usize) -> (res: String)
    ensures
        res@ == decimal_text(n as nat),
    decreases n,
{
    let d = digit_text(n % 10);
    if n < 10 {
        d.to_string()
    } else {
        usize_text(n / 10).concat(d)
    }
}

} // verus!
