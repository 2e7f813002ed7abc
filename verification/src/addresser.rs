use vstd::prelude::*;

use crate::keys::info_key;
use crate::keys::spec_info_key;
use sha2::Digest;
use sha2::Sha256;
use vstd::string::StrSliceExecFns;
use vstd::string::StringExecFns;
use vstd::string::StringSliceAdditionalSpecFns;
use vstd::utf8::encode_utf8;

verus! {

/// The SHA-256 digest of a byte sequence, named but not written out: the
/// algorithm itself stays with the outside crate.
pub uninterp spec fn sha256_of(input: Seq<u8>) -> Seq<u8>;

/// Relies on `sha2::Sha256::digest`: SHA-256 is a pure function of the input
/// bytes alone, and a digest is exactly 32 bytes long.
#[verifier::external_body]
fn sha256_digest(input: &Vec<u8>) -> (r: Vec<u8>)
    ensures
        r@ == sha256_of(input@),
        r@.len() == 32,
{
    Sha256::digest(input.as_slice()).to_vec()
}

/// The lower-case hex digit for a nibble.
pub open spec fn spec_hex_digit(n: u8) -> char
    recommends
        n < 16,
{
    if n == 0 {
        '0'
    } else if n == 1 {
        '1'
    } else if n == 2 {
        '2'
    } else if n == 3 {
        '3'
    } else if n == 4 {
        '4'
    } else if n == 5 {
        '5'
    } else if n == 6 {
        '6'
    } else if n == 7 {
        '7'
    } else if n == 8 {
        '8'
    } else if n == 9 {
        '9'
    } else if n == 10 {
        'a'
    } else if n == 11 {
        'b'
    } else if n == 12 {
        'c'
    } else if n == 13 {
        'd'
    } else if n == 14 {
        'e'
    } else {
        'f'
    }
}

/// Lower-case hex encoding: two digits per byte, high nibble first.
pub open spec fn spec_hex_lower(bytes: Seq<u8>) -> Seq<char> {
    Seq::new(
        bytes.len() * 2,
        |i: int|
            if i % 2 == 0 {
                spec_hex_digit(bytes[i / 2] / 16)
            } else {
                spec_hex_digit(bytes[i / 2] % 16)
            },
    )
}

/// Relies on `base16ct::lower::encode_string`: lower-case hex, two digits
/// per byte, high nibble first.
#[verifier::external_body]
fn hex_lower(bytes: &[u8]) -> (r: String)
    ensures
        r@ == spec_hex_lower(bytes@),
{
    base16ct::lower::encode_string(bytes)
}

/// The content-addressed identifier of a (category, title) pair: the first
/// 8 lower-case hex characters of the SHA-256 digest of the UTF-8 bytes of
/// the info key, i.e. the hex of the digest's first 4 bytes.
pub open spec fn spec_content_id(category: int, title: Seq<char>) -> Seq<char> {
    spec_hex_lower(sha256_of(encode_utf8(spec_info_key(category, title))).take(4))
}

/// Computes the stable asset-filename stem for a matched entry.  The result
/// is a pure function of category and title alone, so the same pair always
/// addresses the same asset file.
pub fn content_id(category: i32, title: &str) -> (r: String)
    requires
        1 <= category <= 6,
    ensures
        r@ == spec_content_id(category as int, title@),
        r@.len() == 8,
{
    let key = info_key(category, title);
    let bytes = key.as_str().as_bytes_vec();
    let mut digest = sha256_digest(&bytes);
    digest.truncate(4);
    let hex = hex_lower(digest.as_slice());
    proof {
        assert(digest@ =~= sha256_of(encode_utf8(spec_info_key(category as int, title@))).take(4));
    }
    hex
}

/// The content addresser is deterministic: any two identifiers derived
/// from the same (category, title) pair are the same identifier.
pub proof fn lemma_content_id_deterministic(
    category: int,
    title: Seq<char>,
    r1: Seq<char>,
    r2: Seq<char>,
)
    requires
        r1 == spec_content_id(category, title),
        r2 == spec_content_id(category, title),
    ensures
        r1 == r2,
{
}

/// The on-disk file name for an asset stem: the stem with the fixed image
/// extension appended.
pub fn asset_filename(stem: &str) -> (r: String)
    ensures
        r@ == stem@ + ".png"@,
{
    let mut s = stem.to_owned();
    s.append(".png");
    s
}

} // verus!
