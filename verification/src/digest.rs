//! Integrity checking: a file's bytes are streamed through SHA-256 and the
//! lowercase hex encoding of the digest is compared with the recipe's
//! declared value.

use vstd::prelude::*;
use crate::strutil;
use sha2::Digest;

verus! {

/// The SHA-256 digest of a byte sequence.
pub uninterp spec fn sha256_digest(data: Seq<u8>) -> Seq<u8>;

/// Relies on `sha2::Sha256` through the `Digest` trait: the digest is a
/// function of the input bytes alone, 32 bytes long.
#[verifier::external_body]
fn sha256_of(data: &Vec<u8>) -> (r: Vec<u8>)
    ensures
        r@ == sha256_digest(data@),
        r@.len() == 32,
{
    sha2::Sha256::digest(data.as_slice()).to_vec()
}

/// The lowercase hex character for a value below 16.
pub open spec fn hex_digit(d: nat) -> char {
    if d < 10 {
        (48 + d) as char
    } else {
        (87 + d) as char
    }
}

/// The lowercase hex encoding of a byte sequence, two digits per byte.
pub open spec fn spec_hex(bytes: Seq<u8>) -> Seq<char>
    decreases bytes.len(),
{
    if bytes.len() == 0 {
        Seq::empty()
    } else {
        seq![
            hex_digit((bytes[0] as nat) / 16),
            hex_digit((bytes[0] as nat) % 16),
        ] + spec_hex(bytes.drop_first())
    }
}

/// Encodes bytes as lowercase hex.
fn bytes_to_hex(data: &Vec<u8>) -> (r: String)
    ensures
        r@ == spec_hex(data@),
{
    let mut out: Vec<char> = Vec::new();
    let mut i: usize = 0;
    assert(data@.skip(0) =~= data@);
    assert(out@ + spec_hex(data@) =~= spec_hex(data@));
    while i < data.len()
        invariant
            i <= data@.len(),
            spec_hex(data@) == out@ + spec_hex(data@.skip(i as int)),
        decreases data@.len() - i,
    {
        let b = data[i];
        let hi: u8 = b / 16;
        let lo: u8 = b % 16;
        let hc = if hi < 10 {
            (48 + hi) as char
        } else {
            (87 + hi) as char
        };
        let lc = if lo < 10 {
            (48 + lo) as char
        } else {
            (87 + lo) as char
        };
        proof {
            let rest = data@.skip(i as int);
            assert(rest[0] == data@[i as int]);
            assert(rest.drop_first() =~= data@.skip(i + 1));
            assert(hc == hex_digit((data@[i as int] as nat) / 16));
            assert(lc == hex_digit((data@[i as int] as nat) % 16));
            assert(spec_hex(rest) == seq![hc, lc] + spec_hex(data@.skip(i + 1)));
        }
        let ghost out0 = out@;
        out.push(hc);
        out.push(lc);
        proof {
            assert(out@ =~= out0 + seq![hc, lc]);
            assert(out0 + (seq![hc, lc] + spec_hex(data@.skip(i + 1))) =~= (out0 + seq![hc, lc])
                + spec_hex(data@.skip(i + 1)));
        }
        i = i + 1;
    }
    proof {
        assert(data@.skip(data@.len() as int) =~= Seq::<u8>::empty());
        assert(out@ + Seq::<char>::empty() =~= out@);
    }
    strutil::chars_to_string(&out)
}

/// The lowercase hex SHA-256 digest of the given bytes.
pub fn sha256_hex(data: &Vec<u8>) -> (r: String)
    ensures
        r@ == spec_hex(sha256_digest(data@)),
{
    let d = sha256_of(data);
    bytes_to_hex(&d)
}

/// True iff the lowercase hex SHA-256 digest of `data` equals
/// `expected_hex` exactly.
pub fn digest_matches(data: &Vec<u8>, expected_hex: &str) -> (r: bool)
    ensures
        r == (expected_hex@ == spec_hex(sha256_digest(data@))),
{
    let actual = sha256_hex(data);
    strutil::str_eq(expected_hex, actual.as_str())
}

} // verus!
