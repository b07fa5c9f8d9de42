//! Content fingerprints of raw file bytes: SHA-256, written in lower-case hex.
use vstd::prelude::*;
use vstd::string::*;
use sha2::Digest;

verus! {

/// The lower-case hex digits, by value.
pub const HEX_DIGITS: &'static str = "0123456789abcdef";

/// The SHA-256 digest of `data`, as sha2 computes it.
pub uninterp spec fn sha256_of(data: Seq<u8>) -> Seq<u8>;

/// Relies on sha2's `Sha256::digest`: the 32-byte SHA-256 digest of the
/// input, which depends on the input alone.
#[verifier::external_body]
fn sha256(data: &[u8]) -> (r: Vec<u8>)
    ensures
        r@ == sha256_of(data@),
        r@.len() == 32,
{
    sha2::Sha256::digest(data).to_vec()
}

/// The hex digit of value `n` (0..=15).
pub open spec fn hex_char(n: int) -> char {
    HEX_DIGITS@[n]
}

/// Each byte as two lower-case hex digits, high half first.
pub open spec fn hex_text(bytes: Seq<u8>) -> Seq<char>
    decreases bytes.len(),
{
    if bytes.len() == 0 {
        Seq::empty()
    } else {
        let b = bytes.last();
        hex_text(bytes.drop_last()) + seq![hex_char(b as int / 16), hex_char(b as int % 16)]
    }
}

/// Writes bytes as lower-case hex.
pub fn hex_encode(bytes: &[u8]) -> (r: String)
    ensures
        r@ == hex_text(bytes@),
{
    proof {
        reveal_strlit("0123456789abcdef");
    }
    let mut out = String::new();
    let mut i: usize = 0;
    while i < bytes.len()
        invariant
            i <= bytes@.len(),
            out@ == hex_text(bytes@.subrange(0, i as int)),
            HEX_DIGITS@.len() == 16,
        decreases bytes@.len() - i,
    {
        let b = bytes[i];
        let hi = (b / 16) as usize;
        let lo = (b % 16) as usize;
        out.append(HEX_DIGITS.substring_char(hi, hi + 1));
        out.append(HEX_DIGITS.substring_char(lo, lo + 1));
        proof {
            let s = bytes@.subrange(0, i + 1);
            assert(s.drop_last() =~= bytes@.subrange(0, i as int));
            assert(HEX_DIGITS@.subrange(hi as int, hi + 1) =~= seq![hex_char(hi as int)]);
            assert(HEX_DIGITS@.subrange(lo as int, lo + 1) =~= seq![hex_char(lo as int)]);
            assert(out@ =~= hex_text(s));
        }
        i = i + 1;
    }
    assert(bytes@.subrange(0, bytes@.len() as int) =~= bytes@);
    out
}

/// The fingerprint of a file's contents: its SHA-256 digest in lower-case
/// hex, 64 characters.
pub fn hashcode_bytes(data: &[u8]) -> (r: String)
    ensures
        r@ == hex_text(sha256_of(data@)),
{
    let digest = sha256(data);
    hex_encode(digest.as_slice())
}

} // verus!
