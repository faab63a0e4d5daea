//! Content checksums: a trusted SHA-256 digest call and a verified
//! lowercase-hex rendering of digests.

use vstd::prelude::*;
use sha2::Digest;

verus! {

/// The SHA-256 digest of a byte sequence. The digest is a function of the
/// bytes alone; its value is stated nowhere and is supplied only by the
/// trusted call below.
pub uninterp spec fn sha256_of(data: Seq<u8>) -> Seq<u8>;

/// Relies on sha2's `Digest::digest` for `Sha256`: the 32-byte SHA-256
/// digest of the input, a function of the input bytes alone.
#[verifier::external_body]
fn sha256_digest(data: &[u8]) -> (r: Vec<u8>)
    ensures
        r@ == sha256_of(data@),
        r@.len() == 32,
{
    sha2::Sha256::digest(data).to_vec()
}

/// The sixteen lowercase hexadecimal digits, indexed by value.
pub open spec fn spec_hex_char(n: u8) -> char {
    seq!['0', '1', '2', '3', '4', '5', '6', '7', '8', '9', 'a', 'b', 'c', 'd', 'e', 'f'][n as int]
}

/// Lowercase hexadecimal rendering of a byte sequence, two digits per byte.
pub open spec fn spec_hex(bs: Seq<u8>) -> Seq<char>
    decreases bs.len(),
{
    if bs.len() == 0 {
        Seq::empty()
    } else {
        spec_hex(bs.drop_last()) + seq![
            spec_hex_char(bs.last() >> 4u8),
            spec_hex_char(bs.last() & 0xfu8),
        ]
    }
}

/// The hexadecimal digit for a value below sixteen, as a one-character
/// string.
fn hex_digit_str(n: u8) -> (r: &'static str)
    requires
        n < 16,
    ensures
        r@ == seq![spec_hex_char(n)],
{
    let digits: &'static str = "0123456789abcdef";
    proof {
        reveal_strlit("0123456789abcdef");
    }
    let r = digits.substring_char(n as usize, n as usize + 1);
    proof {
        assert(r@ =~= seq![spec_hex_char(n)]);
    }
    r
}

/// Render bytes as lowercase hexadecimal, two digits per byte.
pub fn to_hex(bytes: &Vec<u8>) -> (r: String)
    ensures
        r@ == spec_hex(bytes@),
{
    let mut out = String::new();
    let n = bytes.len();
    let mut i: usize = 0;
    while i < n
        invariant
            n == bytes@.len(),
            i <= n,
            out@ == spec_hex(bytes@.subrange(0, i as int)),
        decreases n - i,
    {
        let b = bytes[i];
        proof {
            assert(b >> 4u8 < 16) by (bit_vector);
            assert(b & 0xfu8 < 16) by (bit_vector);
        }
        let hi = hex_digit_str(b >> 4);
        let lo = hex_digit_str(b & 0xf);
        out.append(hi);
        out.append(lo);
        proof {
            let sub = bytes@.subrange(0, i + 1);
            assert(sub.drop_last() =~= bytes@.subrange(0, i as int));
            assert(sub.last() == b);
            assert(out@ =~= spec_hex(sub));
        }
        i += 1;
    }
    proof {
        assert(bytes@.subrange(0, n as int) =~= bytes@);
    }
    out
}

/// The lowercase-hex SHA-256 checksum of `data`.
pub fn sha256_hex(data: &[u8]) -> (r: String)
    ensures
        r@ == spec_hex(sha256_of(data@)),
        r@.len() == 64,
{
    let digest = sha256_digest(data);
    proof {
        lemma_spec_hex_len(digest@);
    }
    to_hex(&digest)
}

/// Hex rendering doubles the length.
pub proof fn lemma_spec_hex_len(bs: Seq<u8>)
    ensures
        spec_hex(bs).len() == 2 * bs.len(),
    decreases bs.len(),
{
    if bs.len() > 0 {
        lemma_spec_hex_len(bs.drop_last());
    }
}

} // verus!
