//! SHA-256 digests and their lowercase hexadecimal text.
use vstd::prelude::*;

use crate::text::push_char;
use sha2::Digest;

verus! {

/// The SHA-256 digest of a byte sequence (FIPS 180-4), as computed by `sha2`.
pub uninterp spec fn spec_sha256(data: Seq<u8>) -> Seq<u8>;

/// Wraps `sha2::Sha256::digest`: the 32-byte SHA-256 digest of `data`.
#[verifier::external_body]
pub(crate) fn sha256_digest(data: &[u8]) -> (d: Vec<u8>)
    ensures
        d@ == spec_sha256(data@),
        d@.len() == 32,
{
    sha2::Sha256::digest(data).to_vec()
}

/// Lowercase hexadecimal digit for a nibble.
pub open spec fn hex_digit(n: nat) -> char {
    if n < 10 {
        ((n + 48) as u8) as char
    } else {
        ((n + 87) as u8) as char
    }
}

/// Lowercase hexadecimal text of a byte sequence, two digits per byte (`{:x}`).
pub open spec fn spec_hex(bytes: Seq<u8>) -> Seq<char>
    decreases bytes.len(),
{
    if bytes.len() == 0 {
        Seq::empty()
    } else {
        spec_hex(bytes.drop_last()) + seq![
            hex_digit((bytes.last() / 16) as nat),
            hex_digit((bytes.last() % 16) as nat),
        ]
    }
}

fn nibble_char(n: u8) -> (c: char)
    requires
        n < 16,
    ensures
        c == hex_digit(n as nat),
{
    if n < 10 {
        (n + 48) as char
    } else {
        (n + 87) as char
    }
}

proof fn lemma_hex_len(bytes: Seq<u8>)
    ensures
        spec_hex(bytes).len() == 2 * bytes.len(),
    decreases bytes.len(),
{
    if bytes.len() > 0 {
        lemma_hex_len(bytes.drop_last());
    }
}

/// Lowercase hexadecimal text of a byte sequence.
pub fn hex_lower(bytes: &[u8]) -> (s: String)
    ensures
        s@ == spec_hex(bytes@),
        s@.len() == 2 * bytes@.len(),
{
    let mut s = String::new();
    let mut i: usize = 0;
    while i < bytes.len()
        invariant
            i <= bytes@.len(),
            s@ == spec_hex(bytes@.subrange(0, i as int)),
        decreases bytes.len() - i,
    {
        let b = bytes[i];
        push_char(&mut s, nibble_char(b / 16));
        push_char(&mut s, nibble_char(b % 16));
        proof {
            let prefix = bytes@.subrange(0, i + 1);
            assert(prefix.drop_last() =~= bytes@.subrange(0, i as int));
            assert(prefix.last() == b);
        }
        i += 1;
        assert(s@ =~= spec_hex(bytes@.subrange(0, i as int)));
    }
    assert(bytes@.subrange(0, bytes@.len() as int) =~= bytes@);
    proof {
        lemma_hex_len(bytes@);
    }
    s
}

/// Lowercase hex SHA-256 of `data` (64 characters).
pub fn sha256_hex(data: &[u8]) -> (s: String)
    ensures
        s@ == spec_hex(spec_sha256(data@)),
        s@.len() == 64,
{
    let digest = sha256_digest(data);
    hex_lower(digest.as_slice())
}

} // verus!
