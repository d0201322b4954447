//! SHA-256 digests and their rendering as lowercase hexadecimal text.

use crate::text::{digit_text, digits};
use sha2::{Digest, Sha256};
use vstd::prelude::*;

verus! {

/// The SHA-256 digest of `message`, as FIPS 180-4 defines it.
pub uninterp spec fn sha256(message: Seq<u8>) -> Seq<u8>;

/// Computes a digest with `sha2::Sha256::digest`.
///
/// Trusted: the result is the SHA-256 digest of the whole of `message`, and it
/// is 32 bytes long. Neither claim is proved here; both rest on the `sha2`
/// crate, whose `Sha256` has an output size of 32 bytes.
#[verifier::external_body]
pub(crate) fn sha256_digest(message: &[u8]) -> (digest: Vec<u8>)
    ensures
        digest@ == sha256(message@),
        digest@.len() == 32,
{
    Sha256::digest(message).to_vec()
}

/// The two hexadecimal digits of one byte, high nibble first.
pub open spec fn hex_of_byte(byte: u8) -> Seq<char> {
    seq![digits()[byte as int / 16], digits()[byte as int % 16]]
}

/// Lowercase hexadecimal rendering of `bytes`: two digits per byte, in order.
pub open spec fn hex(bytes: Seq<u8>) -> Seq<char>
    decreases bytes.len(),
{
    if bytes.len() == 0 {
        Seq::empty()
    } else {
        hex(bytes.drop_last()) + hex_of_byte(bytes.last())
    }
}

/// A rendering has two characters for every byte.
pub proof fn lemma_hex_len(bytes: Seq<u8>)
    ensures
        hex(bytes).len() == 2 * bytes.len(),
    decreases bytes.len(),
{
    if bytes.len() > 0 {
        lemma_hex_len(bytes.drop_last());
    }
}

/// The two digits of a byte tell which byte it is.
pub proof fn lemma_hex_of_byte_injective(a: u8, b: u8)
    requires
        hex_of_byte(a) == hex_of_byte(b),
    ensures
        a == b,
{
    assert(hex_of_byte(a)[0] == hex_of_byte(b)[0]);
    assert(hex_of_byte(a)[1] == hex_of_byte(b)[1]);
}

/// A rendering tells which bytes it is of: different bytes never render alike.
pub proof fn lemma_hex_injective(a: Seq<u8>, b: Seq<u8>)
    requires
        hex(a) == hex(b),
    ensures
        a == b,
    decreases a.len(),
{
    lemma_hex_len(a);
    lemma_hex_len(b);
    if a.len() == 0 {
        assert(a =~= b);
    } else {
        lemma_hex_len(a.drop_last());
        lemma_hex_len(b.drop_last());
        let n = hex(a.drop_last()).len() as int;
        assert(hex(a.drop_last()) =~= hex(a).take(n));
        assert(hex(b.drop_last()) =~= hex(b).take(n));
        assert(hex_of_byte(a.last()) =~= hex(a).skip(n));
        assert(hex_of_byte(b.last()) =~= hex(b).skip(n));
        lemma_hex_injective(a.drop_last(), b.drop_last());
        lemma_hex_of_byte_injective(a.last(), b.last());
        assert(a =~= a.drop_last().push(a.last()));
        assert(b =~= b.drop_last().push(b.last()));
    }
}

/// Renders `bytes` as lowercase hexadecimal text.
pub fn to_hex(bytes: &[u8]) -> (text: String)
    ensures
        text@ == hex(bytes@),
{
    let mut text = String::new();
    let mut i: usize = 0;
    while i < bytes.len()
        invariant
            i <= bytes.len(),
            text@ == hex(bytes@.take(i as int)),
        decreases bytes.len() - i,
    {
        let byte: u8 = bytes[i];
        text.append(digit_text(byte / 16));
        text.append(digit_text(byte % 16));
        proof {
            let upto = bytes@.take(i + 1);
            assert(upto.drop_last() =~= bytes@.take(i as int));
        }
        i += 1;
    }
    assert(bytes@.take(i as int) =~= bytes@);
    text
}

} // verus!
