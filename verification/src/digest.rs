//! Digests.

use crate::text::hex_byte;
use md5::Digest;
use vstd::prelude::*;

verus! {

/// The MD5 digest of bytes.
pub uninterp spec fn md5_of(data: Seq<u8>) -> Seq<u8>;

/// `md5::Md5` digests bytes into sixteen. The algorithm is left unsaid: the
/// digest is named as a function of the bytes.
#[verifier::external_body]
pub(crate) fn md5_digest(data: &[u8]) -> (digest: Vec<u8>)
    ensures
        digest@ == md5_of(data@),
        digest@.len() == 16,
{
    let mut state = md5::Md5::new();
    state.update(data);
    state.finalize().to_vec()
}

/// The SHA-1 digest of bytes.
pub uninterp spec fn sha1_of(data: Seq<u8>) -> Seq<u8>;

/// `sha1::Sha1` digests bytes into twenty. The algorithm is left unsaid: the
/// digest is named as a function of the bytes.
#[verifier::external_body]
pub(crate) fn sha1_digest(data: &[u8]) -> (digest: Vec<u8>)
    ensures
        digest@ == sha1_of(data@),
        digest@.len() == 20,
{
    sha1::Sha1::digest(data).to_vec()
}

/// Bytes as pairs of hexadecimal digits, one behind the other.
pub open spec fn hex_of(bytes: Seq<u8>) -> Seq<char>
    decreases bytes.len(),
{
    if bytes.len() == 0 {
        Seq::empty()
    } else {
        hex_of(bytes.drop_last()) + crate::text::byte_text(bytes.last())
    }
}

/// Bytes as pairs of hexadecimal digits, one behind the other.
pub fn hex_string(bytes: &Vec<u8>) -> (text: String)
    ensures
        text@ == hex_of(bytes@),
{
    let mut text = String::new();
    for i in 0..bytes.len()
        invariant
            text@ == hex_of(bytes@.take(i as int)),
    {
        assert(bytes@.take(i + 1).drop_last() =~= bytes@.take(i as int));
        text.append(&hex_byte(bytes[i]));
    }
    assert(bytes@.take(bytes@.len() as int) =~= bytes@);
    text
}

} // verus!
