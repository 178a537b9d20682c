use vstd::prelude::*;

verus! {

/// What `sha256::digest` gives back for `data`: the lowercase hexadecimal form of its
/// SHA-256 digest.
pub uninterp spec fn sha256_hex(data: Seq<u8>) -> Seq<char>;

/// `sha256::digest` of the `sha256` crate, on bytes.
#[verifier::external_body]
pub(crate) fn sha256_digest(data: &[u8]) -> (r: String)
    ensures
        r@ == sha256_hex(data@),
{
    sha256::digest(data)
}

} // verus!
