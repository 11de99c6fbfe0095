use vstd::prelude::*;

verus! {

/// The MD5 digest of `bytes`, written as 32 lower-case hex digits.
pub uninterp spec fn md5_hex(bytes: Seq<u8>) -> Seq<char>;

/// Relies on md5::compute and md5's `LowerHex` for `Digest`: each of the 16
/// digest bytes is written as two lower-case hex digits.
#[verifier::external_body]
fn md5_lower_hex(bytes: &[u8]) -> (r: String)
    ensures
        r@ == md5_hex(bytes@),
        r@.len() == 32,
{
    format!("{:x}", md5::compute(bytes))
}

/// The content digest of `bytes`, used to tell changed files from unchanged
/// ones (not for security).
pub fn checksum(bytes: &[u8]) -> (r: String)
    ensures
        r@ == md5_hex(bytes@),
        r@.len() == 32,
{
    md5_lower_hex(bytes)
}

} // verus!
