//! The HMAC-SHA1 primitive, called through a contract.
//!
//! The digest itself is not modelled: `spec_hmac_sha1` names it as a pure
//! function of key and message, and the engine's contracts are stated over
//! that name.

use vstd::prelude::*;

verus! {

/// The HMAC-SHA1 digest of `msg` keyed with `key`: a pure function of the
/// two sequences, the same in every process and on every machine.
pub uninterp spec fn spec_hmac_sha1(key: Seq<u8>, msg: Seq<u8>) -> Seq<u8>;

/// Relies on `hmac::Hmac<sha1::Sha1>` (RFC 2104 HMAC over SHA-1): the digest
/// depends on the key and message bytes alone and is always 20 bytes — the
/// SHA-1 output size; `new_from_slice` accepts a key of any length for an
/// HMAC, so the call cannot fail.
#[verifier::external_body]
pub(crate) fn hmac_sha1(key: &[u8], msg: &[u8]) -> (r: Vec<u8>)
    ensures
        r@ == spec_hmac_sha1(key@, msg@),
        r@.len() == 20,
{
    let mut m = <hmac::Hmac<sha1::Sha1> as hmac::KeyInit>::new_from_slice(key)
        .expect("HMAC accepts keys of any length");
    hmac::Mac::update(&mut m, msg);
    hmac::Mac::finalize(m).into_bytes().to_vec()
}

} // verus!
