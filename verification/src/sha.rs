//! SHA-1, as the `sha1` crate computes it.
//!
//! Nothing here is proved: these are the statements about the `sha1`
//! crate that the rest of the library rests on.

use vstd::prelude::*;

verus! {

/// `sha1::Sha1`, the streaming hasher of the `sha1` crate. Nothing is seen
/// of what it holds.
#[verifier::external_type_specification]
#[verifier::external_body]
pub struct ExSha1(sha1::Sha1);

/// The SHA-1 digest of `message`: what `sha1::Sha1::digest` gives for a
/// hasher that was fed `message`, as the 20 bytes of `sha1::Digest::bytes`,
/// the most significant first. It is defined for messages shorter than
/// 2^61 bytes.
pub uninterp spec fn sha1_digest(message: Seq<u8>) -> Seq<u8>;

/// The bytes that `hasher` has been fed since it was made, in order:
/// what the calls of `sha1::Sha1::update` on it were handed, one after the
/// other.
pub uninterp spec fn absorbed(hasher: sha1::Sha1) -> Seq<u8>;

/// Number of bytes in a digest.
pub const DIGEST_LENGTH: usize = 20;

/// SHA-1 writes the length of its message in bits into 64 bits, so a
/// message has to be shorter than this many bytes, 2^61.
pub const MESSAGE_LIMIT: u64 = 0x2000_0000_0000_0000;

/// Whether a message of `len` bytes can be hashed.
pub open spec fn hashable(len: nat) -> bool {
    len < MESSAGE_LIMIT
}

/// `sha1::Sha1::new`: a hasher that has been fed nothing yet.
#[verifier::external_body]
pub(crate) fn hasher_new() -> (hasher: sha1::Sha1)
    ensures
        absorbed(hasher) == Seq::<u8>::empty(),
{
    sha1::Sha1::new()
}

/// `sha1::Sha1::update`: feeds `data` to the hasher, behind what it was
/// fed before. The hasher counts the bytes in a `u64`, and the count is
/// multiplied by eight when the digest is taken, so the total is kept
/// under the limit.
#[verifier::external_body]
pub(crate) fn hasher_update(hasher: &mut sha1::Sha1, data: &[u8])
    requires
        hashable(absorbed(*old(hasher)).len() + data@.len()),
    ensures
        absorbed(*final(hasher)) == absorbed(*old(hasher)) + data@,
{
    hasher.update(data)
}

/// `sha1::Sha1::digest` and `sha1::Digest::bytes`: the digest of all that
/// the hasher was fed, as 20 bytes. The hasher itself is left as it was.
#[verifier::external_body]
pub(crate) fn hasher_finish(hasher: &sha1::Sha1) -> (digest: [u8; 20])
    requires
        hashable(absorbed(*hasher).len()),
    ensures
        digest@ == sha1_digest(absorbed(*hasher)),
{
    hasher.digest().bytes()
}

} // verus!
