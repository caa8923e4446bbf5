//! The bytes that are hashed for an entry before its payload.

use vstd::prelude::*;
use vstd::bytes::{lemma_auto_spec_u32_to_from_le_bytes, spec_u32_to_le_bytes, u32_to_le_bytes};
use crate::sha::{absorbed, hashable, hasher_new, hasher_update, MESSAGE_LIMIT};

verus! {

/// Number of bytes of a header besides the path: the tag, the length of
/// the path and the mode.
pub const HEADER_OVERHEAD: usize = 9;

/// The header of an entry: the tag byte of its kind, the length of its
/// path as a 32-bit little-endian integer, the path as the system gave it,
/// and the mode as a 32-bit little-endian integer.
pub open spec fn header(kind: u8, path: Seq<u8>, mode: u32) -> Seq<u8> {
    seq![kind] + spec_u32_to_le_bytes(path.len() as u32) + path + spec_u32_to_le_bytes(mode)
}

/// A header is nine bytes longer than its path.
pub proof fn lemma_header_len(kind: u8, path: Seq<u8>, mode: u32)
    ensures
        header(kind, path, mode).len() == path.len() + HEADER_OVERHEAD,
{
    lemma_auto_spec_u32_to_from_le_bytes();
}

/// Whether an entry with this path and this payload can be hashed: its
/// header and its payload together stay under the limit of SHA-1.
pub fn fits(path: &[u8], payload: &[u8]) -> (ok: bool)
    ensures
        ok == hashable(path@.len() + HEADER_OVERHEAD as nat + payload@.len()),
{
    let room: u64 = MESSAGE_LIMIT - 9;
    let path_len: u64 = path.len() as u64;
    let payload_len: u64 = payload.len() as u64;
    path_len < room && payload_len < room - path_len
}

/// Starts the hash of an entry: a new hasher that has been fed the header.
pub fn begin(path: &[u8], mode: u32, kind: u8) -> (sha: sha1::Sha1)
    requires
        hashable(path@.len() + HEADER_OVERHEAD as nat),
    ensures
        absorbed(sha) == header(kind, path@, mode),
        hashable(absorbed(sha).len()),
{
    proof {
        lemma_header_len(kind, path@, mode);
    }
    let mut sha = hasher_new();
    let tag: [u8; 1] = [kind];
    hasher_update(&mut sha, tag.as_slice());
    let len: u32 = path.len() as u32;
    let len_bytes = u32_to_le_bytes(len);
    hasher_update(&mut sha, len_bytes.as_slice());
    hasher_update(&mut sha, path);
    let mode_bytes = u32_to_le_bytes(mode);
    hasher_update(&mut sha, mode_bytes.as_slice());
    sha
}

} // verus!
