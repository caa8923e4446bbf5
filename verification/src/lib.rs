//! Fingerprint of a directory tree.
//!
//! Every entry of a tree (regular file, symbolic link, directory, socket)
//! is hashed on its own into a 160-bit SHA-1 digest, and the digests are
//! folded with XOR into one [`Checksum`]. XOR is commutative and
//! associative, so the entries may arrive in any order, from any number of
//! workers, and the result is the same.
//!
//! The library holds what is decided and computed. Looking at the
//! filesystem and running the workers is left to the program around it.
//!
//! This file holds the hash of one entry: what is fed to SHA-1 for each
//! kind.

pub mod checksum;
pub mod encode;
pub mod kind;
pub mod latch;
pub mod model;
pub mod options;
pub mod pool;
pub mod sha;
pub mod walk;

use vstd::prelude::*;
use crate::encode::{header, lemma_header_len, HEADER_OVERHEAD};
use crate::kind::{kind_of, TAG_DIRECTORY, TAG_FILE, TAG_SOCKET, TAG_SYMLINK};
use crate::sha::{absorbed, hashable, hasher_update};

pub use checksum::Checksum;
pub use encode::{begin, fits};
pub use kind::{classify, payload_of, Kind, Payload};
pub use latch::{die, Latch, FAILURE_STATUS};
pub use options::Opt;
pub use pool::{configure_thread_pool, thread_count, PoolError};
pub use walk::{Phase, Walk};

verus! {

/// Why an entry was not hashed.
#[derive(Clone, Copy, Debug, PartialEq, Eq, Structural)]
pub enum EntryError {
    /// The entry is neither a file, a link, a directory nor a socket, and
    /// such entries are not to be passed over.
    UnsupportedFileType,
}

impl EntryError {
    /// The text of the error, as it is shown to the user.
    pub fn message(&self) -> (text: &'static str)
        ensures
            text@ == "Unsupported file type"@,
    {
        "Unsupported file type"
    }
}

/// All that is hashed for an entry: its header, and behind it the payload
/// where the kind has one. For a file the payload is its content, for a
/// link the text of its target. A directory and a socket have none: what
/// a directory holds counts only through the entries of its own that each
/// child has. Of an entry of an unsupported kind nothing is hashed.
pub open spec fn preimage(kind: Kind, path: Seq<u8>, mode: u32, payload: Seq<u8>) -> Seq<u8> {
    match kind {
        Kind::File => header(TAG_FILE, path, mode) + payload,
        Kind::Symlink => header(TAG_SYMLINK, path, mode) + payload,
        Kind::Directory => header(TAG_DIRECTORY, path, mode),
        Kind::Socket => header(TAG_SOCKET, path, mode),
        Kind::Unsupported => Seq::empty(),
    }
}

/// Hashes a regular file: the header with tag `f`, then the content. A
/// file without content feeds the hasher nothing more.
pub fn file(path: &[u8], mode: u32, content: &[u8]) -> (sha: sha1::Sha1)
    requires
        hashable(path@.len() + HEADER_OVERHEAD as nat + content@.len()),
    ensures
        absorbed(sha) == header(TAG_FILE, path@, mode) + content@,
        hashable(absorbed(sha).len()),
{
    let mut sha = begin(path, mode, TAG_FILE);
    proof {
        lemma_header_len(TAG_FILE, path@, mode);
    }
    if content.len() > 0 {
        hasher_update(&mut sha, content);
    }
    sha
}

/// Hashes a symbolic link: the header with tag `l`, then the text of the
/// target.
pub fn symlink(path: &[u8], mode: u32, target: &[u8]) -> (sha: sha1::Sha1)
    requires
        hashable(path@.len() + HEADER_OVERHEAD as nat + target@.len()),
    ensures
        absorbed(sha) == header(TAG_SYMLINK, path@, mode) + target@,
        hashable(absorbed(sha).len()),
{
    let mut sha = begin(path, mode, TAG_SYMLINK);
    proof {
        lemma_header_len(TAG_SYMLINK, path@, mode);
    }
    hasher_update(&mut sha, target);
    sha
}

/// Hashes a directory: the header with tag `d` and nothing else.
pub fn dir(path: &[u8], mode: u32) -> (sha: sha1::Sha1)
    requires
        hashable(path@.len() + HEADER_OVERHEAD as nat),
    ensures
        absorbed(sha) == header(TAG_DIRECTORY, path@, mode),
        hashable(absorbed(sha).len()),
{
    begin(path, mode, TAG_DIRECTORY)
}

/// Hashes a socket: the header with tag `s` and nothing else.
pub fn socket(path: &[u8], mode: u32) -> (sha: sha1::Sha1)
    requires
        hashable(path@.len() + HEADER_OVERHEAD as nat),
    ensures
        absorbed(sha) == header(TAG_SOCKET, path@, mode),
        hashable(absorbed(sha).len()),
{
    begin(path, mode, TAG_SOCKET)
}

/// Hashes one entry according to the kind that its mode shows. `payload`
/// is the content of a file or the target of a link; for the other kinds
/// it is not looked at.
///
/// An entry of an unsupported kind is never hashed. With `ignore_unknown`
/// it is passed over, which is `Ok(None)`; without, it is an error.
pub fn entry(path: &[u8], mode: u32, payload: &[u8], ignore_unknown: bool) -> (outcome: Result<
    Option<sha1::Sha1>,
    EntryError,
>)
    requires
        hashable(path@.len() + HEADER_OVERHEAD as nat + payload@.len()),
    ensures
        kind_of(mode) != Kind::Unsupported ==> (outcome matches Ok(Some(sha)) && absorbed(sha)
            == preimage(kind_of(mode), path@, mode, payload@) && hashable(absorbed(sha).len())),
        kind_of(mode) == Kind::Unsupported && ignore_unknown ==> outcome matches Ok(None),
        kind_of(mode) == Kind::Unsupported && !ignore_unknown ==> outcome matches Err(
            EntryError::UnsupportedFileType,
        ),
{
    match classify(mode) {
        Kind::File => Ok(Some(file(path, mode, payload))),
        Kind::Symlink => Ok(Some(symlink(path, mode, payload))),
        Kind::Directory => Ok(Some(dir(path, mode))),
        Kind::Socket => Ok(Some(socket(path, mode))),
        Kind::Unsupported => if ignore_unknown {
            Ok(None)
        } else {
            Err(EntryError::UnsupportedFileType)
        },
    }
}

} // verus!
