//! Kinds of filesystem entries, told apart by the type bits of the mode.

use vstd::prelude::*;

verus! {

/// Mask of the bits of a mode that hold the file type.
pub const S_IFMT: u32 = 0o170000;

/// Type bits of a socket.
pub const S_IFSOCK: u32 = 0o140000;

/// Type bits of a symbolic link.
pub const S_IFLNK: u32 = 0o120000;

/// Type bits of a regular file.
pub const S_IFREG: u32 = 0o100000;

/// Type bits of a directory.
pub const S_IFDIR: u32 = 0o040000;

/// Tag byte of a regular file, the letter `f`.
pub const TAG_FILE: u8 = 0x66;

/// Tag byte of a symbolic link, the letter `l`.
pub const TAG_SYMLINK: u8 = 0x6c;

/// Tag byte of a directory, the letter `d`.
pub const TAG_DIRECTORY: u8 = 0x64;

/// Tag byte of a socket, the letter `s`.
pub const TAG_SOCKET: u8 = 0x73;

/// What an entry of the tree is.
#[derive(Clone, Copy, Debug, PartialEq, Eq, Structural)]
pub enum Kind {
    File,
    Symlink,
    Directory,
    Socket,
    /// Block and character devices, FIFOs and whatever else the system has.
    Unsupported,
}

/// Which bytes follow the header when an entry is hashed.
#[derive(Clone, Copy, Debug, PartialEq, Eq, Structural)]
pub enum Payload {
    /// The header alone is hashed.
    Nothing,
    /// The whole content of the file.
    Content,
    /// The text of the link's target, not what it points to.
    Target,
}

/// The kind that the type bits of `mode` stand for.
pub open spec fn kind_of(mode: u32) -> Kind {
    let bits = mode & S_IFMT;
    if bits == S_IFREG {
        Kind::File
    } else if bits == S_IFLNK {
        Kind::Symlink
    } else if bits == S_IFDIR {
        Kind::Directory
    } else if bits == S_IFSOCK {
        Kind::Socket
    } else {
        Kind::Unsupported
    }
}

/// What must be read of an entry before it can be hashed: the content of a
/// file that has any, the target of a link, nothing otherwise. A file of
/// length zero is not opened.
pub open spec fn payload_for(kind: Kind, len: u64) -> Payload {
    match kind {
        Kind::File => if len > 0 {
            Payload::Content
        } else {
            Payload::Nothing
        },
        Kind::Symlink => Payload::Target,
        _ => Payload::Nothing,
    }
}

/// Tells the kind of an entry from its mode, as the system reports it
/// without following links.
pub fn classify(mode: u32) -> (k: Kind)
    ensures
        k == kind_of(mode),
{
    let bits: u32 = mode & S_IFMT;
    if bits == S_IFREG {
        Kind::File
    } else if bits == S_IFLNK {
        Kind::Symlink
    } else if bits == S_IFDIR {
        Kind::Directory
    } else if bits == S_IFSOCK {
        Kind::Socket
    } else {
        Kind::Unsupported
    }
}

/// Says what to read of an entry of kind `kind` whose length is `len`.
pub fn payload_of(kind: Kind, len: u64) -> (p: Payload)
    ensures
        p == payload_for(kind, len),
{
    match kind {
        Kind::File => if len > 0 {
            Payload::Content
        } else {
            Payload::Nothing
        },
        Kind::Symlink => Payload::Target,
        _ => Payload::Nothing,
    }
}

} // verus!
