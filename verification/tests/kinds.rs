use sha1dir::kind::{TAG_DIRECTORY, TAG_FILE, TAG_SOCKET, TAG_SYMLINK};
use sha1dir::{classify, payload_of, Kind, Payload};

#[test]
fn regular_file_is_told_by_its_type_bits() {
    assert_eq!(classify(0o100644), Kind::File);
    assert_eq!(classify(0o100000), Kind::File);
    assert_eq!(classify(0o104755), Kind::File);
}

#[test]
fn symlink_is_told_by_its_type_bits() {
    assert_eq!(classify(0o120777), Kind::Symlink);
}

#[test]
fn directory_is_told_by_its_type_bits() {
    assert_eq!(classify(0o040755), Kind::Directory);
    assert_eq!(classify(0o041777), Kind::Directory);
}

#[test]
fn socket_is_told_by_its_type_bits() {
    assert_eq!(classify(0o140755), Kind::Socket);
}

#[test]
fn devices_and_fifos_are_unsupported() {
    assert_eq!(classify(0o010644), Kind::Unsupported);
    assert_eq!(classify(0o020620), Kind::Unsupported);
    assert_eq!(classify(0o060660), Kind::Unsupported);
    assert_eq!(classify(0), Kind::Unsupported);
    assert_eq!(classify(0o000644), Kind::Unsupported);
    assert_eq!(classify(0o170000), Kind::Unsupported);
}

#[test]
fn bits_above_the_mode_are_not_looked_at() {
    assert_eq!(classify(0xffff_0000 | 0o100644), Kind::File);
    assert_eq!(classify(0x0001_0000 | 0o040755), Kind::Directory);
}

#[test]
fn tags_are_the_four_letters() {
    assert_eq!(TAG_FILE, b'f');
    assert_eq!(TAG_SYMLINK, b'l');
    assert_eq!(TAG_DIRECTORY, b'd');
    assert_eq!(TAG_SOCKET, b's');
}

#[test]
fn a_file_is_read_only_if_it_has_content() {
    assert_eq!(payload_of(Kind::File, 0), Payload::Nothing);
    assert_eq!(payload_of(Kind::File, 1), Payload::Content);
    assert_eq!(payload_of(Kind::File, u64::MAX), Payload::Content);
}

#[test]
fn a_link_is_read_for_its_target() {
    assert_eq!(payload_of(Kind::Symlink, 0), Payload::Target);
    assert_eq!(payload_of(Kind::Symlink, 9), Payload::Target);
}

#[test]
fn directories_sockets_and_the_rest_have_no_payload() {
    assert_eq!(payload_of(Kind::Directory, 4096), Payload::Nothing);
    assert_eq!(payload_of(Kind::Socket, 0), Payload::Nothing);
    assert_eq!(payload_of(Kind::Unsupported, 7), Payload::Nothing);
}
