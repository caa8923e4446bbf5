//! A tree as the checksum sees it, and what holds of the checksum of
//! every tree.

use vstd::prelude::*;
use vstd::bytes::{lemma_auto_spec_u32_to_from_le_bytes, spec_u32_to_le_bytes};
use vstd::seq_lib::lemma_multiset_commutative;
use crate::checksum::{
    lemma_xor_all_push, lemma_xor_all_remove, lemma_xor_tells_apart, lemma_xor_zero, xor, xor_all,
    zero,
};
use crate::sha::DIGEST_LENGTH;
use crate::encode::{header, lemma_header_len};
use crate::kind::{
    kind_of, payload_for, Kind, Payload, TAG_DIRECTORY, TAG_FILE, TAG_SOCKET, TAG_SYMLINK,
};
use crate::preimage;
use crate::sha::sha1_digest;

verus! {

/// One entry of a tree: its path as the walk names it, its mode, and its
/// payload (the content of a file, the target of a link, else nothing
/// that counts).
pub struct Entry {
    pub path: Seq<u8>,
    pub mode: u32,
    pub payload: Seq<u8>,
}

/// What is hashed for `entry`.
pub open spec fn hashed(entry: Entry) -> Seq<u8> {
    preimage(kind_of(entry.mode), entry.path, entry.mode, entry.payload)
}

/// The digest of `entry`.
pub open spec fn digest_of(entry: Entry) -> Seq<u8> {
    sha1_digest(hashed(entry))
}

/// What `entry` adds to the checksum of a walk: its digest, or, where it
/// is of an unsupported kind and passed over, twenty zero bytes, which
/// change no checksum.
pub open spec fn share_of(entry: Entry) -> Seq<u8> {
    if kind_of(entry.mode) == Kind::Unsupported {
        zero()
    } else {
        digest_of(entry)
    }
}

/// The shares of `entries`, each at the place of its entry.
pub open spec fn shares_of(entries: Seq<Entry>) -> Seq<Seq<u8>> {
    Seq::new(entries.len(), |i: int| share_of(entries[i]))
}

/// The checksum of a walk that came by `entries`, in this order, and
/// ended well.
pub open spec fn checksum_of(entries: Seq<Entry>) -> Seq<u8> {
    xor_all(shares_of(entries))
}

/// An empty directory adds the digest of its header and of nothing else.
/// So does a directory that is not empty: what it holds is not hashed
/// with it.
pub proof fn lemma_directory_is_its_header(entry: Entry)
    requires
        kind_of(entry.mode) == Kind::Directory,
    ensures
        hashed(entry) == header(TAG_DIRECTORY, entry.path, entry.mode),
        share_of(entry) == sha1_digest(header(TAG_DIRECTORY, entry.path, entry.mode)),
        forall|len: u64| payload_for(Kind::Directory, len) == Payload::Nothing,
{
}

/// An empty file adds the digest of its header and of nothing else, and
/// nothing is read of it.
pub proof fn lemma_empty_file_is_its_header(entry: Entry)
    requires
        kind_of(entry.mode) == Kind::File,
        entry.payload.len() == 0,
    ensures
        hashed(entry) == header(TAG_FILE, entry.path, entry.mode),
        share_of(entry) == sha1_digest(header(TAG_FILE, entry.path, entry.mode)),
        payload_for(Kind::File, 0) == Payload::Nothing,
{
    assert(header(TAG_FILE, entry.path, entry.mode) + entry.payload =~= header(
        TAG_FILE,
        entry.path,
        entry.mode,
    ));
}

/// Whether the payload of an entry of this kind is hashed.
pub open spec fn has_payload(kind: Kind) -> bool {
    kind == Kind::File || kind == Kind::Symlink
}

/// The tag byte of a kind that is hashed.
pub open spec fn tag_of(kind: Kind) -> u8
    recommends
        kind != Kind::Unsupported,
{
    match kind {
        Kind::File => TAG_FILE,
        Kind::Symlink => TAG_SYMLINK,
        Kind::Directory => TAG_DIRECTORY,
        _ => TAG_SOCKET,
    }
}

/// Where each part of an entry lies in what is hashed for it: the tag at
/// the front, the length of the path in the next four bytes, then the
/// path, the mode in four bytes, and the payload where there is one.
pub proof fn lemma_hashed_layout(entry: Entry)
    requires
        kind_of(entry.mode) != Kind::Unsupported,
    ensures
        ({
            let whole = hashed(entry);
            let n = entry.path.len() as int;
            &&& whole.len() >= 9 + n
            &&& whole[0] == tag_of(kind_of(entry.mode))
            &&& whole.subrange(1, 5) == spec_u32_to_le_bytes(entry.path.len() as u32)
            &&& whole.subrange(5, 5 + n) == entry.path
            &&& whole.subrange(5 + n, 9 + n) == spec_u32_to_le_bytes(entry.mode)
            &&& has_payload(kind_of(entry.mode)) ==> whole.subrange(9 + n, whole.len() as int)
                == entry.payload
            &&& !has_payload(kind_of(entry.mode)) ==> whole.len() == 9 + n
        }),
{
    let whole = hashed(entry);
    let n = entry.path.len() as int;
    lemma_auto_spec_u32_to_from_le_bytes();
    lemma_header_len(tag_of(kind_of(entry.mode)), entry.path, entry.mode);
    assert(whole.subrange(1, 5) =~= spec_u32_to_le_bytes(entry.path.len() as u32));
    assert(whole.subrange(5, 5 + n) =~= entry.path);
    assert(whole.subrange(5 + n, 9 + n) =~= spec_u32_to_le_bytes(entry.mode));
    if has_payload(kind_of(entry.mode)) {
        assert(whole.subrange(9 + n, whole.len() as int) =~= entry.payload);
    }
}

/// What is hashed tells entries apart: two entries for which the same
/// bytes are hashed have the same kind, path and mode, and the same
/// payload where their kind has one. So a change of content, of mode, of
/// name or of a link's target changes what is hashed.
///
/// This holds of paths shorter than 2^32 bytes, whose length the header
/// holds in full.
pub proof fn lemma_hashed_tells_apart(a: Entry, b: Entry)
    requires
        kind_of(a.mode) != Kind::Unsupported,
        kind_of(b.mode) != Kind::Unsupported,
        a.path.len() <= u32::MAX,
        b.path.len() <= u32::MAX,
        hashed(a) == hashed(b),
    ensures
        kind_of(a.mode) == kind_of(b.mode),
        a.path == b.path,
        a.mode == b.mode,
        has_payload(kind_of(a.mode)) ==> a.payload == b.payload,
{
    lemma_hashed_layout(a);
    lemma_hashed_layout(b);
    lemma_auto_spec_u32_to_from_le_bytes();
    assert(kind_of(a.mode) == kind_of(b.mode));
    assert(a.path.len() as u32 == b.path.len() as u32);
    assert(a.path.len() == b.path.len());
    assert(a.mode == b.mode);
}

/// Whether SHA-1 gives two different messages the same digest. Such
/// pairs are not known for what is hashed here, but they exist.
pub open spec fn collide(first: Seq<u8>, second: Seq<u8>) -> bool {
    first != second && sha1_digest(first) == sha1_digest(second)
}

/// Whether two entries differ in what counts: the path, the mode, or the
/// payload where the kind has one.
pub open spec fn differ(a: Entry, b: Entry) -> bool {
    ||| a.path != b.path
    ||| a.mode != b.mode
    ||| has_payload(kind_of(a.mode)) && a.payload != b.payload
}

/// Nothing but its path, its mode and its payload comes into what an
/// entry adds to the checksum, and the payload only where the kind has
/// one. Where the tree lies on disk does not: the same tree under the same
/// name adds the same wherever it is.
pub proof fn lemma_share_of_what_counts(a: Entry, b: Entry)
    requires
        !differ(a, b),
    ensures
        hashed(a) == hashed(b),
        share_of(a) == share_of(b),
{
}

/// The checksum shows every change of an entry: if an entry of a tree is
/// replaced by one that differs in content, mode, name or target, and the
/// rest of the tree stays, the checksum changes.
///
/// This holds of paths shorter than 2^32 bytes, and as far as SHA-1 keeps
/// what is hashed for the two entries apart.
pub proof fn lemma_change_changes_checksum(rest: Seq<Entry>, before: Entry, after: Entry)
    requires
        kind_of(before.mode) != Kind::Unsupported,
        kind_of(after.mode) != Kind::Unsupported,
        before.path.len() <= u32::MAX,
        after.path.len() <= u32::MAX,
        digest_of(before).len() == DIGEST_LENGTH,
        digest_of(after).len() == DIGEST_LENGTH,
        differ(before, after),
        !collide(hashed(before), hashed(after)),
    ensures
        checksum_of(rest.push(before)) != checksum_of(rest.push(after)),
{
    if hashed(before) == hashed(after) {
        lemma_hashed_tells_apart(before, after);
    }
    assert(digest_of(before) != digest_of(after));
    lemma_checksum_push(rest, before);
    lemma_checksum_push(rest, after);
    lemma_xor_tells_apart(checksum_of(rest), digest_of(before), digest_of(after));
}

/// The checksum shows every entry that is added or taken away, as far as
/// the digest of the entry is not twenty zero bytes.
pub proof fn lemma_added_entry_changes_checksum(rest: Seq<Entry>, added: Entry)
    requires
        kind_of(added.mode) != Kind::Unsupported,
        digest_of(added).len() == DIGEST_LENGTH,
        digest_of(added) != zero(),
    ensures
        checksum_of(rest.push(added)) != checksum_of(rest),
{
    lemma_checksum_push(rest, added);
    lemma_xor_tells_apart(checksum_of(rest), digest_of(added), zero());
    lemma_xor_zero(checksum_of(rest));
}

/// An entry of an unsupported kind that is passed over leaves the
/// checksum as it is.
pub proof fn lemma_passed_over_adds_nothing(rest: Seq<Entry>, skipped: Entry)
    requires
        kind_of(skipped.mode) == Kind::Unsupported,
    ensures
        checksum_of(rest.push(skipped)) == checksum_of(rest),
{
    lemma_checksum_push(rest, skipped);
    lemma_xor_zero(checksum_of(rest));
}

/// One more entry is one more XOR, of what the entry adds.
pub proof fn lemma_checksum_push(rest: Seq<Entry>, entry: Entry)
    ensures
        checksum_of(rest.push(entry)) == xor(checksum_of(rest), share_of(entry)),
{
    assert(shares_of(rest.push(entry)) =~= shares_of(rest).push(share_of(entry)));
    lemma_xor_all_push(shares_of(rest), share_of(entry));
}

/// The digests that a walk combines when it comes by `entries`: one for
/// each entry of a supported kind, in the order of the entries.
pub open spec fn combined_by(entries: Seq<Entry>) -> Seq<Seq<u8>>
    decreases entries.len(),
{
    if entries.len() == 0 {
        Seq::empty()
    } else if kind_of(entries.last().mode) == Kind::Unsupported {
        combined_by(entries.drop_last())
    } else {
        combined_by(entries.drop_last()).push(digest_of(entries.last()))
    }
}

/// A walk that combines the digest of each entry of a supported kind and
/// passes over the rest ends with the checksum of its entries.
pub proof fn lemma_walk_ends_with_checksum(entries: Seq<Entry>)
    ensures
        xor_all(combined_by(entries)) == checksum_of(entries),
    decreases entries.len(),
{
    if entries.len() == 0 {
        assert(shares_of(entries) =~= Seq::<Seq<u8>>::empty());
    } else {
        let front = entries.drop_last();
        let last = entries.last();
        lemma_walk_ends_with_checksum(front);
        assert(front.push(last) =~= entries);
        lemma_checksum_push(front, last);
        if kind_of(last.mode) == Kind::Unsupported {
            lemma_xor_zero(checksum_of(front));
        } else {
            lemma_xor_all_push(combined_by(front), digest_of(last));
        }
    }
}

/// The shares of all entries but one are the shares of all, but that
/// one's.
proof fn lemma_shares_of_remove(entries: Seq<Entry>, at: int)
    requires
        0 <= at < entries.len(),
    ensures
        shares_of(entries.remove(at)) == shares_of(entries).remove(at),
{
    assert(shares_of(entries.remove(at)) =~= shares_of(entries).remove(at));
}

/// Two walks that came by the same entries, each as often as the other,
/// end with the same checksum, in whatever order the entries came. A
/// tree that has not changed has the same checksum on every run.
pub proof fn lemma_same_entries_same_checksum(first: Seq<Entry>, second: Seq<Entry>)
    requires
        first.to_multiset() == second.to_multiset(),
    ensures
        checksum_of(first) == checksum_of(second),
    decreases first.len(),
{
    first.to_multiset_ensures();
    second.to_multiset_ensures();
    if first.len() == 0 {
        assert(second.len() == 0);
        assert(shares_of(first) =~= shares_of(second));
    } else {
        let last = first.last();
        let end = first.len() - 1;
        assert(first.contains(last));
        assert(first.to_multiset().count(last) > 0);
        assert(second.to_multiset().count(last) > 0);
        assert(second.contains(last));
        let at = choose|at: int| 0 <= at < second.len() && second[at] == last;
        lemma_same_entries_same_checksum(first.remove(end), second.remove(at));
        lemma_shares_of_remove(first, end);
        lemma_shares_of_remove(second, at);
        lemma_xor_all_remove(shares_of(first), end);
        lemma_xor_all_remove(shares_of(second), at);
    }
}

/// A tree: an entry and, where it is a directory, the trees of its
/// children in the order in which the directory lists them.
pub struct Tree {
    pub root: Entry,
    pub children: Seq<Tree>,
}

/// The entries that a walk of `tree` comes by: the root, then the entries
/// of each child's tree, child after child.
pub open spec fn entries_of(tree: Tree) -> Seq<Entry>
    decreases tree,
{
    seq![tree.root] + entries_below(tree.children)
}

/// The entries of the trees of `children`, child after child.
pub open spec fn entries_below(children: Seq<Tree>) -> Seq<Entry>
    decreases children,
{
    if children.len() == 0 {
        Seq::empty()
    } else {
        entries_below(children.drop_last()) + entries_of(children.last())
    }
}

/// The checksum of `tree`.
pub open spec fn tree_checksum(tree: Tree) -> Seq<u8> {
    checksum_of(entries_of(tree))
}

/// Whether `b` is the tree `a` with the children of any of its directories
/// listed in another order: the roots are the same, and the children of
/// `b` are, in some order, the children of `a`, each reordered in turn.
pub open spec fn reordered(a: Tree, b: Tree) -> bool
    decreases a,
{
    &&& a.root == b.root
    &&& exists|via: Seq<Tree>|
        {
            &&& via.len() == a.children.len()
            &&& #[trigger] via.to_multiset() == b.children.to_multiset()
            &&& forall|i: int|
                0 <= i < a.children.len() ==> reordered(a.children[i], #[trigger] via[i])
        }
}

/// Taking one child out takes its entries out.
proof fn lemma_entries_below_remove(children: Seq<Tree>, at: int)
    requires
        0 <= at < children.len(),
    ensures
        entries_below(children).to_multiset() == entries_below(
            children.remove(at),
        ).to_multiset().add(entries_of(children[at]).to_multiset()),
    decreases children.len(),
{
    let front = children.drop_last();
    let last = children.last();
    lemma_multiset_commutative(entries_below(front), entries_of(last));
    if at == children.len() - 1 {
        assert(children.remove(at) =~= front);
    } else {
        lemma_entries_below_remove(front, at);
        let rest = children.remove(at);
        assert(rest.drop_last() =~= front.remove(at));
        assert(rest.last() == last);
        lemma_multiset_commutative(entries_below(front.remove(at)), entries_of(last));
        assert(entries_below(children).to_multiset() =~= entries_below(rest).to_multiset().add(
            entries_of(children[at]).to_multiset(),
        ));
    }
}

/// Children in another order have the same entries below them.
proof fn lemma_entries_below_any_order(first: Seq<Tree>, second: Seq<Tree>)
    requires
        first.to_multiset() == second.to_multiset(),
    ensures
        entries_below(first).to_multiset() == entries_below(second).to_multiset(),
    decreases first.len(),
{
    first.to_multiset_ensures();
    second.to_multiset_ensures();
    if first.len() == 0 {
        assert(second.len() == 0);
    } else {
        let last = first.last();
        let end = first.len() - 1;
        assert(first.contains(last));
        assert(first.to_multiset().count(last) > 0);
        assert(second.to_multiset().count(last) > 0);
        assert(second.contains(last));
        let at = choose|at: int| 0 <= at < second.len() && second[at] == last;
        lemma_entries_below_any_order(first.remove(end), second.remove(at));
        lemma_entries_below_remove(first, end);
        lemma_entries_below_remove(second, at);
    }
}

/// Children with the same entries, child for child, have the same entries
/// below them.
proof fn lemma_entries_below_child_for_child(first: Seq<Tree>, second: Seq<Tree>)
    requires
        first.len() == second.len(),
        forall|i: int|
            0 <= i < first.len() ==> entries_of(first[i]).to_multiset() == entries_of(
                #[trigger] second[i],
            ).to_multiset(),
    ensures
        entries_below(first).to_multiset() == entries_below(second).to_multiset(),
    decreases first.len(),
{
    if first.len() > 0 {
        lemma_entries_below_child_for_child(first.drop_last(), second.drop_last());
        assert(entries_of(first.last()).to_multiset() == entries_of(second.last()).to_multiset());
        lemma_multiset_commutative(entries_below(first.drop_last()), entries_of(first.last()));
        lemma_multiset_commutative(entries_below(second.drop_last()), entries_of(second.last()));
    }
}

/// A tree whose directories list their children in another order has the
/// same entries.
pub proof fn lemma_reordered_same_entries(a: Tree, b: Tree)
    requires
        reordered(a, b),
    ensures
        entries_of(a).to_multiset() == entries_of(b).to_multiset(),
    decreases a,
{
    let via = choose|via: Seq<Tree>|
        {
            &&& via.len() == a.children.len()
            &&& #[trigger] via.to_multiset() == b.children.to_multiset()
            &&& forall|i: int|
                0 <= i < a.children.len() ==> reordered(a.children[i], #[trigger] via[i])
        };
    assert forall|i: int| 0 <= i < a.children.len() implies entries_of(
        a.children[i],
    ).to_multiset() == entries_of(#[trigger] via[i]).to_multiset() by {
        lemma_reordered_same_entries(a.children[i], via[i]);
    }
    lemma_entries_below_child_for_child(a.children, via);
    lemma_entries_below_any_order(via, b.children);
    lemma_multiset_commutative(seq![a.root], entries_below(a.children));
    lemma_multiset_commutative(seq![b.root], entries_below(b.children));
}

/// The order in which a directory lists its children does not matter:
/// shuffle the children of any of the directories of a tree, and its
/// checksum is the same.
pub proof fn lemma_reordered_same_checksum(a: Tree, b: Tree)
    requires
        reordered(a, b),
    ensures
        tree_checksum(a) == tree_checksum(b),
{
    lemma_reordered_same_entries(a, b);
    lemma_same_entries_same_checksum(entries_of(a), entries_of(b));
}

/// Every tree is a reordering of itself.
pub proof fn lemma_reordered_reflexive(a: Tree)
    ensures
        reordered(a, a),
    decreases a,
{
    assert forall|i: int| 0 <= i < a.children.len() implies reordered(
        a.children[i],
        #[trigger] a.children[i],
    ) by {
        lemma_reordered_reflexive(a.children[i]);
    }
    assert(a.children.to_multiset() == a.children.to_multiset());
}

/// The children of the root in any other order make a reordering.
pub proof fn lemma_reordered_at_root(root: Entry, first: Seq<Tree>, second: Seq<Tree>)
    requires
        first.to_multiset() == second.to_multiset(),
    ensures
        reordered(Tree { root, children: first }, Tree { root, children: second }),
{
    assert forall|i: int| 0 <= i < first.len() implies reordered(first[i], #[trigger] first[i]) by {
        lemma_reordered_reflexive(first[i]);
    }
    assert(first.to_multiset() == second.to_multiset());
}

} // verus!
