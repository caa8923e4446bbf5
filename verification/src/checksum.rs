//! The checksum of a tree: the XOR of the digests of its entries.

use vstd::prelude::*;
use crate::sha::{absorbed, hashable, hasher_finish, sha1_digest, DIGEST_LENGTH};

verus! {

/// Twenty zero bytes: the checksum before any digest is put into it.
pub open spec fn zero() -> Seq<u8> {
    Seq::new(DIGEST_LENGTH as nat, |i: int| 0u8)
}

/// The bytewise XOR of two 20-byte values.
pub open spec fn xor(a: Seq<u8>, b: Seq<u8>) -> Seq<u8> {
    Seq::new(DIGEST_LENGTH as nat, |i: int| a[i] ^ b[i])
}

/// The XOR of all of `digests`, put into a zero checksum one after the
/// other.
pub open spec fn xor_all(digests: Seq<Seq<u8>>) -> Seq<u8>
    decreases digests.len(),
{
    if digests.len() == 0 {
        zero()
    } else {
        xor(xor_all(digests.drop_last()), digests.last())
    }
}

/// The sixteen digits of lower-case hexadecimal.
pub open spec fn hex_digits() -> Seq<char> {
    seq!['0', '1', '2', '3', '4', '5', '6', '7', '8', '9', 'a', 'b', 'c', 'd', 'e', 'f']
}

/// The character at place `i` of the hexadecimal form of `bytes`: the
/// high half of a byte comes before its low half.
pub open spec fn hex_at(bytes: Seq<u8>, i: int) -> char {
    let byte = bytes[i / 2];
    if i % 2 == 0 {
        hex_digits()[byte as int / 16]
    } else {
        hex_digits()[byte as int % 16]
    }
}

/// `bytes` in lower-case hexadecimal, two digits for each byte, first
/// byte first.
pub open spec fn hex(bytes: Seq<u8>) -> Seq<char> {
    Seq::new(2 * bytes.len(), |i: int| hex_at(bytes, i))
}

/// XOR does not care which of the two comes first.
pub proof fn lemma_xor_commutative(a: Seq<u8>, b: Seq<u8>)
    ensures
        xor(a, b) == xor(b, a),
{
    assert forall|i: int| 0 <= i < DIGEST_LENGTH implies (a[i] ^ b[i]) == (b[i] ^ a[i]) by {
        let x = a[i];
        let y = b[i];
        assert(x ^ y == y ^ x) by (bit_vector);
    }
    assert(xor(a, b) =~= xor(b, a));
}

/// XOR does not care how three are grouped.
pub proof fn lemma_xor_associative(a: Seq<u8>, b: Seq<u8>, c: Seq<u8>)
    ensures
        xor(xor(a, b), c) == xor(a, xor(b, c)),
{
    assert forall|i: int| 0 <= i < DIGEST_LENGTH implies ((a[i] ^ b[i]) ^ c[i]) == (a[i] ^ (b[i]
        ^ c[i])) by {
        let x = a[i];
        let y = b[i];
        let z = c[i];
        assert((x ^ y) ^ z == x ^ (y ^ z)) by (bit_vector);
    }
    assert(xor(xor(a, b), c) =~= xor(a, xor(b, c)));
}

/// XOR with zero changes nothing.
pub proof fn lemma_xor_zero(a: Seq<u8>)
    requires
        a.len() == DIGEST_LENGTH,
    ensures
        xor(a, zero()) == a,
        xor(zero(), a) == a,
{
    assert forall|i: int| 0 <= i < DIGEST_LENGTH implies (a[i] ^ 0u8) == a[i] && (0u8 ^ a[i])
        == a[i] by {
        let x = a[i];
        assert(x ^ 0u8 == x && 0u8 ^ x == x) by (bit_vector);
    }
    assert(xor(a, zero()) =~= a);
    assert(xor(zero(), a) =~= a);
}

/// A digest that is put in twice is as good as never put in.
pub proof fn lemma_xor_cancels(a: Seq<u8>, b: Seq<u8>)
    requires
        a.len() == DIGEST_LENGTH,
    ensures
        xor(xor(a, b), b) == a,
{
    assert forall|i: int| 0 <= i < DIGEST_LENGTH implies ((a[i] ^ b[i]) ^ b[i]) == a[i] by {
        let x = a[i];
        let y = b[i];
        assert((x ^ y) ^ y == x) by (bit_vector);
    }
    assert(xor(xor(a, b), b) =~= a);
}

/// XOR with the same value keeps different digests different.
pub proof fn lemma_xor_tells_apart(rest: Seq<u8>, a: Seq<u8>, b: Seq<u8>)
    requires
        a.len() == DIGEST_LENGTH,
        b.len() == DIGEST_LENGTH,
        a != b,
    ensures
        xor(rest, a) != xor(rest, b),
{
    if xor(rest, a) == xor(rest, b) {
        assert forall|i: int| 0 <= i < DIGEST_LENGTH implies a[i] == b[i] by {
            let r = rest[i];
            let x = a[i];
            let y = b[i];
            assert(xor(rest, a)[i] == r ^ x);
            assert(xor(rest, b)[i] == r ^ y);
            assert(r ^ x == r ^ y ==> x == y) by (bit_vector);
        }
        assert(a =~= b);
    }
}

/// One more digest at the end is one more XOR.
pub proof fn lemma_xor_all_push(digests: Seq<Seq<u8>>, digest: Seq<u8>)
    ensures
        xor_all(digests.push(digest)) == xor(xor_all(digests), digest),
{
    assert(digests.push(digest).drop_last() =~= digests);
}

/// Any one of the digests can be taken out and put in last.
pub proof fn lemma_xor_all_remove(digests: Seq<Seq<u8>>, at: int)
    requires
        0 <= at < digests.len(),
    ensures
        xor_all(digests) == xor(xor_all(digests.remove(at)), digests[at]),
    decreases digests.len(),
{
    let front = digests.drop_last();
    let last = digests.last();
    if at == digests.len() - 1 {
        assert(digests.remove(at) =~= front);
    } else {
        lemma_xor_all_remove(front, at);
        let rest = front.remove(at);
        assert(digests.remove(at).drop_last() =~= rest);
        assert(digests.remove(at).last() == last);
        lemma_xor_associative(xor_all(rest), digests[at], last);
        lemma_xor_commutative(digests[at], last);
        lemma_xor_associative(xor_all(rest), last, digests[at]);
    }
}

/// The order in which the digests arrive does not matter: two runs that
/// put in the same digests, each as often as the other, end with the same
/// checksum.
pub proof fn lemma_xor_all_any_order(first: Seq<Seq<u8>>, second: Seq<Seq<u8>>)
    requires
        first.to_multiset() == second.to_multiset(),
    ensures
        xor_all(first) == xor_all(second),
    decreases first.len(),
{
    first.to_multiset_ensures();
    second.to_multiset_ensures();
    if first.len() == 0 {
        assert(second.len() == 0);
    } else {
        let last = first.last();
        assert(first.contains(last));
        assert(first.to_multiset().count(last) > 0);
        assert(second.to_multiset().count(last) > 0);
        assert(second.contains(last));
        let at = choose|at: int| 0 <= at < second.len() && second[at] == last;
        assert(first.drop_last() =~= first.remove(first.len() - 1));
        lemma_xor_all_any_order(first.drop_last(), second.remove(at));
        lemma_xor_all_remove(second, at);
    }
}

/// The line that shows a checksum: its forty digits alone for the
/// current directory, and for a directory that was named the digits, two
/// spaces and the path as it was given.
pub open spec fn report(sum: Seq<u8>, label: Option<Seq<char>>) -> Seq<char> {
    match label {
        None => hex(sum),
        Some(label) => hex(sum) + "  "@ + label,
    }
}

/// The 160-bit accumulator of one walk.
#[derive(Clone, Copy, Debug)]
pub struct Checksum {
    bytes: [u8; 20],
}

impl View for Checksum {
    type V = Seq<u8>;

    closed spec fn view(&self) -> Seq<u8> {
        self.bytes@
    }
}

/// The text of one hexadecimal digit.
fn digit(n: u8) -> (text: &'static str)
    requires
        n < 16,
    ensures
        text@ == seq![hex_digits()[n as int]],
{
    proof {
        reveal_strlit("0");
        reveal_strlit("1");
        reveal_strlit("2");
        reveal_strlit("3");
        reveal_strlit("4");
        reveal_strlit("5");
        reveal_strlit("6");
        reveal_strlit("7");
        reveal_strlit("8");
        reveal_strlit("9");
        reveal_strlit("a");
        reveal_strlit("b");
        reveal_strlit("c");
        reveal_strlit("d");
        reveal_strlit("e");
        reveal_strlit("f");
    }
    let text = match n {
        0 => "0",
        1 => "1",
        2 => "2",
        3 => "3",
        4 => "4",
        5 => "5",
        6 => "6",
        7 => "7",
        8 => "8",
        9 => "9",
        10 => "a",
        11 => "b",
        12 => "c",
        13 => "d",
        14 => "e",
        _ => "f",
    };
    assert(text@ =~= seq![hex_digits()[n as int]]);
    text
}

impl Checksum {
    /// A checksum of all zero bits.
    pub fn new() -> (checksum: Checksum)
        ensures
            checksum@ == zero(),
    {
        let checksum = Checksum { bytes: [0u8; 20] };
        assert(checksum@ =~= zero());
        checksum
    }

    /// A checksum always has twenty bytes.
    pub proof fn lemma_len(&self)
        ensures
            self@.len() == DIGEST_LENGTH,
    {
    }

    /// Combines the digest of what `rhs` was fed into the checksum: each
    /// byte of the digest is XORed into the byte at the same place.
    pub fn put(&mut self, rhs: sha1::Sha1)
        requires
            hashable(absorbed(rhs).len()),
        ensures
            final(self)@ == xor(old(self)@, sha1_digest(absorbed(rhs))),
    {
        let digest = hasher_finish(&rhs);
        let mut i: usize = 0;
        while i < 20
            invariant
                i <= 20,
                digest@ == sha1_digest(absorbed(rhs)),
                forall|j: int| 0 <= j < i ==> self.bytes@[j] == old(self).bytes@[j] ^ digest@[j],
                forall|j: int| i <= j < 20 ==> self.bytes@[j] == old(self).bytes@[j],
            decreases 20 - i,
        {
            self.bytes[i] = self.bytes[i] ^ digest[i];
            i += 1;
        }
        assert(self@ =~= xor(old(self)@, sha1_digest(absorbed(rhs))));
    }

    /// The twenty bytes of the checksum.
    pub fn bytes(&self) -> (bytes: [u8; 20])
        ensures
            bytes@ == self@,
    {
        self.bytes
    }

    /// The checksum as forty lower-case hexadecimal digits, the way it is
    /// printed.
    pub fn to_string(&self) -> (text: String)
        ensures
            text@ == hex(self@),
    {
        let mut text = String::new();
        let mut i: usize = 0;
        while i < 20
            invariant
                i <= 20,
                text@.len() == 2 * i,
                forall|j: int| 0 <= j < 2 * i ==> text@[j] == hex_at(self@, j),
            decreases 20 - i,
        {
            let byte: u8 = self.bytes[i];
            text.append(digit(byte / 16));
            text.append(digit(byte % 16));
            i += 1;
        }
        assert(text@ =~= hex(self@));
        text
    }

    /// The line to print for this checksum, without the end of line.
    /// `label` is the path of the directory as the user gave it, or `None`
    /// where the current directory was taken because none was given.
    pub fn line(&self, label: Option<&str>) -> (text: String)
        ensures
            text@ == report(
                self@,
                match label {
                    Some(label) => Some(label@),
                    None => None,
                },
            ),
    {
        let mut text = self.to_string();
        match label {
            Some(label) => {
                text.append("  ");
                text.append(label);
            },
            None => {},
        }
        text
    }
}

} // verus!
