//! The Merkle commitment over an ordered list of hashes.
//!
//! Adjacent hashes are combined pairwise, level by level, until one hash is
//! left. A hash without a neighbour is combined with itself, also when it is
//! the only one. The commitment of an empty list is the text `0`.

use vstd::prelude::*;
use vstd::string::*;

use crate::hashing::{hash_text, is_digest_text, sha256_hex, HASH_LENGTH};

verus! {

/// A rule that combines a left and a right hash into their parent.
pub type Pairing = spec_fn(Seq<char>, Seq<char>) -> Seq<char>;

/// The parent of two hashes: the hash of their concatenation.
pub open spec fn pair_hash(left: Seq<char>, right: Seq<char>) -> Seq<char> {
    hash_text(left + right)
}

/// The pairing rule of the ledger, [`pair_hash`].
pub open spec fn hash_pairing() -> Pairing {
    |left: Seq<char>, right: Seq<char>| pair_hash(left, right)
}

/// The level above `level`: the parents of its adjacent pairs, where a last
/// hash without a neighbour is paired with itself.
pub open spec fn level_up(pairing: Pairing, level: Seq<Seq<char>>) -> Seq<Seq<char>> {
    Seq::new(
        (level.len() + 1) / 2,
        |i: int|
            if 2 * i + 1 < level.len() {
                pairing(level[2 * i], level[2 * i + 1])
            } else {
                pairing(level[2 * i], level[2 * i])
            },
    )
}

/// Climbs from `level` until a single hash is left.
pub open spec fn collapse(pairing: Pairing, level: Seq<Seq<char>>) -> Seq<char>
    decreases level.len(),
{
    if level.len() <= 1 {
        level.first()
    } else {
        collapse(pairing, level_up(pairing, level))
    }
}

/// The root over `leaves` under a pairing rule: `0` for no leaves, and the
/// result of at least one round of pairing otherwise.
pub open spec fn root_with(pairing: Pairing, leaves: Seq<Seq<char>>) -> Seq<char> {
    if leaves.len() == 0 {
        "0"@
    } else {
        collapse(pairing, level_up(pairing, leaves))
    }
}

/// The Merkle root of the ledger over `leaves`.
pub open spec fn merkle_root(leaves: Seq<Seq<char>>) -> Seq<char> {
    root_with(hash_pairing(), leaves)
}

/// Whether every text of `level` has the length of a hash.
pub open spec fn all_hash_long(level: Seq<Seq<char>>) -> bool {
    forall|i: int| 0 <= i < level.len() ==> (#[trigger] level[i]).len() == HASH_LENGTH
}

/// Whether a pairing rule gives texts of the length of a hash a parent of
/// that length.
pub open spec fn keeps_hash_length(pairing: Pairing) -> bool {
    forall|a: Seq<char>, b: Seq<char>|
        a.len() == HASH_LENGTH && b.len() == HASH_LENGTH ==> (#[trigger] pairing(a, b)).len()
            == HASH_LENGTH
}

/// Whether a pairing rule never gives two different pairs of texts of the
/// length of a hash the same parent. Nothing is asked of texts of other
/// lengths: a rule that reads its pair as one text cannot tell such pairs
/// apart.
pub open spec fn is_injective_on_hashes(pairing: Pairing) -> bool {
    forall|a: Seq<char>, b: Seq<char>, c: Seq<char>, d: Seq<char>|
        a.len() == HASH_LENGTH && b.len() == HASH_LENGTH && c.len() == HASH_LENGTH && d.len()
            == HASH_LENGTH && #[trigger] pairing(a, b) == #[trigger] pairing(c, d) ==> a == c && b
            == d
}

/// Computes the level above `level`.
fn pair_level(level: &Vec<String>) -> (next: Vec<String>)
    ensures
        next.deep_view() == level_up(hash_pairing(), level.deep_view()),
        next.len() == (level.len() + 1) / 2,
        forall|j: int| 0 <= j < next.len() ==> is_digest_text(#[trigger] next[j]@),
{
    let len = level.len();
    let count = len / 2 + len % 2;
    let mut next: Vec<String> = Vec::new();
    let mut k: usize = 0;
    while k < count
        invariant
            len == level.len(),
            count == (len + 1) / 2,
            k <= count,
            next.len() == k,
            forall|j: int|
                0 <= j < k ==> next[j]@ == level_up(hash_pairing(), level.deep_view())[j],
            forall|j: int| 0 <= j < k ==> is_digest_text(#[trigger] next[j]@),
        decreases count - k,
    {
        let mut joined = level[2 * k].clone();
        if 2 * k + 1 < len {
            joined.append(level[2 * k + 1].as_str());
        } else {
            joined.append(level[2 * k].as_str());
        }
        next.push(sha256_hex(joined.as_str()));
        k += 1;
    }
    next
}

/// Computes the Merkle root over `leaves`, in their order. The root over
/// one leaf or more is a hash: 64 lower-case hexadecimal digits.
pub fn merkle_root_of(leaves: &Vec<String>) -> (root: String)
    ensures
        root@ == merkle_root(leaves.deep_view()),
        leaves.len() > 0 ==> is_digest_text(root@),
{
    if leaves.len() == 0 {
        return String::from_str("0");
    }
    let mut level = pair_level(leaves);
    while level.len() > 1
        invariant
            level.len() >= 1,
            merkle_root(leaves.deep_view()) == collapse(hash_pairing(), level.deep_view()),
            forall|j: int| 0 <= j < level.len() ==> is_digest_text(#[trigger] level[j]@),
        decreases level.len(),
    {
        level = pair_level(&level);
    }
    level[0].clone()
}

/// The root over no hashes is the text `0`.
pub proof fn lemma_root_of_none()
    ensures
        merkle_root(Seq::<Seq<char>>::empty()) == seq!['0'],
{
    reveal_strlit("0");
}

/// The root over a single hash is that hash paired with itself, not the
/// hash as it stands.
pub proof fn lemma_root_of_one(leaf: Seq<char>)
    ensures
        merkle_root(seq![leaf]) == pair_hash(leaf, leaf),
{
    assert(level_up(hash_pairing(), seq![leaf]).len() == 1);
}

/// The root over two hashes is their parent.
pub proof fn lemma_root_of_two(left: Seq<char>, right: Seq<char>)
    ensures
        merkle_root(seq![left, right]) == pair_hash(left, right),
{
    assert(level_up(hash_pairing(), seq![left, right]).len() == 1);
}

/// Under a rule that keeps the length of a hash, the level above a level of
/// texts of that length is made of such texts.
pub proof fn lemma_level_up_keeps_length(pairing: Pairing, level: Seq<Seq<char>>)
    requires
        keeps_hash_length(pairing),
        all_hash_long(level),
    ensures
        all_hash_long(level_up(pairing, level)),
{
}

/// Under a rule that is injective on hashes, two levels of one length, made
/// of texts of the length of a hash, with the same level above them are the
/// same.
pub proof fn lemma_level_up_injective(pairing: Pairing, a: Seq<Seq<char>>, b: Seq<Seq<char>>)
    requires
        is_injective_on_hashes(pairing),
        all_hash_long(a),
        all_hash_long(b),
        a.len() == b.len(),
        level_up(pairing, a) == level_up(pairing, b),
    ensures
        a == b,
{
    assert forall|i: int| 0 <= i < a.len() implies a[i] == b[i] by {
        // Both hashes at place `i` are children of the parents at place `i / 2`,
        // which are the same.
        assert(level_up(pairing, a)[i / 2] == level_up(pairing, b)[i / 2]);
    }
}

/// Under a rule that keeps the length of a hash and is injective on hashes,
/// two levels of one length, made of texts of that length, that collapse to
/// the same hash are the same.
pub proof fn lemma_collapse_injective(pairing: Pairing, a: Seq<Seq<char>>, b: Seq<Seq<char>>)
    requires
        keeps_hash_length(pairing),
        is_injective_on_hashes(pairing),
        all_hash_long(a),
        all_hash_long(b),
        a.len() == b.len(),
        a.len() >= 1,
        collapse(pairing, a) == collapse(pairing, b),
    ensures
        a == b,
    decreases a.len(),
{
    if a.len() > 1 {
        lemma_level_up_keeps_length(pairing, a);
        lemma_level_up_keeps_length(pairing, b);
        lemma_collapse_injective(pairing, level_up(pairing, a), level_up(pairing, b));
        lemma_level_up_injective(pairing, a, b);
    }
}

/// The root commits to the order and content of its leaves: under a rule
/// that keeps the length of a hash and is injective on hashes, two lists of
/// one length, made of texts of that length, with the same root are the same
/// list. So every reordering that changes such a list changes its root.
pub proof fn lemma_root_injective(pairing: Pairing, a: Seq<Seq<char>>, b: Seq<Seq<char>>)
    requires
        keeps_hash_length(pairing),
        is_injective_on_hashes(pairing),
        all_hash_long(a),
        all_hash_long(b),
        a.len() == b.len(),
        root_with(pairing, a) == root_with(pairing, b),
    ensures
        a == b,
{
    if a.len() > 0 {
        lemma_level_up_keeps_length(pairing, a);
        lemma_level_up_keeps_length(pairing, b);
        lemma_collapse_injective(pairing, level_up(pairing, a), level_up(pairing, b));
        lemma_level_up_injective(pairing, a, b);
    }
}

} // verus!
