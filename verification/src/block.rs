//! Blocks: ordered batches of entries, committed to by a Merkle root and
//! sealed by proof of work.

use vstd::prelude::*;
use vstd::string::*;

use crate::ambient::unix_time;
use crate::error::{BlockchainError, ErrorView};
use crate::hashing::{hash_text, is_digest_text, sha256_hex};
use crate::merkle::{
    all_hash_long, hash_pairing, is_injective_on_hashes, keeps_hash_length, lemma_root_injective,
    merkle_root, merkle_root_of,
};
use crate::text::{decimal, has_leading_zeros, push_decimal, starts_with_zeros};
use crate::transaction::{Transaction, TransactionView};

verus! {

/// An ordered batch of entries, linked to the block before it.
#[derive(Debug)]
pub struct Block {
    /// Position in the chain; the genesis block has index 0.
    pub index: u64,
    /// Creation time, in seconds since the Unix epoch.
    pub timestamp: u64,
    /// The entries, in the order in which they were batched.
    pub transactions: Vec<Transaction>,
    /// The hash of the block before this one.
    pub previous_hash: String,
    /// The hash of this block; empty until the block is mined.
    pub hash: String,
    /// The number that mining varies until the hash meets the difficulty.
    pub nonce: u64,
    /// The Merkle root over the entries' content hashes.
    pub merkle_root: String,
}

/// The mathematical content of a [`Block`].
pub struct BlockView {
    pub index: nat,
    pub timestamp: nat,
    pub transactions: Seq<TransactionView>,
    pub previous_hash: Seq<char>,
    pub hash: Seq<char>,
    pub nonce: nat,
    pub merkle_root: Seq<char>,
}

/// The identifiers of `entries`, one after the other.
pub open spec fn joined_ids(entries: Seq<TransactionView>) -> Seq<char> {
    entries.map_values(|entry: TransactionView| entry.id).flatten()
}

/// The content hashes of `entries`, in their order.
pub open spec fn leaf_hashes(entries: Seq<TransactionView>) -> Seq<Seq<char>> {
    entries.map_values(|entry: TransactionView| entry.content_hash())
}

/// The block as it is before mining: the Merkle root set, the nonce 0 and
/// the hash empty.
pub open spec fn unmined(
    index: nat,
    timestamp: nat,
    transactions: Seq<TransactionView>,
    previous_hash: Seq<char>,
) -> BlockView {
    BlockView {
        index,
        timestamp,
        transactions,
        previous_hash,
        hash: Seq::empty(),
        nonce: 0,
        merkle_root: merkle_root(leaf_hashes(transactions)),
    }
}

impl BlockView {
    /// The text that the block's hash is taken of: index, timestamp, Merkle
    /// root, previous hash and nonce, then the identifiers of the entries.
    /// The stored hash is no part of it.
    pub open spec fn header(self) -> Seq<char> {
        decimal(self.index) + decimal(self.timestamp) + self.merkle_root + self.previous_hash
            + decimal(self.nonce) + joined_ids(self.transactions)
    }

    /// The hash that the block's fields give.
    pub open spec fn computed_hash(self) -> Seq<char> {
        hash_text(self.header())
    }

    /// The hash that the block would have with the nonce `nonce`.
    pub open spec fn hash_at(self, nonce: nat) -> Seq<char> {
        BlockView { nonce, ..self }.computed_hash()
    }

    /// Whether the nonce `nonce` gives a hash of the required difficulty.
    pub open spec fn solves(self, nonce: nat, difficulty: nat) -> bool {
        has_leading_zeros(self.hash_at(nonce), difficulty)
    }

    /// Whether `nonce` is the first nonce, counting from 0, whose hash has
    /// the required difficulty.
    pub open spec fn first_solution(self, nonce: nat, difficulty: nat) -> bool {
        &&& self.solves(nonce, difficulty)
        &&& forall|earlier: nat| earlier < nonce ==> !self.solves(earlier, difficulty)
    }

    /// Whether no nonce gives a hash of the required difficulty. Mining
    /// tries every nonce, from 0 to the greatest.
    pub open spec fn unsolvable(self, difficulty: nat) -> bool {
        forall|nonce: nat| nonce <= u64::MAX ==> !self.solves(nonce, difficulty)
    }

    /// The block sealed with the nonce `nonce` and the hash that it gives.
    pub open spec fn sealed(self, nonce: nat) -> BlockView {
        BlockView { nonce, hash: self.hash_at(nonce), ..self }
    }

    /// Whether the stored hash is the hash of the block's fields and has the
    /// required difficulty.
    pub open spec fn is_mined(self, difficulty: nat) -> bool {
        &&& self.hash == self.computed_hash()
        &&& has_leading_zeros(self.hash, difficulty)
    }
}

/// The Merkle root reads the entries through their content hashes alone:
/// lists whose entries have, place by place, the same content hash have the
/// same root, and taking the root of one list twice gives one root.
pub proof fn lemma_root_reads_content_hashes(a: Seq<TransactionView>, b: Seq<TransactionView>)
    requires
        a.len() == b.len(),
        forall|i: int| 0 <= i < a.len() ==> a[i].content_hash() == b[i].content_hash(),
    ensures
        merkle_root(leaf_hashes(a)) == merkle_root(leaf_hashes(b)),
{
    assert(leaf_hashes(a) =~= leaf_hashes(b));
}

/// Reordering changes the root: taking the pairing rule of the ledger as
/// free of collisions on hashes, two lists of entries of one length whose
/// content hashes have the length of a hash, and differ at some place, have
/// different roots.
pub proof fn lemma_reordering_changes_root(a: Seq<TransactionView>, b: Seq<TransactionView>)
    requires
        keeps_hash_length(hash_pairing()),
        is_injective_on_hashes(hash_pairing()),
        all_hash_long(leaf_hashes(a)),
        all_hash_long(leaf_hashes(b)),
        a.len() == b.len(),
        exists|i: int| 0 <= i < a.len() && a[i].content_hash() != b[i].content_hash(),
    ensures
        merkle_root(leaf_hashes(a)) != merkle_root(leaf_hashes(b)),
{
    if merkle_root(leaf_hashes(a)) == merkle_root(leaf_hashes(b)) {
        lemma_root_injective(hash_pairing(), leaf_hashes(a), leaf_hashes(b));
        let i = choose|i: int| 0 <= i < a.len() && a[i].content_hash() != b[i].content_hash();
        assert(leaf_hashes(a)[i] == leaf_hashes(b)[i]);
    }
}

/// Sealing a block changes no hash that a nonce gives it: the nonce and the
/// stored hash are no part of what [`BlockView::hash_at`] reads.
pub proof fn lemma_sealing_keeps_solutions(block: BlockView, nonce: nat)
    ensures
        forall|other: nat| #[trigger] block.sealed(nonce).hash_at(other) == block.hash_at(other),
        forall|other: nat, difficulty: nat|
            #![trigger block.sealed(nonce).solves(other, difficulty)]
            #![trigger block.solves(other, difficulty)]
            block.sealed(nonce).solves(other, difficulty) == block.solves(other, difficulty),
        forall|first: nat, difficulty: nat|
            #![trigger block.sealed(nonce).first_solution(first, difficulty)]
            #![trigger block.first_solution(first, difficulty)]
            block.sealed(nonce).first_solution(first, difficulty) == block.first_solution(
                first,
                difficulty,
            ),
{
    let sealed = block.sealed(nonce);
    assert forall|other: nat| #[trigger] sealed.hash_at(other) == block.hash_at(other) by {
        assert((BlockView { nonce: other, ..sealed }).header() == (BlockView {
            nonce: other,
            ..block
        }).header());
    }
    assert forall|other: nat, difficulty: nat|
        #![trigger sealed.solves(other, difficulty)]
        #![trigger block.solves(other, difficulty)]
        sealed.solves(other, difficulty) == block.solves(other, difficulty) by {
        assert(sealed.hash_at(other) == block.hash_at(other));
    }
}

impl View for Block {
    type V = BlockView;

    open spec fn view(&self) -> BlockView {
        BlockView {
            index: self.index as nat,
            timestamp: self.timestamp as nat,
            transactions: self.transactions.deep_view(),
            previous_hash: self.previous_hash@,
            hash: self.hash@,
            nonce: self.nonce as nat,
            merkle_root: self.merkle_root@,
        }
    }
}

impl DeepView for Block {
    type V = BlockView;

    open spec fn deep_view(&self) -> BlockView {
        self@
    }
}

/// Copies a list of entries.
pub fn clone_transactions(entries: &Vec<Transaction>) -> (copy: Vec<Transaction>)
    ensures
        copy@ == entries@,
{
    let mut copy: Vec<Transaction> = Vec::new();
    let mut i: usize = 0;
    while i < entries.len()
        invariant
            i <= entries.len(),
            copy@ == entries@.take(i as int),
        decreases entries.len() - i,
    {
        copy.push(entries[i].clone());
        i += 1;
    }
    copy
}

impl Clone for Block {
    fn clone(&self) -> (copy: Self)
        ensures
            copy@ == self@,
            copy.transactions@ == self.transactions@,
    {
        Block {
            index: self.index,
            timestamp: self.timestamp,
            transactions: clone_transactions(&self.transactions),
            previous_hash: self.previous_hash.clone(),
            hash: self.hash.clone(),
            nonce: self.nonce,
            merkle_root: self.merkle_root.clone(),
        }
    }
}

impl Block {
    /// Builds the block at `index` over `transactions`, linked to
    /// `previous_hash`, stamped with the current time, and mines it.
    ///
    /// Fails when the clock reads a time before the Unix epoch, and when no
    /// nonce gives a hash of the required difficulty.
    pub fn new(
        index: u64,
        transactions: Vec<Transaction>,
        previous_hash: String,
        difficulty: u32,
    ) -> (result: Result<Block, BlockchainError>)
        ensures
            match result {
                Ok(block) => {
                    &&& block@ == unmined(
                        index as nat,
                        block@.timestamp,
                        transactions.deep_view(),
                        previous_hash@,
                    ).sealed(block@.nonce)
                    &&& block@.first_solution(block@.nonce, difficulty as nat)
                    &&& block@.is_mined(difficulty as nat)
                    &&& is_digest_text(block@.hash)
                },
                Err(error) => {
                    ||| error@ == ErrorView::MiningError("System clock is before the Unix epoch"@)
                    ||| error@ == ErrorView::MiningError("Nonce overflow"@)
                },
            },
    {
        match unix_time() {
            Some(timestamp) => Block::assemble(
                index,
                timestamp,
                transactions,
                previous_hash,
                difficulty,
            ),
            None => Err(
                BlockchainError::MiningError(
                    String::from_str("System clock is before the Unix epoch"),
                ),
            ),
        }
    }

    /// Builds the block at `index` over `transactions`, linked to
    /// `previous_hash` and stamped with `timestamp`, and mines it: the Merkle
    /// root is computed first, then the first nonce is sought whose hash
    /// begins with `difficulty` zeros.
    ///
    /// Fails exactly when no nonce gives such a hash.
    pub fn assemble(
        index: u64,
        timestamp: u64,
        transactions: Vec<Transaction>,
        previous_hash: String,
        difficulty: u32,
    ) -> (result: Result<Block, BlockchainError>)
        ensures
            match result {
                Ok(block) => {
                    &&& block@ == unmined(
                        index as nat,
                        timestamp as nat,
                        transactions.deep_view(),
                        previous_hash@,
                    ).sealed(block@.nonce)
                    &&& block@.first_solution(block@.nonce, difficulty as nat)
                    &&& block@.is_mined(difficulty as nat)
                    &&& is_digest_text(block@.hash)
                },
                Err(error) => {
                    &&& unmined(
                        index as nat,
                        timestamp as nat,
                        transactions.deep_view(),
                        previous_hash@,
                    ).unsolvable(difficulty as nat)
                    &&& error@ == ErrorView::MiningError("Nonce overflow"@)
                },
            },
    {
        let mut block = Block {
            index,
            timestamp,
            transactions,
            previous_hash,
            hash: String::new(),
            nonce: 0,
            merkle_root: String::new(),
        };
        block.merkle_root = block.calculate_merkle_root();
        let ghost fresh = block@;
        match block.mine(difficulty) {
            Ok(()) => {
                proof {
                    lemma_sealing_keeps_solutions(fresh, block@.nonce);
                }
                Ok(block)
            },
            Err(error) => Err(error),
        }
    }

    /// Hashes the block's fields as they are now to 64 lower-case
    /// hexadecimal digits. The stored hash is neither read nor changed.
    pub fn calculate_hash(&self) -> (hash: String)
        ensures
            hash@ == self@.computed_hash(),
            is_digest_text(hash@),
    {
        let mut header = String::new();
        push_decimal(&mut header, self.index);
        push_decimal(&mut header, self.timestamp);
        header.append(self.merkle_root.as_str());
        header.append(self.previous_hash.as_str());
        push_decimal(&mut header, self.nonce);
        let ghost fixed = header@;
        let ghost ids = self@.transactions.map_values(|entry: TransactionView| entry.id);
        let mut i: usize = 0;
        while i < self.transactions.len()
            invariant
                i <= self.transactions.len(),
                ids == self@.transactions.map_values(|entry: TransactionView| entry.id),
                header@ == fixed + ids.take(i as int).flatten(),
            decreases self.transactions.len() - i,
        {
            header.append(self.transactions[i].id.as_str());
            proof {
                assert(ids.take(i + 1) =~= ids.take(i as int).push(ids[i as int]));
                ids.take(i as int).lemma_flatten_push(ids[i as int]);
            }
            i += 1;
        }
        assert(ids.take(i as int) =~= ids);
        sha256_hex(header.as_str())
    }

    /// Computes the Merkle root over the content hashes of the entries, in
    /// their order. The root over one entry or more is a hash: 64 lower-case
    /// hexadecimal digits.
    pub fn calculate_merkle_root(&self) -> (root: String)
        ensures
            root@ == merkle_root(leaf_hashes(self@.transactions)),
            self@.transactions.len() > 0 ==> is_digest_text(root@),
    {
        let mut leaves: Vec<String> = Vec::new();
        let mut i: usize = 0;
        while i < self.transactions.len()
            invariant
                i <= self.transactions.len(),
                leaves.len() == i,
                forall|j: int|
                    0 <= j < i ==> leaves[j]@ == leaf_hashes(self@.transactions)[j],
            decreases self.transactions.len() - i,
        {
            leaves.push(self.transactions[i].calculate_hash());
            i += 1;
        }
        assert(leaves.deep_view() =~= leaf_hashes(self@.transactions));
        merkle_root_of(&leaves)
    }

    /// Seeks, from 0 upwards, the first nonce whose hash begins with
    /// `difficulty` zeros, and stores that nonce and its hash.
    ///
    /// Fails exactly when no nonce, the greatest included, gives such a
    /// hash: the next nonce would wrap. The nonce is then the greatest, and
    /// the stored hash is as it was.
    pub fn mine(&mut self, difficulty: u32) -> (result: Result<(), BlockchainError>)
        ensures
            match result {
                Ok(()) => {
                    &&& final(self)@ == old(self)@.sealed(final(self)@.nonce)
                    &&& old(self)@.first_solution(final(self)@.nonce, difficulty as nat)
                    &&& final(self)@.is_mined(difficulty as nat)
                    &&& is_digest_text(final(self)@.hash)
                },
                Err(error) => {
                    &&& final(self)@ == (BlockView { nonce: u64::MAX as nat, ..old(self)@ })
                    &&& old(self)@.unsolvable(difficulty as nat)
                    &&& error@ == ErrorView::MiningError("Nonce overflow"@)
                },
            },
    {
        let ghost start = self@;
        self.nonce = 0;
        loop
            invariant
                start == old(self)@,
                self@ == (BlockView { nonce: self.nonce as nat, ..start }),
                forall|earlier: nat|
                    earlier < self.nonce ==> !start.solves(earlier, difficulty as nat),
            decreases u64::MAX - self.nonce,
        {
            let hash = self.calculate_hash();
            if starts_with_zeros(hash.as_str(), difficulty) {
                self.hash = hash;
                return Ok(());
            }
            if self.nonce == u64::MAX {
                return Err(BlockchainError::MiningError(String::from_str("Nonce overflow")));
            }
            self.nonce += 1;
        }
    }
}

} // verus!
