//! The ledger: a chain of mined blocks, a pool of pending entries and the
//! rules that extend and validate the chain.

use vstd::prelude::*;
use vstd::string::*;

use crate::ambient::{fresh_identifier, unix_time};
use crate::balance::{
    balance, chain_credited, chain_debited, credited, debited, lemma_balance_of_push,
    lemma_chain_moves_grow, lemma_moves_grow, net, BALANCE_LIMIT,
};
use crate::block::{clone_transactions, leaf_hashes, unmined, Block, BlockView};
use crate::error::{outcome, BlockchainError, ErrorView};
use crate::hashing::is_digest_text;
use crate::merkle::merkle_root;
use crate::text::same_text;
use crate::transaction::{reward_entry, system_sender, Transaction, TransactionView};
use crate::validity::{
    all_valid, chain_validity, chain_validity_from, entries_validity, lemma_valid_iff_links_hold,
    link_holds,
};
use crate::wallet::{is_pair_layout, Wallet};

verus! {

/// The amount that the system issues to the miner of a block.
pub const MINING_REWARD: u64 = 50;

/// The ledger: the chain, the difficulty in force, the pool of entries that
/// wait for a block, and the reward for mining one.
#[derive(Debug)]
pub struct Blockchain {
    /// The blocks, the genesis block first.
    pub chain: Vec<Block>,
    /// The number of zeros that the hash of a new block must begin with.
    pub difficulty: u32,
    /// The entries that wait for the next block, in the order of arrival.
    pub pending_transactions: Vec<Transaction>,
    /// The amount issued to the miner of each block.
    pub mining_reward: u64,
}

/// The mathematical content of a [`Blockchain`].
pub struct BlockchainView {
    pub chain: Seq<BlockView>,
    pub difficulty: nat,
    pub pending_transactions: Seq<TransactionView>,
    pub mining_reward: nat,
}

impl View for Blockchain {
    type V = BlockchainView;

    open spec fn view(&self) -> BlockchainView {
        BlockchainView {
            chain: self.chain.deep_view(),
            difficulty: self.difficulty as nat,
            pending_transactions: self.pending_transactions.deep_view(),
            mining_reward: self.mining_reward as nat,
        }
    }
}

/// Whether `entry` is a signed system-issued entry that moves `amount` to
/// `recipient`.
pub open spec fn is_reward(entry: TransactionView, recipient: Seq<char>, amount: nat) -> bool {
    &&& entry.signature is Some
    &&& entry == reward_entry(entry.id, recipient, amount, entry.timestamp).signed_with(
        entry.signature->0,
    )
}

impl BlockchainView {
    /// Whether the ledger is sound: the chain begins with an empty genesis
    /// block; every block stands at its index, commits to its entries and
    /// stores the hash of its fields; every block but the first is linked to
    /// the one before it; and every entry in a block after the first, and in
    /// the pool, is valid.
    pub open spec fn wf(self) -> bool {
        &&& self.chain.len() >= 1
        &&& self.chain[0].transactions.len() == 0
        &&& forall|i: int|
            0 <= i < self.chain.len() ==> {
                let block = #[trigger] self.chain[i];
                &&& block.index == i
                &&& block.merkle_root == merkle_root(leaf_hashes(block.transactions))
                &&& block.hash == block.computed_hash()
            }
        &&& forall|i: int|
            1 <= i < self.chain.len() ==> (#[trigger] self.chain[i]).previous_hash == self.chain[i
                - 1].hash
        &&& forall|i: int|
            1 <= i < self.chain.len() ==> all_valid((#[trigger] self.chain[i]).transactions)
        &&& all_valid(self.pending_transactions)
    }

    /// The ledger with `entry` added to the pool.
    pub open spec fn with_pending(self, entry: TransactionView) -> BlockchainView {
        BlockchainView { pending_transactions: self.pending_transactions.push(entry), ..self }
    }

    /// The ledger with `block` appended to the chain and the pool emptied.
    pub open spec fn with_block(self, block: BlockView) -> BlockchainView {
        BlockchainView {
            chain: self.chain.push(block),
            pending_transactions: Seq::empty(),
            ..self
        }
    }

    /// Whether the ledger is what mining the pool of `before` for `miner`
    /// gives: the chain of `before` with one more block, which holds the pool
    /// of `before` and then a reward for `miner`, is linked to the last block
    /// of `before` and is sealed with the first nonce whose hash has the
    /// difficulty of `before`; and an empty pool.
    pub open spec fn is_mined_from(self, before: BlockchainView, miner: Seq<char>) -> bool {
        let block = self.chain.last();
        let reward = block.transactions.last();
        &&& before.chain.len() >= 1
        &&& is_reward(reward, miner, before.mining_reward)
        &&& self == before.with_block(block)
        &&& block == before.with_pending(reward).next_block(block.timestamp).sealed(block.nonce)
        &&& block.first_solution(block.nonce, before.difficulty)
        &&& block.is_mined(before.difficulty)
        &&& is_digest_text(block.hash)
    }

    /// The block that sealing the pool at `timestamp` mines, before a nonce
    /// is found for it: it stands at the end of the chain, holds the pool and
    /// is linked to the last block.
    pub open spec fn next_block(self, timestamp: nat) -> BlockView {
        unmined(
            self.chain.len(),
            timestamp,
            self.pending_transactions,
            self.chain.last().hash,
        )
    }
}

/// Every sound ledger has a valid chain, and so has every ledger made by
/// [`Blockchain::new`] and changed only by adding entries and mining blocks.
pub proof fn lemma_sound_ledger_is_valid(ledger: BlockchainView)
    requires
        ledger.wf(),
    ensures
        chain_validity(ledger.chain) == Ok::<bool, ErrorView>(true),
{
    lemma_valid_iff_links_hold(ledger.chain);
    assert forall|i: int| 1 <= i < ledger.chain.len() implies #[trigger] link_holds(
        ledger.chain,
        i,
    ) by {
        assert(all_valid(ledger.chain[i].transactions));
    }
}

/// Mining moves the pool and the reward: the balance of every address
/// changes by what the pool moved to it on balance, the miner gains the
/// reward, and the system sender gives it.
pub proof fn lemma_mining_moves_pool_and_reward(
    before: BlockchainView,
    after: BlockchainView,
    miner: Seq<char>,
    address: Seq<char>,
)
    requires
        after.is_mined_from(before, miner),
    ensures
        balance(after.chain, address) == balance(before.chain, address) + net(
            before.pending_transactions,
            address,
        ) + (if address == miner {
            before.mining_reward as int
        } else {
            0
        }) - (if address == system_sender() {
            before.mining_reward as int
        } else {
            0
        }),
{
    let block = after.chain.last();
    lemma_balance_of_push(before.chain, block, address);
    assert(block.transactions.drop_last() =~= before.pending_transactions);
}

/// After one block is mined over an empty pool, the miner's balance is up by
/// exactly the reward.
pub proof fn lemma_reward_is_credited(
    before: BlockchainView,
    after: BlockchainView,
    miner: Seq<char>,
)
    requires
        after.is_mined_from(before, miner),
        before.pending_transactions.len() == 0,
        miner != system_sender(),
    ensures
        balance(after.chain, miner) == balance(before.chain, miner) + before.mining_reward,
{
    lemma_mining_moves_pool_and_reward(before, after, miner, miner);
}

impl Blockchain {
    /// Makes a ledger whose chain holds a genesis block mined at
    /// `difficulty` and stamped with the current time.
    ///
    /// Fails when the clock reads a time before the Unix epoch, and when no
    /// nonce gives the genesis block a hash of the required difficulty.
    pub fn new(difficulty: u32) -> (result: Result<Blockchain, BlockchainError>)
        ensures
            match result {
                Ok(ledger) => {
                    &&& ledger@.wf()
                    &&& ledger@.chain.len() == 1
                    &&& ledger@.chain[0] == unmined(
                        0,
                        ledger@.chain[0].timestamp,
                        Seq::empty(),
                        "0"@,
                    ).sealed(ledger@.chain[0].nonce)
                    &&& ledger@.chain[0].first_solution(ledger@.chain[0].nonce, difficulty as nat)
                    &&& ledger@.chain[0].is_mined(difficulty as nat)
                    &&& is_digest_text(ledger@.chain[0].hash)
                    &&& ledger@.difficulty == difficulty
                    &&& ledger@.pending_transactions.len() == 0
                    &&& ledger@.mining_reward == MINING_REWARD
                },
                Err(error) => {
                    ||| error@ == ErrorView::MiningError("System clock is before the Unix epoch"@)
                    ||| error@ == ErrorView::MiningError("Nonce overflow"@)
                },
            },
    {
        match unix_time() {
            Some(timestamp) => Blockchain::assemble(difficulty, timestamp),
            None => Err(
                BlockchainError::MiningError(
                    String::from_str("System clock is before the Unix epoch"),
                ),
            ),
        }
    }

    /// Makes a ledger whose chain holds a genesis block mined at
    /// `difficulty` and stamped with `timestamp`: index 0, no entries, and
    /// `0` for the hash of the block before. The pool is empty and the
    /// reward is [`MINING_REWARD`].
    ///
    /// Fails exactly when no nonce gives the genesis block a hash of the
    /// required difficulty.
    pub fn assemble(difficulty: u32, timestamp: u64) -> (result: Result<
        Blockchain,
        BlockchainError,
    >)
        ensures
            match result {
                Ok(ledger) => {
                    &&& ledger@.wf()
                    &&& ledger@.chain.len() == 1
                    &&& ledger@.chain[0] == unmined(0, timestamp as nat, Seq::empty(), "0"@).sealed(
                        ledger@.chain[0].nonce,
                    )
                    &&& ledger@.chain[0].first_solution(ledger@.chain[0].nonce, difficulty as nat)
                    &&& ledger@.chain[0].is_mined(difficulty as nat)
                    &&& is_digest_text(ledger@.chain[0].hash)
                    &&& ledger@.difficulty == difficulty
                    &&& ledger@.pending_transactions.len() == 0
                    &&& ledger@.mining_reward == MINING_REWARD
                },
                Err(error) => {
                    &&& unmined(0, timestamp as nat, Seq::empty(), "0"@).unsolvable(
                        difficulty as nat,
                    )
                    &&& error@ == ErrorView::MiningError("Nonce overflow"@)
                },
            },
    {
        let entries: Vec<Transaction> = Vec::new();
        assert(entries.deep_view() =~= Seq::<TransactionView>::empty());
        let genesis = match Block::assemble(
            0,
            timestamp,
            entries,
            String::from_str("0"),
            difficulty,
        ) {
            Ok(block) => block,
            Err(error) => {
                return Err(error);
            },
        };
        let mut chain: Vec<Block> = Vec::new();
        chain.push(genesis);
        let ledger = Blockchain {
            chain,
            difficulty,
            pending_transactions: Vec::new(),
            mining_reward: MINING_REWARD,
        };
        Ok(ledger)
    }

    /// Adds a valid entry to the pool. Entries are neither deduplicated nor
    /// held against the sender's balance.
    ///
    /// An entry that is not valid, or whose validation fails, is turned down
    /// with a validation error, which carries the detail of the failure; the
    /// ledger is then as it was. A sound ledger stays sound.
    pub fn add_transaction(&mut self, transaction: Transaction) -> (result: Result<
        (),
        BlockchainError,
    >)
        ensures
            match transaction@.validity() {
                Ok(valid) => if valid {
                    &&& result is Ok
                    &&& final(self)@ == old(self)@.with_pending(transaction@)
                } else {
                    &&& outcome(result) == Err::<(), ErrorView>(
                        ErrorView::ValidationError("Invalid transaction"@),
                    )
                    &&& *final(self) == *old(self)
                },
                Err(error) => {
                    &&& outcome(result) == Err::<(), ErrorView>(
                        ErrorView::ValidationError(error.detail()),
                    )
                    &&& *final(self) == *old(self)
                },
            },
            old(self)@.wf() ==> final(self)@.wf(),
    {
        match transaction.is_valid() {
            Ok(true) => {
                self.pending_transactions.push(transaction);
                proof {
                    assert(final(self)@.pending_transactions =~= old(
                        self,
                    )@.pending_transactions.push(transaction@));
                }
                Ok(())
            },
            Ok(false) => Err(
                BlockchainError::ValidationError(String::from_str("Invalid transaction")),
            ),
            Err(error) => Err(BlockchainError::ValidationError(error.into_detail())),
        }
    }

    /// Issues the mining reward to `miner_reward_address`: makes a
    /// system-issued entry of the ledger's reward, with a fresh identifier
    /// and the current time and signed by an identity made for the occasion,
    /// adds it to the pool, and mines a block over the whole pool, linked to
    /// the last block, at the ledger's difficulty. The block is appended to
    /// the chain and the pool is emptied.
    ///
    /// Fails when the clock reads a time before the Unix epoch, when the
    /// chain is empty, and when no nonce gives the block a hash of the
    /// required difficulty. The chain is then as it was, and the pool is as
    /// it was or holds the reward entry in addition. A sound ledger stays
    /// sound either way.
    pub fn mine_pending_transactions(&mut self, miner_reward_address: String) -> (result: Result<
        (),
        BlockchainError,
    >)
        ensures
            match result {
                Ok(()) => final(self)@.is_mined_from(old(self)@, miner_reward_address@),
                Err(error) => {
                    &&& final(self)@.chain == old(self)@.chain
                    &&& final(self)@.difficulty == old(self)@.difficulty
                    &&& final(self)@.mining_reward == old(self)@.mining_reward
                    &&& {
                        ||| final(self)@.pending_transactions == old(self)@.pending_transactions
                        ||| {
                            let reward = final(self)@.pending_transactions.last();
                            &&& is_reward(reward, miner_reward_address@, old(self)@.mining_reward)
                            &&& final(self)@ == old(self)@.with_pending(reward)
                        }
                    }
                    &&& {
                        ||| error@ == ErrorView::TransactionError(
                            "System clock is before the Unix epoch"@,
                        )
                        ||| error@ == ErrorView::MiningError(
                            "System clock is before the Unix epoch"@,
                        )
                        ||| error@ == ErrorView::MiningError("Nonce overflow"@)
                        ||| old(self)@.chain.len() == 0 && error@ == ErrorView::ValidationError(
                            "Empty blockchain"@,
                        )
                    }
                },
            },
            old(self)@.wf() ==> final(self)@.wf(),
    {
        let system = match Wallet::new() {
            Ok(wallet) => wallet,
            Err(error) => {
                return Err(error);
            },
        };
        let id = fresh_identifier();
        let reward_time = match unix_time() {
            Some(timestamp) => timestamp,
            None => {
                return Err(
                    BlockchainError::TransactionError(
                        String::from_str("System clock is before the Unix epoch"),
                    ),
                );
            },
        };
        match self.add_reward(&system, id, reward_time, miner_reward_address) {
            Ok(()) => {},
            Err(error) => {
                return Err(error);
            },
        }
        let block_time = match unix_time() {
            Some(timestamp) => timestamp,
            None => {
                return Err(
                    BlockchainError::MiningError(
                        String::from_str("System clock is before the Unix epoch"),
                    ),
                );
            },
        };
        self.seal_pending(block_time)
    }

    /// Adds to the pool the system-issued entry with the given identifier
    /// and creation time that moves the ledger's reward to
    /// `miner_reward_address`, signed by `system`.
    ///
    /// Fails exactly when the key pair of `system` is broken; the ledger is
    /// then as it was. A sound ledger stays sound.
    pub fn add_reward(
        &mut self,
        system: &Wallet,
        id: String,
        timestamp: u64,
        miner_reward_address: String,
    ) -> (result: Result<(), BlockchainError>)
        ensures
            match result {
                Ok(()) => {
                    let reward = reward_entry(
                        id@,
                        miner_reward_address@,
                        old(self)@.mining_reward,
                        timestamp as nat,
                    );
                    &&& is_pair_layout(system@.pair)
                    &&& final(self)@ == old(self)@.with_pending(
                        reward.signed_with(system@.signature_on(reward.content_hash())),
                    )
                },
                Err(error) => {
                    &&& !is_pair_layout(system@.pair)
                    &&& *final(self) == *old(self)
                    &&& error@ == ErrorView::SignatureError("Invalid key pair"@)
                },
            },
            old(self)@.wf() ==> final(self)@.wf(),
    {
        match Transaction::reward(system, id, timestamp, miner_reward_address, self.mining_reward) {
            Ok(reward) => {
                self.pending_transactions.push(reward);
                proof {
                    assert(final(self)@.pending_transactions =~= old(
                        self,
                    )@.pending_transactions.push(reward@));
                }
                Ok(())
            },
            Err(error) => Err(error),
        }
    }

    /// Mines a block over the whole pool, stamped with `timestamp`, linked
    /// to the last block, at the ledger's difficulty; appends it to the chain
    /// and empties the pool.
    ///
    /// Fails, and leaves the ledger as it was, exactly when the chain is
    /// empty or no nonce gives the block a hash of the required difficulty.
    /// A sound ledger stays sound.
    pub fn seal_pending(&mut self, timestamp: u64) -> (result: Result<(), BlockchainError>)
        ensures
            match result {
                Ok(()) => {
                    let block = final(self)@.chain.last();
                    &&& old(self)@.chain.len() >= 1
                    &&& final(self)@ == old(self)@.with_block(block)
                    &&& block == old(self)@.next_block(timestamp as nat).sealed(block.nonce)
                    &&& block.first_solution(block.nonce, old(self)@.difficulty)
                    &&& block.is_mined(old(self)@.difficulty)
                    &&& is_digest_text(block.hash)
                },
                Err(error) => {
                    &&& final(self)@ == old(self)@
                    &&& if old(self)@.chain.len() == 0 {
                        error@ == ErrorView::ValidationError("Empty blockchain"@)
                    } else {
                        &&& old(self)@.next_block(timestamp as nat).unsolvable(
                            old(self)@.difficulty,
                        )
                        &&& error@ == ErrorView::MiningError("Nonce overflow"@)
                    }
                },
            },
            old(self)@.wf() ==> final(self)@.wf(),
    {
        let entries = clone_transactions(&self.pending_transactions);
        let previous_hash = match self.get_latest_block() {
            Ok(block) => block.hash.clone(),
            Err(error) => {
                return Err(error);
            },
        };
        let block = match Block::assemble(
            self.chain.len() as u64,
            timestamp,
            entries,
            previous_hash,
            self.difficulty,
        ) {
            Ok(block) => block,
            Err(error) => {
                return Err(error);
            },
        };
        self.chain.push(block);
        self.pending_transactions = Vec::new();
        proof {
            assert(final(self)@.chain =~= old(self)@.chain.push(block@));
            assert(final(self)@.pending_transactions =~= Seq::<TransactionView>::empty());
        }
        Ok(())
    }

    /// The last block of the chain, or a validation error when the chain is
    /// empty.
    pub fn get_latest_block(&self) -> (result: Result<&Block, BlockchainError>)
        ensures
            match result {
                Ok(block) => self.chain@.len() > 0 && *block == self.chain@.last(),
                Err(error) => {
                    &&& self.chain@.len() == 0
                    &&& error@ == ErrorView::ValidationError("Empty blockchain"@)
                },
            },
    {
        if self.chain.len() == 0 {
            Err(BlockchainError::ValidationError(String::from_str("Empty blockchain")))
        } else {
            Ok(&self.chain[self.chain.len() - 1])
        }
    }

    /// Validates the chain: for every block but the first, in order, that
    /// each entry is valid, that the stored hash is the hash of the block's
    /// fields, and that the block is linked to the stored hash of the one
    /// before. The first failure decides; the result says neither which it
    /// was nor where.
    pub fn is_chain_valid(&self) -> (result: Result<bool, BlockchainError>)
        ensures
            outcome(result) == chain_validity(self@.chain),
    {
        let mut i: usize = 1;
        while i < self.chain.len()
            invariant
                1 <= i,
                chain_validity(self@.chain) == chain_validity_from(self@.chain, i as int),
            decreases self.chain.len() - i,
        {
            let current = &self.chain[i];
            let previous = &self.chain[i - 1];
            let mut j: usize = 0;
            while j < current.transactions.len()
                invariant
                    j <= current.transactions.len(),
                    1 <= i < self.chain.len(),
                    self@.chain[i as int] == current@,
                    chain_validity(self@.chain) == chain_validity_from(self@.chain, i as int),
                    entries_validity(current@.transactions, 0) == entries_validity(
                        current@.transactions,
                        j as int,
                    ),
                decreases current.transactions.len() - j,
            {
                match current.transactions[j].is_valid() {
                    Ok(true) => {},
                    Ok(false) => {
                        return Ok(false);
                    },
                    Err(error) => {
                        return Err(error);
                    },
                }
                j += 1;
            }
            let hash = current.calculate_hash();
            if !same_text(current.hash.as_str(), hash.as_str()) {
                return Ok(false);
            }
            if !same_text(current.previous_hash.as_str(), previous.hash.as_str()) {
                return Ok(false);
            }
            i += 1;
        }
        Ok(true)
    }

    /// The balance of `address`: one pass over every entry of every block
    /// adds what the entry moves to the address and takes off what it moves
    /// away from it.
    ///
    /// Fails exactly when what is moved to the address, or away from it, is
    /// more in total than [`BALANCE_LIMIT`].
    pub fn get_balance(&self, address: &str) -> (result: Result<i128, BlockchainError>)
        ensures
            match result {
                Ok(amount) => {
                    &&& chain_credited(self@.chain, address@) <= BALANCE_LIMIT
                    &&& chain_debited(self@.chain, address@) <= BALANCE_LIMIT
                    &&& amount == balance(self@.chain, address@)
                },
                Err(error) => {
                    &&& chain_credited(self@.chain, address@) > BALANCE_LIMIT || chain_debited(
                        self@.chain,
                        address@,
                    ) > BALANCE_LIMIT
                    &&& error@ == ErrorView::TransactionError("Balance out of range"@)
                },
            },
    {
        let ghost chain = self@.chain;
        let mut credits: u128 = 0;
        let mut debits: u128 = 0;
        let mut i: usize = 0;
        while i < self.chain.len()
            invariant
                i <= self.chain.len(),
                chain == self@.chain,
                credits == chain_credited(chain.take(i as int), address@),
                debits == chain_debited(chain.take(i as int), address@),
                credits <= BALANCE_LIMIT,
                debits <= BALANCE_LIMIT,
            decreases self.chain.len() - i,
        {
            let block = &self.chain[i];
            let ghost entries = block@.transactions;
            let ghost before_credits = credits;
            let ghost before_debits = debits;
            proof {
                assert(chain.take(i + 1).drop_last() =~= chain.take(i as int));
                lemma_chain_moves_grow(chain, i + 1, address@);
            }
            let mut j: usize = 0;
            while j < block.transactions.len()
                invariant
                    j <= block.transactions.len(),
                    chain == self@.chain,
                    entries == block@.transactions,
                    credits == before_credits + credited(entries.take(j as int), address@),
                    debits == before_debits + debited(entries.take(j as int), address@),
                    credits <= BALANCE_LIMIT,
                    debits <= BALANCE_LIMIT,
                    before_credits + credited(entries, address@) <= chain_credited(
                        chain,
                        address@,
                    ),
                    before_debits + debited(entries, address@) <= chain_debited(chain, address@),
                decreases block.transactions.len() - j,
            {
                let entry = &block.transactions[j];
                proof {
                    assert(entries.take(j + 1).drop_last() =~= entries.take(j as int));
                    lemma_moves_grow(entries, j + 1, address@);
                }
                if same_text(entry.from.as_str(), address) {
                    if debits > BALANCE_LIMIT - entry.amount as u128 {
                        return Err(
                            BlockchainError::TransactionError(
                                String::from_str("Balance out of range"),
                            ),
                        );
                    }
                    debits += entry.amount as u128;
                }
                if same_text(entry.to.as_str(), address) {
                    if credits > BALANCE_LIMIT - entry.amount as u128 {
                        return Err(
                            BlockchainError::TransactionError(
                                String::from_str("Balance out of range"),
                            ),
                        );
                    }
                    credits += entry.amount as u128;
                }
                j += 1;
            }
            assert(entries.take(j as int) =~= entries);
            i += 1;
        }
        assert(chain.take(i as int) =~= chain);
        Ok(credits as i128 - debits as i128)
    }
}

} // verus!
