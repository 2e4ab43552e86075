//! Signed value-transfer entries.

use vstd::prelude::*;
use vstd::string::*;

use crate::ambient::{fresh_identifier, unix_time};
use crate::codec::is_base58_text;
use crate::error::{outcome, BlockchainError, ErrorView};
use crate::hashing::{hash_text, is_digest_text, sha256_hex};
use crate::text::{decimal, push_decimal, same_text};
use crate::wallet::{is_pair_layout, verification, Wallet};

verus! {

/// A signed record that moves `amount` from one identifier to another.
#[derive(Debug)]
pub struct Transaction {
    /// Unique identifier of the entry.
    pub id: String,
    /// Public identifier of the sender, or the system sender for rewards.
    pub from: String,
    /// Public identifier of the recipient.
    pub to: String,
    /// The amount moved.
    pub amount: u64,
    /// The sender's signature over the content hash; absent before signing.
    pub signature: Option<String>,
    /// Creation time, in seconds since the Unix epoch.
    pub timestamp: u64,
}

/// The mathematical content of a [`Transaction`].
pub struct TransactionView {
    pub id: Seq<char>,
    pub from: Seq<char>,
    pub to: Seq<char>,
    pub amount: nat,
    pub signature: Option<Seq<char>>,
    pub timestamp: nat,
}

impl TransactionView {
    /// The text that identifies the entry's content: id, sender, recipient,
    /// amount and timestamp, in that order, with the numbers in decimal.
    pub open spec fn content(self) -> Seq<char> {
        self.id + self.from + self.to + decimal(self.amount) + decimal(self.timestamp)
    }

    /// The hash of the entry's content. This is what the sender signs.
    pub open spec fn content_hash(self) -> Seq<char> {
        hash_text(self.content())
    }

    /// Whether the entry is issued by the system, as mining rewards are.
    pub open spec fn is_system_issued(self) -> bool {
        self.from == system_sender()
    }

    /// The entry with its signature set to `signature`.
    pub open spec fn signed_with(self, signature: Seq<char>) -> TransactionView {
        TransactionView { signature: Some(signature), ..self }
    }

    /// What validating the entry gives. A system-issued entry is valid as it
    /// stands. Any other must carry a signature, and is valid exactly when
    /// the signature on its content hash verifies under its sender.
    pub open spec fn validity(self) -> Result<bool, ErrorView> {
        if self.is_system_issued() {
            Ok(true)
        } else {
            match self.signature {
                None => Err(ErrorView::ValidationError("No signature"@)),
                Some(signature) => verification(self.from, self.content_hash(), signature),
            }
        }
    }

    /// Whether validating the entry gives `true`.
    pub open spec fn is_valid(self) -> bool {
        self.validity() == Ok::<bool, ErrorView>(true)
    }
}

/// The sender that stands for the system itself.
pub open spec fn system_sender() -> Seq<char> {
    "0"@
}

impl View for Transaction {
    type V = TransactionView;

    open spec fn view(&self) -> TransactionView {
        TransactionView {
            id: self.id@,
            from: self.from@,
            to: self.to@,
            amount: self.amount as nat,
            signature: match self.signature {
                Some(s) => Some(s@),
                None => None,
            },
            timestamp: self.timestamp as nat,
        }
    }
}

impl DeepView for Transaction {
    type V = TransactionView;

    open spec fn deep_view(&self) -> TransactionView {
        self@
    }
}

impl Clone for Transaction {
    fn clone(&self) -> (copy: Self)
        ensures
            copy == *self,
    {
        Transaction {
            id: self.id.clone(),
            from: self.from.clone(),
            to: self.to.clone(),
            amount: self.amount,
            signature: match &self.signature {
                Some(s) => Some(s.clone()),
                None => None,
            },
            timestamp: self.timestamp,
        }
    }
}

impl Transaction {
    /// Makes an entry from `from_wallet` to `to_address` with a fresh
    /// identifier and the current time, signed by `from_wallet`.
    ///
    /// Fails when the clock reads a time before the Unix epoch, and when the
    /// key pair of `from_wallet` is broken. An entry made by a sound identity
    /// is valid.
    pub fn new(from_wallet: &Wallet, to_address: String, amount: u64) -> (result: Result<
        Transaction,
        BlockchainError,
    >)
        ensures
            match result {
                Ok(entry) => {
                    &&& is_pair_layout(from_wallet@.pair)
                    &&& entry@.from == from_wallet@.public_key
                    &&& entry@.to == to_address@
                    &&& entry@.amount == amount
                    &&& entry@.signature == Some(from_wallet@.signature_on(entry@.content_hash()))
                    &&& from_wallet@.wf() ==> entry@.is_valid()
                },
                Err(error) => {
                    ||| error@ == ErrorView::TransactionError(
                        "System clock is before the Unix epoch"@,
                    )
                    ||| !is_pair_layout(from_wallet@.pair) && error@ == ErrorView::SignatureError(
                        "Invalid key pair"@,
                    )
                },
            },
    {
        let id = fresh_identifier();
        match unix_time() {
            Some(timestamp) => Transaction::assemble(
                id,
                timestamp,
                from_wallet,
                to_address,
                amount,
            ),
            None => Err(
                BlockchainError::TransactionError(
                    String::from_str("System clock is before the Unix epoch"),
                ),
            ),
        }
    }

    /// Makes the entry with the given identifier and creation time from
    /// `from_wallet` to `to_address`, signed by `from_wallet`.
    ///
    /// Fails exactly when the key pair of `from_wallet` is broken. An entry
    /// made by a sound identity is valid.
    pub fn assemble(
        id: String,
        timestamp: u64,
        from_wallet: &Wallet,
        to_address: String,
        amount: u64,
    ) -> (result: Result<Transaction, BlockchainError>)
        ensures
            match result {
                Ok(entry) => {
                    &&& is_pair_layout(from_wallet@.pair)
                    &&& entry@ == unsigned(
                        id@,
                        from_wallet@.public_key,
                        to_address@,
                        amount as nat,
                        timestamp as nat,
                    ).signed_with(
                        from_wallet@.signature_on(
                            unsigned(
                                id@,
                                from_wallet@.public_key,
                                to_address@,
                                amount as nat,
                                timestamp as nat,
                            ).content_hash(),
                        ),
                    )
                    &&& from_wallet@.wf() ==> entry@.is_valid()
                },
                Err(error) => {
                    &&& !is_pair_layout(from_wallet@.pair)
                    &&& error@ == ErrorView::SignatureError("Invalid key pair"@)
                },
            },
    {
        let mut entry = Transaction {
            id,
            from: from_wallet.public_identifier().clone(),
            to: to_address,
            amount,
            signature: None,
            timestamp,
        };
        match entry.sign(from_wallet) {
            Ok(()) => Ok(entry),
            Err(error) => Err(error),
        }
    }

    /// Makes the system-issued entry with the given identifier and creation
    /// time that moves `amount` to `to_address`, signed by `system`, an
    /// identity made for the occasion. Only the ledger issues such entries.
    ///
    /// Fails exactly when the key pair of `system` is broken.
    pub(crate) fn reward(
        system: &Wallet,
        id: String,
        timestamp: u64,
        to_address: String,
        amount: u64,
    ) -> (result: Result<Transaction, BlockchainError>)
        ensures
            match result {
                Ok(entry) => {
                    &&& is_pair_layout(system@.pair)
                    &&& entry@ == reward_entry(
                        id@,
                        to_address@,
                        amount as nat,
                        timestamp as nat,
                    ).signed_with(
                        system@.signature_on(
                            reward_entry(
                                id@,
                                to_address@,
                                amount as nat,
                                timestamp as nat,
                            ).content_hash(),
                        ),
                    )
                    &&& entry@.is_valid()
                },
                Err(error) => {
                    &&& !is_pair_layout(system@.pair)
                    &&& error@ == ErrorView::SignatureError("Invalid key pair"@)
                },
            },
    {
        let mut entry = Transaction {
            id,
            from: String::from_str("0"),
            to: to_address,
            amount,
            signature: None,
            timestamp,
        };
        let hash = entry.calculate_hash();
        match system.sign(hash.as_str()) {
            Ok(signature) => {
                entry.signature = Some(signature);
                Ok(entry)
            },
            Err(error) => Err(error),
        }
    }

    /// Hashes the entry's content to 64 lower-case hexadecimal digits. The
    /// hash is computed afresh on every call.
    pub fn calculate_hash(&self) -> (hash: String)
        ensures
            hash@ == self@.content_hash(),
            is_digest_text(hash@),
    {
        let mut content = String::new();
        content.append(self.id.as_str());
        content.append(self.from.as_str());
        content.append(self.to.as_str());
        push_decimal(&mut content, self.amount);
        push_decimal(&mut content, self.timestamp);
        sha256_hex(content.as_str())
    }

    /// Signs the entry with `wallet`, which must be its sender.
    ///
    /// Fails, and leaves the entry as it was, when `wallet` is not the sender
    /// and when the key pair of `wallet` is broken. An entry signed by a
    /// sound identity is valid.
    pub fn sign(&mut self, wallet: &Wallet) -> (result: Result<(), BlockchainError>)
        ensures
            match result {
                Ok(()) => {
                    &&& wallet@.public_key == old(self)@.from
                    &&& is_pair_layout(wallet@.pair)
                    &&& final(self)@ == old(self)@.signed_with(
                        wallet@.signature_on(old(self)@.content_hash()),
                    )
                    &&& wallet@.wf() ==> final(self)@.is_valid()
                },
                Err(error) => {
                    &&& *final(self) == *old(self)
                    &&& if wallet@.public_key != old(self)@.from {
                        error@ == ErrorView::SignatureError(
                            "Cannot sign transaction for other wallets"@,
                        )
                    } else {
                        &&& !is_pair_layout(wallet@.pair)
                        &&& error@ == ErrorView::SignatureError("Invalid key pair"@)
                    }
                },
            },
    {
        if !same_text(wallet.public_identifier().as_str(), self.from.as_str()) {
            return Err(
                BlockchainError::SignatureError(
                    String::from_str("Cannot sign transaction for other wallets"),
                ),
            );
        }
        let hash = self.calculate_hash();
        match wallet.sign(hash.as_str()) {
            Ok(signature) => {
                self.signature = Some(signature);
                Ok(())
            },
            Err(error) => Err(error),
        }
    }

    /// Validates the entry on its own, whatever the state of any chain.
    pub fn is_valid(&self) -> (result: Result<bool, BlockchainError>)
        ensures
            outcome(result) == self@.validity(),
    {
        if same_text(self.from.as_str(), "0") {
            return Ok(true);
        }
        match &self.signature {
            None => Err(BlockchainError::ValidationError(String::from_str("No signature"))),
            Some(signature) => {
                let hash = self.calculate_hash();
                Wallet::verify(self.from.as_str(), hash.as_str(), signature.as_str())
            },
        }
    }
}

/// No base-58 text is the system sender, so no identifier of a sound
/// identity is: `0` is no digit of base 58.
pub proof fn lemma_base58_text_is_not_system_sender(text: Seq<char>)
    requires
        is_base58_text(text),
    ensures
        text != system_sender(),
{
    reveal_strlit("0");
    if text == system_sender() {
        assert(text[0] == '0');
    }
}

/// The system-issued entry with the given identifier and creation time that
/// moves `amount` to `recipient`, before it is signed.
pub open spec fn reward_entry(id: Seq<char>, recipient: Seq<char>, amount: nat, timestamp: nat)
    -> TransactionView {
    unsigned(id, system_sender(), recipient, amount, timestamp)
}

/// The entry with the given content and no signature.
pub open spec fn unsigned(
    id: Seq<char>,
    from: Seq<char>,
    to: Seq<char>,
    amount: nat,
    timestamp: nat,
) -> TransactionView {
    TransactionView { id, from, to, amount, signature: None, timestamp }
}

} // verus!
