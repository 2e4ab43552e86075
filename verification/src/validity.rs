//! What validating a chain gives, and the laws that tie the result to the
//! state of the chain.

use vstd::prelude::*;

use crate::block::BlockView;
use crate::error::ErrorView;
use crate::transaction::TransactionView;

verus! {

/// Whether every one of `entries` is valid.
pub open spec fn all_valid(entries: Seq<TransactionView>) -> bool {
    forall|j: int| 0 <= j < entries.len() ==> (#[trigger] entries[j]).is_valid()
}

/// What validating `entries` from position `start` on gives: `true` when all
/// of them are valid, and otherwise what the first one that is not gives.
pub open spec fn entries_validity(entries: Seq<TransactionView>, start: int) -> Result<
    bool,
    ErrorView,
>
    decreases entries.len() - start,
{
    if start < 0 || start >= entries.len() {
        Ok(true)
    } else if entries[start].is_valid() {
        entries_validity(entries, start + 1)
    } else {
        entries[start].validity()
    }
}

/// What validating the block at `position` against the one before it gives:
/// what its entries give if they are not all valid, and otherwise whether its
/// stored hash is the hash of its fields and its link is the stored hash of
/// the block before.
pub open spec fn link_validity(chain: Seq<BlockView>, position: int) -> Result<bool, ErrorView> {
    let block = chain[position];
    if entries_validity(block.transactions, 0) == Ok::<bool, ErrorView>(true) {
        Ok(
            block.hash == block.computed_hash() && block.previous_hash == chain[position
                - 1].hash,
        )
    } else {
        entries_validity(block.transactions, 0)
    }
}

/// What validating the blocks from `position` on gives: `true` when every
/// one of them passes, and otherwise what the first one that does not gives.
pub open spec fn chain_validity_from(chain: Seq<BlockView>, position: int) -> Result<
    bool,
    ErrorView,
>
    decreases chain.len() - position,
{
    if position < 1 || position >= chain.len() {
        Ok(true)
    } else if link_validity(chain, position) == Ok::<bool, ErrorView>(true) {
        chain_validity_from(chain, position + 1)
    } else {
        link_validity(chain, position)
    }
}

/// What validating a chain gives. Every block but the genesis block is
/// validated, in order, and the first failure decides.
pub open spec fn chain_validity(chain: Seq<BlockView>) -> Result<bool, ErrorView> {
    chain_validity_from(chain, 1)
}

/// Whether every block of `chain` but the first holds only valid entries,
/// stores the hash of its fields and is linked to the stored hash of the
/// block before it.
pub open spec fn links_hold(chain: Seq<BlockView>) -> bool {
    forall|i: int| 1 <= i < chain.len() ==> #[trigger] link_holds(chain, i)
}

/// Whether the block at `position` holds only valid entries, stores the hash
/// of its fields and is linked to the stored hash of the block before it.
pub open spec fn link_holds(chain: Seq<BlockView>, position: int) -> bool {
    &&& all_valid(chain[position].transactions)
    &&& chain[position].hash == chain[position].computed_hash()
    &&& chain[position].previous_hash == chain[position - 1].hash
}

/// `chain` with the stored hash of the block at `position` replaced.
pub open spec fn with_forged_hash(chain: Seq<BlockView>, position: int, forged: Seq<char>) -> Seq<
    BlockView,
> {
    chain.update(position, BlockView { hash: forged, ..chain[position] })
}

/// `chain` with the link of the block at `position` replaced.
pub open spec fn with_forged_link(chain: Seq<BlockView>, position: int, forged: Seq<char>) -> Seq<
    BlockView,
> {
    chain.update(position, BlockView { previous_hash: forged, ..chain[position] })
}

/// Validating entries gives `true` exactly when all of them, from the
/// starting position on, are valid.
pub proof fn lemma_entries_validity(entries: Seq<TransactionView>, start: int)
    requires
        0 <= start,
    ensures
        entries_validity(entries, start) == Ok::<bool, ErrorView>(true) <==> forall|j: int|
            start <= j < entries.len() ==> (#[trigger] entries[j]).is_valid(),
    decreases entries.len() - start,
{
    if start < entries.len() {
        lemma_entries_validity(entries, start + 1);
    }
}

/// Validating one block gives `true` exactly when the block holds only valid
/// entries, stores the hash of its fields and is linked to the block before.
pub proof fn lemma_link_validity(chain: Seq<BlockView>, position: int)
    ensures
        link_validity(chain, position) == Ok::<bool, ErrorView>(true) <==> link_holds(
            chain,
            position,
        ),
{
    lemma_entries_validity(chain[position].transactions, 0);
}

/// Validating the blocks from a position on gives `true` exactly when every
/// one of them passes.
pub proof fn lemma_chain_validity_from(chain: Seq<BlockView>, position: int)
    requires
        1 <= position,
    ensures
        chain_validity_from(chain, position) == Ok::<bool, ErrorView>(true) <==> forall|i: int|
            position <= i < chain.len() ==> #[trigger] link_holds(chain, i),
    decreases chain.len() - position,
{
    if position < chain.len() {
        lemma_chain_validity_from(chain, position + 1);
        lemma_link_validity(chain, position);
    }
}

/// A chain is valid exactly when every block but the first holds only valid
/// entries, stores the hash of its fields and is linked to the stored hash
/// of the block before it.
pub proof fn lemma_valid_iff_links_hold(chain: Seq<BlockView>)
    ensures
        chain_validity(chain) == Ok::<bool, ErrorView>(true) <==> links_hold(chain),
{
    lemma_chain_validity_from(chain, 1);
}

/// Where every block before `position` passes, validating the chain gives
/// what the block at `position` gives, if that is not `true`.
pub proof fn lemma_first_failure_decides(chain: Seq<BlockView>, start: int, position: int)
    requires
        1 <= start <= position < chain.len(),
        forall|i: int| start <= i < position ==> #[trigger] link_holds(chain, i),
        !link_holds(chain, position),
    ensures
        chain_validity_from(chain, start) == link_validity(chain, position),
    decreases position - start,
{
    lemma_link_validity(chain, start);
    if start < position {
        lemma_first_failure_decides(chain, start + 1, position);
    }
}

/// A stored hash that is changed after mining is caught: a valid chain is
/// found not valid once the stored hash of any block but the first is
/// replaced by another.
pub proof fn lemma_forged_hash_is_caught(chain: Seq<BlockView>, position: int, forged: Seq<char>)
    requires
        chain_validity(chain) == Ok::<bool, ErrorView>(true),
        1 <= position < chain.len(),
        forged != chain[position].hash,
    ensures
        chain_validity(with_forged_hash(chain, position, forged)) == Ok::<bool, ErrorView>(false),
{
    let forgery = with_forged_hash(chain, position, forged);
    lemma_valid_iff_links_hold(chain);
    assert(link_holds(chain, position));
    assert forall|i: int| 1 <= i < position implies #[trigger] link_holds(forgery, i) by {
        assert(link_holds(chain, i));
    }
    lemma_first_failure_decides(forgery, 1, position);
    lemma_entries_validity(forgery[position].transactions, 0);
}

/// A link that is changed after mining is caught: a valid chain is found
/// not valid once the link of any block but the first is replaced by
/// another.
pub proof fn lemma_forged_link_is_caught(chain: Seq<BlockView>, position: int, forged: Seq<char>)
    requires
        chain_validity(chain) == Ok::<bool, ErrorView>(true),
        1 <= position < chain.len(),
        forged != chain[position].previous_hash,
    ensures
        chain_validity(with_forged_link(chain, position, forged)) == Ok::<bool, ErrorView>(false),
{
    let forgery = with_forged_link(chain, position, forged);
    lemma_valid_iff_links_hold(chain);
    assert(link_holds(chain, position));
    assert forall|i: int| 1 <= i < position implies #[trigger] link_holds(forgery, i) by {
        assert(link_holds(chain, i));
    }
    lemma_first_failure_decides(forgery, 1, position);
    lemma_entries_validity(forgery[position].transactions, 0);
}

/// An entry that is no longer valid is caught: no chain is valid while any
/// block but the first holds an entry that is not valid.
pub proof fn lemma_invalid_entry_is_caught(chain: Seq<BlockView>, position: int, entry: int)
    requires
        1 <= position < chain.len(),
        0 <= entry < chain[position].transactions.len(),
        !chain[position].transactions[entry].is_valid(),
    ensures
        chain_validity(chain) != Ok::<bool, ErrorView>(true),
{
    lemma_valid_iff_links_hold(chain);
    if links_hold(chain) {
        assert(link_holds(chain, position));
    }
}

/// `chain` with the entry at place `entry` of the block at `position`
/// replaced.
pub open spec fn with_changed_entry(
    chain: Seq<BlockView>,
    position: int,
    entry: int,
    changed: TransactionView,
) -> Seq<BlockView> {
    chain.update(
        position,
        BlockView {
            transactions: chain[position].transactions.update(entry, changed),
            ..chain[position]
        },
    )
}

/// Where every entry before `position` is valid, validating the entries
/// gives what the entry at `position` gives, if that is not `true`.
pub proof fn lemma_first_invalid_entry_decides(
    entries: Seq<TransactionView>,
    start: int,
    position: int,
)
    requires
        0 <= start <= position < entries.len(),
        forall|j: int| start <= j < position ==> (#[trigger] entries[j]).is_valid(),
        !entries[position].is_valid(),
    ensures
        entries_validity(entries, start) == entries[position].validity(),
    decreases position - start,
{
    if start < position {
        lemma_first_invalid_entry_decides(entries, start + 1, position);
    }
}

/// A header that is changed after mining is caught wherever the change
/// shows in the hash: a valid chain is found not valid once any block but
/// the first is replaced by one that keeps the stored hash and holds valid
/// entries, but whose fields give another hash. This is so for the last
/// block too.
pub proof fn lemma_changed_header_is_caught(
    chain: Seq<BlockView>,
    position: int,
    changed: BlockView,
)
    requires
        chain_validity(chain) == Ok::<bool, ErrorView>(true),
        1 <= position < chain.len(),
        all_valid(changed.transactions),
        changed.hash == chain[position].hash,
        changed.computed_hash() != chain[position].computed_hash(),
    ensures
        chain_validity(chain.update(position, changed)) == Ok::<bool, ErrorView>(false),
{
    let forgery = chain.update(position, changed);
    lemma_valid_iff_links_hold(chain);
    assert(link_holds(chain, position));
    assert forall|i: int| 1 <= i < position implies #[trigger] link_holds(forgery, i) by {
        assert(link_holds(chain, i));
    }
    lemma_first_failure_decides(forgery, 1, position);
    lemma_entries_validity(changed.transactions, 0);
}

/// An entry that is changed after mining is caught wherever its own
/// validation then gives `false`: a valid chain is found not valid once such
/// an entry stands in any block but the first.
pub proof fn lemma_changed_entry_is_caught(
    chain: Seq<BlockView>,
    position: int,
    entry: int,
    changed: TransactionView,
)
    requires
        chain_validity(chain) == Ok::<bool, ErrorView>(true),
        1 <= position < chain.len(),
        0 <= entry < chain[position].transactions.len(),
        changed.validity() == Ok::<bool, ErrorView>(false),
    ensures
        chain_validity(with_changed_entry(chain, position, entry, changed)) == Ok::<
            bool,
            ErrorView,
        >(false),
{
    let forgery = with_changed_entry(chain, position, entry, changed);
    let entries = forgery[position].transactions;
    lemma_valid_iff_links_hold(chain);
    assert(link_holds(chain, position));
    assert forall|i: int| 1 <= i < position implies #[trigger] link_holds(forgery, i) by {
        assert(link_holds(chain, i));
    }
    assert forall|j: int| 0 <= j < entry implies (#[trigger] entries[j]).is_valid() by {
        assert(chain[position].transactions[j].is_valid());
    }
    lemma_first_invalid_entry_decides(entries, 0, entry);
    lemma_entries_validity(entries, 0);
    lemma_first_failure_decides(forgery, 1, position);
}

} // verus!
