//! Balances: what the entries of a chain move to and from an address, and
//! the laws that the sums obey.

use vstd::prelude::*;

use crate::block::BlockView;
use crate::transaction::TransactionView;

verus! {

/// The greatest total that a balance is computed from.
pub const BALANCE_LIMIT: u128 = 0x7fff_ffff_ffff_ffff_ffff_ffff_ffff_ffff;

/// What `entries` move to `address`.
pub open spec fn credited(entries: Seq<TransactionView>, address: Seq<char>) -> nat
    decreases entries.len(),
{
    if entries.len() == 0 {
        0
    } else {
        credited(entries.drop_last(), address) + if entries.last().to == address {
            entries.last().amount
        } else {
            0
        }
    }
}

/// What `entries` move away from `address`.
pub open spec fn debited(entries: Seq<TransactionView>, address: Seq<char>) -> nat
    decreases entries.len(),
{
    if entries.len() == 0 {
        0
    } else {
        debited(entries.drop_last(), address) + if entries.last().from == address {
            entries.last().amount
        } else {
            0
        }
    }
}

/// What the entries of all blocks of `chain` move to `address`.
pub open spec fn chain_credited(chain: Seq<BlockView>, address: Seq<char>) -> nat
    decreases chain.len(),
{
    if chain.len() == 0 {
        0
    } else {
        chain_credited(chain.drop_last(), address) + credited(chain.last().transactions, address)
    }
}

/// What the entries of all blocks of `chain` move away from `address`.
pub open spec fn chain_debited(chain: Seq<BlockView>, address: Seq<char>) -> nat
    decreases chain.len(),
{
    if chain.len() == 0 {
        0
    } else {
        chain_debited(chain.drop_last(), address) + debited(chain.last().transactions, address)
    }
}

/// The balance of `address` over `chain`: all that the entries of the chain
/// move to it, less all that they move away from it.
pub open spec fn balance(chain: Seq<BlockView>, address: Seq<char>) -> int {
    chain_credited(chain, address) - chain_debited(chain, address)
}

/// What the first `count` of `entries` move to an address, and away from it,
/// is no more than what all of them move.
pub proof fn lemma_moves_grow(entries: Seq<TransactionView>, count: int, address: Seq<char>)
    requires
        0 <= count <= entries.len(),
    ensures
        credited(entries.take(count), address) <= credited(entries, address),
        debited(entries.take(count), address) <= debited(entries, address),
    decreases entries.len(),
{
    if count == entries.len() {
        assert(entries.take(count) =~= entries);
    } else {
        lemma_moves_grow(entries.drop_last(), count, address);
        assert(entries.drop_last().take(count) =~= entries.take(count));
    }
}

/// What the first `count` blocks of `chain` move to an address, and away
/// from it, is no more than what all of them move.
pub proof fn lemma_chain_moves_grow(chain: Seq<BlockView>, count: int, address: Seq<char>)
    requires
        0 <= count <= chain.len(),
    ensures
        chain_credited(chain.take(count), address) <= chain_credited(chain, address),
        chain_debited(chain.take(count), address) <= chain_debited(chain, address),
    decreases chain.len(),
{
    if count == chain.len() {
        assert(chain.take(count) =~= chain);
    } else {
        lemma_chain_moves_grow(chain.drop_last(), count, address);
        assert(chain.drop_last().take(count) =~= chain.take(count));
    }
}

/// What `entries` move to `address`, less what they move away from it.
pub open spec fn net(entries: Seq<TransactionView>, address: Seq<char>) -> int {
    credited(entries, address) - debited(entries, address)
}

/// The sum of what `entries` move, on balance, to each of `addresses`.
pub open spec fn total_net(entries: Seq<TransactionView>, addresses: Seq<Seq<char>>) -> int
    decreases addresses.len(),
{
    if addresses.len() == 0 {
        0
    } else {
        total_net(entries, addresses.drop_last()) + net(entries, addresses.last())
    }
}

/// The sum of the balances of `addresses` over `chain`.
pub open spec fn total_balance(chain: Seq<BlockView>, addresses: Seq<Seq<char>>) -> int
    decreases addresses.len(),
{
    if addresses.len() == 0 {
        0
    } else {
        total_balance(chain, addresses.drop_last()) + balance(chain, addresses.last())
    }
}

/// What `entries` bring into the circle of `addresses` from outside it, less
/// what they take out of it.
pub open spec fn net_inflow(entries: Seq<TransactionView>, addresses: Seq<Seq<char>>) -> int
    decreases entries.len(),
{
    if entries.len() == 0 {
        0
    } else {
        let entry = entries.last();
        net_inflow(entries.drop_last(), addresses) + if addresses.contains(entry.to) {
            entry.amount as int
        } else {
            0
        } - if addresses.contains(entry.from) {
            entry.amount as int
        } else {
            0
        }
    }
}

/// Whether every sender and recipient of `entries` is among `addresses`.
pub open spec fn is_closed(entries: Seq<TransactionView>, addresses: Seq<Seq<char>>) -> bool {
    forall|j: int|
        0 <= j < entries.len() ==> addresses.contains((#[trigger] entries[j]).from)
            && addresses.contains(entries[j].to)
}

/// Whether every sender and recipient of every entry of `chain` is among
/// `addresses`.
pub open spec fn chain_is_closed(chain: Seq<BlockView>, addresses: Seq<Seq<char>>) -> bool {
    forall|i: int| 0 <= i < chain.len() ==> is_closed((#[trigger] chain[i]).transactions, addresses)
}

/// One more entry adds its own share to the sum over a list of addresses.
pub proof fn lemma_total_net_of_push(
    entries: Seq<TransactionView>,
    entry: TransactionView,
    addresses: Seq<Seq<char>>,
)
    ensures
        total_net(entries.push(entry), addresses) == total_net(entries, addresses) + total_net(
            seq![entry],
            addresses,
        ),
    decreases addresses.len(),
{
    if addresses.len() > 0 {
        lemma_total_net_of_push(entries, entry, addresses.drop_last());
        let address = addresses.last();
        let none = seq![entry].drop_last();
        assert(entries.push(entry).drop_last() =~= entries);
        assert(credited(none, address) == 0);
        assert(debited(none, address) == 0);
    }
}

/// An address is among distinct addresses exactly when it is the last of
/// them or among the others, and never both.
proof fn lemma_last_or_among_rest(addresses: Seq<Seq<char>>, address: Seq<char>)
    requires
        addresses.len() > 0,
        addresses.no_duplicates(),
    ensures
        addresses.drop_last().no_duplicates(),
        addresses.contains(address) <==> addresses.drop_last().contains(address) || address
            == addresses.last(),
        !addresses.drop_last().contains(addresses.last()),
{
    let rest = addresses.drop_last();
    if addresses.contains(address) {
        let k = choose|k: int| 0 <= k < addresses.len() && addresses[k] == address;
        if k < rest.len() {
            assert(rest[k] == address);
        }
    }
    if rest.contains(address) {
        let k = choose|k: int| 0 <= k < rest.len() && rest[k] == address;
        assert(addresses[k] == address);
    }
    if rest.contains(addresses.last()) {
        let k = choose|k: int| 0 <= k < rest.len() && rest[k] == addresses.last();
        assert(addresses[k] == addresses[addresses.len() - 1]);
    }
}

/// Over distinct addresses, the share of one entry is its amount if the
/// recipient is among them, less its amount if the sender is.
pub proof fn lemma_total_net_of_one(entry: TransactionView, addresses: Seq<Seq<char>>)
    requires
        addresses.no_duplicates(),
    ensures
        total_net(seq![entry], addresses) == net_inflow(seq![entry], addresses),
    decreases addresses.len(),
{
    let none = seq![entry].drop_last();
    assert(net_inflow(none, addresses) == 0);
    if addresses.len() > 0 {
        let rest = addresses.drop_last();
        lemma_last_or_among_rest(addresses, entry.to);
        lemma_last_or_among_rest(addresses, entry.from);
        lemma_total_net_of_one(entry, rest);
        assert(net_inflow(none, rest) == 0);
        assert(credited(none, addresses.last()) == 0);
        assert(debited(none, addresses.last()) == 0);
    }
}

/// The balances of distinct addresses sum to what is brought into their
/// circle from outside it, less what is taken out of it.
pub proof fn lemma_total_net_is_inflow(entries: Seq<TransactionView>, addresses: Seq<Seq<char>>)
    requires
        addresses.no_duplicates(),
    ensures
        total_net(entries, addresses) == net_inflow(entries, addresses),
    decreases entries.len(),
{
    if entries.len() == 0 {
        assert(entries =~= Seq::<TransactionView>::empty());
        lemma_total_net_of_none(addresses);
    } else {
        let rest = entries.drop_last();
        let entry = entries.last();
        lemma_total_net_is_inflow(rest, addresses);
        assert(rest.push(entry) =~= entries);
        lemma_total_net_of_push(rest, entry, addresses);
        lemma_total_net_of_one(entry, addresses);
        assert(net_inflow(seq![entry].drop_last(), addresses) == 0);
    }
}

/// No entries move nothing.
pub proof fn lemma_total_net_of_none(addresses: Seq<Seq<char>>)
    ensures
        total_net(Seq::<TransactionView>::empty(), addresses) == 0,
    decreases addresses.len(),
{
    if addresses.len() > 0 {
        lemma_total_net_of_none(addresses.drop_last());
    }
}

/// Entries among a closed circle bring nothing in and take nothing out.
pub proof fn lemma_closed_inflow_is_zero(entries: Seq<TransactionView>, addresses: Seq<Seq<char>>)
    requires
        is_closed(entries, addresses),
    ensures
        net_inflow(entries, addresses) == 0,
    decreases entries.len(),
{
    if entries.len() > 0 {
        lemma_closed_inflow_is_zero(entries.drop_last(), addresses);
    }
}

/// One more block adds, for every address, what its entries move on balance.
pub proof fn lemma_balance_of_push(chain: Seq<BlockView>, block: BlockView, address: Seq<char>)
    ensures
        balance(chain.push(block), address) == balance(chain, address) + net(
            block.transactions,
            address,
        ),
{
    assert(chain.push(block).drop_last() =~= chain);
}

/// One more block adds to the sum of balances what its entries move, on
/// balance, to the addresses.
pub proof fn lemma_total_balance_of_push(
    chain: Seq<BlockView>,
    block: BlockView,
    addresses: Seq<Seq<char>>,
)
    ensures
        total_balance(chain.push(block), addresses) == total_balance(chain, addresses)
            + total_net(block.transactions, addresses),
    decreases addresses.len(),
{
    if addresses.len() > 0 {
        lemma_total_balance_of_push(chain, block, addresses.drop_last());
        lemma_balance_of_push(chain, block, addresses.last());
    }
}

/// An empty chain gives every address the balance 0.
pub proof fn lemma_total_balance_of_none(addresses: Seq<Seq<char>>)
    ensures
        total_balance(Seq::<BlockView>::empty(), addresses) == 0,
    decreases addresses.len(),
{
    if addresses.len() > 0 {
        lemma_total_balance_of_none(addresses.drop_last());
    }
}

/// Value is conserved: over any chain, the balances of distinct addresses
/// that include every sender and every recipient sum to 0. The system sender
/// counts as one of them wherever the chain holds a reward; without rewards
/// the participants' balances sum to 0 among themselves.
pub proof fn lemma_value_is_conserved(chain: Seq<BlockView>, addresses: Seq<Seq<char>>)
    requires
        addresses.no_duplicates(),
        chain_is_closed(chain, addresses),
    ensures
        total_balance(chain, addresses) == 0,
    decreases chain.len(),
{
    if chain.len() == 0 {
        assert(chain =~= Seq::<BlockView>::empty());
        lemma_total_balance_of_none(addresses);
    } else {
        let rest = chain.drop_last();
        let block = chain.last();
        lemma_value_is_conserved(rest, addresses);
        assert(rest.push(block) =~= chain);
        lemma_total_balance_of_push(rest, block, addresses);
        lemma_total_net_is_inflow(block.transactions, addresses);
        lemma_closed_inflow_is_zero(block.transactions, addresses);
    }
}

} // verus!
