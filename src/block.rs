//! A block and the transfer events found in it.
use vstd::prelude::*;
use crate::transaction::Transaction;

verus! {

/// The transfer events of one slot, in the order their transactions stand
/// in the block.
#[derive(Debug)]
pub struct Block {
    pub slot: u64,
    pub blockhash: String,
    pub transactions: Vec<Transaction>,
}

impl Block {
    /// An empty block.
    pub fn new(slot: u64, blockhash: String) -> (r: Self)
        ensures
            r.slot == slot,
            r.blockhash == blockhash,
            r.transactions@ == Seq::<Transaction>::empty(),
    {
        Block { slot, blockhash, transactions: Vec::new() }
    }

    /// Appends an event whose amount is strictly positive; any other is
    /// dropped.
    pub fn add_transaction(&mut self, transaction: Transaction)
        ensures
            final(self).slot == old(self).slot,
            final(self).blockhash == old(self).blockhash,
            final(self).transactions@ == if transaction.spec_amount() > 0 {
                old(self).transactions@.push(transaction)
            } else {
                old(self).transactions@
            },
    {
        if transaction.amount() > 0 {
            self.transactions.push(transaction);
        }
    }
}

} // verus!
