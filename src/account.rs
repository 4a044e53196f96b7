//! A token-balance-bearing account within one transaction.
use vstd::prelude::*;

verus! {

/// One account of a transaction that holds the tracked token.
///
/// `index` is the account's position in that transaction's address space and
/// means nothing outside it. Balances are in the token's base units.
#[derive(Debug)]
pub struct Account {
    pub address: String,
    pub index: u8,
    pub pre_balance: u64,
    pub post_balance: u64,
}

impl Clone for Account {
    fn clone(&self) -> (r: Self)
        ensures
            r == *self,
    {
        Account {
            address: self.address.clone(),
            index: self.index,
            pre_balance: self.pre_balance,
            post_balance: self.post_balance,
        }
    }
}

impl Account {
    /// A new account whose post-balance starts equal to its pre-balance.
    pub fn new(address: &str, index: u8, pre_balance: u64) -> (r: Self)
        ensures
            r.address@ == address@,
            r.index == index,
            r.pre_balance == pre_balance,
            r.post_balance == pre_balance,
    {
        Account { address: address.to_owned(), index, pre_balance, post_balance: pre_balance }
    }

    /// Records the balance the account holds after the transaction.
    pub fn update_post_balance(&mut self, post_balance: u64)
        ensures
            *final(self) == (Account { post_balance, ..*old(self) }),
    {
        self.post_balance = post_balance;
    }
}

} // verus!
