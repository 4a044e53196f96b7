//! A transfer event: who sent how much of the token to whom.
use vstd::prelude::*;
use crate::account::Account;
use crate::program::Program;

verus! {

/// One inbound transfer of the tracked token.
#[derive(Debug)]
pub struct Transaction {
    pub signature: String,
    pub source: Account,
    pub destination: Account,
    pub program: Program,
    pub token: String,
}

impl Clone for Transaction {
    fn clone(&self) -> (r: Self)
        ensures
            r == *self,
    {
        Transaction {
            signature: self.signature.clone(),
            source: self.source.clone(),
            destination: self.destination.clone(),
            program: self.program.clone(),
            token: self.token.clone(),
        }
    }
}

impl Transaction {
    /// What the destination gained: its post-balance less its pre-balance.
    pub open spec fn spec_amount(&self) -> int {
        self.destination.post_balance - self.destination.pre_balance
    }

    pub fn new(
        signature: String,
        source: Account,
        destination: Account,
        program: Program,
        token: String,
    ) -> (r: Self)
        ensures
            r == (Transaction { signature, source, destination, program, token }),
    {
        Transaction { signature, source, destination, program, token }
    }

    /// The amount transferred, in base units; negative where the destination lost.
    pub fn amount(&self) -> (r: i128)
        ensures
            r == self.spec_amount(),
    {
        self.destination.post_balance as i128 - self.destination.pre_balance as i128
    }
}

} // verus!
