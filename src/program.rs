//! The on-chain program that issued a transfer instruction.
use vstd::prelude::*;

verus! {

/// A program, located by its position in one transaction's address space.
#[derive(Debug)]
pub struct Program {
    pub address: String,
    pub index: u8,
}

impl Clone for Program {
    fn clone(&self) -> (r: Self)
        ensures
            r == *self,
    {
        Program { address: self.address.clone(), index: self.index }
    }
}

impl Program {
    pub fn new(address: &str, index: u8) -> (r: Self)
        ensures
            r.address@ == address@,
            r.index == index,
    {
        Program { address: address.to_owned(), index }
    }
}

} // verus!
