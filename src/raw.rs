//! The raw block format as the remote node reports it: the parts of each
//! transaction that extraction reads, several of them optional.
use vstd::prelude::*;

verus! {

/// One entry of a transaction's pre- or post-token-balance list.
///
/// `amount` is the raw amount text: a decimal number of base units.
pub struct TokenBalance {
    pub account_index: u8,
    pub mint: String,
    pub owner: Option<String>,
    pub program_id: Option<String>,
    pub amount: String,
}

/// An instruction in compiled form: the program and the accounts it reads,
/// each as a position in the transaction's address space.
pub struct CompiledInstruction {
    pub program_id_index: u8,
    pub accounts: Vec<u8>,
}

/// An instruction run as a side effect of a top-level one; only the compiled
/// form carries the positions that extraction needs.
pub enum InnerInstruction {
    Compiled(CompiledInstruction),
    Parsed,
}

/// The inner instructions that one top-level instruction gave rise to.
pub struct InnerInstructions {
    pub index: u8,
    pub instructions: Vec<InnerInstruction>,
}

/// Addresses loaded from lookup tables, after the static account keys.
pub struct LoadedAddresses {
    pub writable: Vec<String>,
    pub readonly: Vec<String>,
}

/// The execution record of a transaction.
pub struct TransactionMeta {
    pub failed: bool,
    pub pre_token_balances: Option<Vec<TokenBalance>>,
    pub post_token_balances: Option<Vec<TokenBalance>>,
    pub loaded_addresses: Option<LoadedAddresses>,
    pub inner_instructions: Option<Vec<InnerInstructions>>,
}

/// A message in raw form: the static account keys and the top-level
/// instructions.
pub struct RawMessage {
    pub account_keys: Vec<String>,
    pub instructions: Vec<CompiledInstruction>,
}

/// The signed transaction; `message` is `None` where the node handed it in
/// parsed rather than raw form.
pub struct TransactionBody {
    pub signatures: Vec<String>,
    pub message: Option<RawMessage>,
}

/// A transaction with its execution record; `transaction` is `None` where the
/// node did not encode it as structured data.
pub struct RawTransaction {
    pub transaction: Option<TransactionBody>,
    pub meta: Option<TransactionMeta>,
}

/// A fetched block.
pub struct RawBlock {
    pub blockhash: String,
    pub transactions: Option<Vec<RawTransaction>>,
}

} // verus!
