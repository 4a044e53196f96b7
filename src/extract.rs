//! Extraction of transfer events from a raw block.
//!
//! Each transaction is read in several passes: the balance table of the
//! tracked mint, the program that moves it, the (source, destination) pairs of
//! that program's instructions, and from these the events. A transaction that
//! lacks any of these parts yields no event; extraction never fails.
use vstd::prelude::*;
use std::collections::HashMap;
use crate::account::Account;
use crate::block::Block;
use crate::transaction::Transaction;
use crate::program::Program;
use crate::amount::{amount_of, parse_amount};
use crate::raw::{
    CompiledInstruction, InnerInstruction, InnerInstructions, RawBlock, RawTransaction,
    TokenBalance, TransactionBody, TransactionMeta,
};

verus! {

/// The account that a pre-balance entry seeds, where the entry is of the
/// tracked mint, names an owner and carries a readable amount.
pub open spec fn seed_of(b: TokenBalance, mint: Seq<char>) -> Option<Account> {
    if b.mint@ == mint && b.owner is Some && amount_of(b.amount@) is Some {
        let v = amount_of(b.amount@).unwrap();
        Some(
            Account {
                address: b.owner.unwrap(),
                index: b.account_index,
                pre_balance: v,
                post_balance: v,
            },
        )
    } else {
        None
    }
}

/// The accounts seeded by a pre-balance list, keyed by local index; a later
/// entry for the same index replaces an earlier one.
pub open spec fn seeded(bals: Seq<TokenBalance>, mint: Seq<char>) -> Map<u8, Account>
    decreases bals.len(),
{
    if bals.len() == 0 {
        Map::empty()
    } else {
        let prev = seeded(bals.drop_last(), mint);
        match seed_of(bals.last(), mint) {
            Some(a) => prev.insert(a.index, a),
            None => prev,
        }
    }
}

/// The table after a post-balance list: each readable entry sets the
/// post-balance of the account already present at its index. Entries for
/// other indices create nothing.
pub open spec fn settled(m: Map<u8, Account>, posts: Seq<TokenBalance>) -> Map<u8, Account>
    decreases posts.len(),
{
    if posts.len() == 0 {
        m
    } else {
        let prev = settled(m, posts.drop_last());
        let b = posts.last();
        if prev.contains_key(b.account_index) && amount_of(b.amount@) is Some {
            prev.insert(
                b.account_index,
                Account { post_balance: amount_of(b.amount@).unwrap(), ..prev[b.account_index] },
            )
        } else {
            prev
        }
    }
}

/// The balance table of a transaction for the tracked mint.
pub open spec fn table_of(mint: Seq<char>, meta: TransactionMeta) -> Map<u8, Account> {
    let pre = match meta.pre_token_balances {
        Some(v) => seeded(v@, mint),
        None => Map::empty(),
    };
    match meta.post_token_balances {
        Some(v) => settled(pre, v@),
        None => pre,
    }
}

/// Builds the balance table of a transaction for the tracked mint.
pub fn get_accounts(mint: &String, meta: &TransactionMeta) -> (r: HashMap<u8, Account>)
    ensures
        r@ == table_of(mint@, *meta),
{
    let mut accounts: HashMap<u8, Account> = HashMap::new();
    if let Some(pre) = &meta.pre_token_balances {
        let mut i: usize = 0;
        while i < pre.len()
            invariant
                i <= pre@.len(),
                accounts@ == seeded(pre@.subrange(0, i as int), mint@),
            decreases pre@.len() - i,
        {
            let b = &pre[i];
            assert(pre@.subrange(0, i + 1).drop_last() =~= pre@.subrange(0, i as int));
            if b.mint == *mint {
                if let Some(owner) = &b.owner {
                    if let Some(v) = parse_amount(b.amount.as_str()) {
                        let a = Account {
                            address: owner.clone(),
                            index: b.account_index,
                            pre_balance: v,
                            post_balance: v,
                        };
                        accounts.insert(b.account_index, a);
                    }
                }
            }
            i += 1;
        }
        assert(pre@.subrange(0, pre@.len() as int) =~= pre@);
    }
    let ghost seeded_table = accounts@;
    if let Some(post) = &meta.post_token_balances {
        let mut i: usize = 0;
        while i < post.len()
            invariant
                i <= post@.len(),
                accounts@ == settled(seeded_table, post@.subrange(0, i as int)),
            decreases post@.len() - i,
        {
            let b = &post[i];
            assert(post@.subrange(0, i + 1).drop_last() =~= post@.subrange(0, i as int));
            let current: Option<Account> = match accounts.get(&b.account_index) {
                Some(a) => Some(a.clone()),
                None => None,
            };
            if let Some(mut a) = current {
                if let Some(v) = parse_amount(b.amount.as_str()) {
                    a.update_post_balance(v);
                    accounts.insert(b.account_index, a);
                }
            }
            i += 1;
        }
        assert(post@.subrange(0, post@.len() as int) =~= post@);
    }
    accounts
}

/// The program id of the first pre-balance entry of the tracked mint that
/// carries one.
pub open spec fn tracked_program_id(bals: Seq<TokenBalance>, mint: Seq<char>) -> Option<String>
    decreases bals.len(),
{
    if bals.len() == 0 {
        None
    } else {
        match tracked_program_id(bals.drop_last(), mint) {
            Some(p) => Some(p),
            None => if bals.last().mint@ == mint {
                bals.last().program_id
            } else {
                None
            },
        }
    }
}

/// The first position at which `x` stands in `addrs`.
pub open spec fn position_of(addrs: Seq<String>, x: Seq<char>) -> Option<int>
    decreases addrs.len(),
{
    if addrs.len() == 0 {
        None
    } else {
        match position_of(addrs.drop_last(), x) {
            Some(i) => Some(i),
            None => if addrs.last()@ == x {
                Some(addrs.len() - 1)
            } else {
                None
            },
        }
    }
}

/// A transaction's address space: the static account keys, then the loaded
/// writable addresses, then the loaded readonly ones.
pub open spec fn address_space(meta: TransactionMeta, body: TransactionBody) -> Seq<String> {
    let keys = match body.message {
        Some(m) => m.account_keys@,
        None => Seq::empty(),
    };
    match meta.loaded_addresses {
        Some(l) => keys + l.writable@ + l.readonly@,
        None => keys,
    }
}

/// The program that moves the tracked mint in a transaction, where its id is
/// found in the address space at a position that fits a local index.
pub open spec fn program_of(mint: Seq<char>, meta: TransactionMeta, body: TransactionBody) -> Option<
    Program,
> {
    match meta.pre_token_balances {
        Some(pre) => match tracked_program_id(pre@, mint) {
            Some(pid) => match position_of(address_space(meta, body), pid@) {
                Some(i) => if i < 256 {
                    Some(Program { address: pid, index: i as u8 })
                } else {
                    None
                },
                None => None,
            },
            None => None,
        },
        None => None,
    }
}

proof fn lemma_program_id_prefix(bals: Seq<TokenBalance>, mint: Seq<char>, k: int)
    requires
        0 <= k <= bals.len(),
        tracked_program_id(bals.subrange(0, k), mint) is Some,
    ensures
        tracked_program_id(bals, mint) == tracked_program_id(bals.subrange(0, k), mint),
    decreases bals.len(),
{
    if k < bals.len() {
        assert(bals.drop_last().subrange(0, k) =~= bals.subrange(0, k));
        lemma_program_id_prefix(bals.drop_last(), mint, k);
    } else {
        assert(bals.subrange(0, k) =~= bals);
    }
}

proof fn lemma_position_prefix(addrs: Seq<String>, x: Seq<char>, k: int)
    requires
        0 <= k <= addrs.len(),
        position_of(addrs.subrange(0, k), x) is Some,
    ensures
        position_of(addrs, x) == position_of(addrs.subrange(0, k), x),
    decreases addrs.len(),
{
    if k < addrs.len() {
        assert(addrs.drop_last().subrange(0, k) =~= addrs.subrange(0, k));
        lemma_position_prefix(addrs.drop_last(), x, k);
    } else {
        assert(addrs.subrange(0, k) =~= addrs);
    }
}

fn append_copies(dst: &mut Vec<String>, src: &Vec<String>)
    ensures
        final(dst)@ == old(dst)@ + src@,
{
    let ghost start = dst@;
    let mut i: usize = 0;
    while i < src.len()
        invariant
            i <= src@.len(),
            dst@ == start + src@.subrange(0, i as int),
        decreases src@.len() - i,
    {
        dst.push(src[i].clone());
        assert(start + src@.subrange(0, i + 1) =~= (start + src@.subrange(0, i as int)).push(
            src@[i as int],
        ));
        i += 1;
    }
    assert(src@.subrange(0, src@.len() as int) =~= src@);
}

fn find_position(addrs: &Vec<String>, x: &String) -> (r: Option<usize>)
    ensures
        match r {
            Some(i) => position_of(addrs@, x@) == Some(i as int),
            None => position_of(addrs@, x@) is None,
        },
{
    let mut i: usize = 0;
    while i < addrs.len()
        invariant
            i <= addrs@.len(),
            position_of(addrs@.subrange(0, i as int), x@) is None,
        decreases addrs@.len() - i,
    {
        assert(addrs@.subrange(0, i + 1).drop_last() =~= addrs@.subrange(0, i as int));
        if addrs[i] == *x {
            proof {
                lemma_position_prefix(addrs@, x@, i + 1);
            }
            return Some(i);
        }
        i += 1;
    }
    assert(addrs@.subrange(0, addrs@.len() as int) =~= addrs@);
    None
}

/// Locates the program that moves the tracked mint in a transaction.
pub fn get_program(mint: &String, meta: &TransactionMeta, body: &TransactionBody) -> (r: Option<
    Program,
>)
    ensures
        r == program_of(mint@, *meta, *body),
{
    let mut addresses: Vec<String> = Vec::new();
    if let Some(message) = &body.message {
        append_copies(&mut addresses, &message.account_keys);
    }
    if let Some(loaded) = &meta.loaded_addresses {
        append_copies(&mut addresses, &loaded.writable);
        append_copies(&mut addresses, &loaded.readonly);
    }
    assert(addresses@ =~= address_space(*meta, *body));
    if let Some(pre) = &meta.pre_token_balances {
        let mut i: usize = 0;
        while i < pre.len()
            invariant
                i <= pre@.len(),
                addresses@ == address_space(*meta, *body),
                meta.pre_token_balances == Some(*pre),
                tracked_program_id(pre@.subrange(0, i as int), mint@) is None,
            decreases pre@.len() - i,
        {
            let b = &pre[i];
            assert(pre@.subrange(0, i + 1).drop_last() =~= pre@.subrange(0, i as int));
            if b.mint == *mint {
                if let Some(program_id) = &b.program_id {
                    proof {
                        lemma_program_id_prefix(pre@, mint@, i + 1);
                    }
                    return match find_position(&addresses, program_id) {
                        Some(index) => if index < 256 {
                            Some(Program { address: program_id.clone(), index: index as u8 })
                        } else {
                            None
                        },
                        None => None,
                    };
                }
            }
            i += 1;
        }
        assert(pre@.subrange(0, pre@.len() as int) =~= pre@);
    }
    None
}

/// The (source, destination) pair of an instruction of the program at local
/// index `p` with exactly three accounts; the third, the authority, is not
/// kept.
pub open spec fn pair_of(ins: CompiledInstruction, p: u8) -> Seq<(u8, u8)> {
    if ins.program_id_index == p && ins.accounts@.len() == 3 {
        seq![(ins.accounts@[0], ins.accounts@[1])]
    } else {
        Seq::empty()
    }
}

/// The pairs of a list of compiled instructions, in order.
pub open spec fn top_pairs(ins: Seq<CompiledInstruction>, p: u8) -> Seq<(u8, u8)>
    decreases ins.len(),
{
    if ins.len() == 0 {
        Seq::empty()
    } else {
        top_pairs(ins.drop_last(), p) + pair_of(ins.last(), p)
    }
}

/// The pairs of a list of inner instructions, in order; parsed ones give none.
pub open spec fn inner_pairs(ins: Seq<InnerInstruction>, p: u8) -> Seq<(u8, u8)>
    decreases ins.len(),
{
    if ins.len() == 0 {
        Seq::empty()
    } else {
        inner_pairs(ins.drop_last(), p) + match ins.last() {
            InnerInstruction::Compiled(c) => pair_of(c, p),
            InnerInstruction::Parsed => Seq::empty(),
        }
    }
}

/// The pairs of all inner-instruction groups, group by group.
pub open spec fn group_pairs(groups: Seq<InnerInstructions>, p: u8) -> Seq<(u8, u8)>
    decreases groups.len(),
{
    if groups.len() == 0 {
        Seq::empty()
    } else {
        group_pairs(groups.drop_last(), p) + inner_pairs(groups.last().instructions@, p)
    }
}

/// The candidate transfer pairs of a transaction for the program at `p`:
/// those of the top-level instructions, then those of the inner ones.
pub open spec fn pairs_of(p: u8, meta: TransactionMeta, body: TransactionBody) -> Seq<(u8, u8)> {
    let top = match body.message {
        Some(m) => top_pairs(m.instructions@, p),
        None => Seq::empty(),
    };
    match meta.inner_instructions {
        Some(g) => top + group_pairs(g@, p),
        None => top,
    }
}

fn push_pair(pairs: &mut Vec<(u8, u8)>, ins: &CompiledInstruction, p: u8)
    ensures
        final(pairs)@ == old(pairs)@ + pair_of(*ins, p),
{
    if ins.program_id_index == p && ins.accounts.len() == 3 {
        pairs.push((ins.accounts[0], ins.accounts[1]));
    }
    assert(pairs@ =~= old(pairs)@ + pair_of(*ins, p));
}

/// Collects the candidate transfer pairs of a transaction for `program`.
pub fn get_account_pairs(program: &Program, meta: &TransactionMeta, body: &TransactionBody) -> (r:
    Vec<(u8, u8)>)
    ensures
        r@ == pairs_of(program.index, *meta, *body),
{
    let p = program.index;
    let mut pairs: Vec<(u8, u8)> = Vec::new();
    if let Some(message) = &body.message {
        let ins = &message.instructions;
        let mut i: usize = 0;
        while i < ins.len()
            invariant
                i <= ins@.len(),
                pairs@ == top_pairs(ins@.subrange(0, i as int), p),
            decreases ins@.len() - i,
        {
            assert(ins@.subrange(0, i + 1).drop_last() =~= ins@.subrange(0, i as int));
            push_pair(&mut pairs, &ins[i], p);
            i += 1;
        }
        assert(ins@.subrange(0, ins@.len() as int) =~= ins@);
    }
    if let Some(groups) = &meta.inner_instructions {
        let ghost top = pairs@;
        let mut g: usize = 0;
        while g < groups.len()
            invariant
                g <= groups@.len(),
                pairs@ == top + group_pairs(groups@.subrange(0, g as int), p),
            decreases groups@.len() - g,
        {
            let ins = &groups[g].instructions;
            let ghost before = pairs@;
            let mut i: usize = 0;
            while i < ins.len()
                invariant
                    i <= ins@.len(),
                    pairs@ == before + inner_pairs(ins@.subrange(0, i as int), p),
                decreases ins@.len() - i,
            {
                assert(ins@.subrange(0, i + 1).drop_last() =~= ins@.subrange(0, i as int));
                let ghost mid = pairs@;
                match &ins[i] {
                    InnerInstruction::Compiled(c) => push_pair(&mut pairs, c, p),
                    InnerInstruction::Parsed => {},
                }
                assert(pairs@ =~= before + inner_pairs(ins@.subrange(0, i + 1), p));
                i += 1;
            }
            assert(ins@.subrange(0, ins@.len() as int) =~= ins@);
            assert(groups@.subrange(0, g + 1).drop_last() =~= groups@.subrange(0, g as int));
            assert(pairs@ =~= top + group_pairs(groups@.subrange(0, g + 1), p));
            g += 1;
        }
        assert(groups@.subrange(0, groups@.len() as int) =~= groups@);
    }
    pairs
}

/// The event a pair gives where both of its accounts are in the table.
pub open spec fn event_of(
    pair: (u8, u8),
    table: Map<u8, Account>,
    signature: String,
    program: Program,
    token: String,
) -> Option<Transaction> {
    if table.contains_key(pair.0) && table.contains_key(pair.1) {
        Some(
            Transaction {
                signature,
                source: table[pair.0],
                destination: table[pair.1],
                program,
                token,
            },
        )
    } else {
        None
    }
}

/// The events of a list of pairs, in order: those whose accounts are both in
/// the table and whose destination gained strictly.
pub open spec fn events_of(
    pairs: Seq<(u8, u8)>,
    table: Map<u8, Account>,
    signature: String,
    program: Program,
    token: String,
) -> Seq<Transaction>
    decreases pairs.len(),
{
    if pairs.len() == 0 {
        Seq::empty()
    } else {
        let prev = events_of(pairs.drop_last(), table, signature, program, token);
        match event_of(pairs.last(), table, signature, program, token) {
            Some(t) => if t.spec_amount() > 0 {
                prev.push(t)
            } else {
                prev
            },
            None => prev,
        }
    }
}

/// The transfer events of one transaction. A failed transaction, one without
/// structured body, execution record or signature, one with no account of the
/// tracked mint, and one whose program cannot be located, give none.
pub open spec fn transaction_events(mint: String, tx: RawTransaction) -> Seq<Transaction> {
    match (tx.transaction, tx.meta) {
        (Some(body), Some(meta)) => {
            let table = table_of(mint@, meta);
            if meta.failed || body.signatures@.len() == 0 || table.len() == 0 {
                Seq::empty()
            } else {
                match program_of(mint@, meta, body) {
                    Some(program) => events_of(
                        pairs_of(program.index, meta, body),
                        table,
                        body.signatures@[0],
                        program,
                        mint,
                    ),
                    None => Seq::empty(),
                }
            }
        },
        _ => Seq::empty(),
    }
}

/// The events of a list of transactions, transaction by transaction.
pub open spec fn block_events(mint: String, txs: Seq<RawTransaction>) -> Seq<Transaction>
    decreases txs.len(),
{
    if txs.len() == 0 {
        Seq::empty()
    } else {
        block_events(mint, txs.drop_last()) + transaction_events(mint, txs.last())
    }
}

/// The events of a raw block; a block without a transaction list has none.
pub open spec fn raw_events(mint: String, raw: RawBlock) -> Seq<Transaction> {
    match raw.transactions {
        Some(txs) => block_events(mint, txs@),
        None => Seq::empty(),
    }
}

/// Appends to `block` the transfer events of one transaction.
pub fn push_transaction_events(mint: &String, tx: &RawTransaction, block: &mut Block)
    ensures
        final(block).slot == old(block).slot,
        final(block).blockhash == old(block).blockhash,
        final(block).transactions@ == old(block).transactions@ + transaction_events(*mint, *tx),
{
    let body = match &tx.transaction {
        Some(body) => body,
        None => {
            assert(block.transactions@ =~= old(block).transactions@ + transaction_events(*mint, *tx));
            return;
        },
    };
    let meta = match &tx.meta {
        Some(meta) => meta,
        None => {
            assert(block.transactions@ =~= old(block).transactions@ + transaction_events(*mint, *tx));
            return;
        },
    };
    if meta.failed || body.signatures.len() == 0 {
        assert(block.transactions@ =~= old(block).transactions@ + transaction_events(*mint, *tx));
        return;
    }
    let accounts = get_accounts(mint, meta);
    if accounts.len() == 0 {
        assert(block.transactions@ =~= old(block).transactions@ + transaction_events(*mint, *tx));
        return;
    }
    let program = match get_program(mint, meta, body) {
        Some(program) => program,
        None => {
            assert(block.transactions@ =~= old(block).transactions@ + transaction_events(*mint, *tx));
            return;
        },
    };
    let pairs = get_account_pairs(&program, meta, body);
    let signature = &body.signatures[0];
    let ghost start = block.transactions@;
    let mut i: usize = 0;
    while i < pairs.len()
        invariant
            i <= pairs@.len(),
            block.slot == old(block).slot,
            block.blockhash == old(block).blockhash,
            block.transactions@ == start + events_of(
                pairs@.subrange(0, i as int),
                accounts@,
                *signature,
                program,
                *mint,
            ),
        decreases pairs@.len() - i,
    {
        let (source, destination) = pairs[i];
        assert(pairs@.subrange(0, i + 1).drop_last() =~= pairs@.subrange(0, i as int));
        let ghost prev = block.transactions@;
        match (accounts.get(&source), accounts.get(&destination)) {
            (Some(s), Some(d)) => {
                let t = Transaction::new(
                    signature.clone(),
                    s.clone(),
                    d.clone(),
                    program.clone(),
                    mint.clone(),
                );
                block.add_transaction(t);
            },
            _ => {},
        }
        assert(block.transactions@ =~= start + events_of(
            pairs@.subrange(0, i + 1),
            accounts@,
            *signature,
            program,
            *mint,
        ));
        i += 1;
    }
    assert(pairs@.subrange(0, pairs@.len() as int) =~= pairs@);
}

/// Extracts the transfer events of the tracked mint from a fetched block.
pub fn extract(mint: &String, slot: u64, raw: &RawBlock) -> (r: Block)
    ensures
        r.slot == slot,
        r.blockhash == raw.blockhash,
        r.transactions@ == raw_events(*mint, *raw),
{
    let mut block = Block::new(slot, raw.blockhash.clone());
    if let Some(txs) = &raw.transactions {
        let mut i: usize = 0;
        while i < txs.len()
            invariant
                i <= txs@.len(),
                block.slot == slot,
                block.blockhash == raw.blockhash,
                block.transactions@ == block_events(*mint, txs@.subrange(0, i as int)),
            decreases txs@.len() - i,
        {
            assert(txs@.subrange(0, i + 1).drop_last() =~= txs@.subrange(0, i as int));
            push_transaction_events(mint, &txs[i], &mut block);
            i += 1;
        }
        assert(txs@.subrange(0, txs@.len() as int) =~= txs@);
    }
    block
}

proof fn lemma_seeded_untracked(bals: Seq<TokenBalance>, mint: Seq<char>)
    requires
        forall|i: int| 0 <= i < bals.len() ==> (#[trigger] bals[i]).mint@ != mint,
    ensures
        seeded(bals, mint) == Map::<u8, Account>::empty(),
    decreases bals.len(),
{
    if bals.len() > 0 {
        let d = bals.drop_last();
        assert forall|i: int| 0 <= i < d.len() implies (#[trigger] d[i]).mint@ != mint by {
            assert(d[i] == bals[i]);
        }
        lemma_seeded_untracked(d, mint);
        assert(bals.last() == bals[bals.len() - 1]);
    }
}

proof fn lemma_settled_empty(posts: Seq<TokenBalance>)
    ensures
        settled(Map::empty(), posts) == Map::<u8, Account>::empty(),
    decreases posts.len(),
{
    if posts.len() > 0 {
        lemma_settled_empty(posts.drop_last());
    }
}

/// A transaction without any pre-balance entry of the tracked mint yields no
/// event: extraction of a block that holds only that transaction is empty.
pub proof fn untracked_transaction_yields_nothing(mint: String, tx: RawTransaction)
    requires
        match tx.meta {
            Some(meta) => match meta.pre_token_balances {
                Some(pre) => forall|i: int|
                    0 <= i < pre@.len() ==> (#[trigger] pre@[i]).mint@ != mint@,
                None => true,
            },
            None => true,
        },
    ensures
        block_events(mint, seq![tx]) == Seq::<Transaction>::empty(),
{
    let txs = seq![tx];
    assert(txs.drop_last() =~= Seq::<RawTransaction>::empty());
    assert(txs.last() == tx);
    if let Some(meta) = tx.meta {
        if let Some(pre) = meta.pre_token_balances {
            lemma_seeded_untracked(pre@, mint@);
        }
        if let Some(post) = meta.post_token_balances {
            lemma_settled_empty(post@);
        }
        assert(table_of(mint@, meta).dom() =~= Set::<u8>::empty());
        assert(table_of(mint@, meta).len() == 0);
    }
    assert(transaction_events(mint, tx) =~= Seq::<Transaction>::empty());
    assert(block_events(mint, txs.drop_last()) =~= Seq::<Transaction>::empty());
    assert(block_events(mint, txs) =~= Seq::<Transaction>::empty());
}

proof fn lemma_events_gain(
    pairs: Seq<(u8, u8)>,
    table: Map<u8, Account>,
    signature: String,
    program: Program,
    token: String,
)
    ensures
        forall|k: int|
            0 <= k < events_of(pairs, table, signature, program, token).len() ==> (#[trigger] events_of(
                pairs,
                table,
                signature,
                program,
                token,
            )[k]).spec_amount() > 0,
    decreases pairs.len(),
{
    if pairs.len() > 0 {
        lemma_events_gain(pairs.drop_last(), table, signature, program, token);
        let prev = events_of(pairs.drop_last(), table, signature, program, token);
        let all = events_of(pairs, table, signature, program, token);
        assert forall|k: int| 0 <= k < all.len() implies (#[trigger] all[k]).spec_amount() > 0 by {
            if k < prev.len() {
                assert(all[k] == prev[k]);
            }
        }
    }
}

/// Every event of a block has a destination that gained strictly: a pair
/// whose destination ends where it began (or lower) gives no event.
pub proof fn extracted_events_gain(mint: String, txs: Seq<RawTransaction>)
    ensures
        forall|k: int|
            0 <= k < block_events(mint, txs).len() ==> (#[trigger] block_events(mint, txs)[k]).spec_amount()
                > 0,
    decreases txs.len(),
{
    if txs.len() > 0 {
        extracted_events_gain(mint, txs.drop_last());
        let tx = txs.last();
        if let (Some(body), Some(meta)) = (tx.transaction, tx.meta) {
            if let Some(program) = program_of(mint@, meta, body) {
                lemma_events_gain(
                    pairs_of(program.index, meta, body),
                    table_of(mint@, meta),
                    body.signatures@[0],
                    program,
                    mint,
                );
            }
        }
        let prev = block_events(mint, txs.drop_last());
        let cur = transaction_events(mint, tx);
        assert forall|k: int| 0 <= k < block_events(mint, txs).len() implies (#[trigger] block_events(
            mint,
            txs,
        )[k]).spec_amount() > 0 by {
            if k < prev.len() {
                assert(block_events(mint, txs)[k] == prev[k]);
            } else {
                assert(block_events(mint, txs)[k] == cur[k - prev.len()]);
            }
        }
    }
}

/// Extraction depends on the block alone: two extractions of one block give
/// the same block, with the same events in the same order.
pub proof fn extraction_is_deterministic(
    mint: String,
    slot: u64,
    raw: RawBlock,
    first: Block,
    second: Block,
)
    requires
        call_ensures(extract, (&mint, slot, &raw), first),
        call_ensures(extract, (&mint, slot, &raw), second),
    ensures
        first.slot == second.slot,
        first.blockhash == second.blockhash,
        first.transactions@ == second.transactions@,
{
}

proof fn lemma_seeded_index(bals: Seq<TokenBalance>, mint: Seq<char>)
    ensures
        seeded(bals, mint).dom().finite(),
        forall|k: u8| #[trigger] seeded(bals, mint).contains_key(k) ==> seeded(bals, mint)[k].index == k,
    decreases bals.len(),
{
    if bals.len() > 0 {
        let prev = seeded(bals.drop_last(), mint);
        lemma_seeded_index(bals.drop_last(), mint);
        if let Some(a) = seed_of(bals.last(), mint) {
            let m = prev.insert(a.index, a);
            assert forall|k: u8| #[trigger] m.contains_key(k) implies m[k].index == k by {
                if k != a.index {
                    assert(prev.contains_key(k));
                }
            }
        }
    }
}

proof fn lemma_settled_index(m: Map<u8, Account>, posts: Seq<TokenBalance>)
    requires
        m.dom().finite(),
        forall|k: u8| #[trigger] m.contains_key(k) ==> m[k].index == k,
    ensures
        settled(m, posts).dom().finite(),
        forall|k: u8| #[trigger] settled(m, posts).contains_key(k) ==> settled(m, posts)[k].index == k,
    decreases posts.len(),
{
    if posts.len() > 0 {
        let prev = settled(m, posts.drop_last());
        lemma_settled_index(m, posts.drop_last());
        let b = posts.last();
        if prev.contains_key(b.account_index) && amount_of(b.amount@) is Some {
            let n = prev.insert(
                b.account_index,
                Account { post_balance: amount_of(b.amount@).unwrap(), ..prev[b.account_index] },
            );
            assert forall|k: u8| #[trigger] n.contains_key(k) implies n[k].index == k by {
                if k != b.account_index {
                    assert(prev.contains_key(k));
                }
            }
        }
    }
}

proof fn lemma_table_index(mint: Seq<char>, meta: TransactionMeta)
    ensures
        table_of(mint, meta).dom().finite(),
        forall|k: u8| #[trigger] table_of(mint, meta).contains_key(k) ==> table_of(mint, meta)[k].index == k,
{
    let pre = match meta.pre_token_balances {
        Some(v) => seeded(v@, mint),
        None => Map::empty(),
    };
    if let Some(v) = meta.pre_token_balances {
        lemma_seeded_index(v@, mint);
    }
    if let Some(v) = meta.post_token_balances {
        lemma_settled_index(pre, v@);
    }
}

proof fn lemma_events_from_table(
    pairs: Seq<(u8, u8)>,
    table: Map<u8, Account>,
    signature: String,
    program: Program,
    token: String,
)
    requires
        forall|k: u8| #[trigger] table.contains_key(k) ==> table[k].index == k,
    ensures
        forall|e: Transaction|
            #[trigger] events_of(pairs, table, signature, program, token).contains(e) ==> {
                &&& table.contains_key(e.destination.index)
                &&& e.destination == table[e.destination.index]
                &&& e.spec_amount() > 0
            },
    decreases pairs.len(),
{
    if pairs.len() > 0 {
        lemma_events_from_table(pairs.drop_last(), table, signature, program, token);
        let prev = events_of(pairs.drop_last(), table, signature, program, token);
        let all = events_of(pairs, table, signature, program, token);
        assert forall|e: Transaction| #[trigger] all.contains(e) implies {
            &&& table.contains_key(e.destination.index)
            &&& e.destination == table[e.destination.index]
            &&& e.spec_amount() > 0
        } by {
            let k = choose|k: int| 0 <= k < all.len() && all[k] == e;
            if k < prev.len() {
                assert(prev[k] == e);
                assert(prev.contains(e));
            }
        }
    }
}

/// A pair whose destination does not gain, because its post-balance equals
/// its pre-balance (or is lower), gives no event: no event of the transaction
/// goes to that destination.
pub proof fn no_gain_no_event(mint: String, tx: RawTransaction, d: u8)
    requires
        tx.meta is Some,
        table_of(mint@, tx.meta.unwrap()).contains_key(d),
        table_of(mint@, tx.meta.unwrap())[d].post_balance <= table_of(mint@, tx.meta.unwrap())[
            d
        ].pre_balance,
    ensures
        forall|k: int|
            0 <= k < transaction_events(mint, tx).len() ==> (#[trigger] transaction_events(
                mint,
                tx,
            )[k]).destination.index != d,
{
    let meta = tx.meta.unwrap();
    let table = table_of(mint@, meta);
    lemma_table_index(mint@, meta);
    if let Some(body) = tx.transaction {
        if let Some(program) = program_of(mint@, meta, body) {
            if !(meta.failed || body.signatures@.len() == 0 || table.len() == 0) {
                let evs = events_of(
                    pairs_of(program.index, meta, body),
                    table,
                    body.signatures@[0],
                    program,
                    mint,
                );
                lemma_events_from_table(
                    pairs_of(program.index, meta, body),
                    table,
                    body.signatures@[0],
                    program,
                    mint,
                );
                assert forall|k: int| 0 <= k < evs.len() implies (#[trigger] evs[k]).destination.index
                    != d by {
                    assert(evs.contains(evs[k]));
                }
            }
        }
    }
}

/// A transaction whose only candidate pair moves the tracked mint from one
/// account of its table to another that gains yields exactly one event: that
/// transfer, under the transaction's first signature, with the gain as its
/// amount.
pub proof fn single_transfer_yields_one_event(
    mint: String,
    tx: RawTransaction,
    program: Program,
    s: u8,
    d: u8,
)
    requires
        tx.transaction is Some,
        tx.meta is Some,
        !tx.meta.unwrap().failed,
        tx.transaction.unwrap().signatures@.len() > 0,
        program_of(mint@, tx.meta.unwrap(), tx.transaction.unwrap()) == Some(program),
        pairs_of(program.index, tx.meta.unwrap(), tx.transaction.unwrap()) == seq![(s, d)],
        table_of(mint@, tx.meta.unwrap()).contains_key(s),
        table_of(mint@, tx.meta.unwrap()).contains_key(d),
        table_of(mint@, tx.meta.unwrap())[d].post_balance > table_of(mint@, tx.meta.unwrap())[
            d
        ].pre_balance,
    ensures
        transaction_events(mint, tx) == seq![
            Transaction {
                signature: tx.transaction.unwrap().signatures@[0],
                source: table_of(mint@, tx.meta.unwrap())[s],
                destination: table_of(mint@, tx.meta.unwrap())[d],
                program,
                token: mint,
            },
        ],
        transaction_events(mint, tx)[0].spec_amount() == table_of(mint@, tx.meta.unwrap())[
            d
        ].post_balance - table_of(mint@, tx.meta.unwrap())[d].pre_balance,
{
    let meta = tx.meta.unwrap();
    let body = tx.transaction.unwrap();
    let table = table_of(mint@, meta);
    lemma_table_index(mint@, meta);
    assert(table.dom().contains(s));
    vstd::set_lib::lemma_set_empty_equivalency_len(table.dom());
    assert(table.len() != 0);
    let pairs = seq![(s, d)];
    assert(pairs.drop_last() =~= Seq::<(u8, u8)>::empty());
    assert(pairs.last() == (s, d));
    let t = Transaction {
        signature: body.signatures@[0],
        source: table[s],
        destination: table[d],
        program,
        token: mint,
    };
    assert(event_of((s, d), table, body.signatures@[0], program, mint) == Some(t));
    assert(t.spec_amount() > 0);
    assert(events_of(pairs.drop_last(), table, body.signatures@[0], program, mint)
        =~= Seq::<Transaction>::empty());
    assert(events_of(pairs, table, body.signatures@[0], program, mint) =~= seq![t]);
    assert(transaction_events(mint, tx) == events_of(pairs, table, body.signatures@[0], program, mint));
}

} // verus!
