use solana_tx_visualizer::account::Account;
use solana_tx_visualizer::block::Block;
use solana_tx_visualizer::program::Program;
use solana_tx_visualizer::transaction::Transaction;

fn account(address: &str, index: u8, pre_balance: u64, post_balance: u64) -> Account {
    Account {
        address: address.to_string(),
        index,
        pre_balance,
        post_balance,
    }
}

#[test]
fn test_update_post_balance() {
    let address = "test_address";
    let index = 1;
    let pre_balance = 100;
    let mut account = Account::new(address, index, pre_balance);

    account.update_post_balance(150);
    assert_eq!(account.post_balance, 150);
}

#[test]
fn test_block_add_transaction() {
    let mut block = Block::new(0, "blockhash".to_string());
    let source = account("source", 0, 100, 50);
    let destination = account("destination", 1, 100, 150);
    let program = Program {
        address: "program".to_string(),
        index: 2,
    };

    let token = "USDC".to_string();
    let transaction =
        Transaction::new("signature".to_string(), source, destination, program, token);

    block.add_transaction(transaction.clone());
    assert_eq!(block.transactions.len(), 1);

    block.add_transaction(transaction.clone());
    assert_eq!(block.transactions.len(), 2);

    let source = account("source", 0, 100, 100);
    let destination = account("destination", 1, 100, 100);
    let program = Program {
        address: "program".to_string(),
        index: 2,
    };

    let token = "USDC".to_string();
    let transaction =
        Transaction::new("signature".to_string(), source, destination, program, token);

    block.add_transaction(transaction.clone());
    assert_eq!(block.transactions.len(), 2);
}

#[test]
fn test_block_does_not_add_transaction() {
    let mut block = Block::new(0, "blockhash".to_string());
    let source = account("source", 0, 100, 100);
    let destination = account("destination", 1, 100, 100);
    let program = Program {
        address: "program".to_string(),
        index: 2,
    };

    let token = "USDC".to_string();
    let transaction =
        Transaction::new("signature".to_string(), source, destination, program, token);

    block.add_transaction(transaction.clone());
    assert_eq!(block.transactions.len(), 0);
}

#[test]
fn test_transaction_amount() {
    let source = account("source", 0, 100, 50);
    let destination = account("destination", 1, 100, 150);
    let program = Program {
        address: "program".to_string(),
        index: 2,
    };

    let token = "USDC".to_string();
    let transaction =
        Transaction::new("signature".to_string(), source, destination, program, token);

    assert_eq!(transaction.amount(), 50);
}

#[test]
fn negative_amount_is_kept_as_loss() {
    let t = Transaction::new(
        "sig".to_string(),
        account("a", 0, 0, 0),
        account("b", 1, 150, 100),
        Program::new("p", 2),
        "mint".to_string(),
    );
    assert_eq!(t.amount(), -50);
    let mut block = Block::new(9, "h".to_string());
    block.add_transaction(t);
    assert!(block.transactions.is_empty());
    assert_eq!(block.slot, 9);
}

#[test]
fn account_new_starts_with_equal_balances() {
    let a = Account::new("owner", 4, 77);
    assert_eq!(a.address, "owner");
    assert_eq!(a.index, 4);
    assert_eq!(a.pre_balance, 77);
    assert_eq!(a.post_balance, 77);
}

#[test]
fn program_new_keeps_address_and_index() {
    let p = Program::new("Tokenkeg", 7);
    assert_eq!(p.address, "Tokenkeg");
    assert_eq!(p.index, 7);
}
