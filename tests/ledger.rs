use eincoin::block::Block;
use eincoin::blockchain::Blockchain;
use eincoin::consts::{DIFFICULTY, INITIAL_COIN_AMOUNT, MINING_REWARD};
use eincoin::miner::{search_nonce, Miner};
use eincoin::transaction::{Identity, Transaction, TransactionOutput};
use eincoin::wallet::{TransactionError, Wallet};
use rand::SeedableRng;
use rsa::pkcs1::ToRsaPublicKey;

fn wallet(seed: u64) -> Wallet {
    let mut rng = rand::rngs::StdRng::seed_from_u64(seed);
    let key = rsa::RsaPrivateKey::new(&mut rng, 512).unwrap();
    let der = key.to_public_key().to_pkcs1_der().unwrap().as_der().to_vec();
    Wallet::new(key, Identity::new(der))
}

fn mined(block: Block) -> Block {
    let mut miner = Miner::new();
    let stop = miner.start();
    search_nonce(block, &stop).expect("a nonce is found")
}

fn reward_block(prev: &Block, payee: &Identity, mut txs: Vec<Transaction>) -> Block {
    txs.push(Transaction::minting(MINING_REWARD, payee.clone()));
    mined(Block::new(prev.hash(), txs))
}

fn unmined(mut block: Block) -> Block {
    while block.verify_nonce() {
        block.nonce = block.nonce.wrapping_add(1);
    }
    block
}

#[test]
fn bootstrap_grants_initial_supply() {
    let a = wallet(1);
    let chain = Blockchain::new(a.public_key.clone());
    assert_eq!(chain.num_blocks(), 1);
    assert_eq!(chain.utxos().len(), 1);
    assert_eq!(chain.utxos()[0].output.amount, INITIAL_COIN_AMOUNT);
    assert_eq!(chain.utxos()[0].index, 0);
    assert_eq!(a.compute_balance(&chain), 100);
    assert_eq!(chain.main_chain().len(), 1);
    assert!(chain.verify());
}

#[test]
fn transfer_then_mine_end_to_end() {
    let a = wallet(1);
    let b = wallet(2);
    let m = wallet(3);
    let mut chain = Blockchain::new(a.public_key.clone());
    let tx = Transaction::new(50, 0, Some(&a), b.public_key.clone(), &chain).unwrap();
    assert!(tx.verify(&chain));
    assert_eq!(tx.transaction_inputs.len(), 1);
    assert_eq!(tx.transaction_outputs.len(), 2);
    assert_eq!(tx.transaction_outputs[0].amount, 50);
    assert_eq!(tx.transaction_outputs[1].amount, 50);
    let root = chain.main_chain()[0].clone();
    let block = reward_block(&root, &m.public_key, vec![tx]);
    assert!(chain.push_block(block));
    assert_eq!(a.compute_balance(&chain), 50);
    assert_eq!(b.compute_balance(&chain), 50);
    assert_eq!(m.compute_balance(&chain), 1);
    assert_eq!(chain.main_chain().len(), 2);
    assert!(chain.verify());
}

#[test]
fn block_failing_difficulty_is_rejected() {
    let a = wallet(1);
    let mut chain = Blockchain::new(a.public_key.clone());
    let root = chain.main_chain()[0].clone();
    let mut txs = Vec::new();
    txs.push(Transaction::minting(MINING_REWARD, a.public_key.clone()));
    let block = unmined(Block::new(root.hash(), txs));
    assert!(!block.verify_nonce());
    assert!(!chain.push_block(block));
    assert_eq!(chain.num_blocks(), 1);
    assert_eq!(chain.utxos().len(), 1);
}

#[test]
fn admitted_block_hash_starts_with_zero_bytes() {
    let a = wallet(1);
    let mut chain = Blockchain::new(a.public_key.clone());
    let root = chain.main_chain()[0].clone();
    let block = reward_block(&root, &a.public_key, vec![]);
    let h = block.hash();
    assert_eq!(h.len(), 32);
    assert!(h[..DIFFICULTY].iter().all(|b| *b == 0));
    assert!(chain.push_block(block));
    for b in chain.all_blocks().iter().skip(1) {
        assert!(b.hash()[..DIFFICULTY].iter().all(|x| *x == 0));
    }
}

#[test]
fn main_chain_is_linked_by_hashes() {
    let a = wallet(1);
    let mut chain = Blockchain::new(a.public_key.clone());
    for _ in 0..3 {
        let tip = chain.main_chain().last().unwrap().clone();
        assert!(chain.push_block(reward_block(&tip, &a.public_key, vec![])));
    }
    let mc = chain.main_chain();
    assert_eq!(mc.len(), 4);
    for k in 1..mc.len() {
        assert_eq!(mc[k].prev_hash, mc[k - 1].hash());
    }
    assert_eq!(a.compute_balance(&chain), 103);
}

#[test]
fn recompute_twice_gives_same_set() {
    let a = wallet(1);
    let b = wallet(2);
    let mut chain = Blockchain::new(a.public_key.clone());
    let tx = Transaction::new(30, 0, Some(&a), b.public_key.clone(), &chain).unwrap();
    let root = chain.main_chain()[0].clone();
    assert!(chain.push_block(reward_block(&root, &a.public_key, vec![tx])));
    let snapshot = |c: &Blockchain| -> Vec<(Vec<u8>, u32, u32, Vec<u8>)> {
        c.utxos()
            .iter()
            .map(|u| (u.tx_hash.clone(), u.index, u.output.amount, u.output.payee.key.clone()))
            .collect()
    };
    let before = snapshot(&chain);
    chain.compute_utxos();
    let once = snapshot(&chain);
    chain.compute_utxos();
    let twice = snapshot(&chain);
    assert_eq!(before, once);
    assert_eq!(once, twice);
    assert_eq!(once.len(), 3);
}

#[test]
fn reward_must_equal_fixed_amount() {
    let a = wallet(1);
    let mut chain = Blockchain::new(a.public_key.clone());
    let root = chain.main_chain()[0].clone();
    let mut txs = Vec::new();
    txs.push(Transaction::minting(MINING_REWARD + 1, a.public_key.clone()));
    let block = mined(Block::new(root.hash(), txs));
    assert!(!chain.push_block(block));
    let empty = mined(Block::new(root.hash(), Vec::new()));
    assert!(!chain.push_block(empty));
    assert_eq!(chain.num_blocks(), 1);
}

#[test]
fn outputs_above_inputs_fail_validation() {
    let a = wallet(1);
    let b = wallet(2);
    let chain = Blockchain::new(a.public_key.clone());
    let mut tx = Transaction::new(40, 0, Some(&a), b.public_key.clone(), &chain).unwrap();
    assert!(tx.verify(&chain));
    assert_eq!(tx.tx_ins_sum(&chain), Some(100));
    assert_eq!(tx.tx_outs_sum(), 100);
    tx.transaction_outputs.push(TransactionOutput::new(1, b.public_key.clone()));
    assert_eq!(tx.tx_outs_sum(), 101);
    assert!(!tx.verify(&chain));
}

#[test]
fn double_spend_is_rejected() {
    let a = wallet(1);
    let b = wallet(2);
    let c = wallet(3);
    let mut chain = Blockchain::new(a.public_key.clone());
    let tx1 = Transaction::new(60, 0, Some(&a), b.public_key.clone(), &chain).unwrap();
    let tx2 = Transaction::new(70, 0, Some(&a), c.public_key.clone(), &chain).unwrap();
    assert!(tx1.verify(&chain));
    assert!(tx2.verify(&chain));
    let root = chain.main_chain()[0].clone();
    let both = reward_block(&root, &a.public_key, vec![tx1.clone(), tx2.clone()]);
    assert!(!chain.push_block(both));
    assert!(chain.push_block(reward_block(&root, &a.public_key, vec![tx1])));
    assert!(!tx2.verify(&chain));
    let tip = chain.main_chain()[1].clone();
    assert!(!chain.push_block(reward_block(&tip, &a.public_key, vec![tx2])));
    assert_eq!(b.compute_balance(&chain), 60);
    assert_eq!(c.compute_balance(&chain), 0);
}

#[test]
fn forks_are_kept_and_longer_branch_wins() {
    let a = wallet(1);
    let b = wallet(2);
    let mut chain = Blockchain::new(a.public_key.clone());
    let root = chain.main_chain()[0].clone();
    let b1 = reward_block(&root, &a.public_key, vec![]);
    let b2 = reward_block(&root, &b.public_key, vec![]);
    assert!(chain.push_block(b1.clone()));
    assert!(chain.push_block(b2.clone()));
    assert_eq!(chain.num_blocks(), 3);
    // equal lengths: the branch ending in the earliest admitted block wins
    assert_eq!(chain.main_chain()[1].hash(), b1.hash());
    assert_eq!(b.compute_balance(&chain), 0);
    let b3 = reward_block(&b2, &b.public_key, vec![]);
    assert!(chain.push_block(b3.clone()));
    let mc = chain.main_chain();
    assert_eq!(mc.len(), 3);
    assert_eq!(mc[1].hash(), b2.hash());
    assert_eq!(mc[2].hash(), b3.hash());
    assert_eq!(b.compute_balance(&chain), 2);
    assert_eq!(a.compute_balance(&chain), 100);
    assert!(chain.verify());
}

#[test]
fn empty_ledger_takes_any_block_as_root() {
    let a = wallet(1);
    let mut chain = Blockchain::new_empty();
    assert_eq!(chain.main_chain().len(), 0);
    assert!(chain.verify());
    let mut txs = Vec::new();
    txs.push(Transaction::minting(7, a.public_key.clone()));
    assert!(chain.push_block(Block::new(vec![9, 9], txs)));
    assert_eq!(chain.num_blocks(), 1);
    assert_eq!(a.compute_balance(&chain), 7);
}

#[test]
fn unknown_parent_is_rejected() {
    let a = wallet(1);
    let mut chain = Blockchain::new(a.public_key.clone());
    let mut txs = Vec::new();
    txs.push(Transaction::minting(MINING_REWARD, a.public_key.clone()));
    let orphan = mined(Block::new(vec![1; 32], txs));
    assert!(!chain.verify_new_block(&orphan));
    assert!(!chain.push_block(orphan));
    assert_eq!(chain.num_blocks(), 1);
}

#[test]
fn insufficient_funds_is_an_error() {
    let a = wallet(1);
    let b = wallet(2);
    let chain = Blockchain::new(a.public_key.clone());
    let r = Transaction::new(90, 11, Some(&a), b.public_key.clone(), &chain);
    assert_eq!(r.err(), Some(TransactionError::InsufficientFunds));
    let r = Transaction::new(1, 0, Some(&b), a.public_key.clone(), &chain);
    assert_eq!(r.err(), Some(TransactionError::InsufficientFunds));
    let exact = Transaction::new(90, 10, Some(&a), b.public_key.clone(), &chain).unwrap();
    assert_eq!(exact.transaction_outputs.len(), 1);
    assert_eq!(exact.transaction_outputs[0].amount, 90);
}

#[test]
fn change_goes_back_to_sender() {
    let a = wallet(1);
    let b = wallet(2);
    let chain = Blockchain::new(a.public_key.clone());
    let tx = Transaction::new(30, 5, Some(&a), b.public_key.clone(), &chain).unwrap();
    assert_eq!(tx.transaction_outputs.len(), 2);
    assert!(tx.transaction_outputs[0].payee.same(&b.public_key));
    assert_eq!(tx.transaction_outputs[1].amount, 65);
    assert!(tx.transaction_outputs[1].payee.same(&a.public_key));
    assert_eq!(tx.tx_ins_sum(&chain), Some(100));
    assert!(tx.verify(&chain));
}

#[test]
fn minting_without_wallet() {
    let a = wallet(1);
    let chain = Blockchain::new_empty();
    let tx = Transaction::new(5, 0, None, a.public_key.clone(), &chain).unwrap();
    assert_eq!(tx.transaction_inputs.len(), 1);
    assert!(tx.transaction_inputs[0].payer.is_none());
    assert_eq!(tx.transaction_outputs[0].amount, 5);
}

#[test]
fn input_resolves_to_genesis_output() {
    let a = wallet(1);
    let b = wallet(2);
    let chain = Blockchain::new(a.public_key.clone());
    let tx = Transaction::new(10, 0, Some(&a), b.public_key.clone(), &chain).unwrap();
    let out = tx.transaction_inputs[0].get_used_tx_out(&chain).unwrap();
    assert_eq!(out.amount, 100);
    assert!(out.payee.same(&a.public_key));
    let mut other = tx.transaction_inputs[0].clone();
    other.prev_transaction_index = 1;
    assert!(other.get_used_tx_out(&chain).is_none());
}

#[test]
fn block_already_in_tree_is_rejected() {
    let a = wallet(1);
    let mut chain = Blockchain::new(a.public_key.clone());
    let root = chain.main_chain()[0].clone();
    let b1 = reward_block(&root, &a.public_key, vec![]);
    assert!(chain.push_block(b1.clone()));
    assert!(!chain.verify_new_block(&b1));
    assert!(!chain.push_block(b1));
    assert!(!chain.push_block(root));
    assert_eq!(chain.num_blocks(), 2);
}

#[test]
fn transfer_spends_every_owned_output_smallest_first() {
    let a = wallet(1);
    let b = wallet(2);
    let c = wallet(3);
    let mut chain = Blockchain::new(a.public_key.clone());
    let t1 = Transaction::new(60, 0, Some(&a), b.public_key.clone(), &chain).unwrap();
    let tip = chain.main_chain().last().unwrap().clone();
    assert!(chain.push_block(reward_block(&tip, &c.public_key, vec![t1.clone()])));
    let t2 = Transaction::new(30, 0, Some(&a), b.public_key.clone(), &chain).unwrap();
    let tip = chain.main_chain().last().unwrap().clone();
    assert!(chain.push_block(reward_block(&tip, &c.public_key, vec![t2.clone()])));
    assert_eq!(b.compute_balance(&chain), 90);
    let t3 = Transaction::new(60, 0, Some(&b), c.public_key.clone(), &chain).unwrap();
    assert_eq!(t3.transaction_inputs.len(), 2);
    assert_eq!(t3.transaction_inputs[0].prev_transaction_hash, t2.hash());
    assert_eq!(t3.transaction_inputs[1].prev_transaction_hash, t1.hash());
    assert_eq!(t3.transaction_outputs.len(), 2);
    assert_eq!(t3.transaction_outputs[0].amount, 60);
    assert_eq!(t3.transaction_outputs[1].amount, 30);
    assert!(t3.verify(&chain));
}
