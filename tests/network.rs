use eincoin::block::Block;
use eincoin::blockchain::Blockchain;
use eincoin::consts::MINING_REWARD;
use eincoin::message::{InternalMessage, Message, MessageDest, MessageSource, MessageType};
use eincoin::middlewares::{
    verify_and_append_block_to_chain, GenesisMiddleware, LogMiddleware, MinerMiddleware,
    NodeMiddleware, Notice, ServerMiddleware, SyncStatus,
};
use eincoin::miner::{search_nonce, search_step, Miner, Step};
use eincoin::transaction::{Identity, Transaction, TransactionInput, TransactionOutput};
use eincoin::util::time_since_unix_epoch;
use eincoin::wallet::Wallet;
use rand::SeedableRng;
use rsa::pkcs1::ToRsaPublicKey;

fn wallet(seed: u64) -> Wallet {
    let mut rng = rand::rngs::StdRng::seed_from_u64(seed);
    let key = rsa::RsaPrivateKey::new(&mut rng, 512).unwrap();
    let der = key.to_public_key().to_pkcs1_der().unwrap().as_der().to_vec();
    Wallet::new(key, Identity::new(der))
}

fn mined_on(prev: &Block, payee: &Identity) -> Block {
    let mut txs = Vec::new();
    txs.push(Transaction::minting(MINING_REWARD, payee.clone()));
    let mut miner = Miner::new();
    let stop = miner.start();
    search_nonce(Block::new(prev.hash(), txs), &stop).unwrap()
}

fn from_peer(t: MessageType, addr: &str) -> InternalMessage {
    InternalMessage::new(t, MessageSource::Foreign(addr.to_string()), MessageDest::Localhost)
}

#[test]
fn abort_before_search_emits_nothing() {
    let a = wallet(1);
    let chain = Blockchain::new(a.public_key.clone());
    let root = chain.main_chain()[0].clone();
    let mut txs = Vec::new();
    txs.push(Transaction::minting(MINING_REWARD, a.public_key.clone()));
    let mut miner = Miner::new();
    assert!(!miner.is_mining());
    let stop = miner.start();
    assert!(miner.is_mining());
    miner.abort();
    assert!(!miner.is_mining());
    assert!(search_nonce(Block::new(root.hash(), txs), &stop).is_none());
}

#[test]
fn competing_mined_block_stops_the_running_search() {
    let a = wallet(1);
    let b = wallet(2);
    let m = wallet(3);
    let mut chain = Blockchain::new(a.public_key.clone());
    let root = chain.main_chain()[0].clone();
    let tx = Transaction::new(20, 0, Some(&a), b.public_key.clone(), &chain).unwrap();
    let mut mm = MinerMiddleware::new(m);
    let r = mm.on_message(&from_peer(MessageType::Transaction(tx), "p:1"), &mut chain);
    assert!(r.notice.is_none());
    let job = r.job.expect("a search starts");
    assert!(mm.miner.is_mining());
    let competing = mined_on(&root, &b.public_key);
    let r = mm.on_message(&from_peer(MessageType::MinedBlock(competing), "p:2"), &mut chain);
    assert!(r.notice.is_none());
    assert!(r.job.is_none());
    assert!(!mm.miner.is_mining());
    assert_eq!(mm.transactions.len(), 0);
    assert!(search_nonce(job.block, &job.killswitch).is_none());
}

#[test]
fn miner_builds_candidate_with_fee_and_reward() {
    let a = wallet(1);
    let b = wallet(2);
    let m = wallet(3);
    let mut chain = Blockchain::new(a.public_key.clone());
    let root_hash = chain.main_chain()[0].hash();
    let tx = Transaction::new(30, 5, Some(&a), b.public_key.clone(), &chain).unwrap();
    let mut mm = MinerMiddleware::new(m);
    let r = mm.on_message(&from_peer(MessageType::Transaction(tx), "p:1"), &mut chain);
    let job = r.job.unwrap();
    assert_eq!(job.block.prev_hash, root_hash);
    assert_eq!(job.block.transactions.len(), 2);
    let paid = &job.block.transactions[0];
    assert_eq!(paid.transaction_outputs.len(), 3);
    assert_eq!(paid.transaction_outputs[2].amount, 5);
    assert!(paid.transaction_outputs[2].payee.same(&mm.wallet.public_key));
    let reward = &job.block.transactions[1];
    assert_eq!(reward.transaction_outputs.len(), 1);
    assert_eq!(reward.transaction_outputs[0].amount, MINING_REWARD);
    let solved = search_nonce(job.block, &job.killswitch).unwrap();
    assert!(chain.push_block(solved));
    assert_eq!(mm.wallet.compute_balance(&chain), 6);
    assert_eq!(b.compute_balance(&chain), 30);
    assert_eq!(a.compute_balance(&chain), 65);
}

#[test]
fn miner_rejects_invalid_transaction() {
    let a = wallet(1);
    let b = wallet(2);
    let mut chain = Blockchain::new(a.public_key.clone());
    let mut tx = Transaction::new(30, 0, Some(&a), b.public_key.clone(), &chain).unwrap();
    tx.transaction_inputs[0].signature[0] ^= 1;
    let mut mm = MinerMiddleware::new(wallet(3));
    let r = mm.on_message(&from_peer(MessageType::Transaction(tx), "p:1"), &mut chain);
    assert_eq!(r.notice, Some(Notice::WrongTransaction));
    assert!(r.job.is_none());
    assert_eq!(mm.transactions.len(), 0);
}

#[test]
fn signatures_are_checked() {
    let a = wallet(1);
    let b = wallet(2);
    let chain = Blockchain::new(a.public_key.clone());
    let tx = Transaction::new(30, 0, Some(&a), b.public_key.clone(), &chain).unwrap();
    let good = tx.transaction_inputs[0].clone();
    assert_eq!(good.signature.len(), 64);
    assert!(good.verify());
    let mut bad = good.clone();
    bad.signature[3] ^= 0x10;
    assert!(!bad.verify());
    let mut stranger = good.clone();
    stranger.payer = Some(b.public_key.clone());
    assert!(!stranger.verify());
    let mut no_key = good.clone();
    no_key.payer = Some(Identity::new(vec![1, 2, 3]));
    assert!(!no_key.verify());
}

#[test]
fn hashes_cover_the_right_fields() {
    let a = wallet(1);
    let b = wallet(2);
    let chain = Blockchain::new(a.public_key.clone());
    let tx = Transaction::new(30, 0, Some(&a), b.public_key.clone(), &chain).unwrap();
    let h = tx.hash();
    assert_eq!(h.len(), 32);
    let mut resigned = tx.clone();
    resigned.transaction_inputs[0].signature = vec![0; 64];
    assert_eq!(resigned.hash(), h);
    let mut changed = tx.clone();
    changed.transaction_outputs[0].amount = 31;
    assert_ne!(changed.hash(), h);
    let input_hash = tx.transaction_inputs[0].hash();
    assert_eq!(input_hash.len(), 32);
    assert_ne!(input_hash, h);
    let mut block = Block::new(vec![1, 2], vec![tx]);
    let bh = block.hash();
    block.nonce = block.nonce.wrapping_add(1);
    assert_ne!(block.hash(), bh);
}

#[test]
fn message_names() {
    assert_eq!(MessageType::Connect.to_string(), "Connect");
    assert_eq!(MessageType::SendBlockchainCount(1, 2).to_string(), "SendBlockchainCount");
    assert_eq!(MessageSource::Localhost.to_string(), "Localhost");
    assert_eq!(MessageSource::Foreign("x".to_string()).to_string(), "Foreign");
    assert_eq!(MessageSource::Localhost.unwrap(), "");
    assert_eq!(MessageSource::Foreign("1.2.3.4:5".to_string()).unwrap(), "1.2.3.4:5");
    assert_eq!(MessageDest::Localhost.to_string(), "Localhost");
    assert_eq!(MessageDest::Broadcast.to_string(), "Broadcast");
    assert_eq!(MessageDest::Single("y".to_string()).to_string(), "Single");
}

#[test]
fn messages_are_stamped() {
    let before = time_since_unix_epoch();
    assert!(before > 0);
    let m = Message::new(MessageType::Connect);
    assert!(m.timestamp >= before);
}

#[test]
fn routing_rules() {
    let back = InternalMessage::new(
        MessageType::Connect,
        MessageSource::Foreign("a:1".to_string()),
        MessageDest::Broadcast,
    );
    assert!(!back.should_be_send_to("a:1"));
    assert!(back.should_be_send_to("b:2"));
    let single = InternalMessage::new(
        MessageType::Connect,
        MessageSource::Localhost,
        MessageDest::Single("b:2".to_string()),
    );
    assert!(single.should_be_send_to("b:2"));
    assert!(!single.should_be_send_to("c:3"));
}

#[test]
fn log_middleware_names_the_message() {
    let mut log = LogMiddleware;
    let (t, s, d) = log.on_message(&from_peer(MessageType::Connect, "a:1"));
    assert_eq!(t, "Connect");
    assert_eq!(s, "Foreign");
    assert_eq!(d, "Localhost");
}

#[test]
fn server_streams_ledger_to_new_peer() {
    let a = wallet(1);
    let mut chain = Blockchain::new(a.public_key.clone());
    let root = chain.main_chain()[0].clone();
    assert!(chain.push_block(mined_on(&root, &a.public_key)));
    chain.add_unmined_transaction(Transaction::minting(3, a.public_key.clone()));
    let mut server = ServerMiddleware;
    let out = server.on_message(&from_peer(MessageType::Connect, "peer:7"), &chain);
    assert_eq!(out.len(), 4);
    match &out[0].message.message_type {
        MessageType::SendBlockchainCount(n, m) => {
            assert_eq!(*n, 2);
            assert_eq!(*m, 1);
        }
        _ => panic!("count first"),
    }
    assert!(matches!(out[1].message.message_type, MessageType::SendBlockchainBlock(_)));
    assert!(matches!(out[2].message.message_type, MessageType::SendBlockchainBlock(_)));
    assert!(matches!(out[3].message.message_type, MessageType::SendBlockchainTransaction(_)));
    for m in &out {
        assert!(m.should_be_send_to("peer:7"));
        assert!(!m.should_be_send_to("other:8"));
    }
}

#[test]
fn server_relays_and_drops() {
    let a = wallet(1);
    let chain = Blockchain::new(a.public_key.clone());
    let mut server = ServerMiddleware;
    let tx = Transaction::minting(3, a.public_key.clone());
    let out = server.on_message(&from_peer(MessageType::Transaction(tx), "p:1"), &chain);
    assert_eq!(out.len(), 1);
    assert!(matches!(out[0].dest, MessageDest::Broadcast));
    assert!(!out[0].should_be_send_to("p:1"));
    assert!(out[0].should_be_send_to("p:2"));
    let out = server.on_message(&from_peer(MessageType::SendBlockchainCount(1, 0), "p:1"), &chain);
    assert_eq!(out.len(), 0);
}

#[test]
fn node_receives_and_verifies_ledger() {
    let a = wallet(1);
    let mut source = Blockchain::new(a.public_key.clone());
    let root = source.main_chain()[0].clone();
    let next = mined_on(&root, &a.public_key);
    assert!(source.push_block(next));
    let mut server = ServerMiddleware;
    let stream = server.on_message(&from_peer(MessageType::Connect, "n:1"), &source);
    let mut chain = Blockchain::new_empty();
    let mut node = NodeMiddleware::new(false);
    let mut statuses = Vec::new();
    for m in &stream {
        let r = node.on_message(m, &mut chain);
        assert!(r.notices.is_empty());
        statuses.push(r.sync);
    }
    assert_eq!(statuses, vec![SyncStatus::Receiving, SyncStatus::Receiving, SyncStatus::Verified]);
    assert_eq!(chain.num_blocks(), 2);
    assert_eq!(a.compute_balance(&chain), 101);
    assert_eq!(node.block_index, 0);
    assert_eq!(node.num_blocks_in_chain, 0);
}

#[test]
fn node_flags_slow_sync_and_forwards_mined_blocks() {
    let a = wallet(1);
    let mut chain = Blockchain::new(a.public_key.clone());
    let root = chain.main_chain()[0].clone();
    let mut node = NodeMiddleware::new(false);
    let r = node.on_message(&from_peer(MessageType::SendBlockchainCount(5, 0), "s:1"), &mut chain);
    assert!(r.notices.is_empty());
    let r = node.on_message(&from_peer(MessageType::Connect, "s:1"), &mut chain);
    assert_eq!(r.notices, vec![Notice::SlowSync, Notice::UnexpectedConnect]);
    let block = mined_on(&root, &a.public_key);
    let r = node.on_message(&from_peer(MessageType::MinedBlock(block.clone()), "s:1"), &mut chain);
    assert!(r.notices.is_empty());
    assert!(r.forward.is_some());
    let mut bad = block;
    while bad.verify_nonce() {
        bad.nonce = bad.nonce.wrapping_add(1);
    }
    let r = node.on_message(&from_peer(MessageType::MinedBlock(bad), "s:1"), &mut chain);
    assert_eq!(r.notices, vec![Notice::WrongBlock]);
    assert!(r.forward.is_none());
    let mut server_node = NodeMiddleware::new(true);
    let r = server_node.on_message(&from_peer(MessageType::Connect, "s:1"), &mut chain);
    assert!(r.notices.is_empty());
}

#[test]
fn node_reports_corrupt_ledger() {
    let a = wallet(1);
    let mut chain = Blockchain::new_empty();
    let mut node = NodeMiddleware::new(false);
    node.on_message(&from_peer(MessageType::SendBlockchainCount(2, 0), "s:1"), &mut chain);
    let mut txs = Vec::new();
    txs.push(Transaction::minting(100, a.public_key.clone()));
    let r = node.on_message(&from_peer(MessageType::SendBlockchainBlock(Block::new(vec![], txs)), "s:1"), &mut chain);
    assert_eq!(r.sync, SyncStatus::Receiving);
    let mut txs = Vec::new();
    txs.push(Transaction::minting(MINING_REWARD, a.public_key.clone()));
    let r = node.on_message(&from_peer(MessageType::SendBlockchainBlock(Block::new(vec![0; 32], txs)), "s:1"), &mut chain);
    assert_eq!(r.notices, vec![Notice::WrongBlock]);
    assert_eq!(r.sync, SyncStatus::Verified);
    let r = node.on_message(&from_peer(MessageType::SendBlockchainTransaction(Transaction::minting(1, a.public_key.clone())), "s:1"), &mut chain);
    assert!(r.notices.is_empty());
    assert_eq!(chain.unmined_transactions().len(), 1);
    assert_eq!(node.transaction_index, 1);
}

#[test]
fn genesis_takes_mined_blocks_only() {
    let a = wallet(1);
    let mut chain = Blockchain::new(a.public_key.clone());
    let root = chain.main_chain()[0].clone();
    let mut g = GenesisMiddleware;
    let r = g.on_message(&from_peer(MessageType::SendBlockchainCount(1, 0), "x:1"), &mut chain);
    assert_eq!(r, Some(Notice::UnexpectedSync));
    let block = mined_on(&root, &a.public_key);
    let r = g.on_message(&from_peer(MessageType::MinedBlock(block.clone()), "x:1"), &mut chain);
    assert_eq!(r, None);
    assert_eq!(chain.num_blocks(), 2);
    assert!(!verify_and_append_block_to_chain(&mut chain, &Block::new(vec![5], Vec::new())));
    let r = g.on_message(&from_peer(MessageType::Connect, "x:1"), &mut chain);
    assert_eq!(r, None);
}

#[test]
fn send_money_builds_broadcast() {
    let a = wallet(1);
    let b = wallet(2);
    let chain = Blockchain::new(a.public_key.clone());
    let msg = a.send_money(10, 1, b.public_key.clone(), &chain).unwrap();
    assert!(matches!(msg.source, MessageSource::Localhost));
    assert!(matches!(msg.dest, MessageDest::Broadcast));
    match &msg.message.message_type {
        MessageType::Transaction(t) => assert!(t.verify(&chain)),
        _ => panic!("a transaction"),
    }
    assert!(b.send_money(1, 0, a.public_key.clone(), &chain).is_err());
}

#[test]
fn key_too_small_to_sign_is_reported() {
    let mut rng = rand::rngs::StdRng::seed_from_u64(9);
    let key = rsa::RsaPrivateKey::new(&mut rng, 256).unwrap();
    let der = key.to_public_key().to_pkcs1_der().unwrap().as_der().to_vec();
    let small = Wallet::new(key, Identity::new(der));
    let b = wallet(2);
    let chain = Blockchain::new(small.public_key.clone());
    let r = Transaction::new(10, 0, Some(&small), b.public_key.clone(), &chain);
    assert_eq!(r.err(), Some(eincoin::wallet::TransactionError::SigningFailed));
}

#[test]
fn pushed_ledger_reverifies_after_sync() {
    let a = wallet(1);
    let b = wallet(2);
    let mut source = Blockchain::new(a.public_key.clone());
    let root = source.main_chain()[0].clone();
    let x = mined_on(&root, &a.public_key);
    assert!(source.push_block(x.clone()));
    let reward_hash = x.transactions[0].hash();
    let input = TransactionInput::new(reward_hash, 0, Some(a.public_key.clone()), &a.private_key).unwrap();
    assert!(input.verify());
    let spend = Transaction {
        transaction_inputs: vec![input],
        transaction_outputs: vec![TransactionOutput::new(1, b.public_key.clone())],
    };
    assert!(spend.verify(&source));
    let mut txs = vec![spend];
    txs.push(Transaction::minting(MINING_REWARD, b.public_key.clone()));
    let mut miner = Miner::new();
    let stop = miner.start();
    let z = search_nonce(Block::new(x.hash(), txs), &stop).unwrap();
    assert!(source.push_block(z));
    let y = mined_on(&root, &a.public_key);
    assert!(source.push_block(y));
    assert_eq!(source.num_blocks(), 4);
    assert!(source.verify());

    let mut server = ServerMiddleware;
    let stream = server.on_message(&from_peer(MessageType::Connect, "n:1"), &source);
    let mut chain = Blockchain::new_empty();
    let mut node = NodeMiddleware::new(false);
    let mut last = SyncStatus::Receiving;
    for m in &stream {
        last = node.on_message(m, &mut chain).sync;
    }
    assert_eq!(last, SyncStatus::Verified);
    assert_eq!(chain.num_blocks(), 4);
}

#[test]
fn miner_refuses_conflicting_pending_transaction() {
    let a = wallet(1);
    let b = wallet(2);
    let c = wallet(4);
    let mut chain = Blockchain::new(a.public_key.clone());
    let tx1 = Transaction::new(10, 0, Some(&a), b.public_key.clone(), &chain).unwrap();
    let tx2 = Transaction::new(20, 0, Some(&a), c.public_key.clone(), &chain).unwrap();
    let mut mm = MinerMiddleware::new(wallet(3));
    let r = mm.on_message(&from_peer(MessageType::Transaction(tx1), "p:1"), &mut chain);
    assert!(r.job.is_some());
    let r = mm.on_message(&from_peer(MessageType::Transaction(tx2), "p:1"), &mut chain);
    assert_eq!(r.notice, Some(Notice::WrongTransaction));
    assert!(r.job.is_none());
    assert_eq!(mm.transactions.len(), 1);
}

#[test]
fn miner_clears_after_block_admitted_by_earlier_handler() {
    let a = wallet(1);
    let b = wallet(2);
    let mut chain = Blockchain::new(a.public_key.clone());
    let tx = Transaction::new(20, 0, Some(&a), b.public_key.clone(), &chain).unwrap();
    let mut mm = MinerMiddleware::new(wallet(3));
    let r = mm.on_message(&from_peer(MessageType::Transaction(tx), "p:1"), &mut chain);
    let job = r.job.unwrap();
    let solved = search_nonce(job.block, &job.killswitch).unwrap();
    let mined = InternalMessage::new(MessageType::MinedBlock(solved), MessageSource::Localhost, MessageDest::Localhost);
    let mut g = GenesisMiddleware;
    assert_eq!(g.on_message(&mined, &mut chain), None);
    let r = mm.on_message(&mined, &mut chain);
    assert!(r.notice.is_none());
    assert_eq!(mm.transactions.len(), 0);
    assert!(!mm.miner.is_mining());
    assert_eq!(chain.num_blocks(), 2);
    assert_eq!(b.compute_balance(&chain), 20);
}

#[test]
fn search_step_cases() {
    let a = wallet(1);
    let mut txs = Vec::new();
    txs.push(Transaction::minting(MINING_REWARD, a.public_key.clone()));
    let mut block = Block::new(vec![3], txs);
    assert!(matches!(search_step(block.clone(), true), Step::Stopped));
    while block.verify_nonce() {
        block.nonce = block.nonce.wrapping_add(1);
    }
    if block.nonce < u64::MAX {
        match search_step(block.clone(), false) {
            Step::Next(x) => assert_eq!(x.nonce, block.nonce + 1),
            _ => panic!("the next nonce"),
        }
    }
    block.nonce = u64::MAX;
    if !block.verify_nonce() {
        assert!(matches!(search_step(block.clone(), false), Step::Exhausted));
    }
    let mut miner = Miner::new();
    let stop = miner.start();
    let found = search_nonce(block.clone(), &stop);
    if let Some(f) = found {
        assert!(f.verify_nonce());
        assert!(matches!(search_step(f, false), Step::Found(_)));
    }
}
