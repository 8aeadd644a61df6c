use vstd::prelude::*;

use crate::block::{block_hash, Block, BlockModel};
use crate::ledger_model::first_with_hash;
use crate::blockchain::{admissible, attach_point, Blockchain};
use crate::consts::MINING_REWARD;
use crate::encoding::{concat_map, lemma_concat_map_step};
use crate::ledger_model::{
    ledger_wf, main_chain, outputs_of, resolve, resolved_sum, tx_spends, tx_spends_fn, tx_valid,
    LedgerModel, UtxoModel,
};
use crate::utxo::{contains_outpoint, outpoint_views, Outpoint};
use crate::validation::push_spends;
use crate::message::{
    message_type_name, InternalMessage, MessageDest, MessageSource, MessageType, MessageTypeModel,
};
use crate::miner::Miner;
use crate::transaction::{
    minting_tx, sum_amounts, OutputModel, Transaction, TransactionOutput, TxModel,
};
use crate::wallet::Wallet;

verus! {

/// Something a handler noticed that the node should report.
#[derive(Clone, Copy, Debug, PartialEq, Eq, Structural)]
pub enum Notice {
    /// A block was rejected.
    WrongBlock,
    /// A transaction was rejected.
    WrongTransaction,
    /// Ledger data reached a node that never takes any.
    UnexpectedSync,
    /// A peer sent `Connect` to a node that serves no peers.
    UnexpectedConnect,
    /// A message other than ledger data arrived while ledger data was still due.
    SlowSync,
}

/// Whether pushing `b` onto the ledger `m` admits it.
pub open spec fn accepts(m: LedgerModel, b: BlockModel) -> bool {
    m.blocks.len() == 0 || admissible(m, b)
}

/// What pushing `b` onto the ledger `old` gives: `ok` tells whether it was
/// admitted (any block is, into an empty ledger), `new` is the ledger after.
pub open spec fn push_outcome(old: LedgerModel, new: LedgerModel, b: BlockModel, ok: bool) -> bool {
    &&& ledger_wf(new)
    &&& ok == (old.blocks.len() == 0 || admissible(old, b))
    &&& ok ==> new.blocks == old.blocks.push(b) && new.parents == old.parents.push(
        attach_point(old, b) as usize,
    )
    &&& !ok ==> new == old
    &&& new.pending == old.pending
}

/// Pushes `block` onto the ledger and tells whether it was admitted.
pub fn verify_and_append_block_to_chain(chain: &mut Blockchain, block: &Block) -> (r: bool)
    ensures
        push_outcome(old(chain)@, final(chain)@, block@, r),
{
    chain.push_block(block.clone())
}

// ---- genesis ----

/// The handler of the node that bootstraps the network: it admits mined
/// blocks and never takes ledger data from peers.
pub struct GenesisMiddleware;

impl GenesisMiddleware {
    pub fn on_message(&mut self, message: &InternalMessage, chain: &mut Blockchain) -> (r: Option<Notice>)
        ensures
            match message.message.message_type@ {
                MessageTypeModel::MinedBlock(b) => {
                    &&& push_outcome(old(chain)@, final(chain)@, b, accepts(old(chain)@, b))
                    &&& r == (if accepts(old(chain)@, b) {
                        None
                    } else {
                        Some(Notice::WrongBlock)
                    })
                },
                MessageTypeModel::SendBlockchainCount(..) | MessageTypeModel::SendBlockchainBlock(..)
                | MessageTypeModel::SendBlockchainTransaction(..) => final(chain)@ == old(chain)@
                    && r == Some(Notice::UnexpectedSync),
                _ => final(chain)@ == old(chain)@ && r is None,
            },
    {
        match &message.message.message_type {
            MessageType::MinedBlock(b) => {
                if verify_and_append_block_to_chain(chain, b) {
                    None
                } else {
                    Some(Notice::WrongBlock)
                }
            },
            MessageType::SendBlockchainCount(..) => Some(Notice::UnexpectedSync),
            MessageType::SendBlockchainBlock(..) => Some(Notice::UnexpectedSync),
            MessageType::SendBlockchainTransaction(..) => Some(Notice::UnexpectedSync),
            _ => None,
        }
    }
}

// ---- log ----

/// The handler that reports every message it sees.
pub struct LogMiddleware;

impl LogMiddleware {
    /// The names of the message's type, source and destination.
    pub fn on_message(&mut self, message: &InternalMessage) -> (r: (String, String, String))
        ensures
            r.0@ == message_type_name(message.message.message_type@),
            r.1@ == (match message.source {
                MessageSource::Localhost => "Localhost"@,
                MessageSource::Foreign(_) => "Foreign"@,
            }),
            r.2@ == (match message.dest {
                MessageDest::Localhost => "Localhost"@,
                MessageDest::Broadcast => "Broadcast"@,
                MessageDest::Single(_) => "Single"@,
            }),
    {
        (message.message.message_type.to_string(), message.source.to_string(), message.dest.to_string())
    }
}

// ---- server ----

/// The address a message came from (empty for this node).
pub open spec fn source_address(s: MessageSource) -> Seq<char> {
    match s {
        MessageSource::Localhost => Seq::<char>::empty(),
        MessageSource::Foreign(a) => a@,
    }
}

/// Whether `m` is a message from this node to the peer at `address` alone.
pub open spec fn private_to(m: InternalMessage, address: Seq<char>) -> bool {
    &&& m.source == MessageSource::Localhost
    &&& m.dest matches MessageDest::Single(a) && a@ == address
}

/// The handler of a node that serves peers: it streams its ledger to each
/// new peer and relays every other message to all peers but its origin.
pub struct ServerMiddleware;

impl ServerMiddleware {
    /// The messages to send out in answer to `message`.
    pub fn on_message(&mut self, message: &InternalMessage, chain: &Blockchain) -> (r: Vec<InternalMessage>)
        ensures
            match message.message.message_type@ {
                MessageTypeModel::Connect => {
                    let addr = source_address(message.source);
                    let n = chain@.blocks.len();
                    let m = chain@.pending.len();
                    &&& r@.len() == 1 + n + m
                    &&& forall|k: int| 0 <= k < r@.len() ==> private_to(#[trigger] r@[k], addr)
                    &&& r@[0].message.message_type@ == MessageTypeModel::SendBlockchainCount(
                        n as usize,
                        m as usize,
                    )
                    &&& forall|k: int|
                        0 <= k < n ==> (#[trigger] r@[1 + k]).message.message_type@
                            == MessageTypeModel::SendBlockchainBlock(chain@.blocks[k])
                    &&& forall|k: int|
                        0 <= k < m ==> (#[trigger] r@[1 + n + k]).message.message_type@
                            == MessageTypeModel::SendBlockchainTransaction(chain@.pending[k])
                },
                MessageTypeModel::SendBlockchainCount(..) | MessageTypeModel::SendBlockchainBlock(
                    ..,
                ) => r@.len() == 0,
                _ => {
                    &&& r@.len() == 1
                    &&& r@[0].message.message_type@ == message.message.message_type@
                    &&& r@[0].message.timestamp == message.message.timestamp
                    &&& r@[0].source == message.source
                    &&& r@[0].dest == MessageDest::Broadcast
                },
            },
    {
        let mut out: Vec<InternalMessage> = Vec::new();
        match &message.message.message_type {
            MessageType::Connect => {
                let address = message.source.unwrap();
                let blocks = chain.all_blocks();
                let pending = chain.unmined_transactions();
                let n = blocks.len();
                let m = pending.len();
                out.push(
                    InternalMessage::new(
                        MessageType::SendBlockchainCount(n, m),
                        MessageSource::Localhost,
                        MessageDest::Single(address.clone()),
                    ),
                );
                let mut k: usize = 0;
                while k < n
                    invariant
                        k <= n,
                        n == blocks@.len(),
                        n == chain@.blocks.len(),
                        crate::utxo::block_views(blocks@) == chain@.blocks,
                        address@ == source_address(message.source),
                        out@.len() == 1 + k,
                        forall|j: int| 0 <= j < out@.len() ==> private_to(#[trigger] out@[j], address@),
                        out@[0].message.message_type@ == MessageTypeModel::SendBlockchainCount(
                            n,
                            m,
                        ),
                        forall|j: int|
                            0 <= j < k ==> (#[trigger] out@[1 + j]).message.message_type@
                                == MessageTypeModel::SendBlockchainBlock(chain@.blocks[j]),
                    decreases n - k,
                {
                    assert(chain@.blocks[k as int] == blocks@[k as int]@);
                    out.push(
                        InternalMessage::new(
                            MessageType::SendBlockchainBlock(blocks[k].clone()),
                            MessageSource::Localhost,
                            MessageDest::Single(address.clone()),
                        ),
                    );
                    k = k + 1;
                }
                let mut k: usize = 0;
                while k < m
                    invariant
                        k <= m,
                        m == pending@.len(),
                        m == chain@.pending.len(),
                        n == chain@.blocks.len(),
                        crate::blockchain::tx_views(pending@) == chain@.pending,
                        address@ == source_address(message.source),
                        out@.len() == 1 + n + k,
                        forall|j: int| 0 <= j < out@.len() ==> private_to(#[trigger] out@[j], address@),
                        out@[0].message.message_type@ == MessageTypeModel::SendBlockchainCount(
                            n,
                            m,
                        ),
                        forall|j: int|
                            0 <= j < n ==> (#[trigger] out@[1 + j]).message.message_type@
                                == MessageTypeModel::SendBlockchainBlock(chain@.blocks[j]),
                        forall|j: int|
                            0 <= j < k ==> (#[trigger] out@[1 + n + j]).message.message_type@
                                == MessageTypeModel::SendBlockchainTransaction(chain@.pending[j]),
                    decreases m - k,
                {
                    assert(chain@.pending[k as int] == pending@[k as int]@);
                    out.push(
                        InternalMessage::new(
                            MessageType::SendBlockchainTransaction(pending[k].clone()),
                            MessageSource::Localhost,
                            MessageDest::Single(address.clone()),
                        ),
                    );
                    k = k + 1;
                }
            },
            MessageType::SendBlockchainCount(..) => {},
            MessageType::SendBlockchainBlock(..) => {},
            _ => {
                let c = message.clone();
                out.push(InternalMessage { message: c.message, source: c.source, dest: MessageDest::Broadcast });
            },
        }
        out
    }
}

// ---- node ----

/// Where a node stands in receiving the ledger from its server.
#[derive(Clone, Copy, Debug, PartialEq, Eq, Structural)]
pub enum SyncStatus {
    /// Nothing to report.
    Receiving,
    /// The last expected block arrived and the whole tree verified.
    Verified,
    /// The last expected block arrived and the tree failed verification; the
    /// node cannot go on with it.
    Corrupt,
}

/// What the node handler asks of the node after a message.
pub struct NodeReaction {
    /// A message to relay to all peers.
    pub forward: Option<InternalMessage>,
    pub notices: Vec<Notice>,
    pub sync: SyncStatus,
}

/// The handler of a node that joins a network: it takes the ledger its server
/// streams to it, counts the blocks and pending transactions announced, and
/// re-verifies the whole tree once the last block has arrived.
pub struct NodeMiddleware {
    pub is_server: bool,
    pub block_index: usize,
    pub transaction_index: usize,
    pub num_blocks_in_chain: usize,
    pub num_unmined_transactions_in_chain: usize,
}

/// One more, unless already at the largest value.
pub open spec fn bump(i: usize) -> usize {
    if i < usize::MAX {
        (i + 1) as usize
    } else {
        i
    }
}

/// Whether a message of this kind arriving now means the peer is slow:
/// ledger data is still due and this is neither a block nor a mined block.
pub open spec fn arrives_late(n: NodeMiddleware, kind: MessageTypeModel) -> bool {
    &&& !(kind is MinedBlock || kind is SendBlockchainBlock)
    &&& (n.block_index < n.num_blocks_in_chain || n.transaction_index
        < n.num_unmined_transactions_in_chain)
}

pub open spec fn late_notices(n: NodeMiddleware, kind: MessageTypeModel) -> Seq<Notice> {
    if arrives_late(n, kind) {
        seq![Notice::SlowSync]
    } else {
        seq![]
    }
}

pub open spec fn rejected(ok: bool) -> Seq<Notice> {
    if ok {
        seq![]
    } else {
        seq![Notice::WrongBlock]
    }
}

impl NodeMiddleware {
    pub fn new(is_server: bool) -> (r: NodeMiddleware)
        ensures
            r == (NodeMiddleware {
                is_server,
                block_index: 0,
                transaction_index: 0,
                num_blocks_in_chain: 0,
                num_unmined_transactions_in_chain: 0,
            }),
    {
        NodeMiddleware {
            is_server,
            block_index: 0,
            transaction_index: 0,
            num_blocks_in_chain: 0,
            num_unmined_transactions_in_chain: 0,
        }
    }

    pub fn on_message(&mut self, message: &InternalMessage, chain: &mut Blockchain) -> (r: NodeReaction)
        ensures
            final(self).is_server == old(self).is_server,
            match message.message.message_type@ {
                MessageTypeModel::Connect => {
                    &&& final(chain)@ == old(chain)@
                    &&& *final(self) == *old(self)
                    &&& r.notices@ == late_notices(*old(self), message.message.message_type@) + (
                    if old(self).is_server {
                        seq![]
                    } else {
                        seq![Notice::UnexpectedConnect]
                    })
                    &&& r.forward is None && r.sync == SyncStatus::Receiving
                },
                MessageTypeModel::SendBlockchainCount(nb, nt) => {
                    &&& final(chain)@ == old(chain)@
                    &&& *final(self) == (NodeMiddleware {
                        num_blocks_in_chain: nb,
                        num_unmined_transactions_in_chain: nt,
                        ..*old(self)
                    })
                    &&& r.notices@ == late_notices(*old(self), message.message.message_type@)
                    &&& r.forward is None && r.sync == SyncStatus::Receiving
                },
                MessageTypeModel::SendBlockchainBlock(b) => {
                    let ok = accepts(old(chain)@, b);
                    let idx = bump(old(self).block_index);
                    &&& push_outcome(old(chain)@, final(chain)@, b, ok)
                    &&& r.notices@ == rejected(ok)
                    &&& r.forward is None
                    &&& final(self).transaction_index == old(self).transaction_index
                    &&& final(self).num_unmined_transactions_in_chain
                        == old(self).num_unmined_transactions_in_chain
                    &&& if idx != old(self).num_blocks_in_chain {
                        &&& r.sync == SyncStatus::Receiving
                        &&& final(self).block_index == idx
                        &&& final(self).num_blocks_in_chain == old(self).num_blocks_in_chain
                    } else if crate::blockchain::whole_tree_valid(final(chain)@) {
                        &&& r.sync == SyncStatus::Verified
                        &&& final(self).block_index == 0
                        &&& final(self).num_blocks_in_chain == 0
                    } else {
                        &&& r.sync == SyncStatus::Corrupt
                        &&& final(self).block_index == idx
                        &&& final(self).num_blocks_in_chain == old(self).num_blocks_in_chain
                    }
                },
                MessageTypeModel::SendBlockchainTransaction(t) => {
                    &&& ledger_wf(final(chain)@)
                    &&& final(chain)@.pending == old(chain)@.pending.push(t)
                    &&& final(chain)@.blocks == old(chain)@.blocks
                    &&& final(chain)@.parents == old(chain)@.parents
                    &&& final(chain)@.utxos == old(chain)@.utxos
                    &&& *final(self) == (NodeMiddleware {
                        transaction_index: bump(old(self).transaction_index),
                        ..*old(self)
                    })
                    &&& r.notices@ == late_notices(*old(self), message.message.message_type@)
                    &&& r.forward is None && r.sync == SyncStatus::Receiving
                },
                MessageTypeModel::Transaction(_) => {
                    &&& final(chain)@ == old(chain)@
                    &&& *final(self) == *old(self)
                    &&& r.notices@ == late_notices(*old(self), message.message.message_type@)
                    &&& r.forward is None && r.sync == SyncStatus::Receiving
                },
                MessageTypeModel::MinedBlock(b) => {
                    let ok = accepts(old(chain)@, b);
                    &&& push_outcome(old(chain)@, final(chain)@, b, ok)
                    &&& *final(self) == *old(self)
                    &&& r.notices@ == rejected(ok)
                    &&& r.sync == SyncStatus::Receiving
                    &&& (r.forward is Some <==> ok && !old(self).is_server)
                    &&& r.forward matches Some(f) ==> (f.message.message_type@
                        == message.message.message_type@ && f.message.timestamp
                        == message.message.timestamp && f.source == message.source && f.dest
                        == message.dest)
                },
            },
    {
        let mut notices: Vec<Notice> = Vec::new();
        let is_block = match &message.message.message_type {
            MessageType::MinedBlock(_) => true,
            MessageType::SendBlockchainBlock(_) => true,
            _ => false,
        };
        if !is_block && (self.block_index < self.num_blocks_in_chain || self.transaction_index
            < self.num_unmined_transactions_in_chain) {
            notices.push(Notice::SlowSync);
        }
        let mut forward: Option<InternalMessage> = None;
        let mut sync = SyncStatus::Receiving;
        match &message.message.message_type {
            MessageType::Connect => {
                if !self.is_server {
                    notices.push(Notice::UnexpectedConnect);
                }
            },
            MessageType::SendBlockchainCount(nb, nt) => {
                self.num_blocks_in_chain = *nb;
                self.num_unmined_transactions_in_chain = *nt;
            },
            MessageType::SendBlockchainBlock(b) => {
                if !verify_and_append_block_to_chain(chain, b) {
                    notices.push(Notice::WrongBlock);
                }
                if self.block_index < usize::MAX {
                    self.block_index = self.block_index + 1;
                }
                if self.block_index == self.num_blocks_in_chain {
                    if chain.verify() {
                        self.block_index = 0;
                        self.num_blocks_in_chain = 0;
                        sync = SyncStatus::Verified;
                    } else {
                        sync = SyncStatus::Corrupt;
                    }
                }
            },
            MessageType::SendBlockchainTransaction(t) => {
                chain.add_unmined_transaction(t.clone());
                if self.transaction_index < usize::MAX {
                    self.transaction_index = self.transaction_index + 1;
                }
            },
            MessageType::Transaction(_) => {},
            MessageType::MinedBlock(b) => {
                if !verify_and_append_block_to_chain(chain, b) {
                    notices.push(Notice::WrongBlock);
                } else if !self.is_server {
                    forward = Some(message.clone());
                }
            },
        }
        NodeReaction { forward, notices, sync }
    }
}

// ---- miner ----

/// What a block's miner may claim from `t`: its inputs' worth beyond its outputs.
pub open spec fn fee_of(outs: Seq<UtxoModel>, t: TxModel) -> int {
    resolved_sum(outs, t.inputs) - sum_amounts(t.outputs)
}

/// `t` with an output paying its fee to `miner`, when every input resolves
/// and the fee is positive and fits one output; `t` unchanged otherwise.
pub open spec fn with_fee(outs: Seq<UtxoModel>, t: TxModel, miner: Seq<u8>) -> TxModel {
    if (forall|k: int| 0 <= k < t.inputs.len() ==> (#[trigger] resolve(outs, t.inputs[k])) is Some)
        && 0 < fee_of(outs, t) <= u32::MAX {
        TxModel {
            inputs: t.inputs,
            outputs: t.outputs.push(OutputModel { amount: fee_of(outs, t) as u32, payee: miner }),
        }
    } else {
        t
    }
}

/// The transactions of a candidate block: each pending one with its fee
/// claimed, then the reward.
pub open spec fn candidate_txs(outs: Seq<UtxoModel>, pending: Seq<TxModel>, miner: Seq<u8>) -> Seq<TxModel> {
    pending.map_values(|t: TxModel| with_fee(outs, t, miner)).push(minting_tx(MINING_REWARD, miner))
}

/// Whether `t` spends an output that one of `pending` spends too.
pub open spec fn conflicts(pending: Seq<TxModel>, t: TxModel) -> bool {
    exists|k: int|
        0 <= k < t.inputs.len() && concat_map(pending, tx_spends_fn()).contains(
            #[trigger] tx_spends(t)[k],
        )
}

/// Whether `t` spends an output that a transaction of `pending` spends too.
fn conflicts_exec(pending: &Vec<Transaction>, t: &Transaction) -> (r: bool)
    ensures
        r == conflicts(crate::blockchain::tx_views(pending@), t@),
{
    let ghost pv = crate::blockchain::tx_views(pending@);
    let mut sp: Vec<Outpoint> = Vec::new();
    let mut k: usize = 0;
    while k < pending.len()
        invariant
            k <= pv.len(),
            pv == crate::blockchain::tx_views(pending@),
            outpoint_views(sp@) == concat_map(pv.take(k as int), tx_spends_fn()),
        decreases pv.len() - k,
    {
        proof {
            lemma_concat_map_step(pv, tx_spends_fn(), k as int);
        }
        push_spends(&mut sp, &pending[k]);
        k = k + 1;
    }
    assert(pv.take(pv.len() as int) =~= pv);
    let ghost all = outpoint_views(sp@);
    let mut j: usize = 0;
    while j < t.transaction_inputs.len()
        invariant
            j <= t@.inputs.len(),
            all == outpoint_views(sp@),
            pv == crate::blockchain::tx_views(pending@),
            all == concat_map(pv, tx_spends_fn()),
            forall|m: int| 0 <= m < j ==> !all.contains(#[trigger] tx_spends(t@)[m]),
        decreases t@.inputs.len() - j,
    {
        let input = &t.transaction_inputs[j];
        assert(tx_spends(t@)[j as int] == (input@.prev_hash, input@.prev_index));
        if contains_outpoint(&sp, input.prev_transaction_hash.as_slice(), input.prev_transaction_index) {
            assert(all.contains(tx_spends(t@)[j as int]));
            return true;
        }
        j = j + 1;
    }
    false
}

/// The stop signals that stopping `m` sends: one when a search is running.
pub open spec fn stop_for(m: Miner) -> nat {
    if m.active() {
        1
    } else {
        0
    }
}

/// A block to search a nonce for, and the receiver its search checks for
/// the stop signal.
pub struct MiningJob {
    pub block: Block,
    pub killswitch: std::sync::mpsc::Receiver<()>,
}

/// What the miner handler asks of the node after a message.
pub struct MinerReaction {
    /// A search to run.
    pub job: Option<MiningJob>,
    pub notice: Option<Notice>,
}

/// The handler of a mining node: it gathers valid transactions that spend
/// no output another gathered one spends. Any mined block stops the running
/// search; once the block is in the tree (admitted here or by an earlier
/// handler) the gathered transactions are dropped. Each new transaction
/// restarts the search on a block holding all of them.
pub struct MinerMiddleware {
    pub transactions: Vec<Transaction>,
    pub miner: Miner,
    pub wallet: Wallet,
}

impl MinerMiddleware {
    pub fn new(wallet: Wallet) -> (r: MinerMiddleware)
        ensures
            r.transactions@.len() == 0,
            !r.miner.active(),
            r.wallet == wallet,
    {
        MinerMiddleware { transactions: Vec::new(), miner: Miner::new(), wallet }
    }

    pub fn on_message(&mut self, message: &InternalMessage, chain: &mut Blockchain) -> (r: MinerReaction)
        ensures
            final(self).wallet == old(self).wallet,
            match message.message.message_type@ {
                MessageTypeModel::Transaction(t) => {
                    let outs = outputs_of(old(chain)@.blocks);
                    &&& final(chain)@ == old(chain)@
                    &&& if !tx_valid(outs, old(chain)@.utxos, t) || conflicts(
                        crate::blockchain::tx_views(old(self).transactions@),
                        t,
                    ) {
                        &&& r.notice == Some(Notice::WrongTransaction)
                        &&& r.job is None
                        &&& final(self).miner == old(self).miner
                        &&& crate::blockchain::tx_views(final(self).transactions@)
                            == crate::blockchain::tx_views(old(self).transactions@)
                    } else {
                        let pending = crate::blockchain::tx_views(old(self).transactions@).push(t);
                        let mc = main_chain(old(chain)@);
                        &&& r.notice is None
                        &&& crate::blockchain::tx_views(final(self).transactions@) == pending
                        &&& final(self).miner.stops() == old(self).miner.stops() + stop_for(
                            old(self).miner,
                        )
                        &&& mc.len() > 0 ==> (r.job matches Some(j) && j.block@.prev_hash
                            == block_hash(mc.last()) && j.block@.transactions == candidate_txs(
                            outs,
                            pending,
                            old(self).wallet.public_key@,
                        ) && final(self).miner.active())
                        &&& mc.len() == 0 ==> r.job is None
                    }
                },
                MessageTypeModel::MinedBlock(b) => {
                    let ok = accepts(old(chain)@, b);
                    let in_tree = first_with_hash(final(chain)@.blocks, block_hash(b)) is Some;
                    &&& push_outcome(old(chain)@, final(chain)@, b, ok)
                    &&& r.job is None
                    &&& !final(self).miner.active()
                    &&& final(self).miner.stops() == old(self).miner.stops() + stop_for(
                        old(self).miner,
                    )
                    &&& in_tree ==> r.notice is None && final(self).transactions@.len() == 0
                    &&& !in_tree ==> r.notice == Some(Notice::WrongBlock)
                        && final(self).transactions@ == old(self).transactions@
                },
                _ => {
                    &&& final(chain)@ == old(chain)@
                    &&& r.job is None && r.notice is None
                    &&& final(self).transactions@ == old(self).transactions@
                    &&& final(self).miner == old(self).miner
                },
            },
    {
        match &message.message.message_type {
            MessageType::Transaction(t) => {
                if !t.verify(chain) || conflicts_exec(&self.transactions, t) {
                    return MinerReaction { job: None, notice: Some(Notice::WrongTransaction) };
                }
                let ghost before = self.transactions@;
                self.transactions.push(t.clone());
                assert(crate::blockchain::tx_views(self.transactions@) =~= crate::blockchain::tx_views(before).push(t@));
                let job = self.restart(chain);
                MinerReaction { job, notice: None }
            },
            MessageType::MinedBlock(b) => {
                self.miner.abort();
                verify_and_append_block_to_chain(chain, b);
                let h = b.hash();
                if chain.find_parent(h.as_slice()).is_none() {
                    return MinerReaction { job: None, notice: Some(Notice::WrongBlock) };
                }
                self.transactions.clear();
                MinerReaction { job: None, notice: None }
            },
            _ => MinerReaction { job: None, notice: None },
        }
    }

    /// Stops the running search and starts one on a new candidate block on
    /// top of the main chain: the gathered transactions, each with its fee
    /// claimed, then the reward. `None` when the ledger has no block yet.
    fn restart(&mut self, chain: &Blockchain) -> (r: Option<MiningJob>)
        ensures
            final(self).wallet == old(self).wallet,
            final(self).transactions@ == old(self).transactions@,
            final(self).miner.stops() == old(self).miner.stops() + stop_for(old(self).miner),
            main_chain(chain@).len() == 0 ==> r is None,
            main_chain(chain@).len() > 0 ==> (r matches Some(j) && j.block@.prev_hash == block_hash(
                main_chain(chain@).last(),
            ) && j.block@.transactions == candidate_txs(
                outputs_of(chain@.blocks),
                crate::blockchain::tx_views(old(self).transactions@),
                old(self).wallet.public_key@,
            ) && final(self).miner.active()),
    {
        self.miner.abort();
        let mc = chain.main_chain();
        if mc.len() == 0 {
            return None;
        }
        let prev = mc[mc.len() - 1].hash();
        assert(main_chain(chain@).last() == mc@[mc@.len() - 1]@);
        let ghost outs = outputs_of(chain@.blocks);
        let ghost miner_id = self.wallet.public_key@;
        let ghost pending = crate::blockchain::tx_views(self.transactions@);
        let mut txs: Vec<Transaction> = Vec::new();
        let mut k: usize = 0;
        while k < self.transactions.len()
            invariant
                k <= pending.len(),
                pending == crate::blockchain::tx_views(self.transactions@),
                outs == outputs_of(chain@.blocks),
                miner_id == self.wallet.public_key@,
                txs@.len() == k,
                forall|j: int| 0 <= j < k ==> (#[trigger] txs@[j])@ == with_fee(outs, pending[j], miner_id),
            decreases pending.len() - k,
        {
            let mut t = self.transactions[k].clone();
            assert(t@ == pending[k as int]);
            let ins = t.tx_ins_sum(chain);
            let outs_sum = t.tx_outs_sum();
            if let Some(s) = ins {
                if s > outs_sum && s - outs_sum <= u32::MAX as u128 {
                    let ghost t0 = t@;
                    t.transaction_outputs.push(
                        TransactionOutput::new((s - outs_sum) as u32, self.wallet.public_key.clone()),
                    );
                    assert(t@.outputs =~= t0.outputs.push(
                        OutputModel { amount: (s - outs_sum) as u32, payee: miner_id },
                    ));
                    assert(t@.inputs =~= t0.inputs);
                }
            }
            txs.push(t);
            k = k + 1;
        }
        txs.push(Transaction::minting(MINING_REWARD, self.wallet.public_key.clone()));
        let ghost want = candidate_txs(outs, pending, miner_id);
        let block = Block::new(prev, txs);
        assert(block@.transactions =~= want);
        let killswitch = self.miner.start();
        Some(MiningJob { block, killswitch })
    }
}

} // verus!
