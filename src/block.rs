use vstd::prelude::*;

use crate::consts::DIFFICULTY;
use crate::crypto::{sha256, sha256_of};
use crate::encoding::{concat_map, framed, le_bytes, lemma_concat_map_step, put_bytes, put_le};
use crate::transaction::{enc_tx, Transaction, TxModel};
use crate::util::time_since_unix_epoch;

verus! {

/// What a block says. Its place in the tree is kept by the ledger, not here.
pub struct BlockModel {
    pub prev_hash: Seq<u8>,
    pub transactions: Seq<TxModel>,
    pub date: u128,
    pub nonce: u64,
}

/// A block: the hash of its parent, its transactions (the last one is the
/// miner's reward), its creation time in milliseconds and the nonce that
/// makes its hash meet the difficulty.
pub struct Block {
    pub prev_hash: Vec<u8>,
    pub transactions: Vec<Transaction>,
    pub date: u128,
    pub nonce: u64,
}

impl View for Block {
    type V = BlockModel;

    open spec fn view(&self) -> BlockModel {
        BlockModel {
            prev_hash: self.prev_hash@,
            transactions: self.transactions@.map_values(|t: Transaction| t@),
            date: self.date,
            nonce: self.nonce,
        }
    }
}

pub open spec fn enc_signed_tx_fn() -> spec_fn(TxModel) -> Seq<u8> {
    |t: TxModel| enc_tx(t, true)
}

/// A block as bytes: every field, signatures included.
pub open spec fn enc_block(b: BlockModel) -> Seq<u8> {
    framed(b.prev_hash) + le_bytes(b.transactions.len(), 8) + concat_map(
        b.transactions,
        enc_signed_tx_fn(),
    ) + le_bytes(b.date as nat, 16) + le_bytes(b.nonce as nat, 8)
}

/// The hash that identifies a block.
pub open spec fn block_hash(b: BlockModel) -> Seq<u8> {
    sha256_of(enc_block(b))
}

/// Proof of work: the hash begins with `DIFFICULTY` zero bytes.
pub open spec fn pow_ok(h: Seq<u8>) -> bool {
    &&& h.len() >= DIFFICULTY
    &&& forall|i: int| 0 <= i < DIFFICULTY ==> h[i] == 0u8
}

impl Block {
    /// A block on top of `prev_hash`, stamped with the current time and a
    /// random starting nonce.
    pub fn new(prev_hash: Vec<u8>, transactions: Vec<Transaction>) -> (r: Block)
        ensures
            r.prev_hash@ == prev_hash@,
            r.transactions@ == transactions@,
    {
        Block {
            prev_hash,
            transactions,
            date: time_since_unix_epoch(),
            nonce: rand::random::<u64>(),
        }
    }

    pub fn encode_into(&self, out: &mut Vec<u8>)
        ensures
            final(out)@ == old(out)@ + enc_block(self@),
    {
        let ghost start = out@;
        let ghost txs = self@.transactions;
        put_bytes(out, self.prev_hash.as_slice());
        put_le(out, self.transactions.len() as u128, 8);
        let ghost mid = out@;
        let mut i: usize = 0;
        while i < self.transactions.len()
            invariant
                i <= txs.len(),
                txs == self@.transactions,
                out@ == mid + concat_map(txs.take(i as int), enc_signed_tx_fn()),
            decreases txs.len() - i,
        {
            proof {
                lemma_concat_map_step(txs, enc_signed_tx_fn(), i as int);
            }
            self.transactions[i].encode_into(out, true);
            assert(out@ =~= mid + concat_map(txs.take(i + 1), enc_signed_tx_fn()));
            i = i + 1;
        }
        assert(txs.take(txs.len() as int) =~= txs);
        put_le(out, self.date, 16);
        put_le(out, self.nonce as u128, 8);
        assert(out@ =~= start + enc_block(self@));
    }

    /// The block's hash, over every field.
    pub fn hash(&self) -> (r: Vec<u8>)
        ensures
            r@ == block_hash(self@),
            r@.len() == 32,
    {
        let mut out: Vec<u8> = Vec::new();
        self.encode_into(&mut out);
        assert(out@ =~= enc_block(self@));
        sha256(out.as_slice())
    }

    /// Whether the block's hash meets the difficulty.
    pub fn verify_nonce(&self) -> (r: bool)
        ensures
            r == pow_ok(block_hash(self@)),
    {
        let h = self.hash();
        if h.len() < DIFFICULTY {
            return false;
        }
        let mut i: usize = 0;
        while i < DIFFICULTY
            invariant
                i <= DIFFICULTY,
                h@.len() >= DIFFICULTY,
                h@ == block_hash(self@),
                forall|k: int| 0 <= k < i ==> h@[k] == 0u8,
            decreases DIFFICULTY - i,
        {
            if h[i] != 0 {
                return false;
            }
            i = i + 1;
        }
        true
    }
}

impl Clone for Block {
    fn clone(&self) -> (r: Self)
        ensures
            r@ == self@,
    {
        let mut txs: Vec<Transaction> = Vec::new();
        let mut i: usize = 0;
        while i < self.transactions.len()
            invariant
                i <= self.transactions@.len(),
                txs@.len() == i,
                forall|k: int| 0 <= k < i ==> txs@[k]@ == self.transactions@[k]@,
            decreases self.transactions@.len() - i,
        {
            txs.push(self.transactions[i].clone());
            i = i + 1;
        }
        let r = Block {
            prev_hash: vstd::slice::slice_to_vec(self.prev_hash.as_slice()),
            transactions: txs,
            date: self.date,
            nonce: self.nonce,
        };
        assert(r@.transactions =~= self@.transactions);
        r
    }
}

} // verus!
