use vstd::prelude::*;

use crate::block::{Block, BlockModel};
use crate::encoding::{bytes_eq, concat_map, lemma_concat_map_step};
use crate::ledger_model::{
    blocks_along, block_outputs_fn, block_spends_fn, matching, outputs_of, spends_of, tx_outputs,
    tx_outputs_fn, tx_spends, tx_spends_fn, unspent, UtxoModel,
};
use crate::transaction::{OutputModel, TransactionInput, TransactionOutput};

verus! {

/// An unspent output, as the ledger stores it.
pub struct Utxo {
    pub tx_hash: Vec<u8>,
    pub index: u32,
    pub output: TransactionOutput,
}

impl View for Utxo {
    type V = UtxoModel;

    open spec fn view(&self) -> UtxoModel {
        UtxoModel { tx_hash: self.tx_hash@, index: self.index, output: self.output@ }
    }
}

impl Clone for Utxo {
    fn clone(&self) -> (r: Self)
        ensures
            r@ == self@,
    {
        Utxo {
            tx_hash: vstd::slice::slice_to_vec(self.tx_hash.as_slice()),
            index: self.index,
            output: self.output.clone(),
        }
    }
}

/// A reference to an output: the hash of its transaction and its position.
pub struct Outpoint {
    pub tx_hash: Vec<u8>,
    pub index: u32,
}

impl View for Outpoint {
    type V = (Seq<u8>, u32);

    open spec fn view(&self) -> (Seq<u8>, u32) {
        (self.tx_hash@, self.index)
    }
}

pub open spec fn utxo_views(s: Seq<Utxo>) -> Seq<UtxoModel> {
    s.map_values(|u: Utxo| u@)
}

pub open spec fn outpoint_views(s: Seq<Outpoint>) -> Seq<(Seq<u8>, u32)> {
    s.map_values(|o: Outpoint| o@)
}

pub open spec fn block_views(s: Seq<Block>) -> Seq<BlockModel> {
    s.map_values(|b: Block| b@)
}

pub open spec fn in_range(p: Seq<usize>, n: int) -> bool {
    forall|k: int| 0 <= k < p.len() ==> (p[k] as int) < n
}

/// Every output made along the chain of blocks at positions `p`, in order.
pub fn outputs_along(blocks: &Vec<Block>, p: &Vec<usize>) -> (r: Vec<Utxo>)
    requires
        in_range(p@, blocks@.len() as int),
    ensures
        utxo_views(r@) == outputs_of(blocks_along(block_views(blocks@), p@)),
{
    let ghost bs = blocks_along(block_views(blocks@), p@);
    let mut r: Vec<Utxo> = Vec::new();
    let mut a: usize = 0;
    while a < p.len()
        invariant
            a <= p@.len(),
            in_range(p@, blocks@.len() as int),
            bs == blocks_along(block_views(blocks@), p@),
            utxo_views(r@) == outputs_of(bs.take(a as int)),
        decreases p@.len() - a,
    {
        let b = &blocks[p[a]];
        assert(bs[a as int] == b@);
        let ghost txs = b@.transactions;
        let ghost base = utxo_views(r@);
        let mut t: usize = 0;
        while t < b.transactions.len()
            invariant
                t <= txs.len(),
                txs == b@.transactions,
                utxo_views(r@) == base + concat_map(txs.take(t as int), tx_outputs_fn()),
            decreases txs.len() - t,
        {
            let tx = &b.transactions[t];
            assert(txs[t as int] == tx@);
            let h = tx.hash();
            let ghost outs = tx_outputs(tx@);
            let ghost base2 = utxo_views(r@);
            let mut j: usize = 0;
            while j < tx.transaction_outputs.len()
                invariant
                    j <= tx@.outputs.len(),
                    outs == tx_outputs(tx@),
                    h@ == crate::transaction::tx_hash(tx@),
                    utxo_views(r@) == base2 + outs.take(j as int),
                decreases tx@.outputs.len() - j,
            {
                let u = Utxo {
                    tx_hash: vstd::slice::slice_to_vec(h.as_slice()),
                    index: j as u32,
                    output: tx.transaction_outputs[j].clone(),
                };
                let ghost before = r@;
                r.push(u);
                assert(utxo_views(r@) =~= utxo_views(before).push(u@));
                assert(outs.take(j + 1) =~= outs.take(j as int).push(outs[j as int]));
                assert(utxo_views(r@) =~= base2 + outs.take(j + 1));
                j = j + 1;
            }
            assert(outs.take(tx@.outputs.len() as int) =~= outs);
            proof {
                lemma_concat_map_step(txs, tx_outputs_fn(), t as int);
            }
            assert(utxo_views(r@) =~= base + concat_map(txs.take(t + 1), tx_outputs_fn()));
            t = t + 1;
        }
        assert(txs.take(txs.len() as int) =~= txs);
        proof {
            lemma_concat_map_step(bs, block_outputs_fn(), a as int);
        }
        assert(utxo_views(r@) =~= outputs_of(bs.take(a + 1)));
        a = a + 1;
    }
    assert(bs.take(p@.len() as int) =~= bs);
    r
}

/// Every output consumed along the chain of blocks at positions `p`, in order.
pub fn spends_along(blocks: &Vec<Block>, p: &Vec<usize>) -> (r: Vec<Outpoint>)
    requires
        in_range(p@, blocks@.len() as int),
    ensures
        outpoint_views(r@) == spends_of(blocks_along(block_views(blocks@), p@)),
{
    let ghost bs = blocks_along(block_views(blocks@), p@);
    let mut r: Vec<Outpoint> = Vec::new();
    let mut a: usize = 0;
    while a < p.len()
        invariant
            a <= p@.len(),
            in_range(p@, blocks@.len() as int),
            bs == blocks_along(block_views(blocks@), p@),
            outpoint_views(r@) == spends_of(bs.take(a as int)),
        decreases p@.len() - a,
    {
        let b = &blocks[p[a]];
        assert(bs[a as int] == b@);
        let ghost txs = b@.transactions;
        let ghost base = outpoint_views(r@);
        let mut t: usize = 0;
        while t < b.transactions.len()
            invariant
                t <= txs.len(),
                txs == b@.transactions,
                outpoint_views(r@) == base + concat_map(txs.take(t as int), tx_spends_fn()),
            decreases txs.len() - t,
        {
            let tx = &b.transactions[t];
            assert(txs[t as int] == tx@);
            let ghost sp = tx_spends(tx@);
            let ghost base2 = outpoint_views(r@);
            let mut j: usize = 0;
            while j < tx.transaction_inputs.len()
                invariant
                    j <= tx@.inputs.len(),
                    sp == tx_spends(tx@),
                    outpoint_views(r@) == base2 + sp.take(j as int),
                decreases tx@.inputs.len() - j,
            {
                let input = &tx.transaction_inputs[j];
                let o = Outpoint {
                    tx_hash: vstd::slice::slice_to_vec(input.prev_transaction_hash.as_slice()),
                    index: input.prev_transaction_index,
                };
                let ghost before = r@;
                r.push(o);
                assert(outpoint_views(r@) =~= outpoint_views(before).push(o@));
                assert(sp.take(j + 1) =~= sp.take(j as int).push(sp[j as int]));
                assert(outpoint_views(r@) =~= base2 + sp.take(j + 1));
                j = j + 1;
            }
            assert(sp.take(tx@.inputs.len() as int) =~= sp);
            proof {
                lemma_concat_map_step(txs, tx_spends_fn(), t as int);
            }
            assert(outpoint_views(r@) =~= base + concat_map(txs.take(t + 1), tx_spends_fn()));
            t = t + 1;
        }
        assert(txs.take(txs.len() as int) =~= txs);
        proof {
            lemma_concat_map_step(bs, block_spends_fn(), a as int);
        }
        assert(outpoint_views(r@) =~= spends_of(bs.take(a + 1)));
        a = a + 1;
    }
    assert(bs.take(p@.len() as int) =~= bs);
    r
}

/// Whether `spent` holds the pair (`h`, `idx`).
pub fn contains_outpoint(spent: &Vec<Outpoint>, h: &[u8], idx: u32) -> (r: bool)
    ensures
        r == outpoint_views(spent@).contains((h@, idx)),
{
    let mut k: usize = 0;
    while k < spent.len()
        invariant
            k <= spent@.len(),
            forall|m: int| 0 <= m < k ==> outpoint_views(spent@)[m] != (h@, idx),
        decreases spent@.len() - k,
    {
        if spent[k].index == idx && bytes_eq(spent[k].tx_hash.as_slice(), h) {
            assert(outpoint_views(spent@)[k as int] == (h@, idx));
            return true;
        }
        k = k + 1;
    }
    false
}

/// The outputs of `outs` that `spent` does not consume, in order.
pub fn keep_unspent(outs: &Vec<Utxo>, spent: &Vec<Outpoint>) -> (r: Vec<Utxo>)
    ensures
        utxo_views(r@) == unspent(utxo_views(outs@), outpoint_views(spent@)),
{
    let ghost os = utxo_views(outs@);
    let ghost sp = outpoint_views(spent@);
    let mut r: Vec<Utxo> = Vec::new();
    let mut i: usize = 0;
    while i < outs.len()
        invariant
            i <= outs@.len(),
            os == utxo_views(outs@),
            sp == outpoint_views(spent@),
            utxo_views(r@) == unspent(os.take(i as int), sp),
        decreases outs@.len() - i,
    {
        let u = &outs[i];
        assert(os.take(i + 1).drop_last() =~= os.take(i as int));
        assert(os.take(i + 1).last() == u@);
        if !contains_outpoint(spent, u.tx_hash.as_slice(), u.index) {
            let ghost before = r@;
            r.push(u.clone());
            assert(utxo_views(r@) =~= utxo_views(before).push(u@));
        }
        i = i + 1;
    }
    assert(os.take(outs@.len() as int) =~= os);
    r
}

/// The output `input` refers to, when exactly one output of `outs` matches it.
pub fn resolve_in(outs: &Vec<Utxo>, input: &TransactionInput) -> (r: Option<TransactionOutput>)
    ensures
        r matches Some(o) ==> matching(utxo_views(outs@), input@.prev_hash, input@.prev_index).len()
            == 1 && o@ == matching(utxo_views(outs@), input@.prev_hash, input@.prev_index)[0].output,
        r is None ==> matching(utxo_views(outs@), input@.prev_hash, input@.prev_index).len() != 1,
{
    let ghost os = utxo_views(outs@);
    let ghost h = input@.prev_hash;
    let ghost idx = input@.prev_index;
    let mut count: usize = 0;
    let mut found: usize = 0;
    let mut i: usize = 0;
    while i < outs.len()
        invariant
            i <= outs@.len(),
            os == utxo_views(outs@),
            h == input@.prev_hash,
            idx == input@.prev_index,
            count <= i,
            count as int == (if matching(os.take(i as int), h, idx).len() <= 1 {
                matching(os.take(i as int), h, idx).len() as int
            } else {
                2
            }),
            count == 1 ==> found < i && matching(os.take(i as int), h, idx)[0] == os[found as int],
        decreases outs@.len() - i,
    {
        let u = &outs[i];
        assert(os.take(i + 1).drop_last() =~= os.take(i as int));
        assert(os.take(i + 1).last() == u@);
        if u.index == input.prev_transaction_index && bytes_eq(
            u.tx_hash.as_slice(),
            input.prev_transaction_hash.as_slice(),
        ) {
            if count == 0 {
                found = i;
            }
            if count < 2 {
                count = count + 1;
            }
        }
        i = i + 1;
    }
    assert(os.take(outs@.len() as int) =~= os);
    if count == 1 {
        Some(outs[found].output.clone())
    } else {
        None
    }
}

} // verus!
