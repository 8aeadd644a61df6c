use vstd::prelude::*;

use crate::block::{block_hash, pow_ok, BlockModel};
use crate::consts::MINING_REWARD;
use crate::crypto::signature_valid;
use crate::encoding::concat_map;
use crate::transaction::{input_hash, sum_amounts, tx_hash, InputModel, OutputModel, TxModel};

verus! {

/// An unspent output: the hash of the transaction that made it, its
/// position among that transaction's outputs, and the output itself.
pub struct UtxoModel {
    pub tx_hash: Seq<u8>,
    pub index: u32,
    pub output: OutputModel,
}

/// What a ledger holds. Block `i` of `blocks` is the `i`-th block admitted;
/// `parents[i]` is the position of the block it extends (block 0 is the root).
pub struct LedgerModel {
    pub blocks: Seq<BlockModel>,
    pub parents: Seq<usize>,
    pub pending: Seq<TxModel>,
    pub utxos: Seq<UtxoModel>,
}

// ---- the tree ----

/// The positions on the way from the root to block `k`, both included.
pub open spec fn path(ps: Seq<usize>, k: int) -> Seq<usize>
    decreases k,
{
    if 0 < k < ps.len() && ps[k] < k {
        path(ps, ps[k] as int).push(k as usize)
    } else {
        seq![k as usize]
    }
}

/// The number of blocks from the root to block `k`, both included.
pub open spec fn depth(ps: Seq<usize>, k: int) -> nat {
    path(ps, k).len()
}

/// Whether `d` is `a` or one of its descendants.
pub open spec fn descends(ps: Seq<usize>, d: int, a: int) -> bool {
    path(ps, d).contains(a as usize)
}

/// The end of the main chain among the first `n` blocks: the earliest
/// admitted block of greatest depth.
pub open spec fn tip(ps: Seq<usize>, n: int) -> int
    decreases n,
{
    if n <= 1 {
        0
    } else {
        let t = tip(ps, n - 1);
        if depth(ps, n - 1) > depth(ps, t) {
            n - 1
        } else {
            t
        }
    }
}

/// The positions of the main chain's blocks, root first.
pub open spec fn main_path(m: LedgerModel) -> Seq<usize> {
    if m.blocks.len() == 0 {
        seq![]
    } else {
        path(m.parents, tip(m.parents, m.blocks.len() as int))
    }
}

pub open spec fn blocks_along(blocks: Seq<BlockModel>, p: Seq<usize>) -> Seq<BlockModel> {
    p.map_values(|k: usize| blocks[k as int])
}

/// The main chain: the longest path from the root; among equally long ones,
/// the one that ends in the earliest admitted block.
pub open spec fn main_chain(m: LedgerModel) -> Seq<BlockModel> {
    blocks_along(m.blocks, main_path(m))
}

// ---- outputs and spends ----

pub open spec fn tx_outputs(t: TxModel) -> Seq<UtxoModel> {
    t.outputs.map(|j: int, o: OutputModel| UtxoModel { tx_hash: tx_hash(t), index: j as u32, output: o })
}

pub open spec fn tx_outputs_fn() -> spec_fn(TxModel) -> Seq<UtxoModel> {
    |t: TxModel| tx_outputs(t)
}

pub open spec fn block_outputs(b: BlockModel) -> Seq<UtxoModel> {
    concat_map(b.transactions, tx_outputs_fn())
}

pub open spec fn block_outputs_fn() -> spec_fn(BlockModel) -> Seq<UtxoModel> {
    |b: BlockModel| block_outputs(b)
}

/// Every output made by the transactions of `bs`, in order.
pub open spec fn outputs_of(bs: Seq<BlockModel>) -> Seq<UtxoModel> {
    concat_map(bs, block_outputs_fn())
}

/// The output an input refers to, as a (transaction hash, index) pair.
pub open spec fn outpoint(i: InputModel) -> (Seq<u8>, u32) {
    (i.prev_hash, i.prev_index)
}

pub open spec fn tx_spends(t: TxModel) -> Seq<(Seq<u8>, u32)> {
    t.inputs.map_values(|i: InputModel| outpoint(i))
}

pub open spec fn tx_spends_fn() -> spec_fn(TxModel) -> Seq<(Seq<u8>, u32)> {
    |t: TxModel| tx_spends(t)
}

pub open spec fn block_spends(b: BlockModel) -> Seq<(Seq<u8>, u32)> {
    concat_map(b.transactions, tx_spends_fn())
}

pub open spec fn block_spends_fn() -> spec_fn(BlockModel) -> Seq<(Seq<u8>, u32)> {
    |b: BlockModel| block_spends(b)
}

/// Every output consumed by an input of a transaction of `bs`, in order.
pub open spec fn spends_of(bs: Seq<BlockModel>) -> Seq<(Seq<u8>, u32)> {
    concat_map(bs, block_spends_fn())
}

/// The outputs of `outs` whose (hash, index) pair is not in `spent`, in order.
pub open spec fn unspent(outs: Seq<UtxoModel>, spent: Seq<(Seq<u8>, u32)>) -> Seq<UtxoModel>
    decreases outs.len(),
{
    if outs.len() == 0 {
        seq![]
    } else {
        let rest = unspent(outs.drop_last(), spent);
        if spent.contains((outs.last().tx_hash, outs.last().index)) {
            rest
        } else {
            rest.push(outs.last())
        }
    }
}

/// The UTXO set of a chain: its outputs that no input of it consumes.
pub open spec fn utxos_of(bs: Seq<BlockModel>) -> Seq<UtxoModel> {
    unspent(outputs_of(bs), spends_of(bs))
}

// ---- validation ----

/// The outputs of `outs` with the given (hash, index) pair, in order.
pub open spec fn matching(outs: Seq<UtxoModel>, h: Seq<u8>, idx: u32) -> Seq<UtxoModel>
    decreases outs.len(),
{
    if outs.len() == 0 {
        seq![]
    } else {
        let rest = matching(outs.drop_last(), h, idx);
        if outs.last().tx_hash == h && outs.last().index == idx {
            rest.push(outs.last())
        } else {
            rest
        }
    }
}

/// The output an input refers to, when exactly one output of `outs` matches.
pub open spec fn resolve(outs: Seq<UtxoModel>, i: InputModel) -> Option<OutputModel> {
    let m = matching(outs, i.prev_hash, i.prev_index);
    if m.len() == 1 {
        Some(m[0].output)
    } else {
        None
    }
}

/// The sum of the amounts that the inputs resolve to (an unresolved input counts 0).
pub open spec fn resolved_sum(outs: Seq<UtxoModel>, ins: Seq<InputModel>) -> nat
    decreases ins.len(),
{
    if ins.len() == 0 {
        0
    } else {
        resolved_sum(outs, ins.drop_last()) + match resolve(outs, ins.last()) {
            Some(o) => o.amount as nat,
            None => 0,
        }
    }
}

/// Whether `view` holds an output with the given (hash, index) pair.
pub open spec fn offers(view: Seq<UtxoModel>, op: (Seq<u8>, u32)) -> bool {
    exists|k: int| 0 <= k < view.len() && view[k].tx_hash == op.0 && view[k].index == op.1
}

/// An input is spendable when it resolves among `outs`, its output is still
/// in `view`, it names the output's payee as payer, and the payer's signature
/// over the input's hash checks.
pub open spec fn input_ok(outs: Seq<UtxoModel>, view: Seq<UtxoModel>, i: InputModel) -> bool {
    &&& resolve(outs, i) is Some
    &&& offers(view, outpoint(i))
    &&& i.payer is Some
    &&& i.payer.unwrap() == resolve(outs, i).unwrap().payee
    &&& signature_valid(i.payer.unwrap(), input_hash(i), i.signature)
}

/// No (hash, index) pair occurs twice.
pub open spec fn distinct(s: Seq<(Seq<u8>, u32)>) -> bool {
    forall|a: int, b: int| 0 <= a < b < s.len() ==> s[a] != s[b]
}

/// A transaction is valid when each input is spendable, no output is spent
/// twice, and it pays out no more than its inputs bring in.
pub open spec fn tx_valid(outs: Seq<UtxoModel>, view: Seq<UtxoModel>, t: TxModel) -> bool {
    &&& forall|k: int| 0 <= k < t.inputs.len() ==> input_ok(outs, view, #[trigger] t.inputs[k])
    &&& distinct(tx_spends(t))
    &&& sum_amounts(t.outputs) <= resolved_sum(outs, t.inputs)
}

/// The reward transaction has a single output of the fixed reward.
pub open spec fn reward_ok(t: TxModel) -> bool {
    &&& t.outputs.len() == 1
    &&& t.outputs[0].amount == MINING_REWARD
}

/// A block is valid on top of `parent` when it names the parent's hash, meets
/// the difficulty, ends with a reward transaction, and every other transaction
/// is valid against `outs` (all outputs of the tree) and `view` (the unspent
/// outputs of the chain it extends), with no output spent twice in the block.
pub open spec fn block_valid(
    outs: Seq<UtxoModel>,
    view: Seq<UtxoModel>,
    parent: BlockModel,
    b: BlockModel,
) -> bool {
    &&& b.prev_hash == block_hash(parent)
    &&& pow_ok(block_hash(b))
    &&& b.transactions.len() >= 1
    &&& reward_ok(b.transactions.last())
    &&& forall|k: int|
        0 <= k < b.transactions.len() - 1 ==> tx_valid(outs, view, #[trigger] b.transactions[k])
    &&& distinct(concat_map(b.transactions.drop_last(), tx_spends_fn()))
}

/// `b` is valid as a child of block `p` of the tree `(blocks, ps)`.
#[verifier::opaque]
pub open spec fn valid_child(blocks: Seq<BlockModel>, ps: Seq<usize>, p: int, b: BlockModel) -> bool {
    block_valid(outputs_of(blocks), utxos_of(blocks_along(blocks, path(ps, p))), blocks[p], b)
}

/// Each block's parent was admitted before it.
pub open spec fn tree_shaped(ps: Seq<usize>) -> bool {
    forall|i: int| 0 < i < ps.len() ==> (#[trigger] ps[i] as int) < i
}

/// The blocks form a tree in which each parent was admitted before its
/// children, no two blocks share a hash, and each block was valid on top of
/// its parent when it was admitted (against the tree as it then stood).
pub open spec fn tree_valid(blocks: Seq<BlockModel>, ps: Seq<usize>) -> bool {
    &&& ps.len() == blocks.len()
    &&& ps.len() <= usize::MAX
    &&& forall|a: int, b: int|
        0 <= a < b < blocks.len() ==> block_hash(#[trigger] blocks[a]) != block_hash(
            #[trigger] blocks[b],
        )
    &&& tree_shaped(ps)
    &&& forall|i: int|
        0 < i < blocks.len() ==> valid_child(blocks.take(i), ps, #[trigger] ps[i] as int, blocks[i])
}

/// The ledger's invariant: a valid tree whose UTXO set is that of its main chain.
pub open spec fn ledger_wf(m: LedgerModel) -> bool {
    &&& tree_valid(m.blocks, m.parents)
    &&& m.utxos == utxos_of(main_chain(m))
}

/// The position of the earliest admitted block whose hash is `h`.
pub open spec fn first_with_hash(bs: Seq<BlockModel>, h: Seq<u8>) -> Option<int>
    decreases bs.len(),
{
    if bs.len() == 0 {
        None
    } else {
        match first_with_hash(bs.drop_last(), h) {
            Some(k) => Some(k),
            None => if block_hash(bs.last()) == h {
                Some(bs.len() - 1)
            } else {
                None
            },
        }
    }
}

// ---- lemmas on the tree ----

/// When no block has the hash `h`, no block of the sequence has it.
pub proof fn lemma_first_with_hash_none(bs: Seq<BlockModel>, h: Seq<u8>, k: int)
    requires
        first_with_hash(bs, h) is None,
        0 <= k < bs.len(),
    ensures
        block_hash(bs[k]) != h,
    decreases bs.len(),
{
    if k < bs.len() - 1 {
        assert(bs.drop_last()[k] == bs[k]);
        lemma_first_with_hash_none(bs.drop_last(), h, k);
    }
}

pub proof fn lemma_path(ps: Seq<usize>, k: int)
    requires
        tree_shaped(ps),
        0 <= k < ps.len(),
    ensures
        1 <= path(ps, k).len() <= k + 1,
        path(ps, k)[0] == 0,
        path(ps, k).last() == k as usize,
        forall|j: int| 0 <= j < path(ps, k).len() ==> (path(ps, k)[j] as int) <= k,
    decreases k,
{
    if k > 0 {
        assert((ps[k] as int) < k);
        lemma_path(ps, ps[k] as int);
    }
}

pub proof fn lemma_path_extend(ps: Seq<usize>, x: usize, k: int)
    requires
        0 <= k < ps.len(),
    ensures
        path(ps.push(x), k) == path(ps, k),
    decreases k,
{
    assert(ps.push(x)[k] == ps[k]);
    if 0 < k && ps[k] < k {
        lemma_path_extend(ps, x, ps[k] as int);
    }
}

pub proof fn lemma_tip(ps: Seq<usize>, n: int)
    requires
        1 <= n,
    ensures
        0 <= tip(ps, n) < n,
    decreases n,
{
    if n > 1 {
        lemma_tip(ps, n - 1);
    }
}

} // verus!
