use vstd::prelude::*;

use crate::block::{block_hash, pow_ok, BlockModel};
use crate::blockchain::{admissible, attach_point, whole_tree_valid};
use crate::ledger_model::{
    depth, descends, first_with_hash, ledger_wf, main_chain, main_path, outputs_of, path,
    resolved_sum, reward_ok, spends_of, tip, tree_shaped, tx_spends, tx_valid, unspent,
    utxos_of, valid_child, lemma_path, lemma_tip, offers, input_ok, outpoint, LedgerModel,
    UtxoModel, block_valid, blocks_along, distinct, tx_spends_fn,
};
use crate::transaction::{sum_amounts, TxModel};
use crate::encoding::concat_map;

verus! {

// ---- helpers ----

/// Along a path, each position's parent is the position before it, and
/// positions grow.
proof fn lemma_path_links(ps: Seq<usize>, t: int, k: int)
    requires
        tree_shaped(ps),
        ps.len() <= usize::MAX,
        0 <= t < ps.len(),
        0 < k < path(ps, t).len(),
    ensures
        (path(ps, t)[k - 1] as int) < (path(ps, t)[k] as int),
        ps[path(ps, t)[k] as int] == path(ps, t)[k - 1],
    decreases t,
{
    lemma_path(ps, t);
    if t > 0 {
        let p = ps[t] as int;
        assert(p < t);
        lemma_path(ps, p);
        let pp = path(ps, p);
        assert(path(ps, t) == pp.push(t as usize));
        if k < path(ps, t).len() - 1 {
            lemma_path_links(ps, p, k);
            assert(path(ps, t)[k] == pp[k]);
            assert(path(ps, t)[k - 1] == pp[k - 1]);
        } else {
            assert(path(ps, t)[k - 1] == pp.last());
        }
    }
}

/// The tip has the greatest depth among the first `n` blocks.
proof fn lemma_tip_max(ps: Seq<usize>, n: int, k: int)
    requires
        0 <= k < n,
    ensures
        depth(ps, k) <= depth(ps, tip(ps, n)),
    decreases n,
{
    if n > 1 && k < n - 1 {
        lemma_tip_max(ps, n - 1, k);
    }
}

/// Outputs kept by `unspent` are not in the spent list.
proof fn lemma_unspent_not_spent(outs: Seq<UtxoModel>, sp: Seq<(Seq<u8>, u32)>, j: int)
    requires
        0 <= j < unspent(outs, sp).len(),
    ensures
        !sp.contains((unspent(outs, sp)[j].tx_hash, unspent(outs, sp)[j].index)),
    decreases outs.len(),
{
    if outs.len() > 0 {
        let rest = unspent(outs.drop_last(), sp);
        if j < rest.len() {
            lemma_unspent_not_spent(outs.drop_last(), sp, j);
        }
    }
}

// ---- laws ----

/// Every block admitted on top of another one meets the difficulty: its hash
/// begins with the required zero bytes. (The root, admitted into an empty
/// ledger, is the one block taken without checks.)
pub proof fn lemma_admitted_blocks_meet_difficulty(m: LedgerModel, i: int)
    requires
        ledger_wf(m),
        0 < i < m.blocks.len(),
    ensures
        pow_ok(block_hash(m.blocks[i])),
{
    assert(valid_child(m.blocks.take(i), m.parents, m.parents[i] as int, m.blocks[i]));
    reveal(valid_child);
}

/// Along the main chain, every block but the root names the hash of the block
/// before it.
pub proof fn lemma_main_chain_linked(m: LedgerModel, k: int)
    requires
        ledger_wf(m),
        0 < k < main_chain(m).len(),
    ensures
        main_chain(m)[k].prev_hash == block_hash(main_chain(m)[k - 1]),
{
    let ps = m.parents;
    let n = m.blocks.len() as int;
    lemma_tip(ps, n);
    let t = tip(ps, n);
    lemma_path(ps, t);
    lemma_path_links(ps, t, k);
    let p = path(ps, t);
    let j = p[k] as int;
    let q = p[k - 1] as int;
    assert(0 <= q < j);
    assert(j <= t);
    assert(valid_child(m.blocks.take(j), ps, ps[j] as int, m.blocks[j]));
    reveal(valid_child);
    assert(m.blocks.take(j)[q] == m.blocks[q]);
}

/// What recomputing the UTXO set makes of a ledger.
pub open spec fn recomputed(m: LedgerModel) -> LedgerModel {
    LedgerModel { utxos: utxos_of(main_chain(m)), ..m }
}

/// Recomputing the UTXO set twice in a row gives the same set as once, and
/// on a well-formed ledger changes nothing at all.
pub proof fn lemma_recompute_idempotent(m: LedgerModel)
    requires
        ledger_wf(m),
    ensures
        recomputed(recomputed(m)) == recomputed(m),
        recomputed(m) == m,
{
    assert(main_chain(recomputed(m)) == main_chain(m));
}

/// Every admitted block ends with a reward transaction whose sole output is
/// the fixed reward, and each of its other transactions pays out no more
/// than its inputs resolved to when the block was admitted. (The root's
/// initial grant is the one transaction minted without inputs.)
pub proof fn lemma_conservation(m: LedgerModel, i: int, k: int)
    requires
        ledger_wf(m),
        0 < i < m.blocks.len(),
        0 <= k < m.blocks[i].transactions.len(),
    ensures
        reward_ok(m.blocks[i].transactions.last()),
        k < m.blocks[i].transactions.len() - 1 ==> sum_amounts(
            m.blocks[i].transactions[k].outputs,
        ) <= resolved_sum(outputs_of(m.blocks.take(i)), m.blocks[i].transactions[k].inputs),
{
    assert(valid_child(m.blocks.take(i), m.parents, m.parents[i] as int, m.blocks[i]));
    reveal(valid_child);
    let b = m.blocks[i];
    if k < b.transactions.len() - 1 {
        let outs = outputs_of(m.blocks.take(i));
        let p = m.parents[i] as int;
        let view = utxos_of(blocks_along(m.blocks.take(i), path(m.parents, p)));
        assert(tx_valid(outs, view, b.transactions[k]));
    }
}

/// Once a transaction on the main chain has consumed an output, any
/// transaction that consumes the same output fails validation.
pub proof fn lemma_double_spend_rejected(m: LedgerModel, op: (Seq<u8>, u32), t2: TxModel)
    requires
        ledger_wf(m),
        spends_of(main_chain(m)).contains(op),
        tx_spends(t2).contains(op),
    ensures
        !tx_valid(outputs_of(m.blocks), m.utxos, t2),
{
    let k = choose|k: int| 0 <= k < tx_spends(t2).len() && tx_spends(t2)[k] == op;
    assert(outpoint(t2.inputs[k]) == op);
    if tx_valid(outputs_of(m.blocks), m.utxos, t2) {
        assert(input_ok(outputs_of(m.blocks), m.utxos, t2.inputs[k]));
        assert(offers(m.utxos, op));
        let j = choose|j: int|
            0 <= j < m.utxos.len() && m.utxos[j].tx_hash == op.0 && m.utxos[j].index == op.1;
        lemma_unspent_not_spent(outputs_of(main_chain(m)), spends_of(main_chain(m)), j);
        assert((m.utxos[j].tx_hash, m.utxos[j].index) == op);
    }
}

/// Two valid blocks that name the same parent hash both stay in the tree as
/// children of the same block: the second one attaches where the first did.
pub proof fn lemma_forks_share_parent(m: LedgerModel, b1: BlockModel, b2: BlockModel)
    requires
        ledger_wf(m),
        m.blocks.len() > 0,
        admissible(m, b1),
        b2.prev_hash == b1.prev_hash,
    ensures
        attach_point(
            LedgerModel {
                blocks: m.blocks.push(b1),
                parents: m.parents.push(attach_point(m, b1) as usize),
                ..m
            },
            b2,
        ) == attach_point(m, b1),
{
    let bs2 = m.blocks.push(b1);
    assert(bs2.take(m.blocks.len() as int) =~= m.blocks);
    crate::blockchain::lemma_first_with_hash_prefix(bs2, b1.prev_hash, m.blocks.len() as int);
}

/// Any two admitted blocks that name the same parent hash are children of
/// the same block, however far apart they were pushed.
pub proof fn lemma_forks_keep_one_parent(m: LedgerModel, i: int, j: int)
    requires
        ledger_wf(m),
        0 < i < m.blocks.len(),
        0 < j < m.blocks.len(),
        m.blocks[i].prev_hash == m.blocks[j].prev_hash,
    ensures
        m.parents[i] == m.parents[j],
{
    assert(valid_child(m.blocks.take(i), m.parents, m.parents[i] as int, m.blocks[i]));
    assert(valid_child(m.blocks.take(j), m.parents, m.parents[j] as int, m.blocks[j]));
    reveal(valid_child);
    let pi = m.parents[i] as int;
    let pj = m.parents[j] as int;
    assert(m.blocks.take(i)[pi] == m.blocks[pi]);
    assert(m.blocks.take(j)[pj] == m.blocks[pj]);
    if pi < pj {
        assert(block_hash(m.blocks[pi]) != block_hash(m.blocks[pj]));
    } else if pj < pi {
        assert(block_hash(m.blocks[pj]) != block_hash(m.blocks[pi]));
    }
}

/// Once some block below `a` lies deeper than every block outside `a`'s
/// subtree, the main chain runs through `a`, and for a block other than the
/// root it goes from `a`'s parent straight to `a`.
pub proof fn lemma_longer_subtree_wins(m: LedgerModel, a: int, d: int)
    requires
        ledger_wf(m),
        0 <= a < m.blocks.len(),
        0 <= d < m.blocks.len(),
        descends(m.parents, d, a),
        forall|k: int|
            0 <= k < m.blocks.len() && !descends(m.parents, k, a) ==> depth(m.parents, k) < depth(
                m.parents,
                d,
            ),
    ensures
        main_path(m).contains(a as usize),
        a > 0 ==> exists|k: int|
            0 < k < main_path(m).len() && #[trigger] main_path(m)[k] == a as usize && main_path(
                m,
            )[k - 1] == m.parents[a],
{
    let n = m.blocks.len() as int;
    lemma_tip(m.parents, n);
    let t = tip(m.parents, n);
    lemma_tip_max(m.parents, n, d);
    assert(descends(m.parents, t, a));
    if a > 0 {
        let p = path(m.parents, t);
        lemma_path(m.parents, t);
        let k = choose|k: int| 0 <= k < p.len() && p[k] == a as usize;
        assert(k != 0);
        lemma_path_links(m.parents, t, k);
        assert(main_path(m)[k] == a as usize);
    }
}

/// A ledger built by pushes re-verifies: every block but the root is still
/// valid on top of its parent against the tree it was admitted into.
pub proof fn lemma_pushed_ledger_reverifies(m: LedgerModel)
    requires
        ledger_wf(m),
    ensures
        whole_tree_valid(m),
{
}

} // verus!
