use vstd::prelude::*;

use crate::block::{Block, BlockModel, block_hash, pow_ok};
use crate::consts::INITIAL_COIN_AMOUNT;
use crate::encoding::{bytes_eq, concat_map};
use crate::ledger_model::{
    blocks_along, first_with_hash, lemma_path, lemma_path_extend, lemma_first_with_hash_none, main_chain, outputs_of, path,
    resolve, resolved_sum, tip, tree_shaped, tree_valid, tx_valid, valid_child, ledger_wf,
    LedgerModel, UtxoModel, tx_outputs, tx_outputs_fn, block_outputs, block_outputs_fn, tx_spends, tx_spends_fn, block_spends, block_spends_fn, spends_of, unspent,
};
use crate::transaction::{
    minting_tx, tx_hash, Identity, OutputModel, Transaction, TransactionInput, TransactionOutput,
    TxModel,
};
use crate::utxo::{
    block_views, in_range, keep_unspent, outputs_along, resolve_in, spends_along, utxo_views, Utxo,
};
use crate::validation::{check_block, check_transaction, sum_resolved};

verus! {

pub open spec fn tx_views(s: Seq<Transaction>) -> Seq<TxModel> {
    s.map_values(|t: Transaction| t@)
}

/// Whether `b` may join the tree of `m`: no block of the tree has `b`'s
/// hash, some block has the hash `b` names as its parent's, and `b` is valid
/// on top of the earliest such block.
pub open spec fn admissible(m: LedgerModel, b: BlockModel) -> bool {
    &&& first_with_hash(m.blocks, block_hash(b)) is None
    &&& match first_with_hash(m.blocks, b.prev_hash) {
        Some(p) => valid_child(m.blocks, m.parents, p, b),
        None => false,
    }
}

/// The one unspent output of a new ledger: the initial supply, held by `payee`.
pub open spec fn genesis_utxo(payee: Seq<u8>) -> UtxoModel {
    UtxoModel {
        tx_hash: tx_hash(minting_tx(INITIAL_COIN_AMOUNT, payee)),
        index: 0,
        output: OutputModel { amount: INITIAL_COIN_AMOUNT, payee },
    }
}

/// Every block but the root is valid on top of its parent, against the tree
/// as it stood when the block was admitted.
pub open spec fn whole_tree_valid(m: LedgerModel) -> bool {
    forall|i: int|
        0 < i < m.blocks.len() ==> valid_child(
            m.blocks.take(i),
            m.parents,
            #[trigger] m.parents[i] as int,
            m.blocks[i],
        )
}

/// Where `b` joins the tree of `m`.
pub open spec fn attach_point(m: LedgerModel, b: BlockModel) -> int {
    if m.blocks.len() == 0 {
        0
    } else {
        first_with_hash(m.blocks, b.prev_hash).unwrap()
    }
}

/// The ledger: every block ever admitted, as a tree rooted at the genesis
/// block, the transactions waiting to be mined, and the UTXO set of the main
/// chain. Blocks are kept in the order they were admitted, each with the
/// position of its parent.
pub struct Blockchain {
    blocks: Vec<Block>,
    parents: Vec<usize>,
    unmined_transactions: Vec<Transaction>,
    utxos: Vec<Utxo>,
}

impl View for Blockchain {
    type V = LedgerModel;

    closed spec fn view(&self) -> LedgerModel {
        LedgerModel {
            blocks: block_views(self.blocks@),
            parents: self.parents@,
            pending: tx_views(self.unmined_transactions@),
            utxos: utxo_views(self.utxos@),
        }
    }
}

/// The positions 0 .. n.
fn all_positions(n: usize) -> (r: Vec<usize>)
    ensures
        r@.len() == n,
        forall|k: int| 0 <= k < n ==> r@[k] as int == k,
{
    let mut r: Vec<usize> = Vec::new();
    let mut i: usize = 0;
    while i < n
        invariant
            i <= n,
            r@.len() == i,
            forall|k: int| 0 <= k < i ==> r@[k] as int == k,
        decreases n - i,
    {
        r.push(i);
        i = i + 1;
    }
    r
}

/// The positions from the root to block `k`.
fn path_to(ps: &Vec<usize>, k: usize) -> (r: Vec<usize>)
    requires
        tree_shaped(ps@),
        k < ps@.len(),
    ensures
        r@ == path(ps@, k as int),
    decreases k,
{
    if k == 0 {
        let mut r: Vec<usize> = Vec::new();
        r.push(0);
        assert(r@ =~= path(ps@, 0));
        r
    } else {
        let p = ps[k];
        assert((p as int) < k);
        let mut r = path_to(ps, p);
        r.push(k);
        r
    }
}

/// The positions of the main chain of the tree `ps`.
fn main_path_exec(ps: &Vec<usize>) -> (r: Vec<usize>)
    requires
        tree_shaped(ps@),
    ensures
        r@ == (if ps@.len() == 0 {
            seq![]
        } else {
            path(ps@, tip(ps@, ps@.len() as int))
        }),
        in_range(r@, ps@.len() as int),
{
    let n = ps.len();
    if n == 0 {
        return Vec::new();
    }
    let mut d: Vec<usize> = Vec::new();
    d.push(1);
    assert(path(ps@, 0) =~= seq![0usize]);
    let mut t: usize = 0;
    let mut i: usize = 1;
    while i < n
        invariant
            1 <= i <= n,
            n == ps@.len(),
            tree_shaped(ps@),
            d@.len() == i,
            forall|k: int| 0 <= k < i ==> d@[k] as int == path(ps@, k).len(),
            t < i,
            t as int == tip(ps@, i as int),
        decreases n - i,
    {
        let p = ps[i];
        assert((p as int) < i);
        proof {
            lemma_path(ps@, p as int);
        }
        let di = d[p] + 1;
        assert(path(ps@, i as int) == path(ps@, p as int).push(i));
        d.push(di);
        if di > d[t] {
            t = i;
        }
        i = i + 1;
    }
    proof {
        lemma_path(ps@, t as int);
    }
    path_to(ps, t)
}

impl Blockchain {
    #[verifier::type_invariant]
    closed spec fn inv(&self) -> bool {
        ledger_wf(self@)
    }

    /// A ledger over a valid tree, with the UTXO set of its main chain.
    fn rebuild(blocks: Vec<Block>, parents: Vec<usize>, pending: Vec<Transaction>) -> (r: Blockchain)
        requires
            tree_valid(block_views(blocks@), parents@),
        ensures
            r@.blocks == block_views(blocks@),
            r@.parents == parents@,
            r@.pending == tx_views(pending@),
    {
        let p = main_path_exec(&parents);
        let outs = outputs_along(&blocks, &p);
        let sp = spends_along(&blocks, &p);
        let utxos = keep_unspent(&outs, &sp);
        Blockchain { blocks, parents, unmined_transactions: pending, utxos }
    }

    /// A ledger with no block at all; the first block pushed becomes its root.
    pub fn new_empty() -> (r: Blockchain)
        ensures
            ledger_wf(r@),
            r@.blocks.len() == 0,
            r@.pending.len() == 0,
            r@.utxos.len() == 0,
    {
        let r = Blockchain::rebuild(Vec::new(), Vec::new(), Vec::new());
        proof {
            use_type_invariant(&r);
            assert(r@.parents.len() == 0);
        }
        r
    }

    /// A new ledger whose root block grants the initial supply to
    /// `initial_payee` through a single unsigned transaction.
    pub fn new(initial_payee: Identity) -> (r: Blockchain)
        ensures
            ledger_wf(r@),
            r@.blocks.len() == 1,
            r@.blocks[0].prev_hash == Seq::<u8>::empty(),
            r@.blocks[0].transactions == seq![minting_tx(INITIAL_COIN_AMOUNT, initial_payee@)],
            r@.parents == seq![0usize],
            r@.pending.len() == 0,
            r@.utxos == seq![genesis_utxo(initial_payee@)],
    {
        let tx = Transaction::minting(INITIAL_COIN_AMOUNT, initial_payee);
        let h = tx.hash();
        let ghost g = tx@;
        let mut txs: Vec<Transaction> = Vec::new();
        txs.push(tx);
        let root = Block::new(Vec::new(), txs);
        let mut blocks: Vec<Block> = Vec::new();
        blocks.push(root);
        let mut parents: Vec<usize> = Vec::new();
        parents.push(0);
        let r = Blockchain::rebuild(blocks, parents, Vec::new());
        proof {
            use_type_invariant(&r);
        }
        assert(r@.blocks[0].transactions =~= seq![minting_tx(INITIAL_COIN_AMOUNT, initial_payee@)]);
        assert(r@.blocks[0].prev_hash =~= Seq::<u8>::empty());
        assert(r@.pending =~= Seq::<TxModel>::empty());
        proof {
            let m = r@;
            let b = m.blocks[0];
            assert(path(m.parents, 0) =~= seq![0usize]);
            assert(tip(m.parents, 1) == 0);
            let mc = main_chain(m);
            assert(mc =~= seq![b]);
            assert(mc.drop_last() =~= Seq::<BlockModel>::empty());
            assert(b.transactions.drop_last() =~= Seq::<TxModel>::empty());
            assert(b.transactions.last() == g);
            let u = genesis_utxo(initial_payee@);
            assert(tx_outputs(g) =~= seq![u]);
            assert(b.transactions.len() == 1);
            assert(concat_map(b.transactions.drop_last(), tx_outputs_fn()) =~= Seq::<UtxoModel>::empty());
            assert(block_outputs(b) =~= Seq::<UtxoModel>::empty() + tx_outputs(g));
            assert(block_outputs(b) =~= seq![u]);
            assert(concat_map(mc.drop_last(), block_outputs_fn()) =~= Seq::<UtxoModel>::empty());
            assert(outputs_of(mc) =~= Seq::<UtxoModel>::empty() + block_outputs(b));
            assert(outputs_of(mc) =~= seq![u]);
            assert(tx_spends(g) =~= seq![(Seq::<u8>::empty(), 0u32)]);
            assert(concat_map(b.transactions.drop_last(), tx_spends_fn()) =~= Seq::<(Seq<u8>, u32)>::empty());
            assert(block_spends(b) =~= Seq::<(Seq<u8>, u32)>::empty() + tx_spends(g));
            assert(block_spends(b) =~= seq![(Seq::<u8>::empty(), 0u32)]);
            let sp = spends_of(mc);
            assert(concat_map(mc.drop_last(), block_spends_fn()) =~= Seq::<(Seq<u8>, u32)>::empty());
            assert(sp =~= Seq::<(Seq<u8>, u32)>::empty() + block_spends(b));
            assert(sp =~= seq![(Seq::<u8>::empty(), 0u32)]);
            assert(h@.len() == 32);
            assert(u.tx_hash != Seq::<u8>::empty());
            assert(!sp.contains((u.tx_hash, u.index)));
            assert(seq![u].drop_last() =~= Seq::<UtxoModel>::empty());
            assert(unspent(Seq::<UtxoModel>::empty(), sp) =~= Seq::<UtxoModel>::empty());
            assert(unspent(seq![u], sp) =~= Seq::<UtxoModel>::empty().push(u));
            assert(unspent(seq![u], sp) =~= seq![u]);
        }
        r
    }

    /// The number of blocks in the tree.
    pub fn num_blocks(&self) -> (r: usize)
        ensures
            r == self@.blocks.len(),
    {
        self.blocks.len()
    }

    /// The UTXO set of the main chain.
    pub fn utxos(&self) -> (r: &Vec<Utxo>)
        ensures
            utxo_views(r@) == self@.utxos,
    {
        &self.utxos
    }

    /// The transactions waiting to be mined.
    pub fn unmined_transactions(&self) -> (r: &Vec<Transaction>)
        ensures
            tx_views(r@) == self@.pending,
    {
        &self.unmined_transactions
    }

    /// Adds a transaction to those waiting to be mined.
    pub fn add_unmined_transaction(&mut self, t: Transaction)
        ensures
            ledger_wf(final(self)@),
            final(self)@.pending == old(self)@.pending.push(t@),
            final(self)@.blocks == old(self)@.blocks,
            final(self)@.parents == old(self)@.parents,
            final(self)@.utxos == old(self)@.utxos,
    {
        proof {
            use_type_invariant(&*self);
        }
        let mut tmp = Blockchain::new_empty();
        std::mem::swap(self, &mut tmp);
        let Blockchain { blocks, parents, mut unmined_transactions, utxos } = tmp;
        let ghost before = unmined_transactions@;
        unmined_transactions.push(t);
        assert(tx_views(unmined_transactions@) =~= tx_views(before).push(t@));
        *self = Blockchain { blocks, parents, unmined_transactions, utxos };
        proof {
            use_type_invariant(&*self);
        }
    }

    /// The blocks of the main chain, root first.
    pub fn main_chain(&self) -> (r: Vec<Block>)
        ensures
            block_views(r@) == main_chain(self@),
    {
        proof {
            use_type_invariant(self);
        }
        let p = main_path_exec(&self.parents);
        let ghost want = main_chain(self@);
        let mut r: Vec<Block> = Vec::new();
        let mut k: usize = 0;
        while k < p.len()
            invariant
                k <= p@.len(),
                in_range(p@, self.blocks@.len() as int),
                want == blocks_along(block_views(self.blocks@), p@),
                block_views(r@) == want.take(k as int),
            decreases p@.len() - k,
        {
            let b = self.blocks[p[k]].clone();
            assert(b@ == self.blocks@[p@[k as int] as int]@);
            let ghost before = r@;
            r.push(b);
            assert(block_views(r@) =~= block_views(before).push(b@));
            assert(block_views(r@) =~= want.take(k + 1));
            k = k + 1;
        }
        assert(want.take(p@.len() as int) =~= want);
        r
    }

    /// Every block of the tree, in the order they were admitted.
    pub fn all_blocks(&self) -> (r: Vec<Block>)
        ensures
            block_views(r@) == self@.blocks,
    {
        let mut r: Vec<Block> = Vec::new();
        let mut k: usize = 0;
        while k < self.blocks.len()
            invariant
                k <= self.blocks@.len(),
                block_views(r@) == block_views(self.blocks@).take(k as int),
            decreases self.blocks@.len() - k,
        {
            let b = self.blocks[k].clone();
            assert(b@ == self.blocks@[k as int]@);
            let ghost before = r@;
            r.push(b);
            assert(block_views(r@) =~= block_views(before).push(b@));
            assert(block_views(r@) =~= block_views(self.blocks@).take(k + 1));
            k = k + 1;
        }
        assert(block_views(self.blocks@).take(self.blocks@.len() as int) =~= block_views(self.blocks@));
        r
    }

    /// Recomputes the UTXO set from the main chain: the outputs it makes that
    /// none of its inputs consume.
    pub fn compute_utxos(&mut self)
        ensures
            ledger_wf(final(self)@),
            final(self)@ == old(self)@,
            final(self)@.utxos == crate::ledger_model::utxos_of(main_chain(old(self)@)),
    {
        proof {
            use_type_invariant(&*self);
        }
        let mut tmp = Blockchain::new_empty();
        std::mem::swap(self, &mut tmp);
        let Blockchain { blocks, parents, unmined_transactions, utxos: _ } = tmp;
        *self = Blockchain::rebuild(blocks, parents, unmined_transactions);
        proof {
            use_type_invariant(&*self);
        }
    }
}

impl Blockchain {
    /// The position of the earliest admitted block whose hash is `h`.
    pub fn find_parent(&self, h: &[u8]) -> (r: Option<usize>)
        ensures
            match r {
                Some(p) => first_with_hash(self@.blocks, h@) == Some(p as int),
                None => first_with_hash(self@.blocks, h@) is None,
            },
    {
        let ghost bv = self@.blocks;
        let mut i: usize = 0;
        while i < self.blocks.len()
            invariant
                i <= bv.len(),
                bv == block_views(self.blocks@),
                first_with_hash(bv.take(i as int), h@) is None,
            decreases bv.len() - i,
        {
            let bh = self.blocks[i].hash();
            assert(bv.take(i + 1).drop_last() =~= bv.take(i as int));
            assert(bv.take(i + 1).last() == bv[i as int]);
            if bytes_eq(bh.as_slice(), h) {
                proof {
                    lemma_first_with_hash_prefix(bv, h@, i as int + 1);
                }
                return Some(i);
            }
            i = i + 1;
        }
        assert(bv.take(bv.len() as int) =~= bv);
        None
    }

    /// Whether `b` is valid as a child of block `p` of the tree formed by the
    /// first `upto` blocks; `outs` holds every output of those blocks.
    fn check_child(&self, outs: &Vec<Utxo>, upto: usize, p: usize, b: &Block) -> (r: bool)
        requires
            p < upto <= self@.blocks.len(),
            utxo_views(outs@) == outputs_of(self@.blocks.take(upto as int)),
        ensures
            r == valid_child(self@.blocks.take(upto as int), self@.parents, p as int, b@),
    {
        proof {
            use_type_invariant(self);
            lemma_path(self.parents@, p as int);
        }
        let path = path_to(&self.parents, p);
        let po = outputs_along(&self.blocks, &path);
        let ps = spends_along(&self.blocks, &path);
        let view = keep_unspent(&po, &ps);
        let r = check_block(outs, &view, &self.blocks[p], b);
        proof {
            let bv = self@.blocks;
            assert(blocks_along(bv.take(upto as int), path@) =~= blocks_along(bv, path@));
            assert(bv.take(upto as int)[p as int] == bv[p as int]);
            reveal(valid_child);
        }
        r
    }

    /// Every output made by the first `upto` blocks, in the order they were admitted.
    fn outputs_upto(&self, upto: usize) -> (r: Vec<Utxo>)
        requires
            upto <= self@.blocks.len(),
        ensures
            utxo_views(r@) == outputs_of(self@.blocks.take(upto as int)),
    {
        let all = all_positions(upto);
        let r = outputs_along(&self.blocks, &all);
        assert(blocks_along(block_views(self.blocks@), all@) =~= block_views(self.blocks@).take(
            upto as int,
        ));
        r
    }

    /// Every output made in the tree, in the order blocks were admitted.
    fn tree_outputs(&self) -> (r: Vec<Utxo>)
        ensures
            utxo_views(r@) == outputs_of(self@.blocks),
    {
        let all = all_positions(self.blocks.len());
        let r = outputs_along(&self.blocks, &all);
        assert(blocks_along(block_views(self.blocks@), all@) =~= block_views(self.blocks@));
        r
    }

    /// Whether `block` could be pushed onto this (non-empty) tree: some block
    /// has the hash it names as its parent's, and it is valid on top of the
    /// earliest such block.
    pub fn verify_new_block(&self, block: &Block) -> (r: bool)
        ensures
            r == admissible(self@, block@),
    {
        let own_hash = block.hash();
        if self.find_parent(own_hash.as_slice()).is_some() {
            return false;
        }
        let p = match self.find_parent(block.prev_hash.as_slice()) {
            Some(p) => p,
            None => {
                return false;
            },
        };
        proof {
            lemma_first_with_hash_range(self@.blocks, block@.prev_hash);
        }
        let outs = self.tree_outputs();
        assert(self@.blocks.take(self@.blocks.len() as int) =~= self@.blocks);
        self.check_child(&outs, self.blocks.len(), p, block)
    }

    /// Re-verifies the whole tree: every block but the root is valid on top
    /// of its parent, against the tree as it stood when the block was
    /// admitted. On a ledger built by pushes this always holds.
    pub fn verify(&self) -> (r: bool)
        ensures
            r == whole_tree_valid(self@),
            r,
    {
        proof {
            use_type_invariant(self);
        }
        let n = self.blocks.len();
        let mut i: usize = 1;
        while i < n
            invariant
                1 <= i,
                n == self@.blocks.len(),
                n == self@.parents.len(),
                tree_shaped(self@.parents),
                tree_valid(self@.blocks, self@.parents),
                forall|k: int|
                    0 < k < i && k < n ==> valid_child(
                        self@.blocks.take(k),
                        self@.parents,
                        #[trigger] self@.parents[k] as int,
                        self@.blocks[k],
                    ),
            decreases n - i,
        {
            let p = self.parents[i];
            assert((p as int) < i);
            let outs = self.outputs_upto(i);
            if !self.check_child(&outs, i, p, &self.blocks[i]) {
                assert(valid_child(
                    self@.blocks.take(i as int),
                    self@.parents,
                    self@.parents[i as int] as int,
                    self@.blocks[i as int],
                ));
                return false;
            }
            i = i + 1;
        }
        true
    }

    /// Attaches `block` to the tree. A ledger without blocks takes any block
    /// as its root. Otherwise the block joins as a child of the earliest
    /// admitted block whose hash it names, if it is valid there; if not, the
    /// ledger is left unchanged and `false` is returned. The UTXO set is
    /// recomputed after every admission.
    pub fn push_block(&mut self, block: Block) -> (r: bool)
        ensures
            ledger_wf(final(self)@),
            old(self)@.blocks.len() == 0 ==> r,
            old(self)@.blocks.len() > 0 ==> r == admissible(old(self)@, block@),
            r && old(self)@.blocks.len() > 0 ==> pow_ok(block_hash(block@)),
            r ==> final(self)@.blocks == old(self)@.blocks.push(block@),
            r ==> final(self)@.parents == old(self)@.parents.push(
                attach_point(old(self)@, block@) as usize,
            ),
            !r ==> final(self)@ == old(self)@,
            final(self)@.pending == old(self)@.pending,
    {
        proof {
            use_type_invariant(&*self);
        }
        let ghost m = self@;
        let p: usize;
        if self.blocks.len() == 0 {
            p = 0;
        } else {
            if !self.verify_new_block(&block) {
                return false;
            }
            proof {
                lemma_admissible_meets_difficulty(m, block@);
            }
            p = match self.find_parent(block.prev_hash.as_slice()) {
                Some(k) => k,
                None => {
                    return false;
                },
            };
            proof {
                lemma_first_with_hash_range(m.blocks, block@.prev_hash);
            }
        }
        let mut tmp = Blockchain::new_empty();
        std::mem::swap(self, &mut tmp);
        let Blockchain { mut blocks, mut parents, unmined_transactions, utxos: _ } = tmp;
        let ghost bv = block_views(blocks@);
        let ghost ps = parents@;
        let ghost b = block@;
        blocks.push(block);
        parents.push(p);
        let _ = parents.len();
        proof {
            assert(block_views(blocks@) =~= bv.push(b));
            lemma_tree_valid_push(bv, ps, b, p);
        }
        *self = Blockchain::rebuild(blocks, parents, unmined_transactions);
        proof {
            use_type_invariant(&*self);
        }
        true
    }
}

/// Admitting a block valid on top of an existing one keeps the tree valid.
pub proof fn lemma_tree_valid_push(bv: Seq<BlockModel>, ps: Seq<usize>, b: BlockModel, p: usize)
    requires
        tree_valid(bv, ps),
        ps.len() + 1 <= usize::MAX,
        bv.len() == 0 ==> p == 0,
        bv.len() > 0 ==> (p as int) < bv.len() && valid_child(bv, ps, p as int, b),
        first_with_hash(bv, block_hash(b)) is None,
    ensures
        tree_valid(bv.push(b), ps.push(p)),
{
    let bv2 = bv.push(b);
    let ps2 = ps.push(p);
    assert forall|x: int, y: int| 0 <= x < y < bv2.len() implies block_hash(#[trigger] bv2[x])
        != block_hash(#[trigger] bv2[y]) by {
        if y == bv.len() {
            lemma_first_with_hash_none(bv, block_hash(b), x);
        } else {
            assert(bv2[x] == bv[x] && bv2[y] == bv[y]);
        }
    }
    assert forall|i: int| 0 < i < ps2.len() implies (#[trigger] ps2[i] as int) < i by {
        if i < ps.len() {
            assert(ps2[i] == ps[i]);
        }
    }
    assert forall|i: int| 0 < i < bv2.len() implies valid_child(
        bv2.take(i),
        ps2,
        #[trigger] ps2[i] as int,
        bv2[i],
    ) by {
        if i < bv.len() {
            assert(bv2.take(i) =~= bv.take(i));
            assert(ps2[i] == ps[i]);
            assert(valid_child(bv.take(i), ps, ps[i] as int, bv[i]));
            lemma_valid_child_extend(bv.take(i), ps, p, ps[i] as int, bv[i]);
        } else {
            assert(bv2.take(i) =~= bv);
            lemma_valid_child_extend(bv, ps, p, p as int, b);
        }
    }
}

/// A block admissible on a tree meets the difficulty.
pub proof fn lemma_admissible_meets_difficulty(m: LedgerModel, b: BlockModel)
    requires
        admissible(m, b),
    ensures
        pow_ok(block_hash(b)),
{
    reveal(valid_child);
}

/// Adding a later block to the tree does not change whether `b` is valid on
/// top of an existing block `q`.
pub proof fn lemma_valid_child_extend(bv: Seq<BlockModel>, ps: Seq<usize>, x: usize, q: int, b: BlockModel)
    requires
        0 <= q < ps.len(),
    ensures
        valid_child(bv, ps.push(x), q, b) == valid_child(bv, ps, q, b),
{
    reveal(valid_child);
    lemma_path_extend(ps, x, q);
}

/// The earliest block with a given hash is a block of the sequence with that hash.
pub proof fn lemma_first_with_hash_range(bs: Seq<BlockModel>, h: Seq<u8>)
    ensures
        first_with_hash(bs, h) matches Some(k) ==> 0 <= k < bs.len() && block_hash(bs[k]) == h,
    decreases bs.len(),
{
    if bs.len() > 0 {
        lemma_first_with_hash_range(bs.drop_last(), h);
    }
}

/// If a prefix holds a block with hash `h`, the earliest such block is found
/// there as in the whole sequence.
pub proof fn lemma_first_with_hash_prefix(bs: Seq<BlockModel>, h: Seq<u8>, n: int)
    requires
        0 <= n <= bs.len(),
        first_with_hash(bs.take(n), h) is Some,
    ensures
        first_with_hash(bs, h) == first_with_hash(bs.take(n), h),
    decreases bs.len() - n,
{
    if n < bs.len() {
        assert(bs.take(n + 1).drop_last() =~= bs.take(n));
        lemma_first_with_hash_prefix(bs, h, n + 1);
    } else {
        assert(bs.take(n) =~= bs);
    }
}

impl TransactionInput {
    /// The output this input refers to, when exactly one output in the whole
    /// tree matches its (hash, index) pair.
    pub fn get_used_tx_out(&self, chain: &Blockchain) -> (r: Option<TransactionOutput>)
        ensures
            match r {
                Some(o) => resolve(outputs_of(chain@.blocks), self@) == Some(o@),
                None => resolve(outputs_of(chain@.blocks), self@) is None,
            },
    {
        let outs = chain.tree_outputs();
        resolve_in(&outs, self)
    }
}

impl Transaction {
    /// The sum of the amounts its inputs resolve to in the tree, or `None`
    /// when one of them does not resolve.
    pub fn tx_ins_sum(&self, chain: &Blockchain) -> (r: Option<u128>)
        ensures
            r is Some <==> forall|k: int|
                0 <= k < self@.inputs.len() ==> (#[trigger] resolve(
                    outputs_of(chain@.blocks),
                    self@.inputs[k],
                )) is Some,
            r matches Some(x) ==> x == resolved_sum(outputs_of(chain@.blocks), self@.inputs),
    {
        let outs = chain.tree_outputs();
        let r = sum_resolved(&outs, &self.transaction_inputs);
        let ghost os = outputs_of(chain@.blocks);
        assert(self.transaction_inputs@.map_values(|i: TransactionInput| i@) == self@.inputs);
        if r.is_some() {
            assert forall|k: int| 0 <= k < self@.inputs.len() implies (#[trigger] resolve(
                os,
                self@.inputs[k],
            )) is Some by {
                assert(self@.inputs[k] == self.transaction_inputs@[k]@);
                assert(resolve(os, self.transaction_inputs@[k]@) is Some);
            }
        } else {
            proof {
                let k = choose|k: int|
                    0 <= k < self.transaction_inputs@.len() && !((#[trigger] resolve(
                        os,
                        self.transaction_inputs@[k]@,
                    )) is Some);
                assert(self@.inputs[k] == self.transaction_inputs@[k]@);
            }
        }
        r
    }

    /// Whether the transaction may be accepted now: each input resolves in
    /// the tree, is still unspent, is signed by the output's payee, no output
    /// is spent twice, and the outputs sum to no more than the inputs.
    pub fn verify(&self, chain: &Blockchain) -> (r: bool)
        ensures
            r == tx_valid(outputs_of(chain@.blocks), chain@.utxos, self@),
    {
        let outs = chain.tree_outputs();
        check_transaction(&outs, chain.utxos(), self)
    }
}

impl Block {
    /// Whether the block names `prev_hash` as its parent's hash and could be
    /// pushed onto `chain`.
    pub fn verify(&self, prev_hash: &[u8], chain: &Blockchain) -> (r: bool)
        ensures
            r == (self@.prev_hash == prev_hash@ && admissible(chain@, self@)),
    {
        if !bytes_eq(self.prev_hash.as_slice(), prev_hash) {
            return false;
        }
        chain.verify_new_block(self)
    }
}

} // verus!
