use vstd::prelude::*;

use crate::block::Block;
use crate::consts::MINING_REWARD;
use crate::crypto::verify_signature;
use crate::encoding::{bytes_eq, concat_map, lemma_concat_map_step};
use crate::ledger_model::{
    block_valid, distinct, input_ok, offers, outpoint, resolve, resolved_sum, reward_ok, tx_spends,
    tx_spends_fn, tx_valid,
};
use crate::transaction::{InputModel, Transaction, TransactionInput};
use crate::utxo::{outpoint_views, resolve_in, utxo_views, Outpoint, Utxo};

verus! {

/// Whether `view` holds an output with the pair (`h`, `idx`).
pub fn offers_exec(view: &Vec<Utxo>, h: &[u8], idx: u32) -> (r: bool)
    ensures
        r == offers(utxo_views(view@), (h@, idx)),
{
    let mut k: usize = 0;
    while k < view.len()
        invariant
            k <= view@.len(),
            forall|m: int|
                0 <= m < k ==> !(utxo_views(view@)[m].tx_hash == h@ && utxo_views(view@)[m].index
                    == idx),
        decreases view@.len() - k,
    {
        if view[k].index == idx && bytes_eq(view[k].tx_hash.as_slice(), h) {
            assert(utxo_views(view@)[k as int] == view@[k as int]@);
            return true;
        }
        k = k + 1;
    }
    false
}

impl TransactionInput {
    /// Whether the input's signature checks against its payer's key; an
    /// input without a payer carries no signature to check.
    pub fn verify(&self) -> (r: bool)
        ensures
            r == match self@.payer {
                Some(p) => crate::crypto::signature_valid(p, crate::transaction::input_hash(self@), self@.signature),
                None => true,
            },
    {
        match &self.payer {
            Some(p) => {
                let h = self.hash();
                verify_signature(p.key.as_slice(), h.as_slice(), self.signature.as_slice())
            },
            None => true,
        }
    }
}

/// Whether `input` is spendable: see `input_ok`.
pub fn check_input(outs: &Vec<Utxo>, view: &Vec<Utxo>, input: &TransactionInput) -> (r: bool)
    ensures
        r == input_ok(utxo_views(outs@), utxo_views(view@), input@),
{
    let resolved = resolve_in(outs, input);
    let o = match resolved {
        Some(o) => o,
        None => {
            return false;
        },
    };
    if !offers_exec(view, input.prev_transaction_hash.as_slice(), input.prev_transaction_index) {
        return false;
    }
    let payer = match &input.payer {
        Some(p) => p,
        None => {
            return false;
        },
    };
    if !payer.same(&o.payee) {
        return false;
    }
    let h = input.hash();
    verify_signature(payer.key.as_slice(), h.as_slice(), input.signature.as_slice())
}

pub proof fn lemma_resolved_sum_bound(outs: Seq<crate::ledger_model::UtxoModel>, ins: Seq<InputModel>)
    ensures
        resolved_sum(outs, ins) <= ins.len() * 0xffff_ffff,
    decreases ins.len(),
{
    if ins.len() > 0 {
        lemma_resolved_sum_bound(outs, ins.drop_last());
    }
}

/// The sum of the amounts the inputs resolve to among `outs`, or `None` when
/// one of them does not resolve.
pub fn sum_resolved(outs: &Vec<Utxo>, ins: &Vec<TransactionInput>) -> (r: Option<u128>)
    ensures
        r is Some <==> forall|k: int|
            0 <= k < ins@.len() ==> (#[trigger] resolve(utxo_views(outs@), ins@[k]@)) is Some,
        r matches Some(x) ==> x == resolved_sum(
            utxo_views(outs@),
            ins@.map_values(|i: TransactionInput| i@),
        ),
{
    let ghost os = utxo_views(outs@);
    let ghost iv = ins@.map_values(|i: TransactionInput| i@);
    let n = ins.len();
    let mut acc: u128 = 0;
    let mut k: usize = 0;
    while k < n
        invariant
            k <= n,
            n == ins@.len(),
            iv == ins@.map_values(|i: TransactionInput| i@),
            os == utxo_views(outs@),
            acc == resolved_sum(os, iv.take(k as int)),
            forall|m: int| 0 <= m < k ==> (#[trigger] resolve(os, ins@[m]@)) is Some,
        decreases n - k,
    {
        let o = resolve_in(outs, &ins[k]);
        assert(iv.take(k + 1).drop_last() =~= iv.take(k as int));
        assert(iv.take(k + 1).last() == ins@[k as int]@);
        match o {
            None => {
                assert(resolve(os, ins@[k as int]@) is None);
                return None;
            },
            Some(o) => {
                proof {
                    lemma_resolved_sum_bound(os, iv.take(k + 1));
                    assert((k + 1) * 0xffff_ffff <= 0x1_0000_0000_0000_0000 * 0xffff_ffff)
                        by (nonlinear_arith)
                        requires
                            k + 1 <= 0x1_0000_0000_0000_0000,
                    ;
                }
                acc = acc + o.amount as u128;
            },
        }
        k = k + 1;
    }
    assert(iv.take(n as int) =~= iv);
    Some(acc)
}

/// Whether no pair occurs twice in `s`.
pub fn distinct_exec(s: &Vec<Outpoint>) -> (r: bool)
    ensures
        r == distinct(outpoint_views(s@)),
{
    let ghost v = outpoint_views(s@);
    let mut b: usize = 0;
    while b < s.len()
        invariant
            b <= s@.len(),
            v == outpoint_views(s@),
            forall|x: int, y: int| 0 <= x < y < b ==> v[x] != v[y],
        decreases s@.len() - b,
    {
        let mut a: usize = 0;
        while a < b
            invariant
                a <= b < s@.len(),
                v == outpoint_views(s@),
                forall|x: int, y: int| 0 <= x < y < b ==> v[x] != v[y],
                forall|x: int| 0 <= x < a ==> v[x] != v[b as int],
            decreases b - a,
        {
            if s[a].index == s[b].index && bytes_eq(s[a].tx_hash.as_slice(), s[b].tx_hash.as_slice()) {
                assert(v[a as int] == v[b as int]);
                return false;
            }
            a = a + 1;
        }
        b = b + 1;
    }
    true
}

/// Appends the pairs consumed by the inputs of `t`.
pub fn push_spends(r: &mut Vec<Outpoint>, t: &Transaction)
    ensures
        outpoint_views(final(r)@) == outpoint_views(old(r)@) + tx_spends(t@),
{
    let ghost base = outpoint_views(r@);
    let ghost sp = tx_spends(t@);
    let mut j: usize = 0;
    while j < t.transaction_inputs.len()
        invariant
            j <= t@.inputs.len(),
            sp == tx_spends(t@),
            outpoint_views(r@) == base + sp.take(j as int),
        decreases t@.inputs.len() - j,
    {
        let input = &t.transaction_inputs[j];
        let o = Outpoint {
            tx_hash: vstd::slice::slice_to_vec(input.prev_transaction_hash.as_slice()),
            index: input.prev_transaction_index,
        };
        let ghost before = r@;
        r.push(o);
        assert(outpoint_views(r@) =~= outpoint_views(before).push(o@));
        assert(sp.take(j + 1) =~= sp.take(j as int).push(sp[j as int]));
        assert(outpoint_views(r@) =~= base + sp.take(j + 1));
        j = j + 1;
    }
    assert(sp.take(t@.inputs.len() as int) =~= sp);
}

/// Whether `t` is valid against all outputs `outs` and the unspent outputs
/// `view`: see `tx_valid`.
pub fn check_transaction(outs: &Vec<Utxo>, view: &Vec<Utxo>, t: &Transaction) -> (r: bool)
    ensures
        r == tx_valid(utxo_views(outs@), utxo_views(view@), t@),
{
    let ghost os = utxo_views(outs@);
    let ghost vs = utxo_views(view@);
    let mut k: usize = 0;
    while k < t.transaction_inputs.len()
        invariant
            k <= t@.inputs.len(),
            os == utxo_views(outs@),
            vs == utxo_views(view@),
            forall|m: int| 0 <= m < k ==> input_ok(os, vs, #[trigger] t@.inputs[m]),
        decreases t@.inputs.len() - k,
    {
        if !check_input(outs, view, &t.transaction_inputs[k]) {
            assert(!input_ok(os, vs, t@.inputs[k as int]));
            return false;
        }
        k = k + 1;
    }
    let mut sp: Vec<Outpoint> = Vec::new();
    push_spends(&mut sp, t);
    assert(outpoint_views(sp@) =~= tx_spends(t@));
    if !distinct_exec(&sp) {
        return false;
    }
    let ins_sum = sum_resolved(outs, &t.transaction_inputs);
    match ins_sum {
        None => {
            assert(false) by {
                assert forall|k: int| 0 <= k < t.transaction_inputs@.len() implies (#[trigger] resolve(
                    os,
                    t.transaction_inputs@[k]@,
                )) is Some by {
                    assert(input_ok(os, vs, t@.inputs[k]));
                }
            }
            false
        },
        Some(s) => {
            assert(t.transaction_inputs@.map_values(|i: TransactionInput| i@) == t@.inputs);
            t.tx_outs_sum() <= s
        },
    }
}

/// Whether `b` is valid on top of `parent`: see `block_valid`.
pub fn check_block(outs: &Vec<Utxo>, view: &Vec<Utxo>, parent: &Block, b: &Block) -> (r: bool)
    ensures
        r == block_valid(utxo_views(outs@), utxo_views(view@), parent@, b@),
{
    let ph = parent.hash();
    if !bytes_eq(b.prev_hash.as_slice(), ph.as_slice()) {
        return false;
    }
    if !b.verify_nonce() {
        return false;
    }
    let n = b.transactions.len();
    if n == 0 {
        return false;
    }
    let reward = &b.transactions[n - 1];
    assert(b@.transactions.last() == reward@);
    if reward.transaction_outputs.len() != 1 {
        return false;
    }
    if reward.transaction_outputs[0].amount != MINING_REWARD {
        return false;
    }
    let ghost txs = b@.transactions;
    let ghost os = utxo_views(outs@);
    let ghost vs = utxo_views(view@);
    let mut sp: Vec<Outpoint> = Vec::new();
    let mut k: usize = 0;
    while k < n - 1
        invariant
            n == txs.len(),
            n >= 1,
            k <= n - 1,
            txs == b@.transactions,
            os == utxo_views(outs@),
            vs == utxo_views(view@),
            forall|m: int| 0 <= m < k ==> tx_valid(os, vs, #[trigger] txs[m]),
            outpoint_views(sp@) == concat_map(txs.take(k as int), tx_spends_fn()),
        decreases n - 1 - k,
    {
        let t = &b.transactions[k];
        if !check_transaction(outs, view, t) {
            assert(!tx_valid(os, vs, txs[k as int]));
            return false;
        }
        push_spends(&mut sp, t);
        proof {
            lemma_concat_map_step(txs, tx_spends_fn(), k as int);
        }
        k = k + 1;
    }
    assert(txs.take(n - 1) =~= txs.drop_last());
    distinct_exec(&sp)
}

} // verus!
