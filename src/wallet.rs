use vstd::prelude::*;

use crate::blockchain::Blockchain;
use crate::crypto::sign_digest;
use crate::ledger_model::UtxoModel;
use crate::message::{InternalMessage, MessageDest, MessageSource, MessageType, MessageTypeModel};
use crate::transaction::{
    input_hash, minting_tx, payer_view, Identity, InputModel, OutputModel, Transaction,
    TransactionInput, TransactionOutput, TxModel,
};
use crate::utxo::{utxo_views, Utxo};

verus! {

/// A keypair: the private key that signs, and the account it controls.
pub struct Wallet {
    pub private_key: rsa::RsaPrivateKey,
    pub public_key: Identity,
}

/// Why a transfer could not be built.
#[derive(Clone, Copy, Debug, PartialEq, Eq, Structural)]
pub enum TransactionError {
    /// The wallet's unspent outputs do not cover the amount and the fee.
    InsufficientFunds,
    /// The change would not fit in one output.
    ChangeTooLarge,
    /// The key could not sign an input.
    SigningFailed,
}

/// The unspent outputs of `us` payable to `id`, in order.
pub open spec fn owned_by(us: Seq<UtxoModel>, id: Seq<u8>) -> Seq<UtxoModel>
    decreases us.len(),
{
    if us.len() == 0 {
        seq![]
    } else {
        let rest = owned_by(us.drop_last(), id);
        if us.last().output.payee == id {
            rest.push(us.last())
        } else {
            rest
        }
    }
}

/// The sum of the amounts of some unspent outputs.
pub open spec fn utxo_total(us: Seq<UtxoModel>) -> nat
    decreases us.len(),
{
    if us.len() == 0 {
        0
    } else {
        utxo_total(us.drop_last()) + us.last().output.amount as nat
    }
}

pub proof fn lemma_utxo_total_step(us: Seq<UtxoModel>, k: int)
    requires
        0 <= k < us.len(),
    ensures
        utxo_total(us.take(k + 1)) == utxo_total(us.take(k)) + us[k].output.amount,
{
    assert(us.take(k + 1).drop_last() =~= us.take(k));
}

pub proof fn lemma_utxo_total_bound(us: Seq<UtxoModel>)
    ensures
        utxo_total(us) <= us.len() * 0xffff_ffff,
    decreases us.len(),
{
    if us.len() > 0 {
        lemma_utxo_total_bound(us.drop_last());
    }
}

proof fn lemma_owned_by_step(us: Seq<UtxoModel>, id: Seq<u8>, i: int)
    requires
        0 <= i < us.len(),
    ensures
        owned_by(us.take(i + 1), id) == (if us[i].output.payee == id {
            owned_by(us.take(i), id).push(us[i])
        } else {
            owned_by(us.take(i), id)
        }),
{
    assert(us.take(i + 1).drop_last() =~= us.take(i));
}

proof fn lemma_owned_by_len(us: Seq<UtxoModel>, id: Seq<u8>)
    ensures
        owned_by(us, id).len() <= us.len(),
    decreases us.len(),
{
    if us.len() > 0 {
        lemma_owned_by_len(us.drop_last(), id);
    }
}

/// The outputs of a transfer of `amount` to `payee` paid from inputs worth
/// `total`, when `need` (amount and fee) is covered: the payment, then the
/// change back to `owner` if there is any.
pub open spec fn transfer_outputs(amount: u32, payee: Seq<u8>, owner: Seq<u8>, total: nat, need: nat) -> Seq<OutputModel> {
    if total > need {
        seq![OutputModel { amount, payee }, OutputModel { amount: (total - need) as u32, payee: owner }]
    } else {
        seq![OutputModel { amount, payee }]
    }
}

/// The unsigned input that spends `u` on behalf of `owner`.
pub open spec fn spend_input(u: UtxoModel, owner: Seq<u8>) -> InputModel {
    InputModel { prev_hash: u.tx_hash, prev_index: u.index, payer: Some(owner), signature: seq![] }
}

/// The first position at or after `i` whose amount exceeds `a` (the length
/// when there is none).
pub open spec fn first_above(s: Seq<UtxoModel>, a: u32, i: int) -> int
    decreases s.len() - i,
{
    if 0 <= i < s.len() {
        if s[i].output.amount > a {
            i
        } else {
            first_above(s, a, i + 1)
        }
    } else {
        s.len() as int
    }
}

proof fn lemma_first_above_range(s: Seq<UtxoModel>, a: u32, i: int)
    requires
        0 <= i <= s.len(),
    ensures
        i <= first_above(s, a, i) <= s.len(),
    decreases s.len() - i,
{
    if i < s.len() {
        lemma_first_above_range(s, a, i + 1);
    }
}

/// `s` sorted by ascending amount; outputs of equal amount keep their order.
pub open spec fn by_amount(s: Seq<UtxoModel>) -> Seq<UtxoModel>
    decreases s.len(),
{
    if s.len() == 0 {
        seq![]
    } else {
        let r = by_amount(s.drop_last());
        r.insert(first_above(r, s.last().output.amount, 0), s.last())
    }
}

proof fn lemma_by_amount_len(s: Seq<UtxoModel>)
    ensures
        by_amount(s).len() == s.len(),
    decreases s.len(),
{
    if s.len() > 0 {
        let r = by_amount(s.drop_last());
        lemma_by_amount_len(s.drop_last());
        lemma_first_above_range(r, s.last().output.amount, 0);
    }
}

/// The unsigned inputs of a transfer from `owner`: one per output it owns,
/// in ascending order of amount.
pub open spec fn transfer_plan(own: Seq<UtxoModel>, owner: Seq<u8>) -> Seq<InputModel> {
    by_amount(own).map_values(|u: UtxoModel| spend_input(u, owner))
}

/// `ins` are the inputs of `plan`, each with some signature.
pub open spec fn signed_as(ins: Seq<InputModel>, plan: Seq<InputModel>) -> bool {
    &&& ins.len() == plan.len()
    &&& forall|j: int| 0 <= j < plan.len() ==> ins[j] == (InputModel { signature: ins[j].signature, ..plan[j] })
}

/// What a transfer from `owner` over the UTXO set `utxos` gives: it spends
/// every output the owner has, in ascending order of amount, pays `payee`
/// first and returns the change, if any. Only the signing key decides
/// between success and `SigningFailed` once the funds cover the transfer.
pub open spec fn transfer_result(
    utxos: Seq<UtxoModel>,
    owner: Seq<u8>,
    amount: u32,
    fee: u32,
    payee: Seq<u8>,
    r: Result<TxModel, TransactionError>,
) -> bool {
    let own = owned_by(utxos, owner);
    let total = utxo_total(own);
    let need = amount + fee;
    if total < need {
        r == Err::<TxModel, TransactionError>(TransactionError::InsufficientFunds)
    } else if total - need > u32::MAX {
        r == Err::<TxModel, TransactionError>(TransactionError::ChangeTooLarge)
    } else {
        &&& (r is Ok || r == Err::<TxModel, TransactionError>(TransactionError::SigningFailed))
        &&& r matches Ok(t) ==> signed_as(t.inputs, transfer_plan(own, owner)) && t.outputs
            == transfer_outputs(amount, payee, owner, total, need as nat)
    }
}

pub open spec fn tx_result_view(r: Result<Transaction, TransactionError>) -> Result<TxModel, TransactionError> {
    match r {
        Ok(t) => Ok(t@),
        Err(e) => Err(e),
    }
}

pub open spec fn input_views(s: Seq<TransactionInput>) -> Seq<InputModel> {
    s.map_values(|i: TransactionInput| i@)
}

pub open spec fn output_views(s: Seq<TransactionOutput>) -> Seq<OutputModel> {
    s.map_values(|o: TransactionOutput| o@)
}

/// The transfer a message announces, or the error that stopped it.
pub open spec fn sent_transfer(r: Result<InternalMessage, TransactionError>) -> Result<TxModel, TransactionError> {
    match r {
        Ok(m) => match m.message.message_type@ {
            MessageTypeModel::Transaction(t) => Ok(t),
            _ => Err(TransactionError::SigningFailed),
        },
        Err(e) => Err(e),
    }
}

impl TransactionInput {
    /// An input spending output `prev_transaction_index` of the transaction
    /// `prev_transaction_hash`, signed with `sign_key`; `None` when that key
    /// cannot sign.
    pub fn new(
        prev_transaction_hash: Vec<u8>,
        prev_transaction_index: u32,
        payer: Option<Identity>,
        sign_key: &rsa::RsaPrivateKey,
    ) -> (r: Option<TransactionInput>)
        ensures
            r matches Some(i) ==> (i@.prev_hash == prev_transaction_hash@ && i@.prev_index
                == prev_transaction_index && i@.payer == payer_view(payer)),
    {
        let mut tx_in = TransactionInput {
            prev_transaction_hash,
            prev_transaction_index,
            payer,
            signature: Vec::new(),
        };
        let h = tx_in.hash();
        match sign_digest(sign_key, h.as_slice()) {
            Some(sig) => {
                tx_in.signature = sig;
                Some(tx_in)
            },
            None => None,
        }
    }
}

impl Transaction {
    /// The transaction made of the inputs of `plan`, each carrying the
    /// matching entry of `signatures`, and `outputs`; `SigningFailed` when a
    /// signature is missing or the counts differ.
    pub fn signed_transfer(
        plan: Vec<TransactionInput>,
        signatures: Vec<Option<Vec<u8>>>,
        outputs: Vec<TransactionOutput>,
    ) -> (r: Result<Transaction, TransactionError>)
        ensures
            r is Ok <==> (signatures@.len() == plan@.len() && forall|k: int|
                0 <= k < signatures@.len() ==> (#[trigger] signatures@[k]) is Some),
            r matches Err(e) ==> e == TransactionError::SigningFailed,
            r matches Ok(t) ==> {
                &&& t@.inputs.len() == plan@.len()
                &&& forall|k: int|
                    0 <= k < plan@.len() ==> #[trigger] t@.inputs[k] == (InputModel {
                        signature: signatures@[k].unwrap()@,
                        ..plan@[k]@
                    })
                &&& t@.outputs == output_views(outputs@)
            },
    {
        if signatures.len() != plan.len() {
            return Err(TransactionError::SigningFailed);
        }
        let mut ins: Vec<TransactionInput> = Vec::new();
        let mut k: usize = 0;
        while k < plan.len()
            invariant
                k <= plan@.len(),
                signatures@.len() == plan@.len(),
                ins@.len() == k,
                forall|m: int| 0 <= m < k ==> (#[trigger] signatures@[m]) is Some,
                forall|m: int|
                    0 <= m < k ==> #[trigger] ins@[m]@ == (InputModel {
                        signature: signatures@[m].unwrap()@,
                        ..plan@[m]@
                    }),
            decreases plan@.len() - k,
        {
            let sig = match &signatures[k] {
                Some(s) => vstd::slice::slice_to_vec(s.as_slice()),
                None => {
                    return Err(TransactionError::SigningFailed);
                },
            };
            let p = &plan[k];
            let payer = match &p.payer {
                Some(id) => Some(id.clone()),
                None => None,
            };
            ins.push(
                TransactionInput {
                    prev_transaction_hash: vstd::slice::slice_to_vec(p.prev_transaction_hash.as_slice()),
                    prev_transaction_index: p.prev_transaction_index,
                    payer,
                    signature: sig,
                },
            );
            k = k + 1;
        }
        let t = Transaction { transaction_inputs: ins, transaction_outputs: outputs };
        assert(t@.outputs =~= output_views(outputs@));
        assert forall|k: int| 0 <= k < plan@.len() implies #[trigger] t@.inputs[k] == (InputModel {
            signature: signatures@[k].unwrap()@,
            ..plan@[k]@
        }) by {
            assert(t@.inputs[k] == ins@[k]@);
        }
        Ok(t)
    }

    /// A transfer of `amount` to `payee`, leaving `transaction_fee` to the
    /// miner. Without a wallet it is an unsigned transaction that mints
    /// `amount`. With one, it spends every unspent output the wallet owns, in
    /// ascending order of amount (equal amounts in the order of the UTXO set),
    /// signs each input, pays `payee` and returns the rest beyond the fee to
    /// the wallet as change.
    pub fn new(
        amount: u32,
        transaction_fee: u32,
        wallet: Option<&Wallet>,
        payee: Identity,
        chain: &Blockchain,
    ) -> (r: Result<Transaction, TransactionError>)
        ensures
            wallet is None ==> (r matches Ok(t) && t@ == minting_tx(amount, payee@)),
            wallet matches Some(w) ==> transfer_result(
                chain@.utxos,
                w.public_key@,
                amount,
                transaction_fee,
                payee@,
                tx_result_view(r),
            ),
    {
        let w = match wallet {
            None => {
                return Ok(Transaction::minting(amount, payee));
            },
            Some(w) => w,
        };
        let ghost id = w.public_key@;
        let utxos = chain.utxos();
        let ghost us = utxo_views(utxos@);
        // the wallet's outputs, in UTXO order, and their total
        let mut own: Vec<Utxo> = Vec::new();
        let mut total: u128 = 0;
        let mut i: usize = 0;
        while i < utxos.len()
            invariant
                i <= us.len(),
                us == utxo_views(utxos@),
                us == chain@.utxos,
                id == w.public_key@,
                utxo_views(own@) == owned_by(us.take(i as int), id),
                total == utxo_total(owned_by(us.take(i as int), id)),
            decreases us.len() - i,
        {
            let u = &utxos[i];
            assert(us[i as int] == u@);
            proof {
                lemma_owned_by_step(us, id, i as int);
                lemma_owned_by_len(us.take(i + 1), id);
                lemma_utxo_total_bound(owned_by(us.take(i + 1), id));
                let own_i = owned_by(us.take(i as int), id);
                assert(own_i.push(u@).drop_last() =~= own_i);
                assert(owned_by(us.take(i + 1), id).len() * 0xffff_ffff <= 0x1_0000_0000_0000_0000
                    * 0xffff_ffff) by (nonlinear_arith)
                    requires
                        owned_by(us.take(i + 1), id).len() <= 0x1_0000_0000_0000_0000,
                ;
            }
            if u.output.payee.same(&w.public_key) {
                let ghost before = own@;
                own.push(u.clone());
                assert(utxo_views(own@) =~= utxo_views(before).push(u@));
                total = total + u.output.amount as u128;
            }
            i = i + 1;
        }
        assert(us.take(us.len() as int) =~= us);
        let ghost ov = utxo_views(own@);
        let need: u128 = amount as u128 + transaction_fee as u128;
        if total < need {
            return Err(TransactionError::InsufficientFunds);
        }
        if total - need > u32::MAX as u128 {
            return Err(TransactionError::ChangeTooLarge);
        }
        // the same outputs by ascending amount, equal amounts in their order
        let mut sorted: Vec<Utxo> = Vec::new();
        assert(utxo_views(sorted@) =~= by_amount(ov.take(0)));
        let mut j: usize = 0;
        while j < own.len()
            invariant
                wallet == Some(w),
                id == w.public_key@,
                ov == owned_by(chain@.utxos, id),
                total == utxo_total(ov),
                need == amount + transaction_fee,
                !(total < need),
                !(total - need > u32::MAX),
                j <= ov.len(),
                ov == utxo_views(own@),
                utxo_views(sorted@) == by_amount(ov.take(j as int)),
                sorted@.len() == j,
            decreases ov.len() - j,
        {
            let x = &own[j];
            let ghost sv = utxo_views(sorted@);
            let ghost a = x@.output.amount;
            let mut pos: usize = 0;
            while pos < sorted.len() && sorted[pos].output.amount <= x.output.amount
                invariant
                    pos <= sv.len(),
                    sv == utxo_views(sorted@),
                    a == x@.output.amount,
                    first_above(sv, a, pos as int) == first_above(sv, a, 0),
                decreases sv.len() - pos,
            {
                pos = pos + 1;
            }
            assert(first_above(sv, a, pos as int) == pos);
            let xc = x.clone();
            sorted.insert(pos, xc);
            proof {
                assert(utxo_views(sorted@) =~= sv.insert(pos as int, x@));
                assert(ov.take(j + 1).drop_last() =~= ov.take(j as int));
                assert(ov.take(j + 1).last() == x@);
            }
            j = j + 1;
        }
        assert(ov.take(ov.len() as int) =~= ov);
        let ghost sv = utxo_views(sorted@);
        // the unsigned inputs and their signatures
        let mut plan: Vec<TransactionInput> = Vec::new();
        let mut signatures: Vec<Option<Vec<u8>>> = Vec::new();
        let mut k: usize = 0;
        while k < sorted.len()
            invariant
                wallet == Some(w),
                id == w.public_key@,
                total == utxo_total(ov),
                need == amount + transaction_fee,
                !(total < need),
                !(total - need > u32::MAX),
                ov == owned_by(chain@.utxos, id),
                sv == utxo_views(sorted@),
                sv == by_amount(ov),
                k <= sv.len(),
                plan@.len() == k,
                signatures@.len() == k,
                forall|m: int| 0 <= m < k ==> (#[trigger] plan@[m])@ == spend_input(sv[m], id),
            decreases sv.len() - k,
        {
            let u = &sorted[k];
            assert(sv[k as int] == u@);
            let input = TransactionInput {
                prev_transaction_hash: vstd::slice::slice_to_vec(u.tx_hash.as_slice()),
                prev_transaction_index: u.index,
                payer: Some(w.public_key.clone()),
                signature: Vec::new(),
            };
            assert(input@.signature =~= Seq::<u8>::empty());
            let h = input.hash();
            signatures.push(sign_digest(&w.private_key, h.as_slice()));
            plan.push(input);
            k = k + 1;
        }
        let mut outputs: Vec<TransactionOutput> = Vec::new();
        outputs.push(TransactionOutput::new(amount, payee));
        if total > need {
            outputs.push(TransactionOutput::new((total - need) as u32, w.public_key.clone()));
        }
        let ghost out_views = output_views(outputs@);
        assert(out_views =~= transfer_outputs(amount, payee@, id, utxo_total(ov), need as nat));
        let ghost pv = plan@;
        let r = Transaction::signed_transfer(plan, signatures, outputs);
        proof {
            if r is Ok {
                let t = r->Ok_0;
                let tp = transfer_plan(ov, id);
                assert forall|m: int| 0 <= m < tp.len() implies t@.inputs[m] == (InputModel {
                    signature: t@.inputs[m].signature,
                    ..tp[m]
                }) by {
                    assert(pv[m]@ == spend_input(sv[m], id));
                    assert(t@.inputs[m] == (InputModel { signature: t@.inputs[m].signature, ..pv[m]@ }));
                }
            }
        }
        r
    }
}

impl Wallet {
    pub fn new(private_key: rsa::RsaPrivateKey, public_key: Identity) -> (r: Wallet)
        ensures
            r.private_key == private_key,
            r.public_key@ == public_key@,
    {
        Wallet { private_key, public_key }
    }

    /// The sum of the unspent outputs of the main chain payable to this wallet.
    pub fn compute_balance(&self, chain: &Blockchain) -> (r: u128)
        ensures
            r == utxo_total(owned_by(chain@.utxos, self.public_key@)),
    {
        let utxos = chain.utxos();
        let ghost us = utxo_views(utxos@);
        let ghost id = self.public_key@;
        let n = utxos.len();
        let mut acc: u128 = 0;
        let mut i: usize = 0;
        while i < n
            invariant
                i <= n,
                n == us.len(),
                us == utxo_views(utxos@),
                us == chain@.utxos,
                id == self.public_key@,
                acc == utxo_total(owned_by(us.take(i as int), id)),
            decreases n - i,
        {
            let u = &utxos[i];
            assert(us[i as int] == u@);
            proof {
                lemma_owned_by_step(us, id, i as int);
                lemma_owned_by_len(us.take(i + 1), id);
                lemma_utxo_total_bound(owned_by(us.take(i + 1), id));
                let own_i = owned_by(us.take(i as int), id);
                assert(own_i.push(u@).drop_last() =~= own_i);
                assert(owned_by(us.take(i + 1), id).len() * 0xffff_ffff <= 0x1_0000_0000_0000_0000
                    * 0xffff_ffff) by (nonlinear_arith)
                    requires
                        owned_by(us.take(i + 1), id).len() <= 0x1_0000_0000_0000_0000,
                ;
            }
            if u.output.payee.same(&self.public_key) {
                acc = acc + u.output.amount as u128;
            }
            i = i + 1;
        }
        assert(us.take(n as int) =~= us);
        acc
    }

    /// Builds a transfer of `amount` to `payee` (see `Transaction::new`) and
    /// the message that announces it to every peer.
    pub fn send_money(
        &self,
        amount: u32,
        transaction_fee: u32,
        payee_public_key: Identity,
        chain: &Blockchain,
    ) -> (r: Result<InternalMessage, TransactionError>)
        ensures
            r matches Ok(m) ==> (m.source == MessageSource::Localhost && m.dest
                == MessageDest::Broadcast && m.message.message_type@ is Transaction),
            transfer_result(
                chain@.utxos,
                self.public_key@,
                amount,
                transaction_fee,
                payee_public_key@,
                sent_transfer(r),
            ),
    {
        match Transaction::new(amount, transaction_fee, Some(self), payee_public_key, chain) {
            Err(e) => Err(e),
            Ok(t) => Ok(
                InternalMessage::new(
                    MessageType::Transaction(t),
                    MessageSource::Localhost,
                    MessageDest::Broadcast,
                ),
            ),
        }
    }
}

} // verus!
