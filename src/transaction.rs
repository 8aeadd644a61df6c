use vstd::prelude::*;

use crate::crypto::{sha256, sha256_of};
use crate::encoding::{concat_map, framed, le_bytes, lemma_concat_map_step, put_bytes, put_le};

verus! {

/// An account: the public half of a keypair, held as its PKCS#1 DER bytes.
/// Two identities are the same account exactly when their bytes agree.
pub struct Identity {
    pub key: Vec<u8>,
}

impl View for Identity {
    type V = Seq<u8>;

    open spec fn view(&self) -> Seq<u8> {
        self.key@
    }
}

impl Identity {
    pub fn new(key: Vec<u8>) -> (r: Identity)
        ensures
            r@ == key@,
    {
        Identity { key }
    }

    /// Whether both values name the same account.
    pub fn same(&self, other: &Identity) -> (r: bool)
        ensures
            r == (self@ == other@),
    {
        crate::encoding::bytes_eq(self.key.as_slice(), other.key.as_slice())
    }

    pub fn encode_into(&self, out: &mut Vec<u8>)
        ensures
            final(out)@ == old(out)@ + framed(self@),
    {
        put_bytes(out, self.key.as_slice());
    }
}

impl Clone for Identity {
    fn clone(&self) -> (r: Self)
        ensures
            r@ == self@,
    {
        Identity { key: vstd::slice::slice_to_vec(self.key.as_slice()) }
    }
}

/// What a transaction output says: an amount and who may spend it.
pub struct OutputModel {
    pub amount: u32,
    pub payee: Seq<u8>,
}

/// What a transaction input says.
pub struct InputModel {
    pub prev_hash: Seq<u8>,
    pub prev_index: u32,
    pub payer: Option<Seq<u8>>,
    pub signature: Seq<u8>,
}

/// What a transaction says.
pub struct TxModel {
    pub inputs: Seq<InputModel>,
    pub outputs: Seq<OutputModel>,
}

/// A spendable claim on `amount` units by `payee`.
pub struct TransactionOutput {
    pub amount: u32,
    pub payee: Identity,
}

impl View for TransactionOutput {
    type V = OutputModel;

    open spec fn view(&self) -> OutputModel {
        OutputModel { amount: self.amount, payee: self.payee@ }
    }
}

impl TransactionOutput {
    pub fn new(amount: u32, payee: Identity) -> (r: TransactionOutput)
        ensures
            r@ == (OutputModel { amount, payee: payee@ }),
    {
        TransactionOutput { amount, payee }
    }

    pub fn encode_into(&self, out: &mut Vec<u8>)
        ensures
            final(out)@ == old(out)@ + enc_output(self@),
    {
        let ghost start = out@;
        put_le(out, self.amount as u128, 4);
        self.payee.encode_into(out);
        assert(out@ =~= start + enc_output(self@));
    }
}

impl Clone for TransactionOutput {
    fn clone(&self) -> (r: Self)
        ensures
            r@ == self@,
    {
        TransactionOutput { amount: self.amount, payee: self.payee.clone() }
    }
}

/// A reference to the output `prev_transaction_index` of the transaction
/// whose hash is `prev_transaction_hash`, with the spender's signature.
/// An input without a payer is the unsigned input of a reward transaction.
pub struct TransactionInput {
    pub prev_transaction_hash: Vec<u8>,
    pub prev_transaction_index: u32,
    pub payer: Option<Identity>,
    pub signature: Vec<u8>,
}

pub open spec fn payer_view(p: Option<Identity>) -> Option<Seq<u8>> {
    match p {
        Some(id) => Some(id@),
        None => None,
    }
}

impl View for TransactionInput {
    type V = InputModel;

    open spec fn view(&self) -> InputModel {
        InputModel {
            prev_hash: self.prev_transaction_hash@,
            prev_index: self.prev_transaction_index,
            payer: payer_view(self.payer),
            signature: self.signature@,
        }
    }
}

impl Clone for TransactionInput {
    fn clone(&self) -> (r: Self)
        ensures
            r@ == self@,
    {
        let payer = match &self.payer {
            Some(p) => Some(p.clone()),
            None => None,
        };
        TransactionInput {
            prev_transaction_hash: vstd::slice::slice_to_vec(self.prev_transaction_hash.as_slice()),
            prev_transaction_index: self.prev_transaction_index,
            payer,
            signature: vstd::slice::slice_to_vec(self.signature.as_slice()),
        }
    }
}

/// A transfer: the outputs it spends and the outputs it creates.
pub struct Transaction {
    pub transaction_inputs: Vec<TransactionInput>,
    pub transaction_outputs: Vec<TransactionOutput>,
}

impl View for Transaction {
    type V = TxModel;

    open spec fn view(&self) -> TxModel {
        TxModel {
            inputs: self.transaction_inputs@.map_values(|i: TransactionInput| i@),
            outputs: self.transaction_outputs@.map_values(|o: TransactionOutput| o@),
        }
    }
}

/// A transaction with one unsigned input that mints `amount` for `payee`:
/// the shape of the genesis grant and of a block's reward.
pub open spec fn minting_tx(amount: u32, payee: Seq<u8>) -> TxModel {
    TxModel {
        inputs: seq![InputModel { prev_hash: seq![], prev_index: 0, payer: None, signature: seq![] }],
        outputs: seq![OutputModel { amount, payee }],
    }
}

impl Transaction {
    /// A transaction that mints `amount` for `payee`, with a single unsigned input.
    pub fn minting(amount: u32, payee: Identity) -> (r: Transaction)
        ensures
            r@ == minting_tx(amount, payee@),
    {
        let mut ins: Vec<TransactionInput> = Vec::new();
        ins.push(
            TransactionInput {
                prev_transaction_hash: Vec::new(),
                prev_transaction_index: 0,
                payer: None,
                signature: Vec::new(),
            },
        );
        let mut outs: Vec<TransactionOutput> = Vec::new();
        outs.push(TransactionOutput::new(amount, payee));
        let r = Transaction { transaction_inputs: ins, transaction_outputs: outs };
        assert(r@.inputs =~= minting_tx(amount, payee@).inputs);
        assert(r@.outputs =~= minting_tx(amount, payee@).outputs);
        r
    }
}

// ---- the bytes that are hashed ----

pub open spec fn enc_output(o: OutputModel) -> Seq<u8> {
    le_bytes(o.amount as nat, 4) + framed(o.payee)
}

pub open spec fn enc_payer(p: Option<Seq<u8>>) -> Seq<u8> {
    match p {
        None => seq![0u8],
        Some(k) => seq![1u8] + framed(k),
    }
}

/// An input without its signature: what its owner signs.
pub open spec fn enc_input_unsigned(i: InputModel) -> Seq<u8> {
    framed(i.prev_hash) + le_bytes(i.prev_index as nat, 4) + enc_payer(i.payer)
}

pub open spec fn enc_input_signed(i: InputModel) -> Seq<u8> {
    enc_input_unsigned(i) + framed(i.signature)
}

pub open spec fn enc_output_fn() -> spec_fn(OutputModel) -> Seq<u8> {
    |o: OutputModel| enc_output(o)
}

pub open spec fn enc_input_fn(signed: bool) -> spec_fn(InputModel) -> Seq<u8> {
    |i: InputModel|
        if signed {
            enc_input_signed(i)
        } else {
            enc_input_unsigned(i)
        }
}

/// A transaction as bytes, with or without the inputs' signatures.
pub open spec fn enc_tx(t: TxModel, signed: bool) -> Seq<u8> {
    le_bytes(t.inputs.len(), 8) + concat_map(t.inputs, enc_input_fn(signed)) + le_bytes(
        t.outputs.len(),
        8,
    ) + concat_map(t.outputs, enc_output_fn())
}

/// The hash an input's signature is made over.
pub open spec fn input_hash(i: InputModel) -> Seq<u8> {
    sha256_of(enc_input_unsigned(i))
}

/// The hash that identifies a transaction; signatures do not enter it.
pub open spec fn tx_hash(t: TxModel) -> Seq<u8> {
    sha256_of(enc_tx(t, false))
}

/// The sum of the amounts of a sequence of outputs.
pub open spec fn sum_amounts(s: Seq<OutputModel>) -> nat
    decreases s.len(),
{
    if s.len() == 0 {
        0
    } else {
        sum_amounts(s.drop_last()) + s.last().amount as nat
    }
}

pub proof fn lemma_sum_amounts_step(s: Seq<OutputModel>, i: int)
    requires
        0 <= i < s.len(),
    ensures
        sum_amounts(s.take(i + 1)) == sum_amounts(s.take(i)) + s[i].amount,
{
    assert(s.take(i + 1).drop_last() =~= s.take(i));
}

pub proof fn lemma_sum_amounts_bound(s: Seq<OutputModel>)
    ensures
        sum_amounts(s) <= s.len() * 0xffff_ffff,
    decreases s.len(),
{
    if s.len() > 0 {
        lemma_sum_amounts_bound(s.drop_last());
    }
}

/// A running sum over at most `usize::MAX` amounts stays far below `u128::MAX`.
pub proof fn lemma_sum_fits(s: Seq<OutputModel>, i: int)
    requires
        0 <= i < s.len(),
        s.len() <= usize::MAX,
    ensures
        sum_amounts(s.take(i + 1)) < 0x1_0000_0000_0000_0000_0000_0000,
{
    lemma_sum_amounts_bound(s.take(i + 1));
    assert((i + 1) * 0xffff_ffff <= 0x1_0000_0000_0000_0000 * 0xffff_ffff) by (nonlinear_arith)
        requires
            i + 1 <= 0x1_0000_0000_0000_0000,
    ;
}

impl TransactionInput {
    pub fn encode_into(&self, out: &mut Vec<u8>, signed: bool)
        ensures
            final(out)@ == old(out)@ + enc_input_fn(signed)(self@),
    {
        let ghost start = out@;
        put_bytes(out, self.prev_transaction_hash.as_slice());
        put_le(out, self.prev_transaction_index as u128, 4);
        match &self.payer {
            None => {
                out.push(0u8);
            },
            Some(p) => {
                out.push(1u8);
                p.encode_into(out);
            },
        }
        assert(out@ =~= start + enc_input_unsigned(self@));
        if signed {
            put_bytes(out, self.signature.as_slice());
            assert(out@ =~= start + enc_input_signed(self@));
        }
    }

    /// The hash its signature is made over: the input without its signature.
    pub fn hash(&self) -> (r: Vec<u8>)
        ensures
            r@ == input_hash(self@),
            r@.len() == 32,
    {
        let mut out: Vec<u8> = Vec::new();
        self.encode_into(&mut out, false);
        assert(out@ =~= enc_input_unsigned(self@));
        sha256(out.as_slice())
    }
}

impl Transaction {
    pub fn encode_into(&self, out: &mut Vec<u8>, signed: bool)
        ensures
            final(out)@ == old(out)@ + enc_tx(self@, signed),
    {
        let ghost start = out@;
        let ghost ins = self@.inputs;
        let ghost outs = self@.outputs;
        put_le(out, self.transaction_inputs.len() as u128, 8);
        let ghost mid = out@;
        let mut i: usize = 0;
        while i < self.transaction_inputs.len()
            invariant
                i <= ins.len(),
                ins == self@.inputs,
                out@ == mid + concat_map(ins.take(i as int), enc_input_fn(signed)),
            decreases ins.len() - i,
        {
            proof {
                lemma_concat_map_step(ins, enc_input_fn(signed), i as int);
            }
            self.transaction_inputs[i].encode_into(out, signed);
            assert(out@ =~= mid + concat_map(ins.take(i + 1), enc_input_fn(signed)));
            i = i + 1;
        }
        assert(ins.take(ins.len() as int) =~= ins);
        put_le(out, self.transaction_outputs.len() as u128, 8);
        let ghost mid2 = out@;
        let mut j: usize = 0;
        while j < self.transaction_outputs.len()
            invariant
                j <= outs.len(),
                outs == self@.outputs,
                out@ == mid2 + concat_map(outs.take(j as int), enc_output_fn()),
            decreases outs.len() - j,
        {
            proof {
                lemma_concat_map_step(outs, enc_output_fn(), j as int);
            }
            self.transaction_outputs[j].encode_into(out);
            assert(out@ =~= mid2 + concat_map(outs.take(j + 1), enc_output_fn()));
            j = j + 1;
        }
        assert(outs.take(outs.len() as int) =~= outs);
        assert(out@ =~= start + enc_tx(self@, signed));
    }

    /// The hash that identifies the transaction, computed without signatures
    /// so that signing and verifying see the same pre-image.
    pub fn hash(&self) -> (r: Vec<u8>)
        ensures
            r@ == tx_hash(self@),
            r@.len() == 32,
    {
        let mut out: Vec<u8> = Vec::new();
        self.encode_into(&mut out, false);
        assert(out@ =~= enc_tx(self@, false));
        sha256(out.as_slice())
    }

    /// The sum of the output amounts.
    pub fn tx_outs_sum(&self) -> (r: u128)
        ensures
            r == sum_amounts(self@.outputs),
    {
        let ghost outs = self@.outputs;
        let n = self.transaction_outputs.len();
        let mut acc: u128 = 0;
        let mut j: usize = 0;
        while j < n
            invariant
                j <= outs.len(),
                outs == self@.outputs,
                outs.len() == n,
                acc == sum_amounts(outs.take(j as int)),
            decreases outs.len() - j,
        {
            proof {
                lemma_sum_amounts_step(outs, j as int);
                lemma_sum_fits(outs, j as int);
            }
            acc = acc + self.transaction_outputs[j].amount as u128;
            j = j + 1;
        }
        assert(outs.take(outs.len() as int) =~= outs);
        acc
    }
}

impl Clone for Transaction {
    fn clone(&self) -> (r: Self)
        ensures
            r@ == self@,
    {
        let mut ins: Vec<TransactionInput> = Vec::new();
        let mut i: usize = 0;
        while i < self.transaction_inputs.len()
            invariant
                i <= self.transaction_inputs@.len(),
                ins@.len() == i,
                forall|k: int| 0 <= k < i ==> ins@[k]@ == self.transaction_inputs@[k]@,
            decreases self.transaction_inputs@.len() - i,
        {
            ins.push(self.transaction_inputs[i].clone());
            i = i + 1;
        }
        let mut outs: Vec<TransactionOutput> = Vec::new();
        let mut j: usize = 0;
        while j < self.transaction_outputs.len()
            invariant
                j <= self.transaction_outputs@.len(),
                outs@.len() == j,
                forall|k: int| 0 <= k < j ==> outs@[k]@ == self.transaction_outputs@[k]@,
            decreases self.transaction_outputs@.len() - j,
        {
            outs.push(self.transaction_outputs[j].clone());
            j = j + 1;
        }
        let r = Transaction { transaction_inputs: ins, transaction_outputs: outs };
        assert(r@.inputs =~= self@.inputs);
        assert(r@.outputs =~= self@.outputs);
        r
    }
}

} // verus!
