//! What a verdict is bound to: the exact transaction, and for an acceptance the
//! exact set of candidates.

use vstd::bytes::{
    lemma_auto_spec_u64_to_from_le_bytes, spec_u64_from_le_bytes, spec_u64_to_le_bytes,
    u64_to_le_bytes,
};
use vstd::prelude::*;
use vstd::utf8::encode_utf8;

use crate::crypto::{hex_digit, is_hex, sha256, sha256_digest};
use crate::measures::{
    capped, declared_amounts, every_declared_coin_counts, every_output_counts, output_amounts, sum,
};
use crate::text::{hex_reads_back, lower_hex, owned, to_lower_hex};
use crate::tx::{
    declared_total, output_total, saturating, total_declared, total_out, Psbt, PsbtView, TxIn,
    TxOut, TxOutView,
};

verus! {

/// The exact transaction that a node commits to, under its own policy.
#[derive(Debug)]
pub struct Commitment {
    pub wallet_id: [u8; 32],
    pub version: i32,
    pub lock_time: u32,
    /// The coin and the sequence number of each input.
    pub inputs: Vec<TxIn>,
    /// The script and the amount of each output.
    pub outputs: Vec<TxOut>,
    pub fee: u64,
    pub expiry: u64,
    pub policy_version: u32,
}

/// The contents of a [`Commitment`].
pub struct CommitmentView {
    pub wallet_id: [u8; 32],
    pub version: i32,
    pub lock_time: u32,
    pub inputs: Seq<TxIn>,
    pub outputs: Seq<TxOutView>,
    pub fee: u64,
    pub expiry: u64,
    pub policy_version: u32,
}

impl View for Commitment {
    type V = CommitmentView;

    open spec fn view(&self) -> CommitmentView {
        CommitmentView {
            wallet_id: self.wallet_id,
            version: self.version,
            lock_time: self.lock_time,
            inputs: self.inputs@,
            outputs: self.outputs@.map_values(|o: TxOut| o@),
            fee: self.fee,
            expiry: self.expiry,
            policy_version: self.policy_version,
        }
    }
}

/// The commitment to `psbt`. Its fee is what the declared coins leave over; an
/// inconsistent transaction has one all the same.
pub open spec fn commitment(
    wallet_id: [u8; 32],
    policy_version: u32,
    psbt: PsbtView,
    expiry: u64,
) -> CommitmentView {
    CommitmentView {
        wallet_id,
        version: psbt.unsigned_tx.version,
        lock_time: psbt.unsigned_tx.lock_time,
        inputs: psbt.unsigned_tx.input,
        outputs: psbt.unsigned_tx.output,
        fee: saturating(declared_total(psbt.inputs) - output_total(psbt.unsigned_tx.output)),
        expiry,
        policy_version,
    }
}

/// Builds the commitment to `psbt` from the node's own copy of it.
pub fn commitment_of(wallet_id: [u8; 32], policy_version: u32, psbt: &Psbt, expiry: u64) -> (made:
    Commitment)
    ensures
        made@ == commitment(wallet_id, policy_version, psbt@, expiry),
{
    let tx = &psbt.unsigned_tx;
    let copy = tx.copy();
    Commitment {
        wallet_id,
        version: tx.version,
        lock_time: tx.lock_time,
        inputs: copy.input,
        outputs: copy.output,
        fee: total_declared(&psbt.inputs).saturating_sub(total_out(&tx.output)),
        expiry,
        policy_version,
    }
}

/// A candidate as an acceptance is filed under it: its commitment or label, and the
/// bytes of the transaction as it came in.
pub type Candidate = (Seq<char>, Seq<u8>);

/// The candidates in `list`.
pub open spec fn candidate_views(list: Seq<(String, Vec<u8>)>) -> Seq<Candidate> {
    list.map_values(|c: (String, Vec<u8>)| (c.0@, c.1@))
}

/// A byte string behind its length.
pub open spec fn framed(bytes: Seq<u8>) -> Seq<u8> {
    spec_u64_to_le_bytes(bytes.len() as u64) + bytes
}

/// The candidates, each as its framed label and its framed bytes.
pub open spec fn framed_candidates(list: Seq<Candidate>) -> Seq<u8>
    decreases list.len(),
{
    if list.len() == 0 {
        Seq::empty()
    } else {
        framed(encode_utf8(list[0].0)) + framed(list[0].1) + framed_candidates(list.skip(1))
    }
}

/// What the key of an acceptance is the digest of.
pub open spec fn acceptance_preimage(list: Seq<Candidate>) -> Seq<u8> {
    encode_utf8("vault-policy/accepted-request/v0"@) + framed_candidates(list)
}

/// The key that an acceptance of `list` is filed under.
pub open spec fn acceptance_key(list: Seq<Candidate>) -> Seq<char> {
    "accepted:"@ + lower_hex(sha256_digest(acceptance_preimage(list))@)
}

fn push_bytes(out: &mut Vec<u8>, bytes: &[u8])
    ensures
        final(out)@ == old(out)@ + bytes@,
{
    let ghost before = out@;
    let mut i: usize = 0;
    while i < bytes.len()
        invariant
            i <= bytes.len(),
            out@ == before + bytes@.take(i as int),
        decreases bytes.len() - i,
    {
        out.push(bytes[i]);
        assert(bytes@.take(i + 1) =~= bytes@.take(i as int).push(bytes@[i as int]));
        i += 1;
    }
    assert(bytes@.take(i as int) =~= bytes@);
}

fn push_framed(out: &mut Vec<u8>, bytes: &[u8])
    ensures
        final(out)@ == old(out)@ + framed(bytes@),
{
    let ghost before = out@;
    let prefix = u64_to_le_bytes(bytes.len() as u64);
    push_bytes(out, prefix.as_slice());
    push_bytes(out, bytes);
    assert(out@ =~= before + framed(bytes@));
}

/// The key that an acceptance of these candidates is filed under: it binds each
/// commitment and the complete bytes of each transaction.
pub fn acceptance_replay_key(candidates: &Vec<(String, Vec<u8>)>) -> (key: String)
    ensures
        key@ == acceptance_key(candidate_views(candidates@)),
{
    let ghost views = candidate_views(candidates@);
    let tag = "vault-policy/accepted-request/v0".as_bytes();
    let ghost whole = acceptance_preimage(views);
    let mut bytes: Vec<u8> = Vec::new();
    push_bytes(&mut bytes, tag);
    let mut i: usize = 0;
    proof {
        assert(views.skip(0) =~= views);
        assert(bytes@ + framed_candidates(views) =~= whole);
    }
    while i < candidates.len()
        invariant
            i <= candidates.len(),
            views == candidate_views(candidates@),
            whole == bytes@ + framed_candidates(views.skip(i as int)),
        decreases candidates.len() - i,
    {
        let ghost before = bytes@;
        push_framed(&mut bytes, candidates[i].0.as_str().as_bytes());
        push_framed(&mut bytes, candidates[i].1.as_slice());
        proof {
            let rest = views.skip(i as int);
            assert(rest[0] == (candidates@[i as int].0@, candidates@[i as int].1@));
            assert(rest.skip(1) =~= views.skip(i + 1));
            assert(whole =~= bytes@ + framed_candidates(views.skip(i + 1)));
        }
        i += 1;
    }
    assert(views.skip(i as int) =~= Seq::<Candidate>::empty());
    assert(bytes@ =~= whole);
    let digest = sha256(bytes.as_slice());
    let mut key = owned("accepted:");
    let hex = to_lower_hex(digest.as_slice());
    key.append(hex.as_str());
    key
}

/// Two transactions with one commitment are one transaction: the commitment binds
/// the version, the lock time, every coin with its sequence number and every output.
pub proof fn commitment_binds_the_transaction(
    wallet_id: [u8; 32],
    policy_version: u32,
    a: PsbtView,
    b: PsbtView,
    expiry_a: u64,
    expiry_b: u64,
)
    requires
        commitment(wallet_id, policy_version, a, expiry_a) == commitment(
            wallet_id,
            policy_version,
            b,
            expiry_b,
        ),
    ensures
        a.unsigned_tx == b.unsigned_tx,
        expiry_a == expiry_b,
{
}

/// Whether a candidate's parts are short enough that their lengths can be written.
pub open spec fn writable(c: Candidate) -> bool {
    encode_utf8(c.0).len() <= u64::MAX && c.1.len() <= u64::MAX
}

proof fn lemma_framed_front(a: Seq<u8>, rest_a: Seq<u8>, b: Seq<u8>, rest_b: Seq<u8>)
    requires
        a.len() <= u64::MAX,
        b.len() <= u64::MAX,
        framed(a) + rest_a == framed(b) + rest_b,
    ensures
        a == b,
        rest_a == rest_b,
{
    lemma_auto_spec_u64_to_from_le_bytes();
    let x = framed(a) + rest_a;
    let y = framed(b) + rest_b;
    let pa = spec_u64_to_le_bytes(a.len() as u64);
    let pb = spec_u64_to_le_bytes(b.len() as u64);
    assert(x.take(8) =~= pa);
    assert(y.take(8) =~= pb);
    assert(spec_u64_from_le_bytes(pa) == spec_u64_from_le_bytes(pb));
    assert(a.len() == b.len());
    let n = a.len() as int;
    assert(x.subrange(8, 8 + n) =~= a);
    assert(y.subrange(8, 8 + n) =~= b);
    assert(x.skip(8 + n) =~= rest_a);
    assert(y.skip(8 + n) =~= rest_b);
}

proof fn lemma_front_is_written(list: Seq<Candidate>)
    requires
        list.len() > 0,
    ensures
        framed_candidates(list).len() >= 8,
{
    lemma_auto_spec_u64_to_from_le_bytes();
    let label = encode_utf8(list[0].0);
    assert(framed(label).len() == 8 + label.len());
}

proof fn lemma_framed_candidates(a: Seq<Candidate>, b: Seq<Candidate>)
    requires
        forall|i: int| 0 <= i < a.len() ==> writable(#[trigger] a[i]),
        forall|i: int| 0 <= i < b.len() ==> writable(#[trigger] b[i]),
        framed_candidates(a) == framed_candidates(b),
    ensures
        a == b,
    decreases a.len(),
{
    lemma_auto_spec_u64_to_from_le_bytes();
    if a.len() == 0 {
        if b.len() > 0 {
            lemma_front_is_written(b);
        }
        assert(a =~= b);
    } else {
        lemma_front_is_written(a);
        assert(framed_candidates(Seq::<Candidate>::empty()).len() == 0);
        if b.len() == 0 {
            assert(b =~= Seq::<Candidate>::empty());
        }
        let ra = framed_candidates(a.skip(1));
        let rb = framed_candidates(b.skip(1));
        let ia = encode_utf8(a[0].0);
        let ib = encode_utf8(b[0].0);
        assert(framed_candidates(a) =~= framed(ia) + (framed(a[0].1) + ra));
        assert(framed_candidates(b) =~= framed(ib) + (framed(b[0].1) + rb));
        assert(writable(a[0]) && writable(b[0]));
        lemma_framed_front(ia, framed(a[0].1) + ra, ib, framed(b[0].1) + rb);
        lemma_framed_front(a[0].1, ra, b[0].1, rb);
        vstd::utf8::encode_utf8_decode_utf8(a[0].0);
        vstd::utf8::encode_utf8_decode_utf8(b[0].0);
        assert forall|i: int| 0 <= i < a.skip(1).len() implies writable(#[trigger] a.skip(1)[i]) by {
            assert(writable(a[i + 1]));
        }
        assert forall|i: int| 0 <= i < b.skip(1).len() implies writable(#[trigger] b.skip(1)[i]) by {
            assert(writable(b[i + 1]));
        }
        lemma_framed_candidates(a.skip(1), b.skip(1));
        assert(a =~= seq![a[0]] + a.skip(1));
        assert(b =~= seq![b[0]] + b.skip(1));
    }
}

/// Two sets of candidates are written alike only if they are the same: no conflicting
/// set can borrow the preimage of another's acceptance.
pub proof fn acceptance_preimage_is_unambiguous(a: Seq<Candidate>, b: Seq<Candidate>)
    requires
        forall|i: int| 0 <= i < a.len() ==> writable(#[trigger] a[i]),
        forall|i: int| 0 <= i < b.len() ==> writable(#[trigger] b[i]),
        acceptance_preimage(a) == acceptance_preimage(b),
    ensures
        a == b,
{
    let tag = encode_utf8("vault-policy/accepted-request/v0"@);
    assert(acceptance_preimage(a).skip(tag.len() as int) =~= framed_candidates(a));
    assert(acceptance_preimage(b).skip(tag.len() as int) =~= framed_candidates(b));
    lemma_framed_candidates(a, b);
}

/// A commitment is to one wallet, one version of its policy, one transaction and one
/// expiry, and to the fee: what the declared coins hold beyond the outputs.
pub proof fn what_a_commitment_covers(
    wallet_id: [u8; 32],
    policy_version: u32,
    psbt: PsbtView,
    expiry: u64,
)
    ensures
        ({
            let c = commitment(wallet_id, policy_version, psbt, expiry);
            let spent = capped(sum(declared_amounts(psbt.inputs)));
            let paid = capped(sum(output_amounts(psbt.unsigned_tx.output)));
            &&& c.wallet_id == wallet_id
            &&& c.policy_version == policy_version
            &&& c.expiry == expiry
            &&& c.version == psbt.unsigned_tx.version
            &&& c.lock_time == psbt.unsigned_tx.lock_time
            &&& c.inputs == psbt.unsigned_tx.input
            &&& c.outputs == psbt.unsigned_tx.output
            &&& if spent >= paid {
                c.fee + paid == spent
            } else {
                c.fee == 0
            }
        }),
{
    every_declared_coin_counts(psbt.inputs);
    every_output_counts(psbt.unsigned_tx.output);
}

/// Two lists of candidates share a key only where the digests of what they are written as
/// collide, and no key can be taken for the name of a commitment, which is hexadecimal.
pub proof fn a_key_is_a_digest_of_its_list(a: Seq<Candidate>, b: Seq<Candidate>)
    ensures
        acceptance_key(a) == acceptance_key(b) <==> sha256_digest(acceptance_preimage(a))
            == sha256_digest(acceptance_preimage(b)),
        !is_hex(acceptance_key(a)),
{
    reveal_strlit("accepted:");
    let x = sha256_digest(acceptance_preimage(a));
    let y = sha256_digest(acceptance_preimage(b));
    hex_reads_back(x@);
    hex_reads_back(y@);
    assert(acceptance_key(a).skip(9) =~= lower_hex(x@));
    assert(acceptance_key(b).skip(9) =~= lower_hex(y@));
    if acceptance_key(a) == acceptance_key(b) {
        assert(x@ == y@);
        assert(x =~= y);
    }
    assert(acceptance_key(a)[8] == ':');
    assert(hex_digit(acceptance_key(a)[8]) is None);
}

} // verus!
