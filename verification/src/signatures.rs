//! The user's signatures, which the node checks, and its own, which it adds.

use vstd::prelude::*;

use crate::crypto::{
    ecdsa_signature, ecdsa_verifies, p2wsh_sighash, sighash, sign_ecdsa, verify_ecdsa,
};
use crate::node::{NodeKeys, NodeKeysView};
use crate::proto::{refusal, refused, RefusalCode, SignResponse, SignResponseView};
use crate::text::{copy_bytes, decimal, owned, push_decimal, same_bytes};
use crate::tx::{PartialSig, PartialSigView, Psbt, PsbtInputView, PsbtView, TransactionView};

verus! {

/// The number of SIGHASH_ALL.
pub const SIGHASH_ALL: u32 = 1;

/// The name of a sighash type by its number.
pub open spec fn sighash_name(sighash_type: u32) -> Seq<char> {
    if sighash_type == 1 {
        "All"@
    } else if sighash_type == 2 {
        "None"@
    } else if sighash_type == 3 {
        "Single"@
    } else if sighash_type == 0x81 {
        "AllPlusAnyoneCanPay"@
    } else if sighash_type == 0x82 {
        "NonePlusAnyoneCanPay"@
    } else {
        "SinglePlusAnyoneCanPay"@
    }
}

/// Where the signature filed under `pubkey` stands; the length of the list where
/// there is none.
pub open spec fn sig_position(sigs: Seq<PartialSigView>, pubkey: Seq<u8>) -> nat
    decreases sigs.len(),
{
    if sigs.len() == 0 || sigs[0].pubkey == pubkey {
        0
    } else {
        1 + sig_position(sigs.skip(1), pubkey)
    }
}

/// The signatures after `sig` has been filed, in the place of one by the same key
/// if there is one.
pub open spec fn with_sig(sigs: Seq<PartialSigView>, sig: PartialSigView) -> Seq<PartialSigView> {
    let at = sig_position(sigs, sig.pubkey);
    if at < sigs.len() {
        sigs.update(at as int, sig)
    } else {
        sigs.push(sig)
    }
}

/// A refusal over the user's signature.
pub open spec fn user_signature(code: RefusalCode, detail: Seq<char>) -> SignResponseView {
    refused(code, "user_signature"@, detail)
}

/// Why the user's signature on input `index` is refused, if it is.
pub open spec fn input_refusal(
    keys: NodeKeysView,
    psbt: PsbtView,
    index: int,
) -> Option<SignResponseView> {
    let input = psbt.inputs[index];
    let number = decimal(index as nat);
    match input.witness_utxo {
        None => Some(
            user_signature(
                RefusalCode::PsbtInconsistent,
                "input "@ + number + " has no witness_utxo; sighash cannot be computed"@,
            ),
        ),
        Some(utxo) => match p2wsh_sighash(
            psbt.unsigned_tx,
            index as nat,
            keys.witness_script,
            utxo.value,
            SIGHASH_ALL,
        ) {
            Err(e) => Some(
                user_signature(
                    RefusalCode::PsbtInconsistent,
                    "cannot compute sighash for input "@ + number + ": "@ + e,
                ),
            ),
            Ok(digest) => {
                let at = sig_position(input.partial_sigs, keys.user_pubkey);
                if at >= input.partial_sigs.len() {
                    Some(
                        user_signature(
                            RefusalCode::UserSigInvalid,
                            "input "@ + number + " carries no partial signature for the user key"@,
                        ),
                    )
                } else {
                    let sig = input.partial_sigs[at as int];
                    if sig.sighash_type != SIGHASH_ALL {
                        Some(
                            user_signature(
                                RefusalCode::BadSighash,
                                "input "@ + number + " user signature commits to "@ + sighash_name(
                                    sig.sighash_type,
                                ) + ", not SIGHASH_ALL"@,
                            ),
                        )
                    } else if !ecdsa_verifies(digest, sig.signature, keys.user_pubkey) {
                        Some(
                            user_signature(
                                RefusalCode::UserSigInvalid,
                                "input "@ + number
                                    + " user signature does not verify against the recomputed sighash"@,
                            ),
                        )
                    } else {
                        None
                    }
                }
            },
        },
    }
}

/// The first refusal over the inputs from `index` on.
pub open spec fn signatures_refusal(
    keys: NodeKeysView,
    psbt: PsbtView,
    index: int,
) -> Option<SignResponseView>
    decreases psbt.inputs.len() - index,
{
    if index >= psbt.inputs.len() {
        None
    } else {
        match input_refusal(keys, psbt, index) {
            Some(r) => Some(r),
            None => signatures_refusal(keys, psbt, index + 1),
        }
    }
}

/// What becomes of input `index` when the node signs it.
pub open spec fn signed_input(
    keys: NodeKeysView,
    tx: TransactionView,
    input: PsbtInputView,
    index: int,
) -> Result<PsbtInputView, Seq<char>> {
    match input.witness_utxo {
        None => Err("input "@ + decimal(index as nat) + " has no witness_utxo"@),
        Some(utxo) => match p2wsh_sighash(
            tx,
            index as nat,
            keys.witness_script,
            utxo.value,
            SIGHASH_ALL,
        ) {
            Err(e) => Err("sighash for input "@ + decimal(index as nat) + ": "@ + e),
            Ok(digest) => match ecdsa_signature(digest, keys.seckey) {
                Err(e) => Err("signing input "@ + decimal(index as nat) + ": "@ + e),
                Ok(signature) => Ok(
                    PsbtInputView {
                        partial_sigs: with_sig(
                            input.partial_sigs,
                            PartialSigView {
                                pubkey: keys.pubkey,
                                signature,
                                sighash_type: SIGHASH_ALL,
                            },
                        ),
                        ..input
                    },
                ),
            },
        },
    }
}

/// Why the node cannot sign an input from `index` on, if it cannot.
pub open spec fn signing_failure(keys: NodeKeysView, psbt: PsbtView, index: int) -> Option<Seq<char>>
    decreases psbt.inputs.len() - index,
{
    if index >= psbt.inputs.len() {
        None
    } else {
        match signed_input(keys, psbt.unsigned_tx, psbt.inputs[index], index) {
            Err(e) => Some(e),
            Ok(_) => signing_failure(keys, psbt, index + 1),
        }
    }
}

/// `psbt` with the node's signature on every input.
pub open spec fn node_signed(keys: NodeKeysView, psbt: PsbtView) -> PsbtView {
    PsbtView {
        inputs: psbt.inputs.map(
            |i: int, input: PsbtInputView| signed_input(keys, psbt.unsigned_tx, input, i)->Ok_0,
        ),
        ..psbt
    }
}

proof fn lemma_sig_position(sigs: Seq<PartialSigView>, pubkey: Seq<u8>, n: int)
    requires
        0 <= n <= sigs.len(),
        forall|k: int| 0 <= k < n ==> (#[trigger] sigs[k]).pubkey != pubkey,
        n < sigs.len() ==> sigs[n].pubkey == pubkey,
    ensures
        sig_position(sigs, pubkey) == n,
    decreases sigs.len(),
{
    if sigs.len() > 0 && n > 0 {
        assert forall|k: int| 0 <= k < n - 1 implies (#[trigger] sigs.skip(1)[k]).pubkey
            != pubkey by {
            assert(sigs[k + 1].pubkey != pubkey);
        }
        lemma_sig_position(sigs.skip(1), pubkey, n - 1);
    }
}

fn find_sig(sigs: &Vec<PartialSig>, pubkey: &Vec<u8>) -> (at: usize)
    ensures
        at == sig_position(sigs@.map_values(|s: PartialSig| s@), pubkey@),
        at <= sigs.len(),
{
    let ghost views = sigs@.map_values(|s: PartialSig| s@);
    let mut at: usize = 0;
    while at < sigs.len()
        invariant
            at <= sigs.len(),
            views == sigs@.map_values(|s: PartialSig| s@),
            forall|k: int| 0 <= k < at ==> (#[trigger] views[k]).pubkey != pubkey@,
        decreases sigs.len() - at,
    {
        assert(views[at as int] == sigs@[at as int]@);
        if same_bytes(&sigs[at].pubkey, pubkey) {
            proof {
                lemma_sig_position(views, pubkey@, at as int);
            }
            return at;
        }
        at += 1;
    }
    proof {
        lemma_sig_position(views, pubkey@, at as int);
    }
    at
}

fn name_of_sighash(sighash_type: u32) -> (name: &'static str)
    ensures
        name@ == sighash_name(sighash_type),
{
    match sighash_type {
        1 => "All",
        2 => "None",
        3 => "Single",
        0x81 => "AllPlusAnyoneCanPay",
        0x82 => "NonePlusAnyoneCanPay",
        _ => "SinglePlusAnyoneCanPay",
    }
}

fn about_input(index: usize, rest: &str) -> (detail: String)
    ensures
        detail@ == "input "@ + decimal(index as nat) + rest@,
{
    let mut detail = owned("input ");
    push_decimal(&mut detail, index as u64);
    detail.append(rest);
    detail
}

fn check_input(keys: &NodeKeys, psbt: &Psbt, index: usize) -> (out: Result<(), SignResponse>)
    requires
        index < psbt.inputs.len(),
    ensures
        match out {
            Ok(()) => input_refusal(keys@, psbt@, index as int) is None,
            Err(r) => input_refusal(keys@, psbt@, index as int) == Some(r@),
        },
{
    let input = &psbt.inputs[index];
    assert(psbt@.inputs[index as int] == input@);
    let utxo = match &input.witness_utxo {
        Some(utxo) => utxo,
        None => return Err(
            refusal(
                RefusalCode::PsbtInconsistent,
                "user_signature",
                about_input(index, " has no witness_utxo; sighash cannot be computed"),
            ),
        ),
    };
    let digest = match sighash(
        &psbt.unsigned_tx,
        index,
        keys.witness_script.as_slice(),
        utxo.value,
        SIGHASH_ALL,
    ) {
        Ok(digest) => digest,
        Err(e) => {
            let mut detail = owned("cannot compute sighash for input ");
            push_decimal(&mut detail, index as u64);
            detail.append(": ");
            detail.append(e.as_str());
            return Err(refusal(RefusalCode::PsbtInconsistent, "user_signature", detail));
        },
    };
    let at = find_sig(&input.partial_sigs, &keys.user_pubkey);
    if at == input.partial_sigs.len() {
        return Err(
            refusal(
                RefusalCode::UserSigInvalid,
                "user_signature",
                about_input(index, " carries no partial signature for the user key"),
            ),
        );
    }
    let sig = &input.partial_sigs[at];
    assert(input@.partial_sigs[at as int] == sig@);
    if sig.sighash_type != SIGHASH_ALL {
        let mut detail = about_input(index, " user signature commits to ");
        detail.append(name_of_sighash(sig.sighash_type));
        detail.append(", not SIGHASH_ALL");
        return Err(refusal(RefusalCode::BadSighash, "user_signature", detail));
    }
    if !verify_ecdsa(&digest, sig.signature.as_slice(), keys.user_pubkey.as_slice()) {
        return Err(
            refusal(
                RefusalCode::UserSigInvalid,
                "user_signature",
                about_input(
                    index,
                    " user signature does not verify against the recomputed sighash",
                ),
            ),
        );
    }
    Ok(())
}

/// Checks the user's signature on every input against the digest that the node
/// computes itself.
pub fn verify_user_signatures(keys: &NodeKeys, psbt: &Psbt) -> (out: Result<(), SignResponse>)
    ensures
        match out {
            Ok(()) => signatures_refusal(keys@, psbt@, 0) is None,
            Err(r) => signatures_refusal(keys@, psbt@, 0) == Some(r@),
        },
{
    let mut index: usize = 0;
    while index < psbt.inputs.len()
        invariant
            index <= psbt.inputs.len(),
            signatures_refusal(keys@, psbt@, 0) == signatures_refusal(keys@, psbt@, index as int),
        decreases psbt.inputs.len() - index,
    {
        if let Err(r) = check_input(keys, psbt, index) {
            return Err(r);
        }
        index += 1;
    }
    Ok(())
}

fn sign_input(keys: &NodeKeys, psbt: &Psbt, index: usize) -> (out: Result<Vec<u8>, String>)
    requires
        index < psbt.inputs.len(),
    ensures
        match out {
            Ok(signature) => signed_input(
                keys@,
                psbt@.unsigned_tx,
                psbt@.inputs[index as int],
                index as int,
            ) == Result::<PsbtInputView, Seq<char>>::Ok(
                PsbtInputView {
                    partial_sigs: with_sig(
                        psbt@.inputs[index as int].partial_sigs,
                        PartialSigView {
                            pubkey: keys@.pubkey,
                            signature: signature@,
                            sighash_type: SIGHASH_ALL,
                        },
                    ),
                    ..psbt@.inputs[index as int]
                },
            ),
            Err(e) => signed_input(
                keys@,
                psbt@.unsigned_tx,
                psbt@.inputs[index as int],
                index as int,
            ) == Result::<PsbtInputView, Seq<char>>::Err(e@),
        },
{
    assert(psbt@.inputs[index as int] == psbt.inputs@[index as int]@);
    let utxo = match &psbt.inputs[index].witness_utxo {
        Some(utxo) => utxo,
        None => return Err(about_input(index, " has no witness_utxo")),
    };
    let digest = match sighash(
        &psbt.unsigned_tx,
        index,
        keys.witness_script.as_slice(),
        utxo.value,
        SIGHASH_ALL,
    ) {
        Ok(digest) => digest,
        Err(e) => {
            let mut detail = owned("sighash for input ");
            push_decimal(&mut detail, index as u64);
            detail.append(": ");
            detail.append(e.as_str());
            return Err(detail);
        },
    };
    match sign_ecdsa(&digest, keys.seckey.as_slice()) {
        Ok(signature) => Ok(signature),
        Err(e) => {
            let mut detail = owned("signing input ");
            push_decimal(&mut detail, index as u64);
            detail.append(": ");
            detail.append(e.as_str());
            Err(detail)
        },
    }
}

fn file_sig(sigs: &mut Vec<PartialSig>, sig: PartialSig)
    ensures
        final(sigs)@.map_values(|s: PartialSig| s@) == with_sig(
            old(sigs)@.map_values(|s: PartialSig| s@),
            sig@,
        ),
{
    let ghost before = sigs@;
    let at = find_sig(sigs, &sig.pubkey);
    if at < sigs.len() {
        sigs.set(at, sig);
    } else {
        sigs.push(sig);
    }
    assert(sigs@.map_values(|s: PartialSig| s@) =~= with_sig(
        before.map_values(|s: PartialSig| s@),
        sig@,
    ));
}

/// Signs every input of `psbt` with the node's key. Where that fails, the text says
/// at which input and why.
pub fn add_node_signatures(keys: &NodeKeys, psbt: &mut Psbt) -> (out: Result<(), String>)
    ensures
        match out {
            Ok(()) => {
                &&& signing_failure(keys@, old(psbt)@, 0) is None
                &&& final(psbt)@ == node_signed(keys@, old(psbt)@)
            },
            Err(e) => signing_failure(keys@, old(psbt)@, 0) == Some(e@),
        },
{
    let ghost before = psbt@;
    let mut index: usize = 0;
    while index < psbt.inputs.len()
        invariant
            index <= psbt.inputs.len(),
            before == old(psbt)@,
            psbt.inputs.len() == before.inputs.len(),
            psbt@.unsigned_tx == before.unsigned_tx,
            forall|i: int|
                0 <= i < before.inputs.len() ==> (#[trigger] psbt@.inputs[i]) == if i < index {
                    signed_input(keys@, before.unsigned_tx, before.inputs[i], i)->Ok_0
                } else {
                    before.inputs[i]
                },
            signing_failure(keys@, before, 0) == signing_failure(keys@, before, index as int),
        decreases psbt.inputs.len() - index,
    {
        let ghost mid = psbt@;
        assert(mid.inputs[index as int] == before.inputs[index as int]);
        match sign_input(keys, psbt, index) {
            Err(e) => {
                return Err(e);
            },
            Ok(signature) => {
                let sig = PartialSig::new(copy_bytes(&keys.pubkey), signature, SIGHASH_ALL);
                let ghost input_before = psbt.inputs@[index as int];
                file_sig(&mut psbt.inputs[index].partial_sigs, sig);
                proof {
                    let input_after = psbt.inputs@[index as int];
                    assert(input_after@ == (PsbtInputView {
                        partial_sigs: with_sig(input_before@.partial_sigs, sig@),
                        ..input_before@
                    }));
                    assert forall|i: int| 0 <= i < before.inputs.len() implies (
                    #[trigger] psbt@.inputs[i]) == if i < index + 1 {
                        signed_input(keys@, before.unsigned_tx, before.inputs[i], i)->Ok_0
                    } else {
                        before.inputs[i]
                    } by {
                        if i != index {
                            assert(psbt@.inputs[i] == mid.inputs[i]);
                        }
                    }
                }
            },
        }
        index += 1;
    }
    assert(psbt@.inputs =~= node_signed(keys@, before).inputs);
    Ok(())
}

pub(crate) proof fn lemma_sig_found(sigs: Seq<PartialSigView>, pubkey: Seq<u8>)
    ensures
        sig_position(sigs, pubkey) <= sigs.len(),
        sig_position(sigs, pubkey) < sigs.len() ==> sigs[sig_position(
            sigs,
            pubkey,
        ) as int].pubkey == pubkey,
        sig_position(sigs, pubkey) == sigs.len() ==> forall|k: int|
            0 <= k < sigs.len() ==> (#[trigger] sigs[k]).pubkey != pubkey,
    decreases sigs.len(),
{
    if sigs.len() > 0 && sigs[0].pubkey != pubkey {
        let rest = sigs.skip(1);
        lemma_sig_found(rest, pubkey);
        if sig_position(rest, pubkey) == rest.len() {
            assert forall|k: int| 0 <= k < sigs.len() implies (#[trigger] sigs[k]).pubkey
                != pubkey by {
                if k > 0 {
                    assert(rest[k - 1].pubkey != pubkey);
                }
            }
        }
    }
}

proof fn lemma_none_fails(keys: NodeKeysView, psbt: PsbtView, from: int, i: int)
    requires
        0 <= from <= i < psbt.inputs.len(),
        signing_failure(keys, psbt, from) is None,
    ensures
        signed_input(keys, psbt.unsigned_tx, psbt.inputs[i], i) is Ok,
    decreases i - from,
{
    if from < i {
        lemma_none_fails(keys, psbt, from + 1, i);
    }
}

proof fn lemma_some_fails(keys: NodeKeysView, psbt: PsbtView, from: int)
    requires
        0 <= from,
        signing_failure(keys, psbt, from) is Some,
    ensures
        exists|i: int|
            from <= i < psbt.inputs.len() && signed_input(
                keys,
                psbt.unsigned_tx,
                #[trigger] psbt.inputs[i],
                i,
            ) is Err,
    decreases psbt.inputs.len() - from,
{
    if signed_input(keys, psbt.unsigned_tx, psbt.inputs[from], from) is Ok {
        lemma_some_fails(keys, psbt, from + 1);
    }
}

/// Once the node has signed, every input of the transaction carries, under the node's
/// public key and for all of the transaction, what the node's secret key signs over the
/// digest of that very input. The signatures of others stay, none is added, and nothing
/// else changes.
pub proof fn every_input_is_signed(keys: NodeKeysView, psbt: PsbtView)
    requires
        signing_failure(keys, psbt, 0) is None,
    ensures
        ({
            let signed = node_signed(keys, psbt);
            &&& signed.unsigned_tx == psbt.unsigned_tx
            &&& signed.inputs.len() == psbt.inputs.len()
            &&& forall|i: int|
                0 <= i < psbt.inputs.len() ==> {
                    let before = psbt.inputs[i];
                    let after = #[trigger] signed.inputs[i];
                    &&& before.witness_utxo is Some
                    &&& after.witness_utxo == before.witness_utxo
                    &&& p2wsh_sighash(
                        psbt.unsigned_tx,
                        i as nat,
                        keys.witness_script,
                        before.witness_utxo->0.value,
                        1,
                    ) matches Ok(digest)
                    &&& ecdsa_signature(digest, keys.seckey) matches Ok(signature)
                    &&& after.partial_sigs.contains(
                        PartialSigView { pubkey: keys.pubkey, signature, sighash_type: 1 },
                    )
                    &&& forall|k: int|
                        0 <= k < before.partial_sigs.len() ==> (
                        #[trigger] before.partial_sigs[k]).pubkey == keys.pubkey
                            || after.partial_sigs[k] == before.partial_sigs[k]
                    &&& if exists|k: int|
                        0 <= k < before.partial_sigs.len() && (
                        #[trigger] before.partial_sigs[k]).pubkey == keys.pubkey {
                        after.partial_sigs.len() == before.partial_sigs.len()
                    } else {
                        after.partial_sigs.len() == before.partial_sigs.len() + 1
                    }
                }
        }),
{
    let signed = node_signed(keys, psbt);
    assert forall|i: int| 0 <= i < psbt.inputs.len() implies {
        let before = psbt.inputs[i];
        let after = #[trigger] signed.inputs[i];
        &&& before.witness_utxo is Some
        &&& after.witness_utxo == before.witness_utxo
        &&& p2wsh_sighash(
            psbt.unsigned_tx,
            i as nat,
            keys.witness_script,
            before.witness_utxo->0.value,
            1,
        ) matches Ok(digest)
        &&& ecdsa_signature(digest, keys.seckey) matches Ok(signature)
        &&& after.partial_sigs.contains(
            PartialSigView { pubkey: keys.pubkey, signature, sighash_type: 1 },
        )
        &&& forall|k: int|
            0 <= k < before.partial_sigs.len() ==> (#[trigger] before.partial_sigs[k]).pubkey
                == keys.pubkey || after.partial_sigs[k] == before.partial_sigs[k]
        &&& if exists|k: int|
            0 <= k < before.partial_sigs.len() && (#[trigger] before.partial_sigs[k]).pubkey
                == keys.pubkey {
            after.partial_sigs.len() == before.partial_sigs.len()
        } else {
            after.partial_sigs.len() == before.partial_sigs.len() + 1
        }
    } by {
        let before = psbt.inputs[i].partial_sigs;
        lemma_none_fails(keys, psbt, 0, i);
        lemma_sig_found(before, keys.pubkey);
        let at = sig_position(before, keys.pubkey) as int;
        let after = signed.inputs[i].partial_sigs;
        assert(after[at].pubkey == keys.pubkey);
        assert(after.contains(after[at]));
    }
}

/// The node fails to sign exactly where some input cannot be signed: it declares no
/// coin, or its digest or the signature over it cannot be made.
pub proof fn signing_fails_for_a_reason(keys: NodeKeysView, psbt: PsbtView)
    ensures
        signing_failure(keys, psbt, 0) is Some <==> exists|i: int|
            0 <= i < psbt.inputs.len() && {
                let coin = (#[trigger] psbt.inputs[i]).witness_utxo;
                ||| coin is None
                ||| p2wsh_sighash(
                    psbt.unsigned_tx,
                    i as nat,
                    keys.witness_script,
                    coin->0.value,
                    1,
                ) is Err
                ||| ecdsa_signature(
                    p2wsh_sighash(
                        psbt.unsigned_tx,
                        i as nat,
                        keys.witness_script,
                        coin->0.value,
                        1,
                    )->Ok_0,
                    keys.seckey,
                ) is Err
            },
{
    if signing_failure(keys, psbt, 0) is Some {
        lemma_some_fails(keys, psbt, 0);
        let i = choose|i: int|
            0 <= i < psbt.inputs.len() && signed_input(
                keys,
                psbt.unsigned_tx,
                #[trigger] psbt.inputs[i],
                i,
            ) is Err;
        assert(signed_input(keys, psbt.unsigned_tx, psbt.inputs[i], i) is Err);
    } else {
        assert forall|i: int| 0 <= i < psbt.inputs.len() implies signed_input(
            keys,
            psbt.unsigned_tx,
            #[trigger] psbt.inputs[i],
            i,
        ) is Ok by {
            lemma_none_fails(keys, psbt, 0, i);
        }
    }
}

} // verus!
