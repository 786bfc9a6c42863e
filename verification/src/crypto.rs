//! Hashing and signatures with the `bitcoin` crate.

use bitcoin::absolute::LockTime;
use bitcoin::hashes::{sha256, Hash as HashBytes};
use bitcoin::hex::FromHex;
use bitcoin::secp256k1::ecdsa::Signature;
use bitcoin::secp256k1::{Message, PublicKey, Secp256k1, SecretKey};
use bitcoin::sighash::{EcdsaSighashType, SighashCache};
use bitcoin::transaction::Version;
use bitcoin::{
    Amount, OutPoint as Coin, Script, Sequence, Transaction as Whole, TxIn as Input,
    TxOut as Output, Txid,
};
use vstd::prelude::*;

use crate::tx::{Transaction, TransactionView};

verus! {

/// The SHA-256 digest of a byte string.
pub uninterp spec fn sha256_digest(bytes: Seq<u8>) -> [u8; 32];

/// The digest that a signature of the type `sighash_type` over input `index` of `tx`
/// commits to, where the input spends `value` from behind `script`; or the complaint
/// where there is no such input.
pub uninterp spec fn p2wsh_sighash(
    tx: TransactionView,
    index: nat,
    script: Seq<u8>,
    value: u64,
    sighash_type: u32,
) -> Result<[u8; 32], Seq<char>>;

/// The public key of the secret key `seckey` as a compressed point, or the complaint
/// where `seckey` is no key.
pub uninterp spec fn own_public_key(seckey: Seq<u8>) -> Result<Seq<u8>, Seq<char>>;

/// The canonical encoding of the signature that `der` encodes, if it encodes one.
pub uninterp spec fn der_signature(der: Seq<u8>) -> Option<Seq<u8>>;

/// Whether `der` encodes a signature over `digest` by the key `pubkey`.
pub uninterp spec fn ecdsa_verifies(digest: [u8; 32], der: Seq<u8>, pubkey: Seq<u8>) -> bool;

/// The signature over `digest` by `seckey`, or the complaint where `seckey` is no
/// key.
pub uninterp spec fn ecdsa_signature(digest: [u8; 32], seckey: Seq<u8>) -> Result<
    Seq<u8>,
    Seq<char>,
>;

/// The value of a hexadecimal digit, in either case.
pub open spec fn hex_digit(c: char) -> Option<int> {
    if '0' <= c && c <= '9' {
        Some(c as int - '0' as int)
    } else if 'a' <= c && c <= 'f' {
        Some(c as int - 'a' as int + 10)
    } else if 'A' <= c && c <= 'F' {
        Some(c as int - 'A' as int + 10)
    } else {
        None
    }
}

/// Whether `text` is pairs of hexadecimal digits.
pub open spec fn is_hex(text: Seq<char>) -> bool {
    text.len() % 2 == 0 && forall|i: int|
        0 <= i < text.len() ==> hex_digit(#[trigger] text[i]) is Some
}

/// The bytes that `text` writes in hexadecimal.
pub open spec fn hex_bytes(text: Seq<char>) -> Seq<u8> {
    Seq::new(
        text.len() / 2,
        |i: int| (16 * hex_digit(text[2 * i])->0 + hex_digit(text[2 * i + 1])->0) as u8,
    )
}

/// `bitcoin::hashes::sha256::Hash::hash`. Claims that the digest depends on the
/// bytes alone; it is given the name [`sha256_digest`].
#[verifier::external_body]
pub(crate) fn sha256(bytes: &[u8]) -> (digest: [u8; 32])
    ensures
        digest == sha256_digest(bytes@),
{
    sha256::Hash::hash(bytes).to_byte_array()
}

/// `Vec::<u8>::from_hex` of `bitcoin::hex`. Claims that it succeeds exactly on
/// pairs of hexadecimal digits, upper or lower case, and then gives the bytes they
/// write.
#[verifier::external_body]
pub(crate) fn from_hex(text: &str) -> (bytes: Option<Vec<u8>>)
    ensures
        bytes is Some <==> is_hex(text@),
        bytes matches Some(b) ==> b@ == hex_bytes(text@),
{
    Vec::<u8>::from_hex(text).ok()
}

/// `bitcoin::sighash::SighashCache::p2wsh_signature_hash`, the type of the signature by
/// its number, as consensus reads it. Claims that the digest, or the complaint, depends on the arguments alone;
/// it is given the name [`p2wsh_sighash`].
#[verifier::external_body]
pub(crate) fn sighash(
    tx: &Transaction,
    index: usize,
    script: &[u8],
    value: u64,
    sighash_type: u32,
) -> (out: Result<[u8; 32], String>)
    ensures
        match out {
            Ok(digest) => p2wsh_sighash(tx@, index as nat, script@, value, sighash_type) == Result::<
                [u8; 32],
                Seq<char>,
            >::Ok(digest),
            Err(e) => p2wsh_sighash(tx@, index as nat, script@, value, sighash_type) == Result::<
                [u8; 32],
                Seq<char>,
            >::Err(e@),
        },
{
    let input = tx.input.iter().map(|i| Input {
        previous_output: Coin::new(Txid::from_byte_array(i.previous_output.txid), i.previous_output.vout),
        sequence: Sequence(i.sequence), ..Input::default()
    }).collect();
    let output = tx.output.iter().map(|o| Output {
        value: Amount::from_sat(o.value), script_pubkey: o.script_pubkey.clone().into()
    }).collect();
    let lock_time = LockTime::from_consensus(tx.lock_time);
    SighashCache::new(Whole { version: Version(tx.version), lock_time, input, output })
        .p2wsh_signature_hash(index, Script::from_bytes(script), Amount::from_sat(value), EcdsaSighashType::from_consensus(sighash_type))
        .map(|h| h.to_byte_array()).map_err(|e| e.to_string())
}

/// `bitcoin::secp256k1::SecretKey::public_key`, on a secret key in its serialized form,
/// the public key given as a compressed point. Claims that success, the key and the
/// complaint depend on the bytes alone; they are given the name [`own_public_key`].
#[verifier::external_body]
pub(crate) fn public_key_of(seckey: &[u8]) -> (out: Result<Vec<u8>, String>)
    ensures
        match out {
            Ok(pubkey) => own_public_key(seckey@) == Result::<Seq<u8>, Seq<char>>::Ok(pubkey@),
            Err(e) => own_public_key(seckey@) == Result::<Seq<u8>, Seq<char>>::Err(e@),
        },
{
    let key = SecretKey::from_slice(seckey).map_err(|e| e.to_string())?;
    Ok(key.public_key(&Secp256k1::signing_only()).serialize().to_vec())
}

/// `bitcoin::secp256k1::ecdsa::Signature::from_der`, the signature given back in
/// its canonical encoding. Claims that success and encoding depend on the bytes
/// alone; they are given the name [`der_signature`].
#[verifier::external_body]
pub(crate) fn parse_der(der: &[u8]) -> (canonical: Option<Vec<u8>>)
    ensures
        match canonical {
            Some(bytes) => der_signature(der@) == Some(bytes@),
            None => der_signature(der@) is None,
        },
{
    Signature::from_der(der).ok().map(|s| s.serialize_der().to_vec())
}

/// `bitcoin::secp256k1::Secp256k1::verify_ecdsa`, on a signature and a key in
/// their serialized forms; what is no signature or no key does not verify. Claims
/// that the answer depends on the arguments alone; it is given the name
/// [`ecdsa_verifies`].
#[verifier::external_body]
pub(crate) fn verify_ecdsa(digest: &[u8; 32], der: &[u8], pubkey: &[u8]) -> (valid: bool)
    ensures
        valid == ecdsa_verifies(*digest, der@, pubkey@),
{
    match (Signature::from_der(der), PublicKey::from_slice(pubkey)) {
        (Ok(s), Ok(k)) => Secp256k1::verification_only().verify_ecdsa(&Message::from_digest(*digest), &s, &k).is_ok(),
        (Err(_), _) | (_, Err(_)) => false,
    }
}

/// `bitcoin::secp256k1::Secp256k1::sign_ecdsa`, the signature in DER form. Its
/// nonce is derived from the message and the key, so the claim is that the
/// signature depends on the arguments alone; it is given the name
/// [`ecdsa_signature`].
#[verifier::external_body]
pub(crate) fn sign_ecdsa(digest: &[u8; 32], seckey: &[u8]) -> (out: Result<Vec<u8>, String>)
    ensures
        match out {
            Ok(der) => ecdsa_signature(*digest, seckey@) == Result::<Seq<u8>, Seq<char>>::Ok(der@),
            Err(e) => ecdsa_signature(*digest, seckey@) == Result::<Seq<u8>, Seq<char>>::Err(e@),
        },
{
    let key = SecretKey::from_slice(seckey).map_err(|e| e.to_string())?;
    Ok(Secp256k1::signing_only().sign_ecdsa(&Message::from_digest(*digest), &key).serialize_der().to_vec())
}

} // verus!
