//! Keys and output descriptors, read with the `bitcoin` and `miniscript` crates.

use std::str::FromStr;

use vstd::prelude::*;

verus! {

/// The point that the hexadecimal public key `text` stands for, in its compressed
/// form, or the parser's complaint.
pub uninterp spec fn public_key(text: Seq<char>) -> Result<Seq<u8>, Seq<char>>;

/// The canonical form of the vault descriptor `text`, over plain public keys, or the
/// parser's complaint.
pub uninterp spec fn vault_canonical(text: Seq<char>) -> Result<Seq<char>, Seq<char>>;

/// The script behind the vault descriptor `text`, or why there is none.
pub uninterp spec fn vault_script(text: Seq<char>) -> Result<Seq<u8>, Seq<char>>;

/// The largest weight that satisfying the vault descriptor `text` can take, or why
/// there is none.
pub uninterp spec fn vault_weight(text: Seq<char>) -> Result<u64, Seq<char>>;

/// The canonical form of the descriptor `text`, over keys that may be derived, or the
/// parser's complaint.
pub uninterp spec fn descriptor_canonical(text: Seq<char>) -> Result<Seq<char>, Seq<char>>;

/// `text` in quotes and escaped, as it is shown in complaints.
pub uninterp spec fn quoted_text(text: Seq<char>) -> Seq<char>;

/// `bitcoin::PublicKey::from_str`, and of the key its point in compressed form. Claims
/// that success, the point and the complaint depend on the text alone; they are given
/// the name [`public_key`].
#[verifier::external_body]
pub(crate) fn parse_public_key(text: &str) -> (out: Result<Vec<u8>, String>)
    ensures
        match out {
            Ok(key) => public_key(text@) == Result::<Seq<u8>, Seq<char>>::Ok(key@),
            Err(e) => public_key(text@) == Result::<Seq<u8>, Seq<char>>::Err(e@),
        },
{
    match bitcoin::PublicKey::from_str(text) {
        Ok(key) => Ok(key.inner.serialize().to_vec()),
        Err(e) => Err(e.to_string()),
    }
}

/// `miniscript::Descriptor::<PublicKey>::from_str`, and of the descriptor its canonical
/// text. Claims that success, the text and the complaint depend on the argument alone;
/// they are given the name [`vault_canonical`].
#[verifier::external_body]
pub(crate) fn parse_vault(text: &str) -> (out: Result<String, String>)
    ensures
        match out {
            Ok(canonical) => vault_canonical(text@) == Result::<Seq<char>, Seq<char>>::Ok(
                canonical@,
            ),
            Err(e) => vault_canonical(text@) == Result::<Seq<char>, Seq<char>>::Err(e@),
        },
{
    match miniscript::Descriptor::<bitcoin::PublicKey>::from_str(text) {
        Ok(descriptor) => Ok(descriptor.to_string()),
        Err(e) => Err(e.to_string()),
    }
}

/// `miniscript::Descriptor::explicit_script` of the vault descriptor in `text`. Claims
/// that success, the script and the complaint depend on the text alone; they are given
/// the name [`vault_script`].
#[verifier::external_body]
pub(crate) fn explicit_script(text: &str) -> (out: Result<Vec<u8>, String>)
    ensures
        match out {
            Ok(script) => vault_script(text@) == Result::<Seq<u8>, Seq<char>>::Ok(script@),
            Err(e) => vault_script(text@) == Result::<Seq<u8>, Seq<char>>::Err(e@),
        },
{
    let parsed = miniscript::Descriptor::<bitcoin::PublicKey>::from_str(text);
    match parsed.and_then(|descriptor| descriptor.explicit_script()) {
        Ok(script) => Ok(script.into_bytes()),
        Err(e) => Err(e.to_string()),
    }
}

/// `miniscript::Descriptor::max_weight_to_satisfy` of the vault descriptor in `text`.
/// Claims that success, the weight and the complaint depend on the text alone; they are
/// given the name [`vault_weight`].
#[verifier::external_body]
pub(crate) fn max_weight_to_satisfy(text: &str) -> (out: Result<u64, String>)
    ensures
        match out {
            Ok(weight) => vault_weight(text@) == Result::<u64, Seq<char>>::Ok(weight),
            Err(e) => vault_weight(text@) == Result::<u64, Seq<char>>::Err(e@),
        },
{
    let parsed = miniscript::Descriptor::<bitcoin::PublicKey>::from_str(text);
    match parsed.and_then(|descriptor| descriptor.max_weight_to_satisfy()) {
        Ok(weight) => Ok(weight.to_wu()),
        Err(e) => Err(e.to_string()),
    }
}

/// `miniscript::Descriptor::<DescriptorPublicKey>::from_str`, and of the descriptor its
/// canonical text. Claims that success, the text and the complaint depend on the
/// argument alone; they are given the name [`descriptor_canonical`].
#[verifier::external_body]
pub(crate) fn parse_descriptor(text: &str) -> (out: Result<String, String>)
    ensures
        match out {
            Ok(canonical) => descriptor_canonical(text@) == Result::<Seq<char>, Seq<char>>::Ok(
                canonical@,
            ),
            Err(e) => descriptor_canonical(text@) == Result::<Seq<char>, Seq<char>>::Err(e@),
        },
{
    match miniscript::Descriptor::<miniscript::DescriptorPublicKey>::from_str(text) {
        Ok(descriptor) => Ok(descriptor.to_string()),
        Err(e) => Err(e.to_string()),
    }
}

/// The `Debug` form of a `str`. Claims that it depends on the text alone; it is given
/// the name [`quoted_text`].
#[verifier::external_body]
pub(crate) fn quoted(text: &str) -> (shown: String)
    ensures
        shown@ == quoted_text(text@),
{
    format!("{text:?}")
}

} // verus!
