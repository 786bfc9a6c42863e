//! The pin of a spend: what the comparison found, and what the attempt cost.

use subtle::{Choice, ConditionallySelectable, ConstantTimeEq};
use vstd::prelude::*;
use vstd::utf8::encode_utf8;

verus! {

/// Which enrolled pin was submitted.
#[derive(Clone, Copy, Debug, PartialEq, Eq, Structural)]
pub enum PinVerdict {
    Normal,
    Duress,
    Wrong,
}

/// What an attempt does to the budget of attempts.
#[derive(Clone, Copy, Debug, PartialEq, Eq, Structural)]
pub struct PinCharge {
    pub refuse: bool,
    /// Whether the refusal is due to a lockout.
    pub locked: bool,
    pub backoff_secs: u64,
}

/// Compares with `subtle::ConstantTimeEq::ct_eq`, which yields the choice 1 where
/// the bytes are equal and 0 where they are not.
#[verifier::external_body]
fn tags_equal(a: u8, b: u8) -> (choice: u8)
    ensures
        choice == if a == b {
            1u8
        } else {
            0u8
        },
{
    a.ct_eq(&b).unwrap_u8()
}

/// Selects with `subtle::ConditionallySelectable::conditional_select`, which yields
/// the first value for the choice 0 and the second for the choice 1.
#[verifier::external_body]
fn select(a: u64, b: u64, choice: u8) -> (selected: u64)
    requires
        choice <= 1,
    ensures
        selected == if choice == 1 {
            b
        } else {
            a
        },
{
    u64::conditional_select(&a, &b, Choice::from(choice))
}

/// The verdict as a byte.
fn tag_of(verdict: PinVerdict) -> (tag: u8)
    ensures
        tag == match verdict {
            PinVerdict::Normal => 0u8,
            PinVerdict::Duress => 1u8,
            PinVerdict::Wrong => 2u8,
        },
{
    match verdict {
        PinVerdict::Normal => 0,
        PinVerdict::Duress => 1,
        PinVerdict::Wrong => 2,
    }
}

/// How much the verdict adds to the count of duress arms, and whether it is one:
/// computed without a branch on the verdict.
pub(crate) fn duress_delta(verdict: PinVerdict) -> (out: (u64, bool))
    ensures
        out.1 == (verdict == PinVerdict::Duress),
        out.0 == if verdict == PinVerdict::Duress {
            1u64
        } else {
            0u64
        },
{
    let choice = tags_equal(tag_of(verdict), tag_of(PinVerdict::Duress));
    (select(0, 1, choice), choice == 1)
}

/// What a pin counts as: an empty or an overlong one is wrong whatever the
/// comparison found.
pub open spec fn effective_verdict(compared: PinVerdict, pin: Seq<char>, max_pin_bytes: usize) ->
    PinVerdict {
    if pin.len() == 0 || encode_utf8(pin).len() > max_pin_bytes {
        PinVerdict::Wrong
    } else {
        compared
    }
}

/// What a pin counts as. The comparison has been made either way.
pub fn pin_verdict(compared: PinVerdict, pin: &String, max_pin_bytes: usize) -> (verdict: PinVerdict)
    ensures
        verdict == effective_verdict(compared, pin@, max_pin_bytes),
{
    let bytes = pin.as_str().as_bytes().len();
    proof {
        if pin@.len() > 0 {
            assert(encode_utf8(pin@).len() > 0);
        } else {
            assert(pin@ =~= Seq::<char>::empty());
        }
    }
    if bytes == 0 || bytes > max_pin_bytes {
        PinVerdict::Wrong
    } else {
        compared
    }
}

} // verus!
