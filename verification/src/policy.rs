//! What the spending policy found out about a transaction, and how the node words
//! it as a refusal.

use vstd::prelude::*;

use crate::proto::{refused, Refusal, RefusalCode, SignResponse, SignResponseView};

verus! {

/// Which rule of the policy a transaction breaks.
#[derive(Clone, Copy, Debug, PartialEq, Eq, Structural)]
pub enum ViolationCode {
    UnknownInput,
    DestNotAllowed,
    ChangeNotDerivable,
    FeeExceedsCap,
    PsbtInconsistent,
    HotBudgetExceeded,
}

/// A broken rule, the check that found it, and a sentence for the operator.
#[derive(Debug)]
pub struct Violation {
    pub code: ViolationCode,
    pub check: String,
    pub detail: String,
}

/// The contents of a [`Violation`].
pub struct ViolationView {
    pub code: ViolationCode,
    pub check: Seq<char>,
    pub detail: Seq<char>,
}

impl View for Violation {
    type V = ViolationView;

    open spec fn view(&self) -> ViolationView {
        ViolationView { code: self.code, check: self.check@, detail: self.detail@ }
    }
}

/// What a transaction does, judged by its outputs: pay a hot wallet, pay the escape
/// wallet, or pay the vault alone.
#[derive(Clone, Copy, Debug, PartialEq, Eq, Structural)]
pub enum TxClass {
    Hot,
    Escape,
    Refresh,
}

/// The class of a transaction and how much it pays to hot wallets.
#[derive(Clone, Copy, Debug, PartialEq, Eq, Structural)]
pub struct Classification {
    pub class: TxClass,
    pub hot_outflow: u64,
}

/// All that the policy says of one transaction.
#[derive(Debug)]
pub struct PolicyVerdict {
    /// Ownership, destinations, fee and the limit per transaction.
    pub evaluation: Result<(), Violation>,
    /// The class, where the outputs have one.
    pub classification: Result<Classification, Violation>,
}

/// The contents of a [`PolicyVerdict`].
pub struct PolicyVerdictView {
    pub evaluation: Result<(), ViolationView>,
    pub classification: Result<Classification, ViolationView>,
}

impl View for PolicyVerdict {
    type V = PolicyVerdictView;

    open spec fn view(&self) -> PolicyVerdictView {
        PolicyVerdictView {
            evaluation: match self.evaluation {
                Ok(()) => Ok(()),
                Err(v) => Err(v@),
            },
            classification: match self.classification {
                Ok(c) => Ok(c),
                Err(v) => Err(v@),
            },
        }
    }
}

/// The refusal code that reports a broken rule.
pub open spec fn code_of(code: ViolationCode) -> RefusalCode {
    match code {
        ViolationCode::UnknownInput => RefusalCode::UnknownInput,
        ViolationCode::DestNotAllowed => RefusalCode::DestNotAllowed,
        ViolationCode::ChangeNotDerivable => RefusalCode::ChangeNotDerivable,
        ViolationCode::FeeExceedsCap => RefusalCode::FeeExceedsCap,
        ViolationCode::PsbtInconsistent => RefusalCode::PsbtInconsistent,
        ViolationCode::HotBudgetExceeded => RefusalCode::HotBudgetExceeded,
    }
}

/// The refusal that reports `v`.
pub open spec fn violation_response(v: ViolationView) -> SignResponseView {
    refused(code_of(v.code), v.check, v.detail)
}

/// The name of a class.
pub open spec fn class_name(class: TxClass) -> Seq<char> {
    match class {
        TxClass::Hot => "Hot"@,
        TxClass::Escape => "Escape"@,
        TxClass::Refresh => "Refresh"@,
    }
}

/// The refusal code that reports a broken rule.
pub fn map_policy_code(code: ViolationCode) -> (mapped: RefusalCode)
    ensures
        mapped == code_of(code),
{
    match code {
        ViolationCode::UnknownInput => RefusalCode::UnknownInput,
        ViolationCode::DestNotAllowed => RefusalCode::DestNotAllowed,
        ViolationCode::ChangeNotDerivable => RefusalCode::ChangeNotDerivable,
        ViolationCode::FeeExceedsCap => RefusalCode::FeeExceedsCap,
        ViolationCode::PsbtInconsistent => RefusalCode::PsbtInconsistent,
        ViolationCode::HotBudgetExceeded => RefusalCode::HotBudgetExceeded,
    }
}

/// The refusal that reports `v`.
pub fn violation_refusal(v: &Violation) -> (response: SignResponse)
    ensures
        response@ == violation_response(v@),
{
    SignResponse::Refusal(
        Refusal {
            code: map_policy_code(v.code),
            check: v.check.clone(),
            detail: v.detail.clone(),
        },
    )
}

/// The name of a class.
pub fn name_of_class(class: TxClass) -> (name: &'static str)
    ensures
        name@ == class_name(class),
{
    match class {
        TxClass::Hot => "Hot",
        TxClass::Escape => "Escape",
        TxClass::Refresh => "Refresh",
    }
}

} // verus!
