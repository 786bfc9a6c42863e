//! What travels between a coordinator and a node: signing requests and the
//! answers to them.

use vstd::prelude::*;

use crate::text::owned;

verus! {

/// Why a node refused a request.
#[derive(Clone, Copy, Debug, PartialEq, Eq, Structural)]
pub enum RefusalCode {
    UnknownInput,
    DestNotAllowed,
    ChangeNotDerivable,
    FeeExceedsCap,
    PsbtInconsistent,
    HotBudgetExceeded,
    HotVelocityExceeded,
    FraudSuspected,
    BadPin,
    BadSighash,
    UserSigInvalid,
    CommitmentExpired,
    ExpiryTooShort,
    NonceReplayed,
    CoordNonceCapacity,
    CoordAuthInvalid,
    CandidateCapacity,
    RefreshSubordinated,
    RefreshTooSoon,
    RefreshFeeExceedsCap,
}

/// A refusal: its code, the check that made it, and a sentence for the operator.
#[derive(Debug, PartialEq, Eq)]
pub struct Refusal {
    pub code: RefusalCode,
    pub check: String,
    pub detail: String,
}

/// An acceptance: the commitment it is bound to, when the node first saw it, and
/// how long the node will hold it.
#[derive(Debug, PartialEq, Eq)]
pub struct Accepted {
    pub commitment_id: String,
    pub first_seen: u64,
    pub remaining_secs: u64,
}

/// A node's verdict on a request.
#[derive(Debug, PartialEq, Eq)]
pub enum SignResponse {
    Accepted(Accepted),
    Refusal(Refusal),
}

/// Input that could not be decoded at all.
#[derive(Debug)]
pub struct BadRequest(pub String);

/// A request to sign a spend, with its mandatory escape and the escape's fee
/// bumps, all as text.
#[derive(Debug)]
pub struct SignRequest {
    pub psbt: String,
    pub escape_psbt: String,
    pub escape_bumps: Vec<String>,
    pub pin: String,
    pub nonce: String,
    pub expiry: u64,
    pub policy_version: u32,
    pub coord_sig: String,
}

/// A request to sign a refresh: a spend of the vault back to itself.
#[derive(Debug)]
pub struct RefreshRequest {
    pub refresh_psbt: String,
    pub nonce: String,
    pub expiry: u64,
    pub policy_version: u32,
    pub coord_sig: String,
}

/// Either request, as it is handed on to peers.
#[derive(Debug)]
pub enum TaggedRequest {
    Spend(SignRequest),
    Refresh(RefreshRequest),
}

/// The contents of a [`Refusal`].
pub struct RefusalView {
    pub code: RefusalCode,
    pub check: Seq<char>,
    pub detail: Seq<char>,
}

/// The contents of an [`Accepted`].
pub struct AcceptedView {
    pub commitment_id: Seq<char>,
    pub first_seen: u64,
    pub remaining_secs: u64,
}

/// The contents of a [`SignResponse`].
pub enum SignResponseView {
    Accepted(AcceptedView),
    Refusal(RefusalView),
}

/// The contents of a [`SignRequest`].
pub struct SignRequestView {
    pub psbt: Seq<char>,
    pub escape_psbt: Seq<char>,
    pub escape_bumps: Seq<Seq<char>>,
    pub pin: Seq<char>,
    pub nonce: Seq<char>,
    pub expiry: u64,
    pub policy_version: u32,
    pub coord_sig: Seq<char>,
}

/// The contents of a [`RefreshRequest`].
pub struct RefreshRequestView {
    pub refresh_psbt: Seq<char>,
    pub nonce: Seq<char>,
    pub expiry: u64,
    pub policy_version: u32,
    pub coord_sig: Seq<char>,
}

/// The contents of a [`TaggedRequest`].
pub enum TaggedRequestView {
    Spend(SignRequestView),
    Refresh(RefreshRequestView),
}

impl View for Refusal {
    type V = RefusalView;

    open spec fn view(&self) -> RefusalView {
        RefusalView { code: self.code, check: self.check@, detail: self.detail@ }
    }
}

impl View for Accepted {
    type V = AcceptedView;

    open spec fn view(&self) -> AcceptedView {
        AcceptedView {
            commitment_id: self.commitment_id@,
            first_seen: self.first_seen,
            remaining_secs: self.remaining_secs,
        }
    }
}

impl View for SignResponse {
    type V = SignResponseView;

    open spec fn view(&self) -> SignResponseView {
        match self {
            SignResponse::Accepted(a) => SignResponseView::Accepted(a@),
            SignResponse::Refusal(r) => SignResponseView::Refusal(r@),
        }
    }
}

impl View for SignRequest {
    type V = SignRequestView;

    open spec fn view(&self) -> SignRequestView {
        SignRequestView {
            psbt: self.psbt@,
            escape_psbt: self.escape_psbt@,
            escape_bumps: self.escape_bumps@.map_values(|s: String| s@),
            pin: self.pin@,
            nonce: self.nonce@,
            expiry: self.expiry,
            policy_version: self.policy_version,
            coord_sig: self.coord_sig@,
        }
    }
}

impl View for RefreshRequest {
    type V = RefreshRequestView;

    open spec fn view(&self) -> RefreshRequestView {
        RefreshRequestView {
            refresh_psbt: self.refresh_psbt@,
            nonce: self.nonce@,
            expiry: self.expiry,
            policy_version: self.policy_version,
            coord_sig: self.coord_sig@,
        }
    }
}

impl View for TaggedRequest {
    type V = TaggedRequestView;

    open spec fn view(&self) -> TaggedRequestView {
        match self {
            TaggedRequest::Spend(r) => TaggedRequestView::Spend(r@),
            TaggedRequest::Refresh(r) => TaggedRequestView::Refresh(r@),
        }
    }
}

impl SignResponse {
    /// A copy of the verdict.
    pub fn copy(&self) -> (copy: SignResponse)
        ensures
            copy@ == self@,
    {
        match self {
            SignResponse::Accepted(a) => SignResponse::Accepted(
                Accepted {
                    commitment_id: a.commitment_id.clone(),
                    first_seen: a.first_seen,
                    remaining_secs: a.remaining_secs,
                },
            ),
            SignResponse::Refusal(r) => SignResponse::Refusal(
                Refusal { code: r.code, check: r.check.clone(), detail: r.detail.clone() },
            ),
        }
    }
}

fn copy_texts(texts: &Vec<String>) -> (copy: Vec<String>)
    ensures
        copy@.map_values(|s: String| s@) == texts@.map_values(|s: String| s@),
{
    let mut copy: Vec<String> = Vec::new();
    let mut i: usize = 0;
    while i < texts.len()
        invariant
            i <= texts.len(),
            copy.len() == i,
            forall|k: int| 0 <= k < i ==> copy[k]@ == texts[k]@,
        decreases texts.len() - i,
    {
        copy.push(texts[i].clone());
        i += 1;
    }
    assert(copy@.map_values(|s: String| s@) =~= texts@.map_values(|s: String| s@));
    copy
}

impl SignRequest {
    /// A copy of the request.
    pub fn copy(&self) -> (copy: SignRequest)
        ensures
            copy@ == self@,
    {
        SignRequest {
            psbt: self.psbt.clone(),
            escape_psbt: self.escape_psbt.clone(),
            escape_bumps: copy_texts(&self.escape_bumps),
            pin: self.pin.clone(),
            nonce: self.nonce.clone(),
            expiry: self.expiry,
            policy_version: self.policy_version,
            coord_sig: self.coord_sig.clone(),
        }
    }
}

impl RefreshRequest {
    /// A copy of the request.
    pub fn copy(&self) -> (copy: RefreshRequest)
        ensures
            copy@ == self@,
    {
        RefreshRequest {
            refresh_psbt: self.refresh_psbt.clone(),
            nonce: self.nonce.clone(),
            expiry: self.expiry,
            policy_version: self.policy_version,
            coord_sig: self.coord_sig.clone(),
        }
    }
}

/// The verdict that refuses with `code`, named by `check` and explained by
/// `detail`.
pub open spec fn refused(code: RefusalCode, check: Seq<char>, detail: Seq<char>) -> SignResponseView {
    SignResponseView::Refusal(RefusalView { code, check, detail })
}

/// A refusal.
pub fn refusal(code: RefusalCode, check: &str, detail: String) -> (response: SignResponse)
    ensures
        response@ == refused(code, check@, detail@),
{
    SignResponse::Refusal(Refusal { code, check: owned(check), detail })
}

} // verus!
